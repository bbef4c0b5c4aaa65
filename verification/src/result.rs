//! The result of a run: outcomes, conclusions and the evidence for them.

use vstd::prelude::*;

use crate::capability::{
    CapabilityReason, CapabilityReasonView, CapabilityValue, CapabilityValueView,
};
use crate::input::{ParsedRequest, ParsedRequestView};
use crate::lists;
use crate::model::{
    Attempt, AttemptId, AttemptView, DnsExchangeObservation, DnsExchangeObservationView,
    InitialNetworkSnapshot, InitialNetworkSnapshotView, NeighborFact, NeighborFactView,
    NeighborIdentity, NeighborIdentityView, NeighborState, OperationPathContext,
    OperationPathContextView, ResolverAddressSet, ResolverAddressSetView, ResolverEndpoint,
    ResolverEndpointView, SystemResolverObservation, SystemResolverObservationView, TargetIp,
    TargetIpView,
};
use crate::path::{InitialPathAnalysis, InitialPathAnalysisView};
use crate::sorting::{self, Keyed};

verus! {

/// What became of the primary check of a target.
#[derive(Clone, Copy, Debug, Eq, PartialEq, Structural)]
pub enum PrimaryOutcome {
    Satisfied,
    SatisfiedWithAnomaly,
    NotSatisfied,
    Indeterminate,
}

impl DeepView for PrimaryOutcome {
    type V = PrimaryOutcome;

    open spec fn deep_view(&self) -> PrimaryOutcome {
        *self
    }
}

impl PrimaryOutcome {
    pub open spec fn clean(self) -> bool {
        self == PrimaryOutcome::Satisfied
    }

    pub open spec fn eventual(self) -> bool {
        self == PrimaryOutcome::Satisfied || self == PrimaryOutcome::SatisfiedWithAnomaly
    }

    #[must_use]
    pub fn is_cleanly_satisfied(self) -> (result: bool)
        ensures
            result == self.clean(),
    {
        match self {
            PrimaryOutcome::Satisfied => true,
            _ => false,
        }
    }

    #[must_use]
    pub fn is_eventually_satisfied(self) -> (result: bool)
        ensures
            result == self.eventual(),
    {
        match self {
            PrimaryOutcome::Satisfied | PrimaryOutcome::SatisfiedWithAnomaly => true,
            _ => false,
        }
    }
}

#[derive(Clone, Copy, Debug, Eq, PartialEq, Structural)]
pub enum Conclusion {
    TcpConnectSucceeded,
    TcpConnectSucceededAfterTimeout,
    TcpConnectionRefused,
    TcpExplicitFailure,
    TcpConnectTimedOut,
    TcpTimedOutButTargetIcmpResponded,
    TcpTimedOutWithExplicitIcmpResult,
    IcmpEchoReplied,
    IcmpEchoRepliedAfterTimeout,
    IcmpExplicitFailure,
    IcmpEchoTimedOut,
    IcmpResponseIndeterminate,
    DefinitiveNoPath,
    NeighborResolutionFailed,
    NeighborResolutionIndeterminate,
    FirstHopResponded,
    MultiplePathRespondersObserved,
    PathEndpointResponded,
    PathExplicitlyTerminated,
    PathResponseIndeterminate,
    PathLimitReachedWithoutEndpointEvidence,
    HostnameResolved,
    HostnameNoFormalTargets,
    HostnameResolutionDefinitiveNegative,
    HostnameResolutionNoUsableAddress,
    HostnameResolutionIndeterminate,
    AllTargetsSatisfied,
    TargetsSatisfiedWithAnomaly,
    TargetResultsMixed,
    NoTargetCleanlySatisfied,
    CapabilityLimited,
}

impl DeepView for Conclusion {
    type V = Conclusion;

    open spec fn deep_view(&self) -> Conclusion {
        *self
    }
}

#[derive(Clone, Copy, Debug, Eq, Hash, Ord, PartialEq, PartialOrd, Structural)]
pub struct EvidenceId(pub u64);

impl DeepView for EvidenceId {
    type V = EvidenceId;

    open spec fn deep_view(&self) -> EvidenceId {
        *self
    }
}

#[derive(Debug, Eq, PartialEq)]
pub enum EvidenceSubject {
    Run,
    Hostname,
    Target(TargetIp),
    Neighbor(NeighborIdentity),
    Resolver(String),
}

/// The contents of a [`EvidenceSubject`].
#[verifier::ext_equal]
pub enum EvidenceSubjectView {
    Run,
    Hostname,
    Target(TargetIpView),
    Neighbor(NeighborIdentityView),
    Resolver(Seq<char>),
}

impl DeepView for EvidenceSubject {
    type V = EvidenceSubjectView;

    open spec fn deep_view(&self) -> EvidenceSubjectView {
        match self {
            EvidenceSubject::Run => EvidenceSubjectView::Run,
            EvidenceSubject::Hostname => EvidenceSubjectView::Hostname,
            EvidenceSubject::Target(value) => EvidenceSubjectView::Target(value.deep_view()),
            EvidenceSubject::Neighbor(value) => EvidenceSubjectView::Neighbor(value.deep_view()),
            EvidenceSubject::Resolver(value) => EvidenceSubjectView::Resolver(value.deep_view()),
        }
    }
}

impl Clone for EvidenceSubject {
    fn clone(&self) -> (copy: Self)
        ensures
            copy.deep_view() == self.deep_view(),
    {
        match self {
            EvidenceSubject::Run => EvidenceSubject::Run,
            EvidenceSubject::Hostname => EvidenceSubject::Hostname,
            EvidenceSubject::Target(value) => EvidenceSubject::Target(value.clone()),
            EvidenceSubject::Neighbor(value) => EvidenceSubject::Neighbor(value.clone()),
            EvidenceSubject::Resolver(value) => EvidenceSubject::Resolver(value.clone()),
        }
    }
}

#[derive(Clone, Copy, Debug, Eq, PartialEq, Structural)]
pub enum EvidenceRole {
    /// Directly establishes the primary outcome.
    PrimaryDecision,
    /// The first anomaly or later attempt that changes the observation.
    AnomalyHistory,
    /// Narrows a failure boundary without rewriting the primary outcome.
    BoundaryNarrowing,
    /// Explains why the failure boundary cannot be narrowed further.
    CapabilityLimitation,
    /// Retained internally but omitted from default key evidence.
    Context,
}

impl DeepView for EvidenceRole {
    type V = EvidenceRole;

    open spec fn deep_view(&self) -> EvidenceRole {
        *self
    }
}

impl EvidenceRole {
    /// The rank of a role among key evidence; context has none.
    pub open spec fn rank(self) -> Option<u8> {
        match self {
            EvidenceRole::PrimaryDecision => Some(0),
            EvidenceRole::AnomalyHistory => Some(1),
            EvidenceRole::BoundaryNarrowing => Some(2),
            EvidenceRole::CapabilityLimitation => Some(3),
            EvidenceRole::Context => None,
        }
    }

    pub fn key_priority(self) -> (result: Option<u8>)
        ensures
            result == self.rank(),
    {
        match self {
            EvidenceRole::PrimaryDecision => Some(0),
            EvidenceRole::AnomalyHistory => Some(1),
            EvidenceRole::BoundaryNarrowing => Some(2),
            EvidenceRole::CapabilityLimitation => Some(3),
            EvidenceRole::Context => None,
        }
    }
}

/// Whether the pre-operation Neighbor fact was sampled and what that sample
/// could prove. This keeps a skipped read distinct from an observed absence or
/// a capability boundary.
#[derive(Clone, Copy, Debug, Eq, PartialEq, Structural)]
pub enum NeighborObservation {
    NotSampled,
    Observed(NeighborState),
    Unknown,
    Unavailable,
}

impl DeepView for NeighborObservation {
    type V = NeighborObservation;

    open spec fn deep_view(&self) -> NeighborObservation {
        *self
    }
}

#[derive(Clone, Copy, Debug, Eq, PartialEq, Structural)]
pub enum NameResolutionEvidenceOutcome {
    Succeeded,
    SucceededWithoutUsableAddress,
    NegativeWithoutUsableAddress,
    NonDefinitiveFailure,
}

impl DeepView for NameResolutionEvidenceOutcome {
    type V = NameResolutionEvidenceOutcome;

    open spec fn deep_view(&self) -> NameResolutionEvidenceOutcome {
        *self
    }
}

#[derive(Clone, Copy, Debug, Eq, PartialEq, Structural)]
pub struct NameResolutionEvidence {
    pub outcome: NameResolutionEvidenceOutcome,
}

impl DeepView for NameResolutionEvidence {
    type V = NameResolutionEvidence;

    open spec fn deep_view(&self) -> NameResolutionEvidence {
        *self
    }
}

#[derive(Debug, Eq, PartialEq)]
pub enum DnsExchangeEvidence {
    Formal(DnsExchangeObservation),
    Diagnostic(AttemptId),
}

/// The contents of a [`DnsExchangeEvidence`].
#[verifier::ext_equal]
pub enum DnsExchangeEvidenceView {
    Formal(DnsExchangeObservationView),
    Diagnostic(AttemptId),
}

impl DeepView for DnsExchangeEvidence {
    type V = DnsExchangeEvidenceView;

    open spec fn deep_view(&self) -> DnsExchangeEvidenceView {
        match self {
            DnsExchangeEvidence::Formal(value) => DnsExchangeEvidenceView::Formal(value.deep_view()),
            DnsExchangeEvidence::Diagnostic(value) => DnsExchangeEvidenceView::Diagnostic(*value),
        }
    }
}

impl Clone for DnsExchangeEvidence {
    fn clone(&self) -> (copy: Self)
        ensures
            copy.deep_view() == self.deep_view(),
    {
        match self {
            DnsExchangeEvidence::Formal(value) => DnsExchangeEvidence::Formal(value.clone()),
            DnsExchangeEvidence::Diagnostic(value) => DnsExchangeEvidence::Diagnostic(*value),
        }
    }
}

#[derive(Debug, Eq, PartialEq)]
pub enum EvidenceFact {
    Attempt(AttemptId),
    InitialPath(String),
    CurrentPath(String),
    NeighborTransition { before: NeighborObservation, after: NeighborState },
    SystemResolverResult(String),
    DirectDnsResult(String),
    NameResolution(NameResolutionEvidence),
    DnsExchange(DnsExchangeEvidence),
    CapabilityUnavailable { capability: String, reason: CapabilityReason },
    SnapshotInconsistency(String),
    SocketPathComparison(String),
}

/// The contents of a [`EvidenceFact`].
#[verifier::ext_equal]
pub enum EvidenceFactView {
    Attempt(AttemptId),
    InitialPath(Seq<char>),
    CurrentPath(Seq<char>),
    NeighborTransition { before: NeighborObservation, after: NeighborState },
    SystemResolverResult(Seq<char>),
    DirectDnsResult(Seq<char>),
    NameResolution(NameResolutionEvidence),
    DnsExchange(DnsExchangeEvidenceView),
    CapabilityUnavailable { capability: Seq<char>, reason: CapabilityReasonView },
    SnapshotInconsistency(Seq<char>),
    SocketPathComparison(Seq<char>),
}

impl DeepView for EvidenceFact {
    type V = EvidenceFactView;

    open spec fn deep_view(&self) -> EvidenceFactView {
        match self {
            EvidenceFact::Attempt(value) => EvidenceFactView::Attempt(*value),
            EvidenceFact::InitialPath(value) => EvidenceFactView::InitialPath(value.deep_view()),
            EvidenceFact::CurrentPath(value) => EvidenceFactView::CurrentPath(value.deep_view()),
            EvidenceFact::NeighborTransition { before, after } => EvidenceFactView::NeighborTransition {
                before: *before,
                after: *after,
            },
            EvidenceFact::SystemResolverResult(value) => EvidenceFactView::SystemResolverResult(value.deep_view()),
            EvidenceFact::DirectDnsResult(value) => EvidenceFactView::DirectDnsResult(value.deep_view()),
            EvidenceFact::NameResolution(value) => EvidenceFactView::NameResolution(*value),
            EvidenceFact::DnsExchange(value) => EvidenceFactView::DnsExchange(value.deep_view()),
            EvidenceFact::CapabilityUnavailable { capability, reason } => EvidenceFactView::CapabilityUnavailable {
                capability: capability.deep_view(),
                reason: reason.deep_view(),
            },
            EvidenceFact::SnapshotInconsistency(value) => EvidenceFactView::SnapshotInconsistency(value.deep_view()),
            EvidenceFact::SocketPathComparison(value) => EvidenceFactView::SocketPathComparison(value.deep_view()),
        }
    }
}

impl Clone for EvidenceFact {
    fn clone(&self) -> (copy: Self)
        ensures
            copy.deep_view() == self.deep_view(),
    {
        match self {
            EvidenceFact::Attempt(value) => EvidenceFact::Attempt(*value),
            EvidenceFact::InitialPath(value) => EvidenceFact::InitialPath(value.clone()),
            EvidenceFact::CurrentPath(value) => EvidenceFact::CurrentPath(value.clone()),
            EvidenceFact::NeighborTransition { before, after } => EvidenceFact::NeighborTransition {
                before: *before,
                after: *after,
            },
            EvidenceFact::SystemResolverResult(value) => EvidenceFact::SystemResolverResult(value.clone()),
            EvidenceFact::DirectDnsResult(value) => EvidenceFact::DirectDnsResult(value.clone()),
            EvidenceFact::NameResolution(value) => EvidenceFact::NameResolution(*value),
            EvidenceFact::DnsExchange(value) => EvidenceFact::DnsExchange(value.clone()),
            EvidenceFact::CapabilityUnavailable { capability, reason } => EvidenceFact::CapabilityUnavailable {
                capability: capability.clone(),
                reason: reason.clone(),
            },
            EvidenceFact::SnapshotInconsistency(value) => EvidenceFact::SnapshotInconsistency(value.clone()),
            EvidenceFact::SocketPathComparison(value) => EvidenceFact::SocketPathComparison(value.clone()),
        }
    }
}

#[derive(Debug, Eq, PartialEq)]
pub struct Evidence {
    pub id: EvidenceId,
    pub subject: EvidenceSubject,
    pub role: EvidenceRole,
    pub fact: EvidenceFact,
}

/// The contents of a [`Evidence`].
#[verifier::ext_equal]
pub struct EvidenceView {
    pub id: EvidenceId,
    pub subject: EvidenceSubjectView,
    pub role: EvidenceRole,
    pub fact: EvidenceFactView,
}

impl DeepView for Evidence {
    type V = EvidenceView;

    open spec fn deep_view(&self) -> EvidenceView {
        EvidenceView {
            id: self.id,
            subject: self.subject.deep_view(),
            role: self.role,
            fact: self.fact.deep_view(),
        }
    }
}

impl Clone for Evidence {
    fn clone(&self) -> (copy: Self)
        ensures
            copy.deep_view() == self.deep_view(),
    {
        Evidence {
            id: self.id,
            subject: self.subject.clone(),
            role: self.role,
            fact: self.fact.clone(),
        }
    }
}

impl Keyed for Evidence {
    open spec fn key_of(view: EvidenceView) -> Seq<u128> {
        seq![
            match view.role.rank() {
                Some(rank) => rank as u128,
                None => 255u128,
            },
            view.id.0 as u128,
        ]
    }

    fn sort_key(&self) -> (key: Vec<u128>) {
        let mut key: Vec<u128> = Vec::new();
        match self.role.key_priority() {
            Some(rank) => key.push(rank as u128),
            None => key.push(255),
        }
        key.push(self.id.0 as u128);
        assert(key@ =~= Self::key_of(self.deep_view()));
        key
    }
}

/// Accepts evidence that is not mere context.
pub open spec fn is_key() -> spec_fn(EvidenceView) -> bool {
    |item: EvidenceView| item.role.rank() is Some
}

/// The evidence that is not mere context, by role and then by identifier.
pub open spec fn key_evidence_of(evidence: Seq<EvidenceView>) -> Seq<EvidenceView> {
    sorting::sorted::<Evidence>(evidence.filter(is_key()))
}

/// Key evidence leaves out context and nothing else, stands in the order of roles, and within a
/// role in the order of identifiers.
pub proof fn key_evidence_is_ordered_and_complete(evidence: Seq<EvidenceView>)
    ensures
        key_evidence_of(evidence).to_multiset() == evidence.to_multiset().filter(is_key()),
        forall|item: EvidenceView| #[trigger]
            key_evidence_of(evidence).contains(item) <==> evidence.contains(item) && item.role
                != EvidenceRole::Context,
        forall|i: int, j: int|
            #![trigger key_evidence_of(evidence)[i], key_evidence_of(evidence)[j]]
            0 <= i <= j < key_evidence_of(evidence).len() ==> {
                let earlier = key_evidence_of(evidence)[i];
                let later = key_evidence_of(evidence)[j];
                ||| earlier.role.rank()->Some_0 < later.role.rank()->Some_0
                ||| earlier.role == later.role && earlier.id.0 <= later.id.0
            },
{
    let kept = evidence.filter(is_key());
    let ordered = key_evidence_of(evidence);
    sorting::sorting_is_stable::<Evidence>(kept);
    lists::lemma_filter_multiset(evidence, is_key());
    lists::lemma_filter_contains(evidence, is_key());
    lists::lemma_reordered_contains(ordered, kept);
    assert forall|item: EvidenceView| #[trigger]
        ordered.contains(item) <==> evidence.contains(item) && item.role
            != EvidenceRole::Context by {
        assert(ordered.contains(item) <==> kept.contains(item));
    }
    assert forall|i: int, j: int|
        #![trigger ordered[i], ordered[j]]
        0 <= i <= j < ordered.len() implies {
        ||| ordered[i].role.rank()->Some_0 < ordered[j].role.rank()->Some_0
        ||| ordered[i].role == ordered[j].role && ordered[i].id.0 <= ordered[j].id.0
    } by {
        assert(ordered.contains(ordered[i]) && ordered.contains(ordered[j]));
        assert(kept.contains(ordered[i]) && kept.contains(ordered[j]));
        reveal_with_fuel(sorting::key_le, 3);
        assert(sorting::key_le(
            <Evidence as Keyed>::key_of(ordered[i]),
            <Evidence as Keyed>::key_of(ordered[j]),
        ));
    }
}

/// Selecting key evidence a second time changes nothing.
pub proof fn key_evidence_selection_is_idempotent(evidence: Seq<EvidenceView>)
    ensures
        key_evidence_of(key_evidence_of(evidence)) == key_evidence_of(evidence),
{
    let selected = key_evidence_of(evidence);
    key_evidence_is_ordered_and_complete(evidence);
    assert forall|i: int| 0 <= i < selected.len() implies is_key()(#[trigger] selected[i]) by {
        assert(selected.contains(selected[i]));
    }
    lists::lemma_filter_all(selected, is_key());
    sorting::sorting_is_idempotent::<Evidence>(evidence.filter(is_key()));
}

/// Applies the first deterministic evidence rule shared by all state machines.
/// Evidence IDs are allocated from formal target/dependency order, never task
/// completion order.
#[must_use]
pub fn select_key_evidence(evidence: &[Evidence]) -> (result: Vec<Evidence>)
    ensures
        result.deep_view() == key_evidence_of(evidence.deep_view()),
{
    let ghost all = evidence.deep_view();
    let mut selected: Vec<Evidence> = Vec::new();
    let mut i: usize = 0;
    proof {
        lists::lemma_filter_empty(all, is_key());
        assert(selected.deep_view() =~= all.take(0).filter(is_key()));
    }
    while i < evidence.len()
        invariant
            i <= evidence.len(),
            all == evidence.deep_view(),
            selected.deep_view() == all.take(i as int).filter(is_key()),
        decreases evidence.len() - i,
    {
        proof {
            lists::lemma_filter_step(all, i as int, is_key());
        }
        let ghost before = selected.deep_view();
        let item = &evidence[i];
        assert(all[i as int] == item.deep_view());
        if item.role.key_priority().is_some() {
            selected.push(item.clone());
            assert(selected.deep_view() =~= before.push(all[i as int]));
        }
        i += 1;
    }
    assert(all.take(i as int) =~= all);
    sorting::stable_sort(selected)
}

#[derive(Debug, Eq, PartialEq)]
pub struct TargetNetworkFacts {
    pub initial_path: InitialPathAnalysis,
    pub current_path: CapabilityValue<OperationPathContext>,
    /// `None` means the read was not sampled for this diagnostic path.
    pub neighbor_pre_state: Option<CapabilityValue<NeighborFact>>,
    /// `None` means the post-operation read was not sampled because the state
    /// machine did not require it.
    pub neighbor_post_state: Option<CapabilityValue<NeighborFact>>,
}

/// The contents of a [`TargetNetworkFacts`].
#[verifier::ext_equal]
pub struct TargetNetworkFactsView {
    pub initial_path: InitialPathAnalysisView,
    pub current_path: CapabilityValueView<OperationPathContextView>,
    pub neighbor_pre_state: Option<CapabilityValueView<NeighborFactView>>,
    pub neighbor_post_state: Option<CapabilityValueView<NeighborFactView>>,
}

impl DeepView for TargetNetworkFacts {
    type V = TargetNetworkFactsView;

    open spec fn deep_view(&self) -> TargetNetworkFactsView {
        TargetNetworkFactsView {
            initial_path: self.initial_path.deep_view(),
            current_path: self.current_path.deep_view(),
            neighbor_pre_state: self.neighbor_pre_state.deep_view(),
            neighbor_post_state: self.neighbor_post_state.deep_view(),
        }
    }
}

impl Clone for TargetNetworkFacts {
    fn clone(&self) -> (copy: Self)
        ensures
            copy.deep_view() == self.deep_view(),
    {
        TargetNetworkFacts {
            initial_path: self.initial_path.clone(),
            current_path: self.current_path.clone(),
            neighbor_pre_state: self.neighbor_pre_state.clone(),
            neighbor_post_state: self.neighbor_post_state.clone(),
        }
    }
}

#[derive(Debug, Eq, PartialEq)]
pub struct TargetDiagnostic {
    pub target: TargetIp,
    pub resolver_ordinal: Option<usize>,
    pub primary_outcome: PrimaryOutcome,
    pub conclusion: Conclusion,
    /// Explanatory failure-boundary conclusions. These never rewrite the
    /// primary outcome or its history.
    pub diagnostic_conclusions: Vec<Conclusion>,
    pub network_facts: TargetNetworkFacts,
    /// Attempts stay in semantic attempt order and are never overwritten.
    pub attempts: Vec<Attempt>,
    pub evidence: Vec<Evidence>,
    pub key_evidence: Vec<Evidence>,
}

/// The contents of a [`TargetDiagnostic`].
#[verifier::ext_equal]
pub struct TargetDiagnosticView {
    pub target: TargetIpView,
    pub resolver_ordinal: Option<usize>,
    pub primary_outcome: PrimaryOutcome,
    pub conclusion: Conclusion,
    pub diagnostic_conclusions: Seq<Conclusion>,
    pub network_facts: TargetNetworkFactsView,
    pub attempts: Seq<AttemptView>,
    pub evidence: Seq<EvidenceView>,
    pub key_evidence: Seq<EvidenceView>,
}

impl DeepView for TargetDiagnostic {
    type V = TargetDiagnosticView;

    open spec fn deep_view(&self) -> TargetDiagnosticView {
        TargetDiagnosticView {
            target: self.target.deep_view(),
            resolver_ordinal: self.resolver_ordinal,
            primary_outcome: self.primary_outcome,
            conclusion: self.conclusion,
            diagnostic_conclusions: self.diagnostic_conclusions.deep_view(),
            network_facts: self.network_facts.deep_view(),
            attempts: self.attempts.deep_view(),
            evidence: self.evidence.deep_view(),
            key_evidence: self.key_evidence.deep_view(),
        }
    }
}

impl Clone for TargetDiagnostic {
    fn clone(&self) -> (copy: Self)
        ensures
            copy.deep_view() == self.deep_view(),
    {
        let copy = TargetDiagnostic {
            target: self.target.clone(),
            resolver_ordinal: self.resolver_ordinal,
            primary_outcome: self.primary_outcome,
            conclusion: self.conclusion,
            diagnostic_conclusions: self.diagnostic_conclusions.clone(),
            network_facts: self.network_facts.clone(),
            attempts: self.attempts.clone(),
            evidence: self.evidence.clone(),
            key_evidence: self.key_evidence.clone(),
        };
        assert(copy.diagnostic_conclusions.deep_view() =~= self.diagnostic_conclusions.deep_view());
        assert(copy.attempts.deep_view() =~= self.attempts.deep_view());
        assert(copy.evidence.deep_view() =~= self.evidence.deep_view());
        assert(copy.key_evidence.deep_view() =~= self.key_evidence.deep_view());
        copy
    }
}

#[derive(Debug, Eq, PartialEq)]
pub struct ResolverDependencyDiagnostic {
    pub endpoint: ResolverEndpoint,
    pub network_facts: TargetNetworkFacts,
    pub attempts: Vec<Attempt>,
    pub evidence: Vec<Evidence>,
    pub key_evidence: Vec<Evidence>,
}

/// The contents of a [`ResolverDependencyDiagnostic`].
#[verifier::ext_equal]
pub struct ResolverDependencyDiagnosticView {
    pub endpoint: ResolverEndpointView,
    pub network_facts: TargetNetworkFactsView,
    pub attempts: Seq<AttemptView>,
    pub evidence: Seq<EvidenceView>,
    pub key_evidence: Seq<EvidenceView>,
}

impl DeepView for ResolverDependencyDiagnostic {
    type V = ResolverDependencyDiagnosticView;

    open spec fn deep_view(&self) -> ResolverDependencyDiagnosticView {
        ResolverDependencyDiagnosticView {
            endpoint: self.endpoint.deep_view(),
            network_facts: self.network_facts.deep_view(),
            attempts: self.attempts.deep_view(),
            evidence: self.evidence.deep_view(),
            key_evidence: self.key_evidence.deep_view(),
        }
    }
}

impl Clone for ResolverDependencyDiagnostic {
    fn clone(&self) -> (copy: Self)
        ensures
            copy.deep_view() == self.deep_view(),
    {
        let copy = ResolverDependencyDiagnostic {
            endpoint: self.endpoint.clone(),
            network_facts: self.network_facts.clone(),
            attempts: self.attempts.clone(),
            evidence: self.evidence.clone(),
            key_evidence: self.key_evidence.clone(),
        };
        assert(copy.attempts.deep_view() =~= self.attempts.deep_view());
        assert(copy.evidence.deep_view() =~= self.evidence.deep_view());
        assert(copy.key_evidence.deep_view() =~= self.key_evidence.deep_view());
        copy
    }
}

/// The diagnosis of a resolver; its key evidence is chosen from its evidence.
pub open spec fn resolver_diagnostic(
    endpoint: ResolverEndpointView,
    network_facts: TargetNetworkFactsView,
    attempts: Seq<AttemptView>,
    evidence: Seq<EvidenceView>,
) -> ResolverDependencyDiagnosticView {
    ResolverDependencyDiagnosticView {
        endpoint,
        network_facts,
        attempts,
        evidence,
        key_evidence: key_evidence_of(evidence),
    }
}

impl ResolverDependencyDiagnostic {
    #[must_use]
    pub fn new(
        endpoint: ResolverEndpoint,
        network_facts: TargetNetworkFacts,
        attempts: Vec<Attempt>,
        evidence: Vec<Evidence>,
    ) -> (result: ResolverDependencyDiagnostic)
        ensures
            result.deep_view() == resolver_diagnostic(
                endpoint.deep_view(),
                network_facts.deep_view(),
                attempts.deep_view(),
                evidence.deep_view(),
            ),
    {
        let key_evidence = select_key_evidence(evidence.as_slice());
        ResolverDependencyDiagnostic { endpoint, network_facts, attempts, evidence, key_evidence }
    }
}

/// The diagnosis of a target without explanatory conclusions; its key evidence is chosen from its
/// evidence.
pub open spec fn target_diagnostic(
    target: TargetIpView,
    resolver_ordinal: Option<usize>,
    primary_outcome: PrimaryOutcome,
    conclusion: Conclusion,
    network_facts: TargetNetworkFactsView,
    attempts: Seq<AttemptView>,
    evidence: Seq<EvidenceView>,
) -> TargetDiagnosticView {
    TargetDiagnosticView {
        target,
        resolver_ordinal,
        primary_outcome,
        conclusion,
        diagnostic_conclusions: Seq::empty(),
        network_facts,
        attempts,
        evidence,
        key_evidence: key_evidence_of(evidence),
    }
}

impl TargetDiagnostic {
    #[must_use]
    pub fn new(
        target: TargetIp,
        resolver_ordinal: Option<usize>,
        primary_outcome: PrimaryOutcome,
        conclusion: Conclusion,
        network_facts: TargetNetworkFacts,
        attempts: Vec<Attempt>,
        evidence: Vec<Evidence>,
    ) -> (result: TargetDiagnostic)
        ensures
            result.deep_view() == target_diagnostic(
                target.deep_view(),
                resolver_ordinal,
                primary_outcome,
                conclusion,
                network_facts.deep_view(),
                attempts.deep_view(),
                evidence.deep_view(),
            ),
    {
        let key_evidence = select_key_evidence(evidence.as_slice());
        let diagnostic_conclusions: Vec<Conclusion> = Vec::new();
        assert(diagnostic_conclusions.deep_view() =~= Seq::<Conclusion>::empty());
        TargetDiagnostic {
            target,
            resolver_ordinal,
            primary_outcome,
            conclusion,
            diagnostic_conclusions,
            network_facts,
            attempts,
            evidence,
            key_evidence,
        }
    }

    #[must_use]
    pub fn with_diagnostic_conclusions(self, conclusions: Vec<Conclusion>) -> (result:
        TargetDiagnostic)
        ensures
            result.deep_view() == (TargetDiagnosticView {
                diagnostic_conclusions: conclusions.deep_view(),
                ..self.deep_view()
            }),
    {
        TargetDiagnostic {
            target: self.target,
            resolver_ordinal: self.resolver_ordinal,
            primary_outcome: self.primary_outcome,
            conclusion: self.conclusion,
            diagnostic_conclusions: conclusions,
            network_facts: self.network_facts,
            attempts: self.attempts,
            evidence: self.evidence,
            key_evidence: self.key_evidence,
        }
    }
}

impl Keyed for TargetDiagnostic {
    open spec fn key_of(view: TargetDiagnosticView) -> Seq<u128> {
        seq![
            match view.resolver_ordinal {
                Some(ordinal) => ordinal as u128,
                None => 0u128,
            },
        ]
    }

    fn sort_key(&self) -> (key: Vec<u128>) {
        let mut key: Vec<u128> = Vec::new();
        match self.resolver_ordinal {
            Some(ordinal) => key.push(ordinal as u128),
            None => key.push(0),
        }
        assert(key@ =~= Self::key_of(self.deep_view()));
        key
    }
}

#[derive(Debug, Eq, PartialEq)]
pub enum HostnameResolutionOutcome {
    NotRequested,
    Succeeded(ResolverAddressSet),
    SucceededWithoutUsableAddress,
    DefinitiveNegative { platform_code: Option<i32> },
    NegativeWithoutUsableAddress { platform_code: Option<i32> },
    NonDefinitiveFailure { platform_code: Option<i32>, direct_dns_was_diagnostic_only: bool },
}

/// The contents of a [`HostnameResolutionOutcome`].
#[verifier::ext_equal]
pub enum HostnameResolutionOutcomeView {
    NotRequested,
    Succeeded(ResolverAddressSetView),
    SucceededWithoutUsableAddress,
    DefinitiveNegative { platform_code: Option<i32> },
    NegativeWithoutUsableAddress { platform_code: Option<i32> },
    NonDefinitiveFailure { platform_code: Option<i32>, direct_dns_was_diagnostic_only: bool },
}

impl DeepView for HostnameResolutionOutcome {
    type V = HostnameResolutionOutcomeView;

    open spec fn deep_view(&self) -> HostnameResolutionOutcomeView {
        match self {
            HostnameResolutionOutcome::NotRequested => HostnameResolutionOutcomeView::NotRequested,
            HostnameResolutionOutcome::Succeeded(value) => HostnameResolutionOutcomeView::Succeeded(value.deep_view()),
            HostnameResolutionOutcome::SucceededWithoutUsableAddress => HostnameResolutionOutcomeView::SucceededWithoutUsableAddress,
            HostnameResolutionOutcome::DefinitiveNegative { platform_code } => HostnameResolutionOutcomeView::DefinitiveNegative {
                platform_code: *platform_code,
            },
            HostnameResolutionOutcome::NegativeWithoutUsableAddress { platform_code } => HostnameResolutionOutcomeView::NegativeWithoutUsableAddress {
                platform_code: *platform_code,
            },
            HostnameResolutionOutcome::NonDefinitiveFailure { platform_code, direct_dns_was_diagnostic_only } => HostnameResolutionOutcomeView::NonDefinitiveFailure {
                platform_code: *platform_code,
                direct_dns_was_diagnostic_only: *direct_dns_was_diagnostic_only,
            },
        }
    }
}

impl Clone for HostnameResolutionOutcome {
    fn clone(&self) -> (copy: Self)
        ensures
            copy.deep_view() == self.deep_view(),
    {
        match self {
            HostnameResolutionOutcome::NotRequested => HostnameResolutionOutcome::NotRequested,
            HostnameResolutionOutcome::Succeeded(value) => HostnameResolutionOutcome::Succeeded(value.clone()),
            HostnameResolutionOutcome::SucceededWithoutUsableAddress => HostnameResolutionOutcome::SucceededWithoutUsableAddress,
            HostnameResolutionOutcome::DefinitiveNegative { platform_code } => HostnameResolutionOutcome::DefinitiveNegative {
                platform_code: *platform_code,
            },
            HostnameResolutionOutcome::NegativeWithoutUsableAddress { platform_code } => HostnameResolutionOutcome::NegativeWithoutUsableAddress {
                platform_code: *platform_code,
            },
            HostnameResolutionOutcome::NonDefinitiveFailure { platform_code, direct_dns_was_diagnostic_only } => HostnameResolutionOutcome::NonDefinitiveFailure {
                platform_code: *platform_code,
                direct_dns_was_diagnostic_only: *direct_dns_was_diagnostic_only,
            },
        }
    }
}

impl HostnameResolutionOutcomeView {
    /// Whether resolution, where it was needed, left something to check.
    pub open spec fn formed(self) -> bool {
        match self {
            HostnameResolutionOutcomeView::NotRequested => true,
            HostnameResolutionOutcomeView::Succeeded(addresses) => addresses.formal_targets.len()
                > 0,
            _ => false,
        }
    }
}

impl HostnameResolutionOutcome {
    #[must_use]
    pub fn formed_targets(&self) -> (result: bool)
        ensures
            result == self.deep_view().formed(),
    {
        match self {
            HostnameResolutionOutcome::NotRequested => true,
            HostnameResolutionOutcome::Succeeded(addresses) => addresses.formal_targets.len() > 0,
            _ => false,
        }
    }
}

#[derive(Clone, Copy, Debug, Eq, PartialEq, Structural)]
pub enum AggregateOutcome {
    AllSatisfied,
    SatisfiedWithAnomaly,
    Mixed,
    NoneCleanlySatisfied,
    NoFormalTargets,
}

impl DeepView for AggregateOutcome {
    type V = AggregateOutcome;

    open spec fn deep_view(&self) -> AggregateOutcome {
        *self
    }
}

#[derive(Debug, Eq, PartialEq)]
pub struct CompletedDiagnostic {
    pub request: ParsedRequest,
    pub initial_snapshot: InitialNetworkSnapshot,
    pub system_resolver: Option<SystemResolverObservation>,
    pub hostname_resolution: HostnameResolutionOutcome,
    pub aggregate_outcome: AggregateOutcome,
    pub conclusion: Conclusion,
    pub targets: Vec<TargetDiagnostic>,
    pub resolver_diagnostics: Vec<ResolverDependencyDiagnostic>,
    pub evidence: Vec<Evidence>,
    pub key_evidence: Vec<Evidence>,
}

/// The contents of a [`CompletedDiagnostic`].
#[verifier::ext_equal]
pub struct CompletedDiagnosticView {
    pub request: ParsedRequestView,
    pub initial_snapshot: InitialNetworkSnapshotView,
    pub system_resolver: Option<SystemResolverObservationView>,
    pub hostname_resolution: HostnameResolutionOutcomeView,
    pub aggregate_outcome: AggregateOutcome,
    pub conclusion: Conclusion,
    pub targets: Seq<TargetDiagnosticView>,
    pub resolver_diagnostics: Seq<ResolverDependencyDiagnosticView>,
    pub evidence: Seq<EvidenceView>,
    pub key_evidence: Seq<EvidenceView>,
}

impl DeepView for CompletedDiagnostic {
    type V = CompletedDiagnosticView;

    open spec fn deep_view(&self) -> CompletedDiagnosticView {
        CompletedDiagnosticView {
            request: self.request.deep_view(),
            initial_snapshot: self.initial_snapshot.deep_view(),
            system_resolver: self.system_resolver.deep_view(),
            hostname_resolution: self.hostname_resolution.deep_view(),
            aggregate_outcome: self.aggregate_outcome,
            conclusion: self.conclusion,
            targets: self.targets.deep_view(),
            resolver_diagnostics: self.resolver_diagnostics.deep_view(),
            evidence: self.evidence.deep_view(),
            key_evidence: self.key_evidence.deep_view(),
        }
    }
}

impl Clone for CompletedDiagnostic {
    fn clone(&self) -> (copy: Self)
        ensures
            copy.deep_view() == self.deep_view(),
    {
        let copy = CompletedDiagnostic {
            request: self.request.clone(),
            initial_snapshot: self.initial_snapshot.clone(),
            system_resolver: self.system_resolver.clone(),
            hostname_resolution: self.hostname_resolution.clone(),
            aggregate_outcome: self.aggregate_outcome,
            conclusion: self.conclusion,
            targets: self.targets.clone(),
            resolver_diagnostics: self.resolver_diagnostics.clone(),
            evidence: self.evidence.clone(),
            key_evidence: self.key_evidence.clone(),
        };
        assert(copy.targets.deep_view() =~= self.targets.deep_view());
        assert(copy.resolver_diagnostics.deep_view() =~= self.resolver_diagnostics.deep_view());
        assert(copy.evidence.deep_view() =~= self.evidence.deep_view());
        assert(copy.key_evidence.deep_view() =~= self.key_evidence.deep_view());
        copy
    }
}

/// The outcome of a whole run. Without targets there is no success.
pub open spec fn aggregate_of(
    hostname_resolution: HostnameResolutionOutcomeView,
    targets: Seq<TargetDiagnosticView>,
) -> AggregateOutcome {
    if !hostname_resolution.formed() || targets.len() == 0 {
        AggregateOutcome::NoFormalTargets
    } else if forall|i: int|
        0 <= i < targets.len() ==> (#[trigger] targets[i]).primary_outcome.clean() {
        AggregateOutcome::AllSatisfied
    } else if forall|i: int|
        0 <= i < targets.len() ==> (#[trigger] targets[i]).primary_outcome.eventual() {
        AggregateOutcome::SatisfiedWithAnomaly
    } else if exists|i: int|
        0 <= i < targets.len() && (#[trigger] targets[i]).primary_outcome
            != targets[0].primary_outcome {
        AggregateOutcome::Mixed
    } else {
        AggregateOutcome::NoneCleanlySatisfied
    }
}

/// The conclusion of a whole run.
pub open spec fn overall_conclusion(
    aggregate: AggregateOutcome,
    hostname_resolution: HostnameResolutionOutcomeView,
) -> Conclusion {
    match aggregate {
        AggregateOutcome::AllSatisfied => Conclusion::AllTargetsSatisfied,
        AggregateOutcome::SatisfiedWithAnomaly => Conclusion::TargetsSatisfiedWithAnomaly,
        AggregateOutcome::Mixed => Conclusion::TargetResultsMixed,
        AggregateOutcome::NoneCleanlySatisfied => Conclusion::NoTargetCleanlySatisfied,
        AggregateOutcome::NoFormalTargets => match hostname_resolution {
            HostnameResolutionOutcomeView::DefinitiveNegative { .. } => {
                Conclusion::HostnameResolutionDefinitiveNegative
            },
            HostnameResolutionOutcomeView::NegativeWithoutUsableAddress { .. } => {
                Conclusion::HostnameResolutionNoUsableAddress
            },
            HostnameResolutionOutcomeView::NonDefinitiveFailure { .. } => {
                Conclusion::HostnameResolutionIndeterminate
            },
            _ => Conclusion::HostnameNoFormalTargets,
        },
    }
}

/// Whether two targets ended in the same result.
pub open spec fn same_result(left: TargetDiagnosticView, right: TargetDiagnosticView) -> bool {
    &&& left.primary_outcome == right.primary_outcome
    &&& left.conclusion == right.conclusion
    &&& left.diagnostic_conclusions == right.diagnostic_conclusions
}

/// The key evidence of the first target of each result.
pub open spec fn representative_evidence(targets: Seq<TargetDiagnosticView>) -> Seq<EvidenceView>
    decreases targets.len(),
{
    if targets.len() == 0 {
        Seq::empty()
    } else {
        let earlier = targets.drop_last();
        let before = representative_evidence(earlier);
        if exists|i: int|
            0 <= i < earlier.len() && same_result(#[trigger] earlier[i], targets.last()) {
            before
        } else {
            before + targets.last().key_evidence
        }
    }
}

/// The evidence of every target, in order.
pub open spec fn evidence_of(targets: Seq<TargetDiagnosticView>) -> Seq<EvidenceView>
    decreases targets.len(),
{
    if targets.len() == 0 {
        Seq::empty()
    } else {
        evidence_of(targets.drop_last()) + targets.last().evidence
    }
}

/// A completed run. Targets stand in resolver order; the evidence of every target is kept, and
/// the key evidence of the run takes one target of each result.
pub open spec fn completed_run(
    request: ParsedRequestView,
    initial_snapshot: InitialNetworkSnapshotView,
    system_resolver: Option<SystemResolverObservationView>,
    hostname_resolution: HostnameResolutionOutcomeView,
    targets: Seq<TargetDiagnosticView>,
    resolver_diagnostics: Seq<ResolverDependencyDiagnosticView>,
    run_evidence: Seq<EvidenceView>,
) -> CompletedDiagnosticView {
    let ordered = sorting::sorted::<TargetDiagnostic>(targets);
    let aggregate = aggregate_of(hostname_resolution, ordered);
    CompletedDiagnosticView {
        request,
        initial_snapshot,
        system_resolver,
        hostname_resolution,
        aggregate_outcome: aggregate,
        conclusion: overall_conclusion(aggregate, hostname_resolution),
        targets: ordered,
        resolver_diagnostics,
        evidence: run_evidence + evidence_of(ordered),
        key_evidence: key_evidence_of(run_evidence + representative_evidence(ordered)),
    }
}

/// Copies evidence behind other evidence.
pub fn extend_evidence(evidence: &mut Vec<Evidence>, more: &Vec<Evidence>)
    ensures
        final(evidence).deep_view() == old(evidence).deep_view() + more.deep_view(),
{
    let ghost start = evidence.deep_view();
    let ghost all = more.deep_view();
    let mut i: usize = 0;
    assert(start + all.take(0) =~= start);
    while i < more.len()
        invariant
            i <= more.len(),
            all == more.deep_view(),
            evidence.deep_view() == start + all.take(i as int),
        decreases more.len() - i,
    {
        let ghost before = evidence.deep_view();
        evidence.push(more[i].clone());
        assert(evidence.deep_view() =~= before.push(all[i as int]));
        i += 1;
        assert(evidence.deep_view() =~= start + all.take(i as int));
    }
    assert(all.take(i as int) =~= all);
}

fn same_conclusions(left: &Vec<Conclusion>, right: &Vec<Conclusion>) -> (result: bool)
    ensures
        result == (left.deep_view() == right.deep_view()),
{
    if left.len() != right.len() {
        assert(left.deep_view().len() != right.deep_view().len());
        return false;
    }
    let mut i: usize = 0;
    while i < left.len()
        invariant
            i <= left.len(),
            left.len() == right.len(),
            forall|j: int| 0 <= j < i ==> left.deep_view()[j] == right.deep_view()[j],
        decreases left.len() - i,
    {
        assert(left.deep_view()[i as int] == left@[i as int]);
        assert(right.deep_view()[i as int] == right@[i as int]);
        if left[i] != right[i] {
            return false;
        }
        i += 1;
    }
    assert(left.deep_view() =~= right.deep_view());
    true
}

fn is_represented(targets: &Vec<TargetDiagnostic>, count: usize) -> (result: bool)
    requires
        count < targets.len(),
    ensures
        result == exists|i: int|
            0 <= i < count && same_result(
                #[trigger] targets.deep_view()[i],
                targets.deep_view()[count as int],
            ),
{
    let last = &targets[count];
    assert(targets.deep_view()[count as int] == last.deep_view());
    let mut i: usize = 0;
    while i < count
        invariant
            i <= count < targets.len(),
            targets.deep_view()[count as int] == last.deep_view(),
            forall|j: int|
                0 <= j < i ==> !same_result(
                    #[trigger] targets.deep_view()[j],
                    targets.deep_view()[count as int],
                ),
        decreases count - i,
    {
        let other = &targets[i];
        assert(targets.deep_view()[i as int] == other.deep_view());
        if other.primary_outcome == last.primary_outcome && other.conclusion == last.conclusion
            && same_conclusions(&other.diagnostic_conclusions, &last.diagnostic_conclusions) {
            return true;
        }
        i += 1;
    }
    false
}

impl CompletedDiagnostic {
    #[must_use]
    pub fn new(
        request: ParsedRequest,
        initial_snapshot: InitialNetworkSnapshot,
        system_resolver: Option<SystemResolverObservation>,
        hostname_resolution: HostnameResolutionOutcome,
        targets: Vec<TargetDiagnostic>,
        resolver_diagnostics: Vec<ResolverDependencyDiagnostic>,
        run_evidence: Vec<Evidence>,
    ) -> (result: CompletedDiagnostic)
        ensures
            result.deep_view() == completed_run(
                request.deep_view(),
                initial_snapshot.deep_view(),
                system_resolver.deep_view(),
                hostname_resolution.deep_view(),
                targets.deep_view(),
                resolver_diagnostics.deep_view(),
                run_evidence.deep_view(),
            ),
    {
        let targets = sorting::stable_sort(targets);
        let ghost ordered = targets.deep_view();
        let ghost run = run_evidence.deep_view();
        let aggregate_outcome = aggregate(&hostname_resolution, &targets);
        let conclusion = conclude(aggregate_outcome, &hostname_resolution);
        let mut candidates: Vec<Evidence> = Vec::new();
        extend_evidence(&mut candidates, &run_evidence);
        let mut evidence = run_evidence;
        assert(candidates.deep_view() =~= run + representative_evidence(ordered.take(0)));
        assert(evidence.deep_view() =~= run + evidence_of(ordered.take(0)));
        let mut i: usize = 0;
        while i < targets.len()
            invariant
                i <= targets.len(),
                ordered == targets.deep_view(),
                candidates.deep_view() == run + representative_evidence(ordered.take(i as int)),
                evidence.deep_view() == run + evidence_of(ordered.take(i as int)),
            decreases targets.len() - i,
        {
            let ghost next = ordered.take(i + 1);
            assert(next.drop_last() =~= ordered.take(i as int));
            assert(next.last() == targets@[i as int].deep_view());
            if !is_represented(&targets, i) {
                extend_evidence(&mut candidates, &targets[i].key_evidence);
                assert(!(exists|j: int|
                    0 <= j < next.drop_last().len() && same_result(
                        #[trigger] next.drop_last()[j],
                        next.last(),
                    )));
            } else {
                let ghost place = choose|j: int|
                    0 <= j < i && same_result(#[trigger] ordered[j], ordered[i as int]);
                assert(same_result(next.drop_last()[place], next.last()));
            }
            extend_evidence(&mut evidence, &targets[i].evidence);
            assert(candidates.deep_view() =~= run + representative_evidence(next));
            assert(evidence.deep_view() =~= run + evidence_of(next));
            i += 1;
        }
        assert(ordered.take(i as int) =~= ordered);
        let key_evidence = select_key_evidence(candidates.as_slice());
        CompletedDiagnostic {
            request,
            initial_snapshot,
            system_resolver,
            hostname_resolution,
            aggregate_outcome,
            conclusion,
            targets,
            resolver_diagnostics,
            evidence,
            key_evidence,
        }
    }

    #[must_use]
    pub fn exit_status(&self) -> (result: ExitStatus)
        ensures
            result == completed_status(self.aggregate_outcome),
    {
        match self.aggregate_outcome {
            AggregateOutcome::AllSatisfied => ExitStatus::Success,
            _ => ExitStatus::DiagnosticNonSuccess,
        }
    }
}

pub fn aggregate(
    hostname_resolution: &HostnameResolutionOutcome,
    targets: &Vec<TargetDiagnostic>,
) -> (result: AggregateOutcome)
    ensures
        result == aggregate_of(hostname_resolution.deep_view(), targets.deep_view()),
{
    let ghost all = targets.deep_view();
    if !hostname_resolution.formed_targets() || targets.len() == 0 {
        return AggregateOutcome::NoFormalTargets;
    }
    let first = targets[0].primary_outcome;
    let mut all_clean = true;
    let mut all_eventual = true;
    let mut some_other = false;
    let mut i: usize = 0;
    while i < targets.len()
        invariant
            i <= targets.len(),
            targets.len() > 0,
            all == targets.deep_view(),
            first == all[0].primary_outcome,
            all_clean == (forall|j: int|
                0 <= j < i ==> (#[trigger] all[j]).primary_outcome.clean()),
            all_eventual == (forall|j: int|
                0 <= j < i ==> (#[trigger] all[j]).primary_outcome.eventual()),
            some_other == (exists|j: int|
                0 <= j < i && (#[trigger] all[j]).primary_outcome != all[0].primary_outcome),
        decreases targets.len() - i,
    {
        let outcome = targets[i].primary_outcome;
        assert(all[i as int].primary_outcome == outcome);
        if !outcome.is_cleanly_satisfied() {
            all_clean = false;
        }
        if !outcome.is_eventually_satisfied() {
            all_eventual = false;
        }
        if outcome != first {
            some_other = true;
        }
        i += 1;
    }
    if all_clean {
        AggregateOutcome::AllSatisfied
    } else if all_eventual {
        AggregateOutcome::SatisfiedWithAnomaly
    } else if some_other {
        AggregateOutcome::Mixed
    } else {
        AggregateOutcome::NoneCleanlySatisfied
    }
}

fn conclude(
    aggregate: AggregateOutcome,
    hostname_resolution: &HostnameResolutionOutcome,
) -> (result: Conclusion)
    ensures
        result == overall_conclusion(aggregate, hostname_resolution.deep_view()),
{
    match aggregate {
        AggregateOutcome::AllSatisfied => Conclusion::AllTargetsSatisfied,
        AggregateOutcome::SatisfiedWithAnomaly => Conclusion::TargetsSatisfiedWithAnomaly,
        AggregateOutcome::Mixed => Conclusion::TargetResultsMixed,
        AggregateOutcome::NoneCleanlySatisfied => Conclusion::NoTargetCleanlySatisfied,
        AggregateOutcome::NoFormalTargets => match hostname_resolution {
            HostnameResolutionOutcome::DefinitiveNegative { .. } => {
                Conclusion::HostnameResolutionDefinitiveNegative
            },
            HostnameResolutionOutcome::NegativeWithoutUsableAddress { .. } => {
                Conclusion::HostnameResolutionNoUsableAddress
            },
            HostnameResolutionOutcome::NonDefinitiveFailure { .. } => {
                Conclusion::HostnameResolutionIndeterminate
            },
            _ => Conclusion::HostnameNoFormalTargets,
        },
    }
}

#[derive(Clone, Copy, Debug, Eq, PartialEq, Structural)]
pub enum ExecutionErrorKind {
    InvalidInput,
    ScopedIpv6BindingFailed,
    RequiredCapabilityUnavailable,
    ResourceExhausted,
    InternalFailure,
}

impl DeepView for ExecutionErrorKind {
    type V = ExecutionErrorKind;

    open spec fn deep_view(&self) -> ExecutionErrorKind {
        *self
    }
}

#[derive(Debug, Eq, PartialEq)]
pub struct ExecutionError {
    pub kind: ExecutionErrorKind,
    pub safe_message: String,
    pub partial_evidence: Vec<Evidence>,
}

/// The contents of a [`ExecutionError`].
#[verifier::ext_equal]
pub struct ExecutionErrorView {
    pub kind: ExecutionErrorKind,
    pub safe_message: Seq<char>,
    pub partial_evidence: Seq<EvidenceView>,
}

impl DeepView for ExecutionError {
    type V = ExecutionErrorView;

    open spec fn deep_view(&self) -> ExecutionErrorView {
        ExecutionErrorView {
            kind: self.kind,
            safe_message: self.safe_message.deep_view(),
            partial_evidence: self.partial_evidence.deep_view(),
        }
    }
}

impl Clone for ExecutionError {
    fn clone(&self) -> (copy: Self)
        ensures
            copy.deep_view() == self.deep_view(),
    {
        let copy = ExecutionError {
            kind: self.kind,
            safe_message: self.safe_message.clone(),
            partial_evidence: self.partial_evidence.clone(),
        };
        assert(copy.partial_evidence.deep_view() =~= self.partial_evidence.deep_view());
        copy
    }
}

#[derive(Debug, Eq, PartialEq)]
pub struct Cancelled {
    pub safe_message: String,
}

/// The contents of a [`Cancelled`].
#[verifier::ext_equal]
pub struct CancelledView {
    pub safe_message: Seq<char>,
}

impl DeepView for Cancelled {
    type V = CancelledView;

    open spec fn deep_view(&self) -> CancelledView {
        CancelledView {
            safe_message: self.safe_message.deep_view(),
        }
    }
}

impl Clone for Cancelled {
    fn clone(&self) -> (copy: Self)
        ensures
            copy.deep_view() == self.deep_view(),
    {
        Cancelled {
            safe_message: self.safe_message.clone(),
        }
    }
}

#[derive(Debug, Eq, PartialEq)]
pub enum DiagnosticResult {
    Completed(Box<CompletedDiagnostic>),
    ExecutionError(ExecutionError),
    Cancelled(Cancelled),
}

/// The contents of a [`DiagnosticResult`].
#[verifier::ext_equal]
pub enum DiagnosticResultView {
    Completed(CompletedDiagnosticView),
    ExecutionError(ExecutionErrorView),
    Cancelled(CancelledView),
}

impl DeepView for DiagnosticResult {
    type V = DiagnosticResultView;

    open spec fn deep_view(&self) -> DiagnosticResultView {
        match self {
            DiagnosticResult::Completed(value) => DiagnosticResultView::Completed(value.deep_view()),
            DiagnosticResult::ExecutionError(value) => DiagnosticResultView::ExecutionError(value.deep_view()),
            DiagnosticResult::Cancelled(value) => DiagnosticResultView::Cancelled(value.deep_view()),
        }
    }
}

impl Clone for DiagnosticResult {
    fn clone(&self) -> (copy: Self)
        ensures
            copy.deep_view() == self.deep_view(),
    {
        match self {
            DiagnosticResult::Completed(value) => DiagnosticResult::Completed(value.clone()),
            DiagnosticResult::ExecutionError(value) => DiagnosticResult::ExecutionError(value.clone()),
            DiagnosticResult::Cancelled(value) => DiagnosticResult::Cancelled(value.clone()),
        }
    }
}

/// How the process ends.
#[derive(Clone, Copy, Debug, Eq, PartialEq, Structural)]
pub enum ExitStatus {
    Success,
    DiagnosticNonSuccess,
    ExecutionError,
    Cancelled,
}

impl DeepView for ExitStatus {
    type V = ExitStatus;

    open spec fn deep_view(&self) -> ExitStatus {
        *self
    }
}

/// A completed run succeeds only where every target did.
pub open spec fn completed_status(aggregate: AggregateOutcome) -> ExitStatus {
    if aggregate == AggregateOutcome::AllSatisfied {
        ExitStatus::Success
    } else {
        ExitStatus::DiagnosticNonSuccess
    }
}

impl DiagnosticResultView {
    /// How the process ends after this result.
    pub open spec fn status(self) -> ExitStatus {
        match self {
            DiagnosticResultView::Completed(completed) => completed_status(
                completed.aggregate_outcome,
            ),
            DiagnosticResultView::ExecutionError(_) => ExitStatus::ExecutionError,
            DiagnosticResultView::Cancelled(_) => ExitStatus::Cancelled,
        }
    }
}

impl DiagnosticResult {
    #[must_use]
    pub fn exit_status(&self) -> (result: ExitStatus)
        ensures
            result == self.deep_view().status(),
    {
        match self {
            DiagnosticResult::Completed(completed) => completed.exit_status(),
            DiagnosticResult::ExecutionError(_) => ExitStatus::ExecutionError,
            DiagnosticResult::Cancelled(_) => ExitStatus::Cancelled,
        }
    }
}

impl ExitStatus {
    /// The number that the process ends with.
    pub open spec fn number(self) -> u8 {
        match self {
            ExitStatus::Success => 0,
            ExitStatus::DiagnosticNonSuccess => 1,
            ExitStatus::ExecutionError => 2,
            ExitStatus::Cancelled => 130,
        }
    }

    #[must_use]
    pub fn code(self) -> (result: u8)
        ensures
            result == self.number(),
    {
        match self {
            ExitStatus::Success => 0,
            ExitStatus::DiagnosticNonSuccess => 1,
            ExitStatus::ExecutionError => 2,
            ExitStatus::Cancelled => 130,
        }
    }
}

/// The exit code tells a success, another completed result, an error and a cancellation apart.
pub proof fn exit_codes_tell_results_apart(result: DiagnosticResultView)
    ensures
        result.status().number() == 0 || result.status().number() == 1 <==> result
            is Completed,
        result.status().number() == 2 <==> result is ExecutionError,
        result.status().number() == 130 <==> result is Cancelled,
{
}

/// A completed run ends with zero exactly where resolution left something to check, there are
/// targets, and every one of them passed on its first attempt.
pub proof fn success_means_every_target_passed(
    request: ParsedRequestView,
    initial_snapshot: InitialNetworkSnapshotView,
    system_resolver: Option<SystemResolverObservationView>,
    hostname_resolution: HostnameResolutionOutcomeView,
    targets: Seq<TargetDiagnosticView>,
    resolver_diagnostics: Seq<ResolverDependencyDiagnosticView>,
    run_evidence: Seq<EvidenceView>,
)
    ensures
        DiagnosticResultView::Completed(
            completed_run(
                request,
                initial_snapshot,
                system_resolver,
                hostname_resolution,
                targets,
                resolver_diagnostics,
                run_evidence,
            ),
        ).status().number() == 0 <==> {
            &&& hostname_resolution.formed()
            &&& targets.len() > 0
            &&& forall|i: int|
                0 <= i < targets.len() ==> (#[trigger] targets[i]).primary_outcome
                    == PrimaryOutcome::Satisfied
        },
{
    let ordered = sorting::sorted::<TargetDiagnostic>(targets);
    sorting::sorting_is_stable::<TargetDiagnostic>(targets);
    let clean = |target: TargetDiagnosticView| target.primary_outcome.clean();
    if forall|i: int| 0 <= i < targets.len() ==> clean(#[trigger] targets[i]) {
        lists::lemma_reordered_all(targets, ordered, clean);
        assert forall|i: int| 0 <= i < ordered.len() implies (
        #[trigger] ordered[i]).primary_outcome.clean() by {
            assert(clean(ordered[i]));
        }
    }
    if forall|i: int| 0 <= i < ordered.len() ==> clean(#[trigger] ordered[i]) {
        lists::lemma_reordered_all(ordered, targets, clean);
    }
    if forall|i: int|
        0 <= i < ordered.len() ==> (#[trigger] ordered[i]).primary_outcome.clean() {
        assert(forall|i: int| 0 <= i < ordered.len() ==> clean(#[trigger] ordered[i]));
        assert forall|i: int| 0 <= i < targets.len() implies (#[trigger] targets[i]).primary_outcome
            == PrimaryOutcome::Satisfied by {
            assert(clean(targets[i]));
        }
    }
    if forall|i: int|
        0 <= i < targets.len() ==> (#[trigger] targets[i]).primary_outcome
            == PrimaryOutcome::Satisfied {
        assert(forall|i: int| 0 <= i < targets.len() ==> clean(#[trigger] targets[i]));
    }
}

/// A completed run keeps every target, in resolver order, and every piece of their evidence.
pub proof fn completed_run_keeps_targets_and_evidence(
    request: ParsedRequestView,
    initial_snapshot: InitialNetworkSnapshotView,
    system_resolver: Option<SystemResolverObservationView>,
    hostname_resolution: HostnameResolutionOutcomeView,
    targets: Seq<TargetDiagnosticView>,
    resolver_diagnostics: Seq<ResolverDependencyDiagnosticView>,
    run_evidence: Seq<EvidenceView>,
)
    ensures
        ({
            let run = completed_run(
                request,
                initial_snapshot,
                system_resolver,
                hostname_resolution,
                targets,
                resolver_diagnostics,
                run_evidence,
            );
            &&& run.targets.to_multiset() == targets.to_multiset()
            &&& sorting::in_key_order::<TargetDiagnostic>(run.targets)
            &&& forall|i: int, item: EvidenceView|
                #![trigger targets[i].evidence.contains(item)]
                0 <= i < targets.len() && targets[i].evidence.contains(item)
                    ==> run.evidence.contains(item)
            &&& forall|item: EvidenceView|
                #![trigger run_evidence.contains(item)]
                run_evidence.contains(item) ==> run.evidence.contains(item)
        }),
{
    let ordered = sorting::sorted::<TargetDiagnostic>(targets);
    sorting::sorting_is_stable::<TargetDiagnostic>(targets);
    lists::lemma_reordered_contains(targets, ordered);
    let kept = run_evidence + evidence_of(ordered);
    assert forall|i: int, item: EvidenceView|
        #![trigger targets[i].evidence.contains(item)]
        0 <= i < targets.len() && targets[i].evidence.contains(item) implies kept.contains(item) by {
        assert(targets.contains(targets[i]));
        assert(ordered.contains(targets[i]));
        let k = choose|k: int| 0 <= k < ordered.len() && ordered[k] == targets[i];
        lemma_evidence_is_kept(ordered, k, item);
        let place = choose|j: int|
            0 <= j < evidence_of(ordered).len() && evidence_of(ordered)[j] == item;
        assert(kept[run_evidence.len() + place] == item);
    }
    assert forall|item: EvidenceView| #[trigger]
        run_evidence.contains(item) implies kept.contains(item) by {
        let place = choose|j: int| 0 <= j < run_evidence.len() && run_evidence[j] == item;
        assert(kept[place] == item);
    }
}

proof fn lemma_evidence_is_kept(targets: Seq<TargetDiagnosticView>, k: int, item: EvidenceView)
    requires
        0 <= k < targets.len(),
        targets[k].evidence.contains(item),
    ensures
        evidence_of(targets).contains(item),
    decreases targets.len(),
{
    let rest = targets.drop_last();
    let all = evidence_of(targets);
    if k == targets.len() - 1 {
        let place = choose|j: int|
            0 <= j < targets[k].evidence.len() && targets[k].evidence[j] == item;
        assert(all[evidence_of(rest).len() + place] == item);
    } else {
        lemma_evidence_is_kept(rest, k, item);
        let place = choose|j: int| 0 <= j < evidence_of(rest).len() && evidence_of(rest)[j] == item;
        assert(all[place] == item);
    }
}

} // verus!
