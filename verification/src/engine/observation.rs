//! What single attempts and observations show, and the evidence that is kept of them.

use vstd::prelude::*;

use crate::capability::{
    CapabilityReason, CapabilityReasonView, CapabilityValue, CapabilityValueView, Provenance,
    ProvenanceSource, ProvenanceView,
};
use crate::io::{DiagnosticIoError, DiagnosticIoErrorKind, DiagnosticIoErrorView};
use crate::model::{
    Attempt, AttemptKind, AttemptOutcome, AttemptOutcomeView, AttemptSubject, AttemptSubjectView,
    AttemptView, DnsAttemptResult, DnsAttemptResultView, DnsQueryType, IcmpAttemptResult,
    IcmpAttemptResultView, IcmpMessageKind, IcmpMessageObservation, InitialNetworkSnapshot,
    NeighborFact, NeighborFactView, NeighborState, OperationPathContext, OperationPathContextView,
    PathRelation, ResolverEndpoint, ResolverEndpointView, SystemResolverFailureKind,
    SystemResolverObservation, SystemResolverObservationView, SystemResolverResult,
    SystemResolverResultView, TargetIp, TcpAttemptResult, TcpAttemptResultView,
};
use crate::net::{IpAddr, SocketAddr};
use crate::path::{
    self, InitialPathAnalysis, InitialPathAnalysisView, InitialPathStatus, NeighborDependency,
    NeighborDependencyView,
};
use crate::result::{
    Conclusion, Evidence, EvidenceFact, EvidenceFactView, EvidenceId, EvidenceRole,
    EvidenceSubject, EvidenceSubjectView, EvidenceView, NeighborObservation, TargetNetworkFacts,
    TargetNetworkFactsView,
};
use crate::text;

verus! {

/// Appends one piece of evidence.
pub(crate) fn push_evidence(evidence: &mut Vec<Evidence>, item: Evidence)
    ensures
        final(evidence).deep_view() == old(evidence).deep_view().push(item.deep_view()),
{
    evidence.push(item);
    assert(evidence.deep_view() =~= old(evidence).deep_view().push(item.deep_view()));
}

/// Appends one attempt.
pub(crate) fn push_attempt(attempts: &mut Vec<Attempt>, attempt: Attempt)
    ensures
        final(attempts).deep_view() == old(attempts).deep_view().push(attempt.deep_view()),
{
    attempts.push(attempt);
    assert(attempts.deep_view() =~= old(attempts).deep_view().push(attempt.deep_view()));
}

/// Appends one conclusion.
pub(crate) fn push_conclusion(conclusions: &mut Vec<Conclusion>, conclusion: Conclusion)
    ensures
        final(conclusions).deep_view() == old(conclusions).deep_view().push(conclusion),
{
    conclusions.push(conclusion);
    assert(conclusions.deep_view() =~= old(conclusions).deep_view().push(conclusion));
}

/// An error of the library's own with a message for the user.
pub open spec fn io_error(kind: DiagnosticIoErrorKind, message: Seq<char>) -> DiagnosticIoErrorView {
    DiagnosticIoErrorView { kind, safe_message: message }
}

/// The error of an adapter that answers a TCP attempt with something else.
pub open spec fn wrong_tcp_outcome() -> DiagnosticIoErrorView {
    io_error(
        DiagnosticIoErrorKind::Internal,
        "platform adapter returned a non-TCP outcome for a TCP Attempt"@,
    )
}

/// The error of an adapter that answers an ICMP attempt with something else.
pub open spec fn wrong_icmp_outcome() -> DiagnosticIoErrorView {
    io_error(
        DiagnosticIoErrorKind::Internal,
        "platform adapter returned a non-ICMP outcome for an ICMP Attempt"@,
    )
}

/// The error of an adapter that answers a DNS attempt with something else.
pub open spec fn wrong_dns_outcome() -> DiagnosticIoErrorView {
    io_error(
        DiagnosticIoErrorKind::Internal,
        "platform adapter returned a non-DNS outcome for a direct-DNS Attempt"@,
    )
}

/// The error of an adapter that answers a path attempt with something else.
pub open spec fn wrong_path_outcome() -> DiagnosticIoErrorView {
    io_error(
        DiagnosticIoErrorKind::Internal,
        "platform adapter returned the wrong outcome type for a path Attempt"@,
    )
}

/// The error of a machine that has no more resources for networking.
pub open spec fn resources_exhausted() -> DiagnosticIoErrorView {
    io_error(
        DiagnosticIoErrorKind::ResourceExhausted,
        "local networking resources were exhausted"@,
    )
}

pub(crate) fn wrong_tcp_outcome_error() -> (result: DiagnosticIoError)
    ensures
        result.deep_view() == wrong_tcp_outcome(),
{
    DiagnosticIoError::new(
        DiagnosticIoErrorKind::Internal,
        "platform adapter returned a non-TCP outcome for a TCP Attempt",
    )
}

pub(crate) fn wrong_icmp_outcome_error() -> (result: DiagnosticIoError)
    ensures
        result.deep_view() == wrong_icmp_outcome(),
{
    DiagnosticIoError::new(
        DiagnosticIoErrorKind::Internal,
        "platform adapter returned a non-ICMP outcome for an ICMP Attempt",
    )
}

pub(crate) fn wrong_dns_outcome_error() -> (result: DiagnosticIoError)
    ensures
        result.deep_view() == wrong_dns_outcome(),
{
    DiagnosticIoError::new(
        DiagnosticIoErrorKind::Internal,
        "platform adapter returned a non-DNS outcome for a direct-DNS Attempt",
    )
}

pub(crate) fn resource_exhausted_error() -> (result: DiagnosticIoError)
    ensures
        result.deep_view() == resources_exhausted(),
{
    DiagnosticIoError::new(
        DiagnosticIoErrorKind::ResourceExhausted,
        "local networking resources were exhausted",
    )
}

/// Whether an attempt ended without any result.
pub open spec fn timed_out(attempt: AttemptView) -> bool {
    match attempt.outcome {
        AttemptOutcomeView::Tcp(result) => result is Timeout,
        AttemptOutcomeView::Icmp(result) => result is Timeout,
        AttemptOutcomeView::Dns(result) => result is Timeout,
    }
}

pub fn is_attempt_timeout(attempt: &Attempt) -> (result: bool)
    ensures
        result == timed_out(attempt.deep_view()),
{
    match &attempt.outcome {
        AttemptOutcome::Tcp(TcpAttemptResult::Timeout) => true,
        AttemptOutcome::Icmp(IcmpAttemptResult::Timeout) => true,
        AttemptOutcome::Dns(DnsAttemptResult::Timeout) => true,
        _ => false,
    }
}

pub fn is_icmp_attempt(attempt: &Attempt) -> (result: bool)
    ensures
        result == (attempt.deep_view().outcome is Icmp),
{
    match &attempt.outcome {
        AttemptOutcome::Icmp(_) => true,
        _ => false,
    }
}

pub fn is_dns_attempt(attempt: &Attempt) -> (result: bool)
    ensures
        result == (attempt.deep_view().outcome is Dns),
{
    match &attempt.outcome {
        AttemptOutcome::Dns(_) => true,
        _ => false,
    }
}

/// Whether an echo attempt was answered by an Echo Reply from its own target.
pub open spec fn echo_replied(attempt: AttemptView) -> bool {
    match (attempt.subject, attempt.outcome) {
        (AttemptSubjectView::Target(target), AttemptOutcomeView::Icmp(result)) => match result {
            IcmpAttemptResultView::Message { kind, responder, .. } => kind
                == IcmpMessageKind::EchoReply && responder == target.address,
            IcmpAttemptResultView::Messages(messages) => exists|i: int|
                0 <= i < messages.len() && (#[trigger] messages[i]).kind
                    == IcmpMessageKind::EchoReply && messages[i].responder == target.address,
            _ => false,
        },
        _ => false,
    }
}

#[verifier::loop_isolation(false)]
pub fn is_icmp_echo_reply(attempt: &Attempt) -> (result: bool)
    ensures
        result == echo_replied(attempt.deep_view()),
{
    let AttemptSubject::Target(target) = &attempt.subject else {
        return false;
    };
    match &attempt.outcome {
        AttemptOutcome::Icmp(IcmpAttemptResult::Message { kind, responder, .. }) => {
            *kind == IcmpMessageKind::EchoReply && *responder == target.address
        },
        AttemptOutcome::Icmp(IcmpAttemptResult::Messages(messages)) => {
            let ghost all = messages.deep_view();
            let mut i: usize = 0;
            while i < messages.len()
                invariant
                    i <= messages.len(),
                    all == messages.deep_view(),
                    forall|j: int| 0 <= j < all.len() ==> all[j] == #[trigger] messages@[j],
                    forall|j: int|
                        0 <= j < i ==> !((#[trigger] all[j]).kind == IcmpMessageKind::EchoReply
                            && all[j].responder == target.address),
                decreases messages.len() - i,
            {
                if messages[i].kind == IcmpMessageKind::EchoReply && messages[i].responder
                    == target.address {
                    return true;
                }
                i += 1;
            }
            false
        },
        _ => false,
    }
}

/// Whether any message of an attempt came from the address that the attempt was aimed at.
pub open spec fn answered_by_subject(attempt: AttemptView) -> bool {
    match attempt.subject {
        AttemptSubjectView::Target(target) => answered_by(attempt.outcome, target.address),
        AttemptSubjectView::NextHop(neighbor) => answered_by(attempt.outcome, neighbor.address),
        AttemptSubjectView::Resolver { .. } => false,
    }
}

/// Whether any ICMP message of an outcome came from an address.
pub open spec fn answered_by(outcome: AttemptOutcomeView, expected: IpAddr) -> bool {
    match outcome {
        AttemptOutcomeView::Icmp(IcmpAttemptResultView::Message { responder, .. }) => responder
            == expected,
        AttemptOutcomeView::Icmp(IcmpAttemptResultView::Messages(messages)) => exists|i: int|
            0 <= i < messages.len() && (#[trigger] messages[i]).responder == expected,
        _ => false,
    }
}

#[verifier::loop_isolation(false)]
pub fn is_matching_icmp_message(attempt: &Attempt) -> (result: bool)
    ensures
        result == answered_by_subject(attempt.deep_view()),
{
    let expected = match &attempt.subject {
        AttemptSubject::Target(target) => target.address,
        AttemptSubject::NextHop(neighbor) => neighbor.address,
        AttemptSubject::Resolver { .. } => return false,
    };
    match &attempt.outcome {
        AttemptOutcome::Icmp(IcmpAttemptResult::Message { responder, .. }) => *responder
            == expected,
        AttemptOutcome::Icmp(IcmpAttemptResult::Messages(messages)) => {
            let ghost all = messages.deep_view();
            let mut i: usize = 0;
            while i < messages.len()
                invariant
                    i <= messages.len(),
                    all == messages.deep_view(),
                    forall|j: int| 0 <= j < all.len() ==> all[j] == #[trigger] messages@[j],
                    forall|j: int| 0 <= j < i ==> (#[trigger] all[j]).responder != expected,
                decreases messages.len() - i,
            {
                if messages[i].responder == expected {
                    return true;
                }
                i += 1;
            }
            false
        },
        _ => false,
    }
}

/// Whether an attempt brought an ICMP result of any kind.
pub open spec fn icmp_result(attempt: AttemptView) -> bool {
    attempt.outcome matches AttemptOutcomeView::Icmp(result) && !(result is Timeout)
}

pub fn is_non_timeout_icmp_result(attempt: &Attempt) -> (result: bool)
    ensures
        result == icmp_result(attempt.deep_view()),
{
    match &attempt.outcome {
        AttemptOutcome::Icmp(IcmpAttemptResult::Timeout) => false,
        AttemptOutcome::Icmp(_) => true,
        _ => false,
    }
}

/// Whether an ICMP message settles nothing: it is of another kind, or an Echo Reply from
/// someone else than the target.
pub open spec fn inconclusive_message(
    kind: IcmpMessageKind,
    responder: IpAddr,
    subject: AttemptSubjectView,
) -> bool {
    ||| kind == IcmpMessageKind::Other
    ||| kind == IcmpMessageKind::EchoReply && (subject matches AttemptSubjectView::Target(target)
        && responder != target.address)
}

/// Whether an attempt brought ICMP messages that settle nothing.
pub open spec fn inconclusive(attempt: AttemptView) -> bool {
    match attempt.outcome {
        AttemptOutcomeView::Icmp(IcmpAttemptResultView::Message { kind, responder, .. }) => {
            inconclusive_message(kind, responder, attempt.subject)
        },
        AttemptOutcomeView::Icmp(IcmpAttemptResultView::Messages(messages)) => {
            messages.len() == 0 || exists|i: int|
                0 <= i < messages.len() && inconclusive_message(
                    (#[trigger] messages[i]).kind,
                    messages[i].responder,
                    attempt.subject,
                )
        },
        _ => false,
    }
}

fn is_inconclusive_message(
    kind: IcmpMessageKind,
    responder: IpAddr,
    subject: &AttemptSubject,
) -> (result: bool)
    ensures
        result == inconclusive_message(kind, responder, subject.deep_view()),
{
    match kind {
        IcmpMessageKind::Other => true,
        IcmpMessageKind::EchoReply => match subject {
            AttemptSubject::Target(target) => responder != target.address,
            _ => false,
        },
        _ => false,
    }
}

#[verifier::loop_isolation(false)]
pub fn is_indeterminate_icmp_message(attempt: &Attempt) -> (result: bool)
    ensures
        result == inconclusive(attempt.deep_view()),
{
    match &attempt.outcome {
        AttemptOutcome::Icmp(IcmpAttemptResult::Message { kind, responder, .. }) => {
            is_inconclusive_message(*kind, *responder, &attempt.subject)
        },
        AttemptOutcome::Icmp(IcmpAttemptResult::Messages(messages)) => {
            if messages.len() == 0 {
                return true;
            }
            let ghost all = messages.deep_view();
            let mut i: usize = 0;
            while i < messages.len()
                invariant
                    i <= messages.len(),
                    all == messages.deep_view(),
                    forall|j: int| 0 <= j < all.len() ==> all[j] == #[trigger] messages@[j],
                    forall|j: int|
                        0 <= j < i ==> !inconclusive_message(
                            (#[trigger] all[j]).kind,
                            all[j].responder,
                            attempt.subject.deep_view(),
                        ),
                decreases messages.len() - i,
            {
                if is_inconclusive_message(
                    messages[i].kind,
                    messages[i].responder,
                    &attempt.subject,
                ) {
                    return true;
                }
                i += 1;
            }
            false
        },
        _ => false,
    }
}

/// What a path attempt says about going on.
#[derive(Clone, Copy, Debug, Eq, PartialEq, Structural)]
pub enum PathAttemptDisposition {
    Timeout,
    Advance,
    Endpoint,
    ExplicitTermination,
    Indeterminate,
}

impl DeepView for PathAttemptDisposition {
    type V = PathAttemptDisposition;

    open spec fn deep_view(&self) -> PathAttemptDisposition {
        *self
    }
}

/// What a single ICMP message on the path says.
pub open spec fn message_disposition(
    kind: IcmpMessageKind,
    responder: IpAddr,
    target: IpAddr,
) -> PathAttemptDisposition {
    match kind {
        IcmpMessageKind::EchoReply => if responder == target {
            PathAttemptDisposition::Endpoint
        } else {
            PathAttemptDisposition::Indeterminate
        },
        IcmpMessageKind::TimeExceeded => PathAttemptDisposition::Advance,
        IcmpMessageKind::DestinationUnreachable
        | IcmpMessageKind::PacketTooBig
        | IcmpMessageKind::ParameterProblem => PathAttemptDisposition::ExplicitTermination,
        IcmpMessageKind::Other => PathAttemptDisposition::Indeterminate,
    }
}

/// What several messages to one path attempt say together: the endpoint counts wherever it
/// answered; otherwise they have to agree.
pub open spec fn messages_disposition(
    messages: Seq<IcmpMessageObservation>,
    target: IpAddr,
) -> PathAttemptDisposition {
    if exists|i: int|
        0 <= i < messages.len() && message_disposition(
            (#[trigger] messages[i]).kind,
            messages[i].responder,
            target,
        ) == PathAttemptDisposition::Endpoint {
        PathAttemptDisposition::Endpoint
    } else if messages.len() > 0 && forall|i: int|
        0 <= i < messages.len() ==> message_disposition(
            (#[trigger] messages[i]).kind,
            messages[i].responder,
            target,
        ) == PathAttemptDisposition::Advance {
        PathAttemptDisposition::Advance
    } else if messages.len() > 0 && forall|i: int|
        0 <= i < messages.len() ==> message_disposition(
            (#[trigger] messages[i]).kind,
            messages[i].responder,
            target,
        ) == PathAttemptDisposition::ExplicitTermination {
        PathAttemptDisposition::ExplicitTermination
    } else {
        PathAttemptDisposition::Indeterminate
    }
}

/// What a path attempt says about going on.
pub open spec fn disposition(attempt: AttemptView, target: IpAddr) -> PathAttemptDisposition {
    match attempt.outcome {
        AttemptOutcomeView::Tcp(result) => match result {
            TcpAttemptResultView::Connected { .. } | TcpAttemptResultView::ConnectionRefused => {
                PathAttemptDisposition::Endpoint
            },
            TcpAttemptResultView::Timeout => PathAttemptDisposition::Timeout,
            TcpAttemptResultView::NoRoute
            | TcpAttemptResultView::NetworkUnreachable
            | TcpAttemptResultView::HostUnreachable => PathAttemptDisposition::ExplicitTermination,
            _ => PathAttemptDisposition::Indeterminate,
        },
        AttemptOutcomeView::Icmp(result) => match result {
            IcmpAttemptResultView::Timeout => PathAttemptDisposition::Timeout,
            IcmpAttemptResultView::ExplicitNetworkError { .. } => {
                PathAttemptDisposition::Indeterminate
            },
            IcmpAttemptResultView::Message { kind, responder, .. } => message_disposition(
                kind,
                responder,
                target,
            ),
            IcmpAttemptResultView::Messages(messages) => messages_disposition(messages, target),
        },
        AttemptOutcomeView::Dns(_) => PathAttemptDisposition::Indeterminate,
    }
}

pub fn path_message_disposition(
    kind: IcmpMessageKind,
    responder: IpAddr,
    target: &TargetIp,
) -> (result: PathAttemptDisposition)
    ensures
        result == message_disposition(kind, responder, target.address),
{
    match kind {
        IcmpMessageKind::EchoReply => if responder == target.address {
            PathAttemptDisposition::Endpoint
        } else {
            PathAttemptDisposition::Indeterminate
        },
        IcmpMessageKind::TimeExceeded => PathAttemptDisposition::Advance,
        IcmpMessageKind::DestinationUnreachable
        | IcmpMessageKind::PacketTooBig
        | IcmpMessageKind::ParameterProblem => PathAttemptDisposition::ExplicitTermination,
        IcmpMessageKind::Other => PathAttemptDisposition::Indeterminate,
    }
}

fn path_messages_disposition(
    messages: &Vec<IcmpMessageObservation>,
    target: &TargetIp,
) -> (result: PathAttemptDisposition)
    ensures
        result == messages_disposition(messages.deep_view(), target.address),
{
    let ghost all = messages.deep_view();
    let mut endpoint = false;
    let mut all_advance = true;
    let mut all_terminate = true;
    let mut i: usize = 0;
    while i < messages.len()
        invariant
            i <= messages.len(),
            all == messages.deep_view(),
            forall|j: int| 0 <= j < all.len() ==> all[j] == #[trigger] messages@[j],
            endpoint == (exists|j: int|
                0 <= j < i && message_disposition(
                    (#[trigger] all[j]).kind,
                    all[j].responder,
                    target.address,
                ) == PathAttemptDisposition::Endpoint),
            all_advance == (forall|j: int|
                0 <= j < i ==> message_disposition(
                    (#[trigger] all[j]).kind,
                    all[j].responder,
                    target.address,
                ) == PathAttemptDisposition::Advance),
            all_terminate == (forall|j: int|
                0 <= j < i ==> message_disposition(
                    (#[trigger] all[j]).kind,
                    all[j].responder,
                    target.address,
                ) == PathAttemptDisposition::ExplicitTermination),
        decreases messages.len() - i,
    {
        let item = path_message_disposition(messages[i].kind, messages[i].responder, target);
        if item == PathAttemptDisposition::Endpoint {
            endpoint = true;
        }
        if item != PathAttemptDisposition::Advance {
            all_advance = false;
        }
        if item != PathAttemptDisposition::ExplicitTermination {
            all_terminate = false;
        }
        i += 1;
    }
    if endpoint {
        PathAttemptDisposition::Endpoint
    } else if messages.len() > 0 && all_advance {
        PathAttemptDisposition::Advance
    } else if messages.len() > 0 && all_terminate {
        PathAttemptDisposition::ExplicitTermination
    } else {
        PathAttemptDisposition::Indeterminate
    }
}

pub fn path_attempt_disposition(attempt: &Attempt, target: &TargetIp) -> (result:
    PathAttemptDisposition)
    ensures
        result == disposition(attempt.deep_view(), target.address),
{
    match &attempt.outcome {
        AttemptOutcome::Tcp(result) => match result {
            TcpAttemptResult::Connected { .. } | TcpAttemptResult::ConnectionRefused => {
                PathAttemptDisposition::Endpoint
            },
            TcpAttemptResult::Timeout => PathAttemptDisposition::Timeout,
            TcpAttemptResult::NoRoute
            | TcpAttemptResult::NetworkUnreachable
            | TcpAttemptResult::HostUnreachable => PathAttemptDisposition::ExplicitTermination,
            _ => PathAttemptDisposition::Indeterminate,
        },
        AttemptOutcome::Icmp(result) => match result {
            IcmpAttemptResult::Timeout => PathAttemptDisposition::Timeout,
            IcmpAttemptResult::ExplicitNetworkError { .. } => PathAttemptDisposition::Indeterminate,
            IcmpAttemptResult::Message { kind, responder, .. } => path_message_disposition(
                *kind,
                *responder,
                target,
            ),
            IcmpAttemptResult::Messages(messages) => path_messages_disposition(messages, target),
        },
        AttemptOutcome::Dns(_) => PathAttemptDisposition::Indeterminate,
    }
}

/// Whether a path attempt was answered from more than one address.
pub open spec fn several_responders(attempt: AttemptView) -> bool {
    attempt.outcome matches AttemptOutcomeView::Icmp(IcmpAttemptResultView::Messages(messages))
        && exists|i: int, j: int|
        0 <= i < messages.len() && 0 <= j < messages.len() && (#[trigger] messages[i]).responder
            != (#[trigger] messages[j]).responder
}

pub fn has_multiple_path_responders(attempt: &Attempt) -> (result: bool)
    ensures
        result == several_responders(attempt.deep_view()),
{
    match &attempt.outcome {
        AttemptOutcome::Icmp(IcmpAttemptResult::Messages(messages)) => {
            let ghost all = messages.deep_view();
            let mut i: usize = 0;
            while i < messages.len()
                invariant
                    i <= messages.len(),
                    all == messages.deep_view(),
                    forall|j: int| 0 <= j < all.len() ==> all[j] == #[trigger] messages@[j],
                    attempt.deep_view().outcome == AttemptOutcomeView::Icmp(
                        IcmpAttemptResultView::Messages(all),
                    ),
                    forall|j: int|
                        0 <= j < i ==> (#[trigger] all[j]).responder == all[0].responder,
                decreases messages.len() - i,
            {
                if messages[i].responder != messages[0].responder {
                    return true;
                }
                i += 1;
            }
            false
        },
        _ => false,
    }
}

/// The conclusions of path diagnosis: that several responders were seen, where they were, and
/// how it ended.
pub open spec fn path_conclusions_of(several: bool, terminal: Conclusion) -> Seq<Conclusion> {
    if several {
        seq![Conclusion::MultiplePathRespondersObserved, terminal]
    } else {
        seq![terminal]
    }
}

pub(crate) fn push_path_conclusions(
    conclusions: &mut Vec<Conclusion>,
    several: bool,
    terminal: Conclusion,
)
    ensures
        final(conclusions).deep_view() == old(conclusions).deep_view() + path_conclusions_of(
            several,
            terminal,
        ),
{
    if several {
        push_conclusion(conclusions, Conclusion::MultiplePathRespondersObserved);
    }
    push_conclusion(conclusions, terminal);
    assert(conclusions.deep_view() =~= old(conclusions).deep_view() + path_conclusions_of(
        several,
        terminal,
    ));
}

/// The state of a neighbor, where it could be observed.
pub open spec fn neighbor_state_of(
    observation: CapabilityValueView<NeighborFactView>,
) -> Option<NeighborState> {
    match observation.known() {
        Some(fact) => Some(fact.state),
        None => None,
    }
}

pub fn capability_neighbor_state(observation: &CapabilityValue<NeighborFact>) -> (result: Option<
    NeighborState,
>)
    ensures
        result == neighbor_state_of(observation.deep_view()),
{
    match observation {
        CapabilityValue::Available { value, .. } => Some(value.state),
        _ => None,
    }
}

/// How the target lies on its current path, where that is known.
pub open spec fn relation_of(
    path: CapabilityValueView<OperationPathContextView>,
) -> Option<PathRelation> {
    match path.known() {
        Some(path) => Some(path.relation),
        None => None,
    }
}

pub fn current_relation(path: &CapabilityValue<OperationPathContext>) -> (result: Option<
    PathRelation,
>)
    ensures
        result == relation_of(path.deep_view()),
{
    match path {
        CapabilityValue::Available { value, .. } => Some(value.relation),
        _ => None,
    }
}

/// The name of a relation.
pub open spec fn relation_debug(relation: PathRelation) -> Seq<char> {
    match relation {
        PathRelation::Local => "Local"@,
        PathRelation::OnLink => "OnLink"@,
        PathRelation::Remote => "Remote"@,
        PathRelation::Unknown => "Unknown"@,
    }
}

fn relation_debug_text(relation: PathRelation) -> (result: &'static str)
    ensures
        result@ == relation_debug(relation),
{
    match relation {
        PathRelation::Local => "Local",
        PathRelation::OnLink => "OnLink",
        PathRelation::Remote => "Remote",
        PathRelation::Unknown => "Unknown",
    }
}

/// A limitation as evidence.
pub open spec fn limitation(
    id: u64,
    subject: EvidenceSubjectView,
    capability: Seq<char>,
    reason: CapabilityReasonView,
) -> EvidenceView {
    EvidenceView {
        id: EvidenceId(id),
        subject,
        role: EvidenceRole::CapabilityLimitation,
        fact: EvidenceFactView::CapabilityUnavailable { capability, reason },
    }
}

pub(crate) fn limitation_evidence(
    id: u64,
    subject: EvidenceSubject,
    capability: &str,
    reason: CapabilityReason,
) -> (result: Evidence)
    ensures
        result.deep_view() == limitation(
            id,
            subject.deep_view(),
            capability@,
            reason.deep_view(),
        ),
{
    Evidence {
        id: EvidenceId(id),
        subject,
        role: EvidenceRole::CapabilityLimitation,
        fact: EvidenceFact::CapabilityUnavailable { capability: capability.to_owned(), reason },
    }
}

/// What is known of the path before anything is sent: the initial analysis, and the current path
/// or why there is none. The initial analysis has the given role.
pub open spec fn path_evidence(
    base_id: u64,
    subject: EvidenceSubjectView,
    role: EvidenceRole,
    initial_path: InitialPathAnalysisView,
    current_path: CapabilityValueView<OperationPathContextView>,
    lookup: Seq<char>,
) -> Seq<EvidenceView> {
    seq![
        EvidenceView {
            id: EvidenceId(base_id),
            subject,
            role,
            fact: EvidenceFactView::InitialPath(initial_path.status.debug()),
        },
        EvidenceView {
            id: EvidenceId((base_id + 1) as u64),
            subject,
            role: EvidenceRole::Context,
            fact: match current_path {
                CapabilityValueView::Available { value, .. } => EvidenceFactView::CurrentPath(
                    relation_debug(value.relation),
                ),
                CapabilityValueView::Unknown { reason, .. } => {
                    EvidenceFactView::CapabilityUnavailable { capability: lookup, reason }
                },
                CapabilityValueView::Unavailable { reason, .. } => {
                    EvidenceFactView::CapabilityUnavailable { capability: lookup, reason }
                },
            },
        },
    ]
}

pub(crate) fn collect_path_evidence(
    base_id: u64,
    subject: &EvidenceSubject,
    role: EvidenceRole,
    initial_path: &InitialPathAnalysis,
    current_path: &CapabilityValue<OperationPathContext>,
    lookup: &str,
) -> (result: Vec<Evidence>)
    requires
        base_id < u64::MAX,
    ensures
        result.deep_view() == path_evidence(
            base_id,
            subject.deep_view(),
            role,
            initial_path.deep_view(),
            current_path.deep_view(),
            lookup@,
        ),
{
    let mut evidence: Vec<Evidence> = Vec::new();
    evidence.push(
        Evidence {
            id: EvidenceId(base_id),
            subject: subject.clone(),
            role,
            fact: EvidenceFact::InitialPath(initial_path.status.debug_text().to_owned()),
        },
    );
    let fact = match current_path {
        CapabilityValue::Available { value, .. } => EvidenceFact::CurrentPath(
            relation_debug_text(value.relation).to_owned(),
        ),
        CapabilityValue::Unknown { reason, .. } => EvidenceFact::CapabilityUnavailable {
            capability: lookup.to_owned(),
            reason: reason.clone(),
        },
        CapabilityValue::Unavailable { reason, .. } => EvidenceFact::CapabilityUnavailable {
            capability: lookup.to_owned(),
            reason: reason.clone(),
        },
    };
    evidence.push(
        Evidence {
            id: EvidenceId(base_id + 1),
            subject: subject.clone(),
            role: EvidenceRole::Context,
            fact,
        },
    );
    assert(evidence.deep_view() =~= path_evidence(
        base_id,
        subject.deep_view(),
        role,
        initial_path.deep_view(),
        current_path.deep_view(),
        lookup@,
    ));
    evidence
}

/// An attempt as evidence, under its own identifier.
pub open spec fn evidence_of_attempt(attempt: AttemptView, role: EvidenceRole) -> EvidenceView {
    EvidenceView {
        id: EvidenceId(attempt.id.0),
        subject: match attempt.subject {
            AttemptSubjectView::Target(target) => EvidenceSubjectView::Target(target),
            AttemptSubjectView::NextHop(neighbor) => EvidenceSubjectView::Neighbor(neighbor),
            AttemptSubjectView::Resolver { endpoint, .. } => EvidenceSubjectView::Resolver(
                endpoint.shown(),
            ),
        },
        role,
        fact: EvidenceFactView::Attempt(attempt.id),
    }
}

pub fn attempt_evidence(attempt: &Attempt, role: EvidenceRole) -> (result: Evidence)
    ensures
        result.deep_view() == evidence_of_attempt(attempt.deep_view(), role),
{
    Evidence {
        id: EvidenceId(attempt.id.0),
        subject: match &attempt.subject {
            AttemptSubject::Target(target) => EvidenceSubject::Target(target.clone()),
            AttemptSubject::NextHop(neighbor) => EvidenceSubject::Neighbor(neighbor.clone()),
            AttemptSubject::Resolver { endpoint, .. } => EvidenceSubject::Resolver(
                endpoint.to_text(),
            ),
        },
        role,
        fact: EvidenceFact::Attempt(attempt.id),
    }
}

/// The limitation that an unknown dependency makes, where there is one.
pub open spec fn dependency_limitation(
    dependency: NeighborDependencyView,
    subject: EvidenceSubjectView,
    capability: Seq<char>,
    id: u64,
) -> Option<EvidenceView> {
    match dependency {
        NeighborDependencyView::Unknown { reason } => Some(
            limitation(id, subject, capability, CapabilityReasonView::Other(reason)),
        ),
        _ => None,
    }
}

pub(crate) fn find_dependency_limitation(
    dependency: &NeighborDependency,
    subject: &EvidenceSubject,
    capability: &str,
    id: u64,
) -> (result: Option<Evidence>)
    ensures
        result.deep_view() == dependency_limitation(
            dependency.deep_view(),
            subject.deep_view(),
            capability@,
            id,
        ),
{
    match dependency {
        NeighborDependency::Unknown { reason } => Some(
            limitation_evidence(
                id,
                subject.clone(),
                capability,
                CapabilityReason::Other(reason.clone()),
            ),
        ),
        _ => None,
    }
}

/// The limitation that a neighbor makes that could not be read after the failure, where there is
/// one.
pub open spec fn observation_limitation(
    dependency: NeighborDependencyView,
    post_state: Option<CapabilityValueView<NeighborFactView>>,
    subject: EvidenceSubjectView,
    capability: Seq<char>,
    id: u64,
) -> Option<EvidenceView> {
    match (dependency, post_state) {
        (NeighborDependencyView::Known(_), Some(observation)) => match observation.missing() {
            Some(reason) => Some(limitation(id, subject, capability, reason)),
            None => None,
        },
        _ => None,
    }
}

pub(crate) fn find_observation_limitation(
    dependency: &NeighborDependency,
    post_state: &Option<CapabilityValue<NeighborFact>>,
    subject: &EvidenceSubject,
    capability: &str,
    id: u64,
) -> (result: Option<Evidence>)
    ensures
        result.deep_view() == observation_limitation(
            dependency.deep_view(),
            post_state.deep_view(),
            subject.deep_view(),
            capability@,
            id,
        ),
{
    let NeighborDependency::Known(_) = dependency else {
        return None;
    };
    match post_state {
        Some(CapabilityValue::Unknown { reason, .. }) => Some(
            limitation_evidence(id, subject.clone(), capability, reason.clone()),
        ),
        Some(CapabilityValue::Unavailable { reason, .. }) => Some(
            limitation_evidence(id, subject.clone(), capability, reason.clone()),
        ),
        _ => None,
    }
}

/// What was known of a neighbor before the operation.
pub open spec fn observation_before(
    pre_state: Option<CapabilityValueView<NeighborFactView>>,
) -> NeighborObservation {
    match pre_state {
        None => NeighborObservation::NotSampled,
        Some(CapabilityValueView::Available { value, .. }) => NeighborObservation::Observed(
            value.state,
        ),
        Some(CapabilityValueView::Unknown { .. }) => NeighborObservation::Unknown,
        Some(CapabilityValueView::Unavailable { .. }) => NeighborObservation::Unavailable,
    }
}

/// Evidence with the change of a neighbor behind it, where the neighbor was read after the
/// operation.
pub open spec fn with_neighbor_evidence(
    evidence: Seq<EvidenceView>,
    facts: TargetNetworkFactsView,
    id: u64,
) -> Seq<EvidenceView> {
    match facts.neighbor_post_state {
        Some(CapabilityValueView::Available { value, .. }) => evidence.push(
            EvidenceView {
                id: EvidenceId(id),
                subject: EvidenceSubjectView::Neighbor(value.identity),
                role: EvidenceRole::BoundaryNarrowing,
                fact: EvidenceFactView::NeighborTransition {
                    before: observation_before(facts.neighbor_pre_state),
                    after: value.state,
                },
            },
        ),
        _ => evidence,
    }
}

pub(crate) fn add_neighbor_evidence(
    facts: &TargetNetworkFacts,
    evidence: &mut Vec<Evidence>,
    id: u64,
)
    ensures
        final(evidence).deep_view() == with_neighbor_evidence(
            old(evidence).deep_view(),
            facts.deep_view(),
            id,
        ),
{
    let Some(CapabilityValue::Available { value, .. }) = &facts.neighbor_post_state else {
        return;
    };
    let before = match &facts.neighbor_pre_state {
        None => NeighborObservation::NotSampled,
        Some(CapabilityValue::Available { value, .. }) => NeighborObservation::Observed(
            value.state,
        ),
        Some(CapabilityValue::Unknown { .. }) => NeighborObservation::Unknown,
        Some(CapabilityValue::Unavailable { .. }) => NeighborObservation::Unavailable,
    };
    push_evidence(
        evidence,
        Evidence {
            id: EvidenceId(id),
            subject: EvidenceSubject::Neighbor(value.identity.clone()),
            role: EvidenceRole::BoundaryNarrowing,
            fact: EvidenceFact::NeighborTransition { before, after: value.state },
        },
    );
}

/// How an error of the socket compares with what the snapshot said.
pub open spec fn socket_comparison(status: InitialPathStatus) -> Seq<char> {
    match status {
        InitialPathStatus::UsablePath => {
            "the socket returned a network-path error despite a usable initial snapshot path"@
        },
        InitialPathStatus::DefinitiveNoPath => {
            "the socket network-path error agrees with the initial no-path snapshot"@
        },
        InitialPathStatus::UnknownPath => {
            "the socket returned a network-path error while the initial path remained unknown"@
        },
    }
}

/// Evidence with a comparison between a path error of the socket and the snapshot behind it.
pub open spec fn with_path_comparison(
    evidence: Seq<EvidenceView>,
    result: TcpAttemptResultView,
    initial_path: InitialPathAnalysisView,
    id: u64,
) -> Seq<EvidenceView> {
    if result is NoRoute || result is NetworkUnreachable || result is HostUnreachable {
        evidence.push(
            EvidenceView {
                id: EvidenceId(id),
                subject: EvidenceSubjectView::Target(initial_path.target),
                role: EvidenceRole::BoundaryNarrowing,
                fact: EvidenceFactView::SocketPathComparison(
                    socket_comparison(initial_path.status),
                ),
            },
        )
    } else {
        evidence
    }
}

pub fn add_tcp_path_comparison(
    result: &TcpAttemptResult,
    initial_path: &InitialPathAnalysis,
    evidence: &mut Vec<Evidence>,
    id: u64,
)
    ensures
        final(evidence).deep_view() == with_path_comparison(
            old(evidence).deep_view(),
            result.deep_view(),
            initial_path.deep_view(),
            id,
        ),
{
    match result {
        TcpAttemptResult::NoRoute
        | TcpAttemptResult::NetworkUnreachable
        | TcpAttemptResult::HostUnreachable => {},
        _ => return,
    }
    let comparison = match initial_path.status {
        InitialPathStatus::UsablePath => {
            "the socket returned a network-path error despite a usable initial snapshot path"
        },
        InitialPathStatus::DefinitiveNoPath => {
            "the socket network-path error agrees with the initial no-path snapshot"
        },
        InitialPathStatus::UnknownPath => {
            "the socket returned a network-path error while the initial path remained unknown"
        },
    };
    push_evidence(
        evidence,
        Evidence {
            id: EvidenceId(id),
            subject: EvidenceSubject::Target(initial_path.target.clone()),
            role: EvidenceRole::BoundaryNarrowing,
            fact: EvidenceFact::SocketPathComparison(comparison.to_owned()),
        },
    );
}

/// The name of a resolver failure.
pub open spec fn failure_debug(kind: SystemResolverFailureKind) -> Seq<char> {
    match kind {
        SystemResolverFailureKind::DefinitiveNoName => "DefinitiveNoName"@,
        SystemResolverFailureKind::NoUsableAddress => "NoUsableAddress"@,
        SystemResolverFailureKind::Temporary => "Temporary"@,
        SystemResolverFailureKind::Timeout => "Timeout"@,
        SystemResolverFailureKind::ResolverFailure => "ResolverFailure"@,
        SystemResolverFailureKind::OtherPlatformFailure => "OtherPlatformFailure"@,
        SystemResolverFailureKind::Unknown => "Unknown"@,
    }
}

fn failure_debug_text(kind: SystemResolverFailureKind) -> (result: &'static str)
    ensures
        result@ == failure_debug(kind),
{
    match kind {
        SystemResolverFailureKind::DefinitiveNoName => "DefinitiveNoName",
        SystemResolverFailureKind::NoUsableAddress => "NoUsableAddress",
        SystemResolverFailureKind::Temporary => "Temporary",
        SystemResolverFailureKind::Timeout => "Timeout",
        SystemResolverFailureKind::ResolverFailure => "ResolverFailure",
        SystemResolverFailureKind::OtherPlatformFailure => "OtherPlatformFailure",
        SystemResolverFailureKind::Unknown => "Unknown",
    }
}

/// What the system resolver answered, in a few words.
pub open spec fn resolver_summary(result: SystemResolverResultView) -> Seq<char> {
    match result {
        SystemResolverResultView::Succeeded(addresses) => "succeeded with "@ + text::decimal(
            addresses.raw_addresses.len(),
        ) + " raw and "@ + text::decimal(addresses.formal_targets.len()) + " formal addresses"@,
        SystemResolverResultView::Failed(failure) => "failed: "@ + failure_debug(failure.kind),
    }
}

/// The answer of the system resolver as evidence.
pub open spec fn resolver_evidence(observation: SystemResolverObservationView) -> EvidenceView {
    EvidenceView {
        id: EvidenceId(1),
        subject: EvidenceSubjectView::Hostname,
        role: EvidenceRole::PrimaryDecision,
        fact: EvidenceFactView::SystemResolverResult(
            resolver_summary(observation.name_resolution.result),
        ),
    }
}

pub fn system_resolver_evidence(observation: &SystemResolverObservation) -> (result: Evidence)
    ensures
        result.deep_view() == resolver_evidence(observation.deep_view()),
{
    let summary = match &observation.name_resolution.result {
        SystemResolverResult::Succeeded(addresses) => {
            let raw = text::decimal_text(addresses.raw_addresses.len() as u64);
            let formal = text::decimal_text(addresses.formal_targets.len() as u64);
            let start = text::join3("succeeded with ", raw.as_str(), " raw and ");
            text::join3(start.as_str(), formal.as_str(), " formal addresses")
        },
        SystemResolverResult::Failed(failure) => text::join2(
            "failed: ",
            failure_debug_text(failure.kind),
        ),
    };
    Evidence {
        id: EvidenceId(1),
        subject: EvidenceSubject::Hostname,
        role: EvidenceRole::PrimaryDecision,
        fact: EvidenceFact::SystemResolverResult(summary),
    }
}

/// The current path of a target that is not asked for, because there is no initial path.
pub open spec fn skipped_path(captured_at: crate::time::Duration) -> CapabilityValueView<
    OperationPathContextView,
> {
    CapabilityValueView::Unavailable {
        reason: CapabilityReasonView::QuerySemanticsUnavailable,
        provenance: ProvenanceView {
            source: ProvenanceSource::TargetedPathQuery,
            observed_at: Some(captured_at),
            detail: Some("skipped because initial path was definitively unusable"@),
        },
    }
}

pub(crate) fn skipped_current_path(snapshot: &InitialNetworkSnapshot) -> (result: CapabilityValue<
    OperationPathContext,
>)
    ensures
        result.deep_view() == skipped_path(snapshot.capture_completed_at),
{
    CapabilityValue::unavailable(
        CapabilityReason::QuerySemanticsUnavailable,
        Provenance::new(ProvenanceSource::TargetedPathQuery).at(
            snapshot.capture_completed_at,
        ).with_detail("skipped because initial path was definitively unusable"),
    )
}

/// The neighbor that the current path depends on.
pub open spec fn current_dependency(
    current_path: CapabilityValueView<OperationPathContextView>,
) -> NeighborDependencyView {
    match current_path {
        CapabilityValueView::Available { value, .. } => path::dependency_of(value),
        CapabilityValueView::Unknown { reason, .. } => NeighborDependencyView::Unknown {
            reason: "current path is unknown: "@ + reason.debug(),
        },
        CapabilityValueView::Unavailable { reason, .. } => NeighborDependencyView::Unknown {
            reason: "current path is unavailable: "@ + reason.debug(),
        },
    }
}

pub fn dependency_from_current_path(current_path: &CapabilityValue<OperationPathContext>) -> (result:
    NeighborDependency)
    ensures
        result.deep_view() == current_dependency(current_path.deep_view()),
{
    match current_path {
        CapabilityValue::Available { value, .. } => path::neighbor_dependency_for_path(value),
        CapabilityValue::Unknown { reason, .. } => NeighborDependency::Unknown {
            reason: text::join2("current path is unknown: ", reason.debug_text().as_str()),
        },
        CapabilityValue::Unavailable { reason, .. } => NeighborDependency::Unknown {
            reason: text::join2("current path is unavailable: ", reason.debug_text().as_str()),
        },
    }
}

/// The address that a resolver is asked at. The interface of an IPv6 resolver is its scope.
pub open spec fn resolver_address(endpoint: ResolverEndpointView) -> SocketAddr {
    SocketAddr {
        address: endpoint.address,
        port: endpoint.port,
        scope_id: match (endpoint.address, endpoint.interface) {
            (IpAddr::V6(_), Some(interface)) => interface.index,
            _ => 0,
        },
    }
}

pub fn resolver_socket_address(endpoint: &ResolverEndpoint) -> (result: SocketAddr)
    ensures
        result == resolver_address(endpoint.deep_view()),
{
    match endpoint.address {
        IpAddr::V4(_) => SocketAddr::new(endpoint.address, endpoint.port),
        IpAddr::V6(_) => SocketAddr {
            address: endpoint.address,
            port: endpoint.port,
            scope_id: match &endpoint.interface {
                Some(interface) => interface.index,
                None => 0,
            },
        },
    }
}

/// What a resolver is called in evidence.
pub open spec fn resolver_name(endpoint: ResolverEndpointView) -> EvidenceSubjectView {
    EvidenceSubjectView::Resolver(resolver_address(endpoint).shown())
}

pub fn resolver_subject(endpoint: &ResolverEndpoint) -> (result: EvidenceSubject)
    ensures
        result.deep_view() == resolver_name(endpoint.deep_view()),
{
    EvidenceSubject::Resolver(resolver_socket_address(endpoint).to_text())
}

/// Whether a DNS answer was cut off.
pub open spec fn dns_truncated(attempt: AttemptView) -> bool {
    attempt.outcome matches AttemptOutcomeView::Dns(
        DnsAttemptResultView::Response { truncated: true, .. },
    )
}

pub fn is_dns_truncated(attempt: &Attempt) -> (result: bool)
    ensures
        result == dns_truncated(attempt.deep_view()),
{
    match &attempt.outcome {
        AttemptOutcome::Dns(DnsAttemptResult::Response { truncated, .. }) => *truncated,
        _ => false,
    }
}

/// Whether a DNS server answered at all.
pub open spec fn dns_responded(attempt: AttemptView) -> bool {
    attempt.outcome matches AttemptOutcomeView::Dns(DnsAttemptResultView::Response { .. })
}

pub fn is_dns_response(attempt: &Attempt) -> (result: bool)
    ensures
        result == dns_responded(attempt.deep_view()),
{
    match &attempt.outcome {
        AttemptOutcome::Dns(DnsAttemptResult::Response { .. }) => true,
        _ => false,
    }
}

/// The name of a query type.
pub open spec fn query_type_debug(query_type: DnsQueryType) -> Seq<char> {
    match query_type {
        DnsQueryType::A => "A"@,
        DnsQueryType::Aaaa => "Aaaa"@,
    }
}

/// The hop limit of an attempt.
pub open spec fn hop_limit_debug(hop_limit: u8) -> Seq<char> {
    " { hop_limit: "@ + text::decimal(hop_limit as nat) + " }"@
}

fn hop_limit_debug_text(hop_limit: u8) -> (result: String)
    ensures
        result@ == hop_limit_debug(hop_limit),
{
    text::join3(" { hop_limit: ", text::decimal_text(hop_limit as u64).as_str(), " }")
}

/// The name of a kind of attempt, with its parameters.
pub open spec fn attempt_kind_debug(kind: AttemptKind) -> Seq<char> {
    match kind {
        AttemptKind::TcpConnect => "TcpConnect"@,
        AttemptKind::TargetIcmpEcho => "TargetIcmpEcho"@,
        AttemptKind::NextHopIcmpEcho => "NextHopIcmpEcho"@,
        AttemptKind::TcpPath { hop_limit } => "TcpPath"@ + hop_limit_debug(hop_limit),
        AttemptKind::IcmpPath { hop_limit } => "IcmpPath"@ + hop_limit_debug(hop_limit),
        AttemptKind::DnsUdp { query_type } => "DnsUdp { query_type: "@ + query_type_debug(
            query_type,
        ) + " }"@,
        AttemptKind::DnsTcp { query_type } => "DnsTcp { query_type: "@ + query_type_debug(
            query_type,
        ) + " }"@,
    }
}

fn query_type_debug_text(query_type: DnsQueryType) -> (result: &'static str)
    ensures
        result@ == query_type_debug(query_type),
{
    match query_type {
        DnsQueryType::A => "A",
        DnsQueryType::Aaaa => "Aaaa",
    }
}

fn attempt_kind_debug_text(kind: AttemptKind) -> (result: String)
    ensures
        result@ == attempt_kind_debug(kind),
{
    match kind {
        AttemptKind::TcpConnect => "TcpConnect".to_owned(),
        AttemptKind::TargetIcmpEcho => "TargetIcmpEcho".to_owned(),
        AttemptKind::NextHopIcmpEcho => "NextHopIcmpEcho".to_owned(),
        AttemptKind::TcpPath { hop_limit } => text::join2(
            "TcpPath",
            hop_limit_debug_text(hop_limit).as_str(),
        ),
        AttemptKind::IcmpPath { hop_limit } => text::join2(
            "IcmpPath",
            hop_limit_debug_text(hop_limit).as_str(),
        ),
        AttemptKind::DnsUdp { query_type } => text::join3(
            "DnsUdp { query_type: ",
            query_type_debug_text(query_type),
            " }",
        ),
        AttemptKind::DnsTcp { query_type } => text::join3(
            "DnsTcp { query_type: ",
            query_type_debug_text(query_type),
            " }",
        ),
    }
}

/// An optional system error code.
pub open spec fn optional_code_debug(code: Option<i32>) -> Seq<char> {
    match code {
        Some(code) => "Some("@ + text::signed_decimal(code as int) + ")"@,
        None => "None"@,
    }
}

fn optional_code_debug_text(code: Option<i32>) -> (result: String)
    ensures
        result@ == optional_code_debug(code),
{
    match code {
        Some(code) => text::join3("Some(", text::signed_decimal_text(code).as_str(), ")"),
        None => "None".to_owned(),
    }
}

/// What a direct DNS attempt brought, in a few words.
pub open spec fn dns_summary(kind: AttemptKind, result: DnsAttemptResultView) -> Seq<char> {
    attempt_kind_debug(kind) + ": "@ + match result {
        DnsAttemptResultView::Response { response_code, addresses, aliases, truncated } => {
            "response code "@ + text::decimal(response_code as nat) + ", "@ + text::decimal(
                addresses.len(),
            ) + " address(es), "@ + text::decimal(aliases.len()) + " alias(es), truncated="@ + (
            if truncated {
                "true"@
            } else {
                "false"@
            })
        },
        DnsAttemptResultView::TransportError { os_code } => "transport error (OS code "@
            + optional_code_debug(os_code) + ")"@,
        DnsAttemptResultView::ProtocolError => "protocol error"@,
        DnsAttemptResultView::Timeout => "timeout"@,
    }
}

pub fn direct_dns_evidence_summary(attempt: &Attempt) -> (result: Result<String, DiagnosticIoError>)
    ensures
        match attempt.deep_view().outcome {
            AttemptOutcomeView::Dns(outcome) => result matches Ok(summary) && summary@
                == dns_summary(attempt.kind, outcome),
            _ => result matches Err(error) && error.deep_view() == wrong_dns_outcome(),
        },
{
    let AttemptOutcome::Dns(outcome) = &attempt.outcome else {
        return Err(wrong_dns_outcome_error());
    };
    let detail = match outcome {
        DnsAttemptResult::Response { response_code, addresses, aliases, truncated } => {
            let mut detail = text::join3(
                "response code ",
                text::decimal_text(*response_code as u64).as_str(),
                ", ",
            );
            detail.append(text::decimal_text(addresses.len() as u64).as_str());
            detail.append(" address(es), ");
            detail.append(text::decimal_text(aliases.len() as u64).as_str());
            detail.append(" alias(es), truncated=");
            detail.append(
                if *truncated {
                    "true"
                } else {
                    "false"
                },
            );
            detail
        },
        DnsAttemptResult::TransportError { os_code } => text::join3(
            "transport error (OS code ",
            optional_code_debug_text(*os_code).as_str(),
            ")",
        ),
        DnsAttemptResult::ProtocolError => "protocol error".to_owned(),
        DnsAttemptResult::Timeout => "timeout".to_owned(),
    };
    Ok(text::join3(attempt_kind_debug_text(attempt.kind).as_str(), ": ", detail.as_str()))
}

} // verus!
