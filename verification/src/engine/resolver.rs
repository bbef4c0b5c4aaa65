//! Which resolvers are asked directly once the system resolver has failed, and what they show.
//! Direct answers explain a failure; they never become targets.

use vstd::prelude::*;

use crate::capability::{
    CapabilityReason, CapabilityReasonView, CapabilityValue, CapabilityValueView,
};
use crate::engine::dns::{self, DnsProgress, DnsProgressView, DnsSeries};
use crate::engine::observation;
use crate::engine::preparation::{PreparedPath, PreparedPathView};
use crate::input::{Hostname, HostnameView};
use crate::io::{DiagnosticIoError, DiagnosticIoErrorView};
use crate::lists;
use crate::model::{
    Attempt, AttemptView, DnsQueryType, InitialNetworkSnapshot, InitialNetworkSnapshotView,
    NeighborFact, NeighborFactView, NeighborIdentity, NeighborIdentityView, NeighborState,
    ResolverConfiguration, ResolverConfigurationView, ResolverEndpoint, ResolverEndpointView,
    ResolverTransport, SnapshotInconsistencyScope,
};
use crate::path::{self, InitialPathStatus, NeighborDependency, NeighborDependencyView};
use crate::result::{
    self, Evidence, EvidenceFact, EvidenceFactView, EvidenceId, EvidenceRole, EvidenceSubject,
    EvidenceSubjectView, EvidenceView, ResolverDependencyDiagnostic,
    ResolverDependencyDiagnosticView, TargetNetworkFacts, TargetNetworkFactsView,
};
use crate::sorting::{self, Keyed};
use crate::text;

verus! {

/// The first identifier of resolver diagnosis.
pub const RESOLVER_ID_BASE: u64 = 1_000_000;

/// The distance between the identifiers of one resolver and the next.
pub const RESOLVER_ID_STRIDE: u64 = 1_000;

/// A hostname as domains are compared with it: lower case, without root dots.
pub open spec fn host_form(ascii: Seq<char>) -> Seq<char> {
    text::lower(text::trim_end(ascii, '.'))
}

/// A routing domain as it is compared: lower case, without the mark of a routing-only domain and
/// root dots.
pub open spec fn domain_form(domain: Seq<char>) -> Seq<char> {
    text::lower(text::trim_end(text::trim_start(domain, '~'), '.'))
}

/// How specifically a domain matches a host: the root domain matches every host, another one the
/// host itself and the hosts below it.
pub open spec fn domain_score(domain: Seq<char>, host: Seq<char>) -> Option<nat> {
    let form = domain_form(domain);
    if form.len() == 0 {
        Some(1)
    } else if host == form || text::ends_with(host, "."@ + form) {
        Some(text::byte_len(form) + 1)
    } else {
        None
    }
}

/// The greater of two scores; a missing one is smaller than any.
pub open spec fn greater_score(left: Option<nat>, right: Option<nat>) -> Option<nat> {
    match (left, right) {
        (Some(left), Some(right)) => Some(
            if right > left {
                right
            } else {
                left
            },
        ),
        (None, right) => right,
        (left, None) => left,
    }
}

/// The best score of domains.
pub open spec fn best_domain_score(domains: Seq<Seq<char>>, host: Seq<char>) -> Option<nat>
    decreases domains.len(),
{
    if domains.len() == 0 {
        None
    } else {
        greater_score(
            best_domain_score(domains.drop_last(), host),
            domain_score(domains.last(), host),
        )
    }
}

/// How specifically a resolver matches a host; one without domains matches all hosts least.
pub open spec fn match_score(endpoint: ResolverEndpointView, ascii: Seq<char>) -> Option<nat> {
    if endpoint.domains.len() == 0 {
        Some(0)
    } else {
        best_domain_score(endpoint.domains, host_form(ascii))
    }
}

/// The best score of resolvers, or zero.
pub open spec fn best_score(endpoints: Seq<ResolverEndpointView>, ascii: Seq<char>) -> nat
    decreases endpoints.len(),
{
    if endpoints.len() == 0 {
        0
    } else {
        let before = best_score(endpoints.drop_last(), ascii);
        match match_score(endpoints.last(), ascii) {
            Some(score) => if score > before {
                score
            } else {
                before
            },
            None => before,
        }
    }
}

/// Whether a transport can be asked directly.
pub open spec fn classic(transport: ResolverTransport) -> bool {
    transport == ResolverTransport::Udp || transport == ResolverTransport::Tcp
}

/// Accepts the resolvers with a given score whose transport can, or cannot, be asked directly.
pub open spec fn chosen(ascii: Seq<char>, score: nat, askable: bool) -> spec_fn(
    ResolverEndpointView,
) -> bool {
    |endpoint: ResolverEndpointView|
        match_score(endpoint, ascii) == Some(score) && classic(endpoint.transport) == askable
}

/// The resolvers that match a host best: those that can be asked directly, or the others.
pub open spec fn selected(
    endpoints: Seq<ResolverEndpointView>,
    ascii: Seq<char>,
    askable: bool,
) -> Seq<ResolverEndpointView> {
    endpoints.filter(chosen(ascii, best_score(endpoints, ascii), askable))
}

fn score_of_domain(domain: &str, host: &str) -> (result: Option<u128>)
    ensures
        match result {
            Some(score) => domain_score(domain@, host@) == Some(score as nat),
            None => domain_score(domain@, host@) is None,
        },
{
    let without_mark = text::trimmed_start(domain, '~');
    let without_dot = text::trimmed_end(without_mark.as_str(), '.');
    let form = text::lower_text(without_dot.as_str());
    if form.as_str().unicode_len() == 0 {
        return Some(1);
    }
    let below = text::join2(".", form.as_str());
    if text::same_text(host, form.as_str()) || text::has_suffix(host, below.as_str()) {
        Some(text::byte_length(form.as_str()) as u128 + 1)
    } else {
        None
    }
}

fn greater_of(left: Option<u128>, right: Option<u128>) -> (result: Option<u128>)
    ensures
        result == (match (left, right) {
            (Some(left), Some(right)) => Some(
                if right > left {
                    right
                } else {
                    left
                },
            ),
            (None, right) => right,
            (left, None) => left,
        }),
{
    match (left, right) {
        (Some(left), Some(right)) => Some(
            if right > left {
                right
            } else {
                left
            },
        ),
        (None, right) => right,
        (left, None) => left,
    }
}

/// An executable score as a mathematical one.
pub open spec fn score_view(score: Option<u128>) -> Option<nat> {
    match score {
        Some(score) => Some(score as nat),
        None => None,
    }
}

pub fn resolver_match_score(endpoint: &ResolverEndpoint, hostname: &Hostname) -> (result: Option<
    u128,
>)
    ensures
        score_view(result) == match_score(endpoint.deep_view(), hostname.deep_view().ascii),
{
    if endpoint.domains.len() == 0 {
        return Some(0);
    }
    let trimmed = text::trimmed_end(hostname.ascii(), '.');
    let host = text::lower_text(trimmed.as_str());
    let ghost all = endpoint.domains.deep_view();
    let mut best: Option<u128> = None;
    let mut i: usize = 0;
    while i < endpoint.domains.len()
        invariant
            i <= endpoint.domains.len(),
            all == endpoint.domains.deep_view(),
            score_view(best) == best_domain_score(all.take(i as int), host@),
        decreases endpoint.domains.len() - i,
    {
        assert(all.take(i + 1).drop_last() =~= all.take(i as int));
        assert(all.take(i + 1).last() == endpoint.domains@[i as int]@);
        best = greater_of(best, score_of_domain(endpoint.domains[i].as_str(), host.as_str()));
        i += 1;
    }
    assert(all.take(i as int) =~= all);
    best
}

fn find_best_score(endpoints: &Vec<ResolverEndpoint>, hostname: &Hostname) -> (result: u128)
    ensures
        result as nat == best_score(endpoints.deep_view(), hostname.deep_view().ascii),
{
    let ghost all = endpoints.deep_view();
    let ghost ascii = hostname.deep_view().ascii;
    let mut best: u128 = 0;
    let mut i: usize = 0;
    while i < endpoints.len()
        invariant
            i <= endpoints.len(),
            all == endpoints.deep_view(),
            ascii == hostname.deep_view().ascii,
            best as nat == best_score(all.take(i as int), ascii),
        decreases endpoints.len() - i,
    {
        assert(all.take(i + 1).drop_last() =~= all.take(i as int));
        assert(all.take(i + 1).last() == endpoints@[i as int].deep_view());
        if let Some(score) = resolver_match_score(&endpoints[i], hostname) {
            if score > best {
                best = score;
            }
        }
        i += 1;
    }
    assert(all.take(i as int) =~= all);
    best
}

fn is_classic(transport: ResolverTransport) -> (result: bool)
    ensures
        result == classic(transport),
{
    match transport {
        ResolverTransport::Udp | ResolverTransport::Tcp => true,
        _ => false,
    }
}

/// Chooses the resolvers that match a hostname best, those that can be asked directly and the
/// others apart.
pub fn select_resolver_candidates(
    hostname: &Hostname,
    configuration: &ResolverConfiguration,
) -> (result: (Vec<ResolverEndpoint>, Vec<ResolverEndpoint>))
    ensures
        result.0.deep_view() == selected(
            configuration.endpoints.deep_view(),
            hostname.deep_view().ascii,
            true,
        ),
        result.1.deep_view() == selected(
            configuration.endpoints.deep_view(),
            hostname.deep_view().ascii,
            false,
        ),
{
    let endpoints = &configuration.endpoints;
    let best = find_best_score(endpoints, hostname);
    let ghost all = endpoints.deep_view();
    let ghost ascii = hostname.deep_view().ascii;
    let ghost askable = chosen(ascii, best as nat, true);
    let ghost other = chosen(ascii, best as nat, false);
    let mut candidates: Vec<ResolverEndpoint> = Vec::new();
    let mut unsupported: Vec<ResolverEndpoint> = Vec::new();
    let mut i: usize = 0;
    proof {
        lists::lemma_filter_empty(all, askable);
        lists::lemma_filter_empty(all, other);
        assert(candidates.deep_view() =~= all.take(0).filter(askable));
        assert(unsupported.deep_view() =~= all.take(0).filter(other));
    }
    while i < endpoints.len()
        invariant
            i <= endpoints.len(),
            all == endpoints.deep_view(),
            ascii == hostname.deep_view().ascii,
            askable == chosen(ascii, best as nat, true),
            other == chosen(ascii, best as nat, false),
            candidates.deep_view() == all.take(i as int).filter(askable),
            unsupported.deep_view() == all.take(i as int).filter(other),
        decreases endpoints.len() - i,
    {
        proof {
            lists::lemma_filter_step(all, i as int, askable);
            lists::lemma_filter_step(all, i as int, other);
        }
        let ghost first = candidates.deep_view();
        let ghost second = unsupported.deep_view();
        let endpoint = &endpoints[i];
        assert(all[i as int] == endpoint.deep_view());
        let is_best = match resolver_match_score(endpoint, hostname) {
            Some(score) => score == best,
            None => false,
        };
        if is_best {
            if is_classic(endpoint.transport) {
                candidates.push(endpoint.clone());
                assert(candidates.deep_view() =~= first.push(all[i as int]));
            } else {
                unsupported.push(endpoint.clone());
                assert(unsupported.deep_view() =~= second.push(all[i as int]));
            }
        }
        i += 1;
    }
    assert(all.take(i as int) =~= all);
    (candidates, unsupported)
}

impl Keyed for String {
    open spec fn key_of(view: Seq<char>) -> Seq<u128> {
        sorting::text_key(view)
    }

    fn sort_key(&self) -> (key: Vec<u128>) {
        let mut key: Vec<u128> = Vec::new();
        sorting::push_text(&mut key, self.as_str());
        assert(key@ =~= sorting::text_key(self@));
        key
    }
}

/// Domains in lower case.
pub open spec fn lowered(domains: Seq<Seq<char>>) -> Seq<Seq<char>> {
    Seq::new(domains.len(), |i: int| text::lower(domains[i]))
}

/// The domains of a resolver as one text, whatever order they are listed in.
pub open spec fn domains_text(domains: Seq<Seq<char>>) -> Seq<char> {
    text::joined(sorting::sorted::<String>(lowered(domains)), "\0"@)
}

fn resolver_domains_sort_key(endpoint: &ResolverEndpoint) -> (result: String)
    ensures
        result@ == domains_text(endpoint.deep_view().domains),
{
    let ghost all = endpoint.domains.deep_view();
    let mut domains: Vec<String> = Vec::new();
    let mut i: usize = 0;
    while i < endpoint.domains.len()
        invariant
            i <= endpoint.domains.len(),
            all == endpoint.domains.deep_view(),
            domains@.len() == i,
            forall|j: int| 0 <= j < i ==> (#[trigger] domains@[j])@ == text::lower(all[j]),
        decreases endpoint.domains.len() - i,
    {
        assert(all[i as int] == endpoint.domains@[i as int]@);
        domains.push(text::lower_text(endpoint.domains[i].as_str()));
        i += 1;
    }
    assert(domains.deep_view() =~= lowered(all));
    let domains = sorting::stable_sort(domains);
    text::join_all(&domains, "\0")
}

/// The place of a transport among resolvers that are otherwise equal.
pub open spec fn transport_rank(transport: ResolverTransport) -> u128 {
    match transport {
        ResolverTransport::Udp => 0,
        ResolverTransport::Tcp => 1,
        ResolverTransport::Tls => 2,
        ResolverTransport::Https => 3,
        ResolverTransport::SystemPrivate => 4,
        ResolverTransport::Unknown => 5,
    }
}

fn resolver_transport_order(transport: ResolverTransport) -> (result: u128)
    ensures
        result == transport_rank(transport),
{
    match transport {
        ResolverTransport::Udp => 0,
        ResolverTransport::Tcp => 1,
        ResolverTransport::Tls => 2,
        ResolverTransport::Https => 3,
        ResolverTransport::SystemPrivate => 4,
        ResolverTransport::Unknown => 5,
    }
}

/// The part of a key for an optional text: missing comes first.
pub open spec fn optional_text_key(value: Option<Seq<char>>) -> Seq<u128> {
    match value {
        Some(value) => seq![1u128] + sorting::text_key(value),
        None => seq![0u128],
    }
}

/// Resolvers are ordered by the stable identity and index of their interface, then by priority,
/// address, port, transport and domains.
pub open spec fn resolver_key(endpoint: ResolverEndpointView) -> Seq<u128> {
    optional_text_key(
        match endpoint.interface {
            Some(interface) => interface.stable_id,
            None => None,
        },
    ) + sorting::optional_key(
        match endpoint.interface {
            Some(interface) => Some(interface.index as u64),
            None => None,
        },
    ) + seq![
        match endpoint.priority {
            Some(priority) => priority as u128,
            None => u64::MAX as u128,
        },
    ] + sorting::address_key(endpoint.address) + seq![
        endpoint.port as u128,
        transport_rank(endpoint.transport),
    ] + sorting::text_key(domains_text(endpoint.domains))
}

impl Keyed for ResolverEndpoint {
    open spec fn key_of(view: ResolverEndpointView) -> Seq<u128> {
        resolver_key(view)
    }

    fn sort_key(&self) -> (key: Vec<u128>) {
        let mut key: Vec<u128> = Vec::new();
        let ghost view = self.deep_view();
        let ghost name = optional_text_key(
            match view.interface {
                Some(interface) => interface.stable_id,
                None => None,
            },
        );
        let index: Option<u64> = match &self.interface {
            Some(interface) => {
                match &interface.stable_id {
                    Some(stable_id) => {
                        key.push(1);
                        sorting::push_text(&mut key, stable_id.as_str());
                    },
                    None => key.push(0),
                }
                Some(interface.index as u64)
            },
            None => {
                key.push(0);
                None
            },
        };
        assert(key@ =~= name);
        sorting::push_optional(&mut key, index);
        let ghost before = key@;
        let priority: u64 = match self.priority {
            Some(priority) => priority,
            None => u64::MAX,
        };
        key.push(priority as u128);
        assert(key@ =~= before + seq![priority as u128]);
        sorting::push_address(&mut key, self.address);
        let ghost before = key@;
        key.push(self.port as u128);
        key.push(resolver_transport_order(self.transport));
        assert(key@ =~= before + seq![self.port as u128, transport_rank(self.transport)]);
        let domains = resolver_domains_sort_key(self);
        sorting::push_text(&mut key, domains.as_str());
        key
    }
}

/// What is to be done about a failure of the system resolver.
#[derive(Debug, Eq, PartialEq)]
pub struct ResolverPlan {
    pub candidates: Vec<ResolverEndpoint>,
    pub evidence: Vec<Evidence>,
}

/// The contents of a [`ResolverPlan`].
#[verifier::ext_equal]
pub struct ResolverPlanView {
    pub candidates: Seq<ResolverEndpointView>,
    pub evidence: Seq<EvidenceView>,
}

impl DeepView for ResolverPlan {
    type V = ResolverPlanView;

    open spec fn deep_view(&self) -> ResolverPlanView {
        ResolverPlanView {
            candidates: self.candidates.deep_view(),
            evidence: self.evidence.deep_view(),
        }
    }
}

impl Clone for ResolverPlan {
    fn clone(&self) -> (copy: Self)
        ensures
            copy.deep_view() == self.deep_view(),
    {
        let copy = ResolverPlan {
            candidates: self.candidates.clone(),
            evidence: self.evidence.clone(),
        };
        assert(copy.candidates.deep_view() =~= self.candidates.deep_view());
        assert(copy.evidence.deep_view() =~= self.evidence.deep_view());
        copy
    }
}

/// An identifier some places on.
pub open spec fn numbered(first: u64, place: usize) -> u64 {
    first.wrapping_add(place as u64)
}

/// A plan that asks no resolver, for one reason.
pub open spec fn no_candidates(
    capability: Seq<char>,
    reason: CapabilityReasonView,
) -> ResolverPlanView {
    ResolverPlanView {
        candidates: Seq::empty(),
        evidence: seq![
            observation::limitation(100, EvidenceSubjectView::Hostname, capability, reason),
        ],
    }
}

/// Inconsistencies of the snapshot as evidence.
pub open spec fn inconsistency_evidence(details: Seq<Seq<char>>) -> Seq<EvidenceView> {
    Seq::new(
        details.len(),
        |i: int|
            EvidenceView {
                id: EvidenceId(numbered(100, i as usize)),
                subject: EvidenceSubjectView::Hostname,
                role: EvidenceRole::CapabilityLimitation,
                fact: EvidenceFactView::SnapshotInconsistency(details[i]),
            },
    )
}

/// Resolvers that cannot be asked directly as evidence.
pub open spec fn unsupported_evidence(endpoints: Seq<ResolverEndpointView>) -> Seq<EvidenceView> {
    Seq::new(
        endpoints.len(),
        |i: int|
            observation::limitation(
                numbered(110, i as usize),
                observation::resolver_name(endpoints[i]),
                "resolver transport diagnosis"@,
                CapabilityReasonView::QuerySemanticsUnavailable,
            ),
    )
}

/// Resolvers in the order in which they are asked: as configured where that order means
/// something, and by their keys where it does not.
pub open spec fn in_asking_order(
    endpoints: Seq<ResolverEndpointView>,
    ordering_is_semantic: bool,
) -> Seq<ResolverEndpointView> {
    if ordering_is_semantic {
        endpoints
    } else {
        sorting::sorted::<ResolverEndpoint>(endpoints)
    }
}

/// The plan for a configuration that classic DNS takes part in.
pub open spec fn plan_for(
    ascii: Seq<char>,
    configuration: ResolverConfigurationView,
) -> ResolverPlanView {
    let candidates = in_asking_order(
        selected(configuration.endpoints, ascii, true),
        configuration.ordering_is_semantic,
    );
    let unsupported = unsupported_evidence(
        in_asking_order(
            selected(configuration.endpoints, ascii, false),
            configuration.ordering_is_semantic,
        ),
    );
    if candidates.len() == 0 {
        if unsupported.len() == 0 {
            no_candidates(
                "applicable DNS resolver candidate"@,
                CapabilityReasonView::QuerySemanticsUnavailable,
            )
        } else {
            ResolverPlanView { candidates: Seq::empty(), evidence: unsupported }
        }
    } else {
        let qualified = ascii.len() > 0 && ascii.last() == '.';
        ResolverPlanView {
            candidates,
            evidence: if !qualified && configuration.search_domains.len() > 0 {
                unsupported.push(
                    observation::limitation(
                        101,
                        EvidenceSubjectView::Hostname,
                        "system resolver actual query-name equivalence"@,
                        CapabilityReasonView::QuerySemanticsUnavailable,
                    ),
                )
            } else {
                unsupported
            },
        }
    }
}

/// What is to be done about a failure of the system resolver: resolvers are asked only where the
/// snapshot is consistent about them and classic DNS is known to take part.
pub open spec fn resolver_plan(
    hostname: HostnameView,
    snapshot: InitialNetworkSnapshotView,
) -> ResolverPlanView {
    let inconsistent = path::inconsistency_details(
        snapshot.inconsistencies,
        SnapshotInconsistencyScope::ResolverSelection,
    );
    if inconsistent.len() > 0 {
        ResolverPlanView {
            candidates: Seq::empty(),
            evidence: inconsistency_evidence(inconsistent),
        }
    } else {
        match snapshot.resolver_configuration.known() {
            None => no_candidates(
                "applicable resolver configuration"@,
                snapshot.resolver_configuration.missing()->Some_0,
            ),
            Some(configuration) => {
                match configuration.dns_protocol_candidates_applicable.known() {
                    None => no_candidates(
                        "applicable DNS protocol source"@,
                        configuration.dns_protocol_candidates_applicable.missing()->Some_0,
                    ),
                    Some(applicable) => if applicable {
                        plan_for(hostname.ascii, configuration)
                    } else {
                        no_candidates(
                            "applicable DNS protocol source"@,
                            CapabilityReasonView::Other(
                                "captured resolver-source policy does not include classic DNS"@,
                            ),
                        )
                    },
                }
            },
        }
    }
}

fn without_candidates(capability: &str, reason: CapabilityReason) -> (result: ResolverPlan)
    ensures
        result.deep_view() == no_candidates(capability@, reason.deep_view()),
{
    let candidates: Vec<ResolverEndpoint> = Vec::new();
    let mut evidence: Vec<Evidence> = Vec::new();
    evidence.push(
        observation::limitation_evidence(100, EvidenceSubject::Hostname, capability, reason),
    );
    assert(candidates.deep_view() =~= Seq::<ResolverEndpointView>::empty());
    assert(evidence.deep_view() =~= no_candidates(capability@, reason.deep_view()).evidence);
    ResolverPlan { candidates, evidence }
}

fn collect_inconsistencies(details: &Vec<String>) -> (result: Vec<Evidence>)
    ensures
        result.deep_view() == inconsistency_evidence(details.deep_view()),
{
    let ghost all = details.deep_view();
    let mut evidence: Vec<Evidence> = Vec::new();
    let mut i: usize = 0;
    assert(evidence.deep_view() =~= inconsistency_evidence(all).take(0));
    while i < details.len()
        invariant
            i <= details.len(),
            all == details.deep_view(),
            evidence.deep_view() == inconsistency_evidence(all).take(i as int),
        decreases details.len() - i,
    {
        let item = Evidence {
            id: EvidenceId(100u64.wrapping_add(i as u64)),
            subject: EvidenceSubject::Hostname,
            role: EvidenceRole::CapabilityLimitation,
            fact: EvidenceFact::SnapshotInconsistency(details[i].clone()),
        };
        assert(item.deep_view() == inconsistency_evidence(all)[i as int]);
        observation::push_evidence(&mut evidence, item);
        assert(inconsistency_evidence(all).take(i + 1) =~= inconsistency_evidence(all).take(
            i as int,
        ).push(inconsistency_evidence(all)[i as int]));
        i += 1;
    }
    assert(inconsistency_evidence(all).take(i as int) =~= inconsistency_evidence(all));
    evidence
}

fn collect_unsupported(endpoints: &Vec<ResolverEndpoint>) -> (result: Vec<Evidence>)
    ensures
        result.deep_view() == unsupported_evidence(endpoints.deep_view()),
{
    let ghost all = endpoints.deep_view();
    let mut evidence: Vec<Evidence> = Vec::new();
    let mut i: usize = 0;
    assert(evidence.deep_view() =~= unsupported_evidence(all).take(0));
    while i < endpoints.len()
        invariant
            i <= endpoints.len(),
            all == endpoints.deep_view(),
            evidence.deep_view() == unsupported_evidence(all).take(i as int),
        decreases endpoints.len() - i,
    {
        assert(all[i as int] == endpoints@[i as int].deep_view());
        let item = observation::limitation_evidence(
            110u64.wrapping_add(i as u64),
            observation::resolver_subject(&endpoints[i]),
            "resolver transport diagnosis",
            CapabilityReason::QuerySemanticsUnavailable,
        );
        assert(item.deep_view() == unsupported_evidence(all)[i as int]);
        observation::push_evidence(&mut evidence, item);
        assert(unsupported_evidence(all).take(i + 1) =~= unsupported_evidence(all).take(
            i as int,
        ).push(unsupported_evidence(all)[i as int]));
        i += 1;
    }
    assert(unsupported_evidence(all).take(i as int) =~= unsupported_evidence(all));
    evidence
}

fn put_in_asking_order(
    endpoints: Vec<ResolverEndpoint>,
    ordering_is_semantic: bool,
) -> (result: Vec<ResolverEndpoint>)
    ensures
        result.deep_view() == in_asking_order(endpoints.deep_view(), ordering_is_semantic),
{
    if ordering_is_semantic {
        endpoints
    } else {
        sorting::stable_sort(endpoints)
    }
}

fn plan_with_configuration(
    hostname: &Hostname,
    configuration: &ResolverConfiguration,
) -> (result: ResolverPlan)
    ensures
        result.deep_view() == plan_for(hostname.deep_view().ascii, configuration.deep_view()),
{
    let (candidates, unsupported) = select_resolver_candidates(hostname, configuration);
    let candidates = put_in_asking_order(candidates, configuration.ordering_is_semantic);
    let unsupported = put_in_asking_order(unsupported, configuration.ordering_is_semantic);
    let mut evidence = collect_unsupported(&unsupported);
    assert(candidates@.len() == candidates.deep_view().len());
    assert(evidence@.len() == evidence.deep_view().len());
    if candidates.len() == 0 {
        if evidence.len() == 0 {
            return without_candidates(
                "applicable DNS resolver candidate",
                CapabilityReason::QuerySemanticsUnavailable,
            );
        }
        assert(candidates.deep_view() =~= Seq::<ResolverEndpointView>::empty());
        return ResolverPlan { candidates, evidence };
    }
    let letters = text::characters(hostname.ascii());
    let qualified = letters.len() > 0 && letters[letters.len() - 1] == '.';
    if !qualified && configuration.search_domains.len() > 0 {
        observation::push_evidence(
            &mut evidence,
            observation::limitation_evidence(
                101,
                EvidenceSubject::Hostname,
                "system resolver actual query-name equivalence",
                CapabilityReason::QuerySemanticsUnavailable,
            ),
        );
    }
    ResolverPlan { candidates, evidence }
}

/// Plans what is to be done about a failure of the system resolver.
pub fn plan_resolver_diagnosis(
    hostname: &Hostname,
    snapshot: &InitialNetworkSnapshot,
) -> (result: ResolverPlan)
    ensures
        result.deep_view() == resolver_plan(hostname.deep_view(), snapshot.deep_view()),
{
    let inconsistent = path::details_of(
        &snapshot.inconsistencies,
        SnapshotInconsistencyScope::ResolverSelection,
    );
    assert(inconsistent@.len() == inconsistent.deep_view().len());
    if inconsistent.len() > 0 {
        let candidates: Vec<ResolverEndpoint> = Vec::new();
        assert(candidates.deep_view() =~= Seq::<ResolverEndpointView>::empty());
        return ResolverPlan { candidates, evidence: collect_inconsistencies(&inconsistent) };
    }
    let configuration = match &snapshot.resolver_configuration {
        CapabilityValue::Available { value, .. } => value,
        CapabilityValue::Unknown { reason, .. } => {
            return without_candidates("applicable resolver configuration", reason.clone());
        },
        CapabilityValue::Unavailable { reason, .. } => {
            return without_candidates("applicable resolver configuration", reason.clone());
        },
    };
    match &configuration.dns_protocol_candidates_applicable {
        CapabilityValue::Available { value, .. } => if *value {
            plan_with_configuration(hostname, configuration)
        } else {
            without_candidates(
                "applicable DNS protocol source",
                CapabilityReason::Other(
                    "captured resolver-source policy does not include classic DNS".to_owned(),
                ),
            )
        },
        CapabilityValue::Unknown { reason, .. } => {
            without_candidates("applicable DNS protocol source", reason.clone())
        },
        CapabilityValue::Unavailable { reason, .. } => {
            without_candidates("applicable DNS protocol source", reason.clone())
        },
    }
}

/// A resolver that is ready to be asked.
#[derive(Debug, Eq, PartialEq)]
pub struct PreparedResolver {
    pub endpoint: ResolverEndpoint,
    pub path: PreparedPath,
}

/// The contents of a [`PreparedResolver`].
#[verifier::ext_equal]
pub struct PreparedResolverView {
    pub endpoint: ResolverEndpointView,
    pub path: PreparedPathView,
}

impl DeepView for PreparedResolver {
    type V = PreparedResolverView;

    open spec fn deep_view(&self) -> PreparedResolverView {
        PreparedResolverView {
            endpoint: self.endpoint.deep_view(),
            path: self.path.deep_view(),
        }
    }
}

impl Clone for PreparedResolver {
    fn clone(&self) -> (copy: Self)
        ensures
            copy.deep_view() == self.deep_view(),
    {
        PreparedResolver {
            endpoint: self.endpoint.clone(),
            path: self.path.clone(),
        }
    }
}

/// What the diagnosis of a resolver waits for.
#[derive(Clone, Copy, Debug, Eq, PartialEq, Structural)]
pub enum ResolverStage {
    Queries,
    NeighborRead,
    NeighborConvergence,
}

impl DeepView for ResolverStage {
    type V = ResolverStage;

    open spec fn deep_view(&self) -> ResolverStage {
        *self
    }
}

/// The diagnosis of one resolver, between two operations.
#[derive(Debug, Eq, PartialEq)]
pub struct ResolverMachine {
    prepared: PreparedResolver,
    base_id: u64,
    facts: TargetNetworkFacts,
    attempts: Vec<Attempt>,
    evidence: Vec<Evidence>,
    stage: ResolverStage,
}

/// The contents of a [`ResolverMachine`].
#[verifier::ext_equal]
pub struct ResolverMachineView {
    pub prepared: PreparedResolverView,
    pub base_id: u64,
    pub facts: TargetNetworkFactsView,
    pub attempts: Seq<AttemptView>,
    pub evidence: Seq<EvidenceView>,
    pub stage: ResolverStage,
}

impl DeepView for ResolverMachine {
    type V = ResolverMachineView;

    closed spec fn deep_view(&self) -> ResolverMachineView {
        ResolverMachineView {
            prepared: self.prepared.deep_view(),
            base_id: self.base_id,
            facts: self.facts.deep_view(),
            attempts: self.attempts.deep_view(),
            evidence: self.evidence.deep_view(),
            stage: self.stage,
        }
    }
}

impl Clone for ResolverMachine {
    fn clone(&self) -> (copy: Self)
        ensures
            copy.deep_view() == self.deep_view(),
    {
        let copy = ResolverMachine {
            prepared: self.prepared.clone(),
            base_id: self.base_id,
            facts: self.facts.clone(),
            attempts: self.attempts.clone(),
            evidence: self.evidence.clone(),
            stage: self.stage,
        };
        assert(copy.attempts.deep_view() =~= self.attempts.deep_view());
        assert(copy.evidence.deep_view() =~= self.evidence.deep_view());
        copy
    }
}

/// Where the diagnosis of a resolver stands. The two series of queries run side by side.
#[derive(Debug, Eq, PartialEq)]
pub enum ResolverProgress {
    Querying { machine: ResolverMachine, a: DnsProgress, aaaa: DnsProgress },
    ReadingNeighbor { machine: ResolverMachine, identity: NeighborIdentity },
    AwaitingNeighbor { machine: ResolverMachine, identity: NeighborIdentity },
    Finished(ResolverDependencyDiagnostic),
    Failed(DiagnosticIoError),
}

/// The contents of a [`ResolverProgress`].
#[verifier::ext_equal]
pub enum ResolverProgressView {
    Querying { machine: ResolverMachineView, a: DnsProgressView, aaaa: DnsProgressView },
    ReadingNeighbor { machine: ResolverMachineView, identity: NeighborIdentityView },
    AwaitingNeighbor { machine: ResolverMachineView, identity: NeighborIdentityView },
    Finished(ResolverDependencyDiagnosticView),
    Failed(DiagnosticIoErrorView),
}

impl DeepView for ResolverProgress {
    type V = ResolverProgressView;

    open spec fn deep_view(&self) -> ResolverProgressView {
        match self {
            ResolverProgress::Querying { machine, a, aaaa } => ResolverProgressView::Querying {
                machine: machine.deep_view(),
                a: a.deep_view(),
                aaaa: aaaa.deep_view(),
            },
            ResolverProgress::ReadingNeighbor { machine, identity } => ResolverProgressView::ReadingNeighbor {
                machine: machine.deep_view(),
                identity: identity.deep_view(),
            },
            ResolverProgress::AwaitingNeighbor { machine, identity } => ResolverProgressView::AwaitingNeighbor {
                machine: machine.deep_view(),
                identity: identity.deep_view(),
            },
            ResolverProgress::Finished(value) => ResolverProgressView::Finished(value.deep_view()),
            ResolverProgress::Failed(value) => ResolverProgressView::Failed(value.deep_view()),
        }
    }
}

impl Clone for ResolverProgress {
    fn clone(&self) -> (copy: Self)
        ensures
            copy.deep_view() == self.deep_view(),
    {
        match self {
            ResolverProgress::Querying { machine, a, aaaa } => ResolverProgress::Querying {
                machine: machine.clone(),
                a: a.clone(),
                aaaa: aaaa.clone(),
            },
            ResolverProgress::ReadingNeighbor { machine, identity } => ResolverProgress::ReadingNeighbor {
                machine: machine.clone(),
                identity: identity.clone(),
            },
            ResolverProgress::AwaitingNeighbor { machine, identity } => ResolverProgress::AwaitingNeighbor {
                machine: machine.clone(),
                identity: identity.clone(),
            },
            ResolverProgress::Finished(value) => ResolverProgress::Finished(value.clone()),
            ResolverProgress::Failed(value) => ResolverProgress::Failed(value.clone()),
        }
    }
}

/// The first identifier of a resolver.
pub open spec fn resolver_base(ordinal: usize) -> u64 {
    (RESOLVER_ID_BASE + ordinal * RESOLVER_ID_STRIDE) as u64
}

/// Whether a resolver with this ordinal has room for its identifiers.
pub open spec fn has_resolver_ids(ordinal: usize) -> bool {
    RESOLVER_ID_BASE + (ordinal + 1) * RESOLVER_ID_STRIDE <= u64::MAX
}

/// The answers to direct queries as evidence, behind other evidence.
pub open spec fn with_answers(
    evidence: Seq<EvidenceView>,
    attempts: Seq<AttemptView>,
    subject: EvidenceSubjectView,
) -> Seq<EvidenceView> {
    evidence + Seq::new(
        attempts.len(),
        |i: int|
            EvidenceView {
                id: EvidenceId(attempts[i].id.0),
                subject,
                role: EvidenceRole::BoundaryNarrowing,
                fact: EvidenceFactView::DirectDnsResult(
                    observation::dns_summary(attempts[i].kind, attempts[i].outcome->Dns_0),
                ),
            },
    )
}

/// Whether every attempt is a DNS attempt.
pub open spec fn all_dns(attempts: Seq<AttemptView>) -> bool {
    forall|i: int| 0 <= i < attempts.len() ==> (#[trigger] attempts[i]).outcome is Dns
}

/// Whether any server answered.
pub open spec fn some_response(attempts: Seq<AttemptView>) -> bool {
    exists|i: int| 0 <= i < attempts.len() && observation::dns_responded(#[trigger] attempts[i])
}

impl ResolverMachineView {
    pub open spec fn subject(self) -> EvidenceSubjectView {
        observation::resolver_name(self.prepared.endpoint)
    }

    pub open spec fn dependency(self) -> NeighborDependencyView {
        self.prepared.path.neighbor_dependency
    }

    pub open spec fn at(self, stage: ResolverStage) -> ResolverMachineView {
        ResolverMachineView { stage, ..self }
    }

    pub open spec fn finished(self) -> ResolverProgressView {
        ResolverProgressView::Finished(
            result::resolver_diagnostic(
                self.prepared.endpoint,
                self.facts,
                self.attempts,
                self.evidence,
            ),
        )
    }

    /// After both series of queries. Where no server answered, the neighbor on the way is looked
    /// at.
    pub open spec fn after_answers(self, attempts: Seq<AttemptView>) -> ResolverProgressView {
        let seen = ResolverMachineView {
            attempts,
            evidence: with_answers(self.evidence, attempts, self.subject()),
            ..self
        };
        if !all_dns(attempts) {
            ResolverProgressView::Failed(observation::wrong_dns_outcome())
        } else if some_response(attempts) {
            seen.finished()
        } else {
            match self.dependency() {
                NeighborDependencyView::Known(identity) => ResolverProgressView::ReadingNeighbor {
                    machine: seen.at(ResolverStage::NeighborRead),
                    identity,
                },
                _ => seen.after_neighbor(None),
            }
        }
    }

    /// After both series ended, each with its attempts or with an error; the error of the first
    /// counts first.
    pub open spec fn joined(
        self,
        a: DnsProgressView,
        aaaa: DnsProgressView,
    ) -> ResolverProgressView {
        match (a, aaaa) {
            (DnsProgressView::Failed(error), _) => ResolverProgressView::Failed(error),
            (DnsProgressView::Finished(_), DnsProgressView::Failed(error)) => {
                ResolverProgressView::Failed(error)
            },
            (DnsProgressView::Finished(first), DnsProgressView::Finished(second)) => {
                self.after_answers(first + second)
            },
            _ => ResolverProgressView::Querying { machine: self, a, aaaa },
        }
    }

    /// After the neighbor was read. One that is still resolving is given time.
    pub open spec fn after_neighbor_read(
        self,
        observed: CapabilityValueView<NeighborFactView>,
    ) -> ResolverProgressView {
        let state = observation::neighbor_state_of(observed);
        if self.stage == ResolverStage::NeighborRead && state == Some(NeighborState::Resolving) {
            ResolverProgressView::AwaitingNeighbor {
                machine: self.at(ResolverStage::NeighborConvergence),
                identity: self.dependency()->Known_0,
            }
        } else {
            ResolverMachineView {
                facts: TargetNetworkFactsView { neighbor_post_state: Some(observed), ..self.facts },
                ..self
            }.after_neighbor(state)
        }
    }

    /// The end of the diagnosis, with what the neighbor shows or why it shows nothing.
    pub open spec fn after_neighbor(self, state: Option<NeighborState>) -> ResolverProgressView {
        if state is Some {
            ResolverMachineView {
                evidence: observation::with_neighbor_evidence(
                    self.evidence,
                    self.facts,
                    dns::offset(self.base_id, 900),
                ),
                ..self
            }.finished()
        } else {
            self.with_limitation(
                observation::observation_limitation(
                    self.dependency(),
                    self.facts.neighbor_post_state,
                    self.subject(),
                    "resolver post-failure Neighbor observation"@,
                    dns::offset(self.base_id, 900),
                ),
            ).with_limitation(
                observation::dependency_limitation(
                    self.dependency(),
                    self.subject(),
                    "resolver neighbor diagnosis"@,
                    dns::offset(self.base_id, 901),
                ),
            ).finished()
        }
    }

    pub open spec fn with_limitation(self, item: Option<EvidenceView>) -> ResolverMachineView {
        match item {
            Some(item) => ResolverMachineView { evidence: self.evidence.push(item), ..self },
            None => self,
        }
    }

    /// Whether the parts of the machine fit each other.
    pub open spec fn valid(self) -> bool {
        &&& self.base_id + RESOLVER_ID_STRIDE <= u64::MAX
        &&& self.stage != ResolverStage::Queries ==> self.dependency() is Known
    }
}

impl ResolverProgressView {
    /// Whether a machine that waits is valid.
    pub open spec fn valid(self) -> bool {
        match self {
            ResolverProgressView::Querying { machine, a, aaaa } => machine.valid() && a.valid()
                && aaaa.valid(),
            ResolverProgressView::ReadingNeighbor { machine, .. } => machine.valid(),
            ResolverProgressView::AwaitingNeighbor { machine, .. } => machine.valid(),
            _ => true,
        }
    }
}

/// The start of the diagnosis of a resolver. One without a path is not asked.
pub open spec fn resolver_started(
    prepared: PreparedResolverView,
    hostname: HostnameView,
    ordinal: usize,
) -> ResolverProgressView {
    let base_id = resolver_base(ordinal);
    let machine = ResolverMachineView {
        prepared,
        base_id,
        facts: prepared.path.facts(),
        attempts: Seq::empty(),
        evidence: observation::path_evidence(
            base_id,
            observation::resolver_name(prepared.endpoint),
            if prepared.path.hopeless() {
                EvidenceRole::BoundaryNarrowing
            } else {
                EvidenceRole::Context
            },
            prepared.path.initial_path,
            prepared.path.current_path,
            "resolver current targeted path lookup"@,
        ),
        stage: ResolverStage::Queries,
    };
    if prepared.path.hopeless() {
        machine.finished()
    } else {
        ResolverProgressView::Querying {
            machine,
            a: dns::queries_started(
                hostname.ascii,
                observation::resolver_address(prepared.endpoint),
                prepared.endpoint.transport,
                DnsQueryType::A,
                dns::offset(base_id, 10),
            ),
            aaaa: dns::queries_started(
                hostname.ascii,
                observation::resolver_address(prepared.endpoint),
                prepared.endpoint.transport,
                DnsQueryType::Aaaa,
                dns::offset(base_id, 110),
            ),
        }
    }
}

fn base_of(ordinal: usize) -> (result: u64)
    requires
        has_resolver_ids(ordinal),
    ensures
        result == resolver_base(ordinal),
        result + RESOLVER_ID_STRIDE <= u64::MAX,
{
    RESOLVER_ID_BASE + ordinal as u64 * RESOLVER_ID_STRIDE
}

impl ResolverMachine {
    /// Begins the diagnosis of a prepared resolver.
    pub fn start(
        prepared: PreparedResolver,
        hostname: &Hostname,
        ordinal: usize,
    ) -> (result: ResolverProgress)
        requires
            has_resolver_ids(ordinal),
        ensures
            result.deep_view() == resolver_started(
                prepared.deep_view(),
                hostname.deep_view(),
                ordinal,
            ),
            result.deep_view().valid(),
    {
        let base_id = base_of(ordinal);
        let hopeless = prepared.path.initial_path.status == InitialPathStatus::DefinitiveNoPath;
        let subject = observation::resolver_subject(&prepared.endpoint);
        let role = if hopeless {
            EvidenceRole::BoundaryNarrowing
        } else {
            EvidenceRole::Context
        };
        let evidence = observation::collect_path_evidence(
            base_id,
            &subject,
            role,
            &prepared.path.initial_path,
            &prepared.path.current_path,
            "resolver current targeted path lookup",
        );
        let facts = prepared.path.network_facts();
        let attempts: Vec<Attempt> = Vec::new();
        assert(attempts.deep_view() =~= Seq::<AttemptView>::empty());
        let machine = ResolverMachine {
            prepared,
            base_id,
            facts,
            attempts,
            evidence,
            stage: ResolverStage::Queries,
        };
        if hopeless {
            return machine.finish();
        }
        let resolver = observation::resolver_socket_address(&machine.prepared.endpoint);
        let transport = machine.prepared.endpoint.transport;
        let a = DnsSeries::start(
            hostname.ascii(),
            resolver,
            transport,
            DnsQueryType::A,
            base_id + 10,
        );
        let aaaa = DnsSeries::start(
            hostname.ascii(),
            resolver,
            transport,
            DnsQueryType::Aaaa,
            base_id + 110,
        );
        ResolverProgress::Querying { machine, a, aaaa }
    }

    fn finish(self) -> (result: ResolverProgress)
        ensures
            result.deep_view() == self.deep_view().finished(),
    {
        ResolverProgress::Finished(
            ResolverDependencyDiagnostic::new(
                self.prepared.endpoint,
                self.facts,
                self.attempts,
                self.evidence,
            ),
        )
    }

    /// Takes the ends of both series of queries, and says what comes next.
    pub fn join(self, a: DnsProgress, aaaa: DnsProgress) -> (result: ResolverProgress)
        requires
            self.deep_view().valid(),
            a.deep_view().valid(),
            aaaa.deep_view().valid(),
        ensures
            result.deep_view() == self.deep_view().joined(a.deep_view(), aaaa.deep_view()),
            result.deep_view().valid(),
    {
        match (a, aaaa) {
            (DnsProgress::Failed(error), _) => ResolverProgress::Failed(error),
            (DnsProgress::Finished(_), DnsProgress::Failed(error)) => {
                ResolverProgress::Failed(error)
            },
            (DnsProgress::Finished(first), DnsProgress::Finished(second)) => {
                let ghost all = first.deep_view() + second.deep_view();
                let mut attempts = first;
                let mut second = second;
                attempts.append(&mut second);
                assert(attempts.deep_view() =~= all);
                self.on_answers(attempts)
            },
            (a, aaaa) => ResolverProgress::Querying { machine: self, a, aaaa },
        }
    }

    fn on_answers(self, attempts: Vec<Attempt>) -> (result: ResolverProgress)
        requires
            self.deep_view().valid(),
        ensures
            result.deep_view() == self.deep_view().after_answers(attempts.deep_view()),
            result.deep_view().valid(),
    {
        let ghost all = attempts.deep_view();
        let mut machine = self;
        let ghost start = machine.evidence.deep_view();
        let subject = observation::resolver_subject(&machine.prepared.endpoint);
        let mut responded = false;
        let mut i: usize = 0;
        assert(machine.evidence.deep_view() =~= with_answers(
            start,
            all.take(0),
            subject.deep_view(),
        ));
        while i < attempts.len()
            invariant
                i <= attempts.len(),
                all == attempts.deep_view(),
                subject.deep_view() == self.deep_view().subject(),
                all_dns(all.take(i as int)),
                responded == some_response(all.take(i as int)),
                machine.deep_view() == (ResolverMachineView {
                    evidence: machine.evidence.deep_view(),
                    ..self.deep_view()
                }),
                machine.evidence.deep_view() == with_answers(
                    start,
                    all.take(i as int),
                    subject.deep_view(),
                ),
            decreases attempts.len() - i,
        {
            let attempt = &attempts[i];
            assert(all[i as int] == attempt.deep_view());
            assert(all.take(i + 1) =~= all.take(i as int).push(all[i as int]));
            let summary = match observation::direct_dns_evidence_summary(attempt) {
                Ok(summary) => summary,
                Err(error) => {
                    return ResolverProgress::Failed(error);
                },
            };
            let answered = observation::is_dns_response(attempt);
            proof {
                let now = all.take(i + 1);
                if responded {
                    let j = choose|j: int|
                        0 <= j < i && observation::dns_responded(
                            #[trigger] all.take(i as int)[j],
                        );
                    assert(observation::dns_responded(now[j]));
                }
                if answered {
                    assert(observation::dns_responded(now[i as int]));
                }
                if some_response(now) && !answered {
                    let j = choose|j: int|
                        0 <= j < now.len() && observation::dns_responded(#[trigger] now[j]);
                    assert(all.take(i as int)[j] == now[j]);
                }
            }
            if answered {
                responded = true;
            }
            observation::push_evidence(
                &mut machine.evidence,
                Evidence {
                    id: EvidenceId(attempt.id.0),
                    subject: subject.clone(),
                    role: EvidenceRole::BoundaryNarrowing,
                    fact: EvidenceFact::DirectDnsResult(summary),
                },
            );
            i += 1;
            assert(machine.evidence.deep_view() =~= with_answers(
                start,
                all.take(i as int),
                subject.deep_view(),
            ));
        }
        assert(all.take(i as int) =~= all);
        machine.attempts = attempts;
        if responded {
            return machine.finish();
        }
        let known = match &machine.prepared.path.neighbor_dependency {
            NeighborDependency::Known(identity) => Some(identity.clone()),
            _ => None,
        };
        match known {
            Some(identity) => {
                machine.stage = ResolverStage::NeighborRead;
                ResolverProgress::ReadingNeighbor { machine, identity }
            },
            None => machine.on_neighbor(None),
        }
    }

    /// Takes what was read of the neighbor, and says what comes next.
    pub fn observe_neighbor(self, observed: CapabilityValue<NeighborFact>) -> (result:
        ResolverProgress)
        requires
            self.deep_view().valid(),
        ensures
            result.deep_view() == self.deep_view().after_neighbor_read(observed.deep_view()),
            result.deep_view().valid(),
    {
        let state = observation::capability_neighbor_state(&observed);
        let mut machine = self;
        let resolving = match state {
            Some(NeighborState::Resolving) => true,
            _ => false,
        };
        if machine.stage == ResolverStage::NeighborRead && resolving {
            machine.stage = ResolverStage::NeighborConvergence;
            if let NeighborDependency::Known(identity) = &machine.prepared.path.neighbor_dependency {
                let identity = identity.clone();
                return ResolverProgress::AwaitingNeighbor { machine, identity };
            }
        }
        machine.facts.neighbor_post_state = Some(observed);
        machine.on_neighbor(state)
    }

    fn on_neighbor(self, state: Option<NeighborState>) -> (result: ResolverProgress)
        requires
            self.deep_view().valid(),
        ensures
            result.deep_view() == self.deep_view().after_neighbor(state),
    {
        let mut machine = self;
        let id: u64 = machine.base_id + 900;
        if state.is_some() {
            observation::add_neighbor_evidence(&machine.facts, &mut machine.evidence, id);
            return machine.finish();
        }
        let subject = observation::resolver_subject(&machine.prepared.endpoint);
        let unobserved = observation::find_observation_limitation(
            &machine.prepared.path.neighbor_dependency,
            &machine.facts.neighbor_post_state,
            &subject,
            "resolver post-failure Neighbor observation",
            id,
        );
        if let Some(item) = unobserved {
            observation::push_evidence(&mut machine.evidence, item);
        }
        let unknown = observation::find_dependency_limitation(
            &machine.prepared.path.neighbor_dependency,
            &subject,
            "resolver neighbor diagnosis",
            id + 1,
        );
        if let Some(item) = unknown {
            observation::push_evidence(&mut machine.evidence, item);
        }
        machine.finish()
    }
}

/// Whether two configurations differ at most in the order in which resolvers are listed, and that
/// order means nothing.
pub open spec fn same_but_for_resolver_order(
    left: ResolverConfigurationView,
    right: ResolverConfigurationView,
) -> bool {
    &&& left.endpoints.to_multiset() == right.endpoints.to_multiset()
    &&& right == ResolverConfigurationView { endpoints: right.endpoints, ..left }
    &&& !left.ordering_is_semantic
}

/// Where the order of resolvers means nothing, it does not change which are asked and in what
/// order their keys come.
pub proof fn resolver_order_does_not_matter(
    left: ResolverConfigurationView,
    right: ResolverConfigurationView,
    ascii: Seq<char>,
)
    requires
        same_but_for_resolver_order(left, right),
    ensures
        plan_for(ascii, left).candidates.to_multiset() == plan_for(
            ascii,
            right,
        ).candidates.to_multiset(),
        sorting::keys::<ResolverEndpoint>(plan_for(ascii, left).candidates) == sorting::keys::<
            ResolverEndpoint,
        >(plan_for(ascii, right).candidates),
        sorting::in_key_order::<ResolverEndpoint>(plan_for(ascii, left).candidates),
{
    lemma_best_score_in_any_order(left.endpoints, right.endpoints, ascii);
    let keep = chosen(ascii, best_score(left.endpoints, ascii), true);
    lists::lemma_filter_multiset(left.endpoints, keep);
    lists::lemma_filter_multiset(right.endpoints, keep);
    let first = selected(left.endpoints, ascii, true);
    let second = selected(right.endpoints, ascii, true);
    sorting::sorting_is_stable::<ResolverEndpoint>(first);
    sorting::sorting_is_stable::<ResolverEndpoint>(second);
    sorting::sorted_keys_do_not_depend_on_order::<ResolverEndpoint>(first, second);
    lists::lemma_reordered_contains(first, second);
    let none = Seq::<ResolverEndpointView>::empty();
    if first.len() == 0 {
        assert(plan_for(ascii, left).candidates =~= none);
        assert(plan_for(ascii, right).candidates =~= none);
    }
}

pub(crate) proof fn lemma_best_score(endpoints: Seq<ResolverEndpointView>, ascii: Seq<char>)
    ensures
        forall|i: int|
            0 <= i < endpoints.len() ==> (match_score(#[trigger] endpoints[i], ascii) matches Some(
                score,
            ) ==> score <= best_score(endpoints, ascii)),
        best_score(endpoints, ascii) > 0 ==> exists|i: int|
            0 <= i < endpoints.len() && match_score(#[trigger] endpoints[i], ascii) == Some(
                best_score(endpoints, ascii),
            ),
    decreases endpoints.len(),
{
    if endpoints.len() > 0 {
        let rest = endpoints.drop_last();
        lemma_best_score(rest, ascii);
        assert forall|i: int| 0 <= i < rest.len() implies #[trigger] endpoints[i] == rest[i] by {}
        let last = endpoints.len() - 1;
        assert(endpoints[last] == endpoints.last());
        if best_score(endpoints, ascii) > 0 && match_score(endpoints[last], ascii) != Some(
            best_score(endpoints, ascii),
        ) {
            let i = choose|i: int|
                0 <= i < rest.len() && match_score(#[trigger] rest[i], ascii) == Some(
                    best_score(rest, ascii),
                );
            assert(match_score(endpoints[i], ascii) == Some(best_score(endpoints, ascii)));
        }
    }
}

proof fn lemma_best_score_in_any_order(
    left: Seq<ResolverEndpointView>,
    right: Seq<ResolverEndpointView>,
    ascii: Seq<char>,
)
    requires
        left.to_multiset() == right.to_multiset(),
    ensures
        best_score(left, ascii) == best_score(right, ascii),
{
    lemma_best_score(left, ascii);
    lemma_best_score(right, ascii);
    lists::lemma_reordered_contains(left, right);
    if best_score(left, ascii) > 0 {
        let i = choose|i: int|
            0 <= i < left.len() && match_score(#[trigger] left[i], ascii) == Some(
                best_score(left, ascii),
            );
        assert(left.contains(left[i]));
        assert(right.contains(left[i]));
    }
    if best_score(right, ascii) > 0 {
        let i = choose|i: int|
            0 <= i < right.len() && match_score(#[trigger] right[i], ascii) == Some(
                best_score(right, ascii),
            );
        assert(right.contains(right[i]));
        assert(left.contains(right[i]));
    }
}

/// Only resolvers that match the host best and whose transport can be asked directly are asked.
pub proof fn only_best_matching_resolvers_are_asked(
    ascii: Seq<char>,
    configuration: ResolverConfigurationView,
    endpoint: ResolverEndpointView,
)
    ensures
        plan_for(ascii, configuration).candidates.contains(endpoint)
            <==> configuration.endpoints.contains(endpoint) && classic(endpoint.transport)
            && match_score(endpoint, ascii) == Some(best_score(configuration.endpoints, ascii)),
{
    let best = best_score(configuration.endpoints, ascii);
    lists::lemma_filter_contains(configuration.endpoints, chosen(ascii, best, true));
    let found = selected(configuration.endpoints, ascii, true);
    sorting::sorting_is_stable::<ResolverEndpoint>(found);
    lists::lemma_reordered_contains(sorting::sorted::<ResolverEndpoint>(found), found);
    assert(found.contains(endpoint) <==> configuration.endpoints.contains(endpoint) && classic(
        endpoint.transport,
    ) && match_score(endpoint, ascii) == Some(best));
    let ordered = in_asking_order(found, configuration.ordering_is_semantic);
    assert(ordered.contains(endpoint) <==> found.contains(endpoint));
    if ordered.len() == 0 {
        assert(!ordered.contains(endpoint));
    }
}

} // verus!
