//! When resolvers are asked directly, in which order, and how their diagnosis goes on.

use vstd::prelude::*;

use crate::capability::CapabilityValueView;
use crate::engine::dns::DnsProgressView;
use crate::engine::dns_laws;
use crate::engine::resolver::{
    self, PreparedResolverView, ResolverMachineView, ResolverProgressView, ResolverStage,
};
use crate::engine::run;
use crate::input::HostnameView;
use crate::lists;
use crate::model::{
    AttemptOutcomeView, AttemptView, DnsAttemptResultView, DnsQueryType,
    InitialNetworkSnapshotView, NeighborFactView, NeighborState, ResolverConfigurationView,
    ResolverEndpoint, ResolverEndpointView, ResolverTransport, SnapshotInconsistencyScope,
};
use crate::net::IpAddr;
use crate::path::{self, InitialPathStatus, NeighborDependencyView};
use crate::result::{EvidenceRole, EvidenceSubjectView, EvidenceView};
use crate::sorting;

verus! {

/// Whether a snapshot contradicts itself about resolvers.
pub open spec fn is_contradictory(snapshot: InitialNetworkSnapshotView) -> bool {
    exists|i: int|
        0 <= i < snapshot.inconsistencies.len() && (#[trigger] snapshot.inconsistencies[i]).scope
            == SnapshotInconsistencyScope::ResolverSelection
}

/// The configuration of resolvers, where classic DNS is known to take part in it.
pub open spec fn dns_configuration(snapshot: InitialNetworkSnapshotView) -> Option<
    ResolverConfigurationView,
> {
    match snapshot.resolver_configuration {
        CapabilityValueView::Available { value, .. } => {
            match value.dns_protocol_candidates_applicable {
                CapabilityValueView::Available { value: true, .. } => Some(value),
                _ => None,
            }
        },
        _ => None,
    }
}

/// Whether every item of evidence says what this system could not find out.
pub open spec fn all_limit(evidence: Seq<EvidenceView>) -> bool {
    forall|i: int|
        0 <= i < evidence.len() ==> (#[trigger] evidence[i]).role
            == EvidenceRole::CapabilityLimitation
}

/// Resolvers are planned for exactly where the snapshot does not contradict itself about them and
/// classic DNS is known to take part. A plan says what it leaves out, and one that asks nobody
/// says why.
pub proof fn resolvers_are_asked_only_where_they_are_known(
    hostname: HostnameView,
    snapshot: InitialNetworkSnapshotView,
)
    ensures
        ({
            let plan = resolver::resolver_plan(hostname, snapshot);
            &&& all_limit(plan.evidence)
            &&& plan.candidates.len() == 0 ==> plan.evidence.len() > 0
            &&& if is_contradictory(snapshot) {
                plan.candidates.len() == 0
            } else {
                match dns_configuration(snapshot) {
                    Some(configuration) => plan == resolver::plan_for(
                        hostname.ascii,
                        configuration,
                    ),
                    None => plan.candidates.len() == 0,
                }
            }
        }),
{
    let scope = SnapshotInconsistencyScope::ResolverSelection;
    let items = snapshot.inconsistencies;
    lists::lemma_filter_contains(items, path::of_scope(scope));
    let kept = items.filter(path::of_scope(scope));
    if is_contradictory(snapshot) {
        let i = choose|i: int| 0 <= i < items.len() && (#[trigger] items[i]).scope == scope;
        assert(items.contains(items[i]));
        assert(kept.contains(items[i]));
    } else if kept.len() > 0 {
        assert(kept.contains(kept[0]));
        let i = choose|i: int| 0 <= i < items.len() && items[i] == kept[0];
        assert(items[i].scope == scope);
    }
}

/// Where the order of the configuration means something, resolvers are asked in that order.
pub proof fn configured_order_is_kept(ascii: Seq<char>, configuration: ResolverConfigurationView)
    requires
        configuration.ordering_is_semantic,
    ensures
        ({
            let candidates = resolver::plan_for(ascii, configuration).candidates;
            candidates == configuration.endpoints.filter(
                |endpoint: ResolverEndpointView| candidates.contains(endpoint),
            )
        }),
{
    let endpoints = configuration.endpoints;
    let keep = resolver::chosen(ascii, resolver::best_score(endpoints, ascii), true);
    let candidates = resolver::plan_for(ascii, configuration).candidates;
    assert(candidates =~= endpoints.filter(keep));
    lists::lemma_filter_contains(endpoints, keep);
    lemma_same_filter(
        endpoints,
        keep,
        |endpoint: ResolverEndpointView| candidates.contains(endpoint),
    );
}

proof fn lemma_same_filter<A>(
    items: Seq<A>,
    first: spec_fn(A) -> bool,
    second: spec_fn(A) -> bool,
)
    requires
        forall|item: A| #[trigger] items.contains(item) ==> first(item) == second(item),
    ensures
        items.filter(first) == items.filter(second),
    decreases items.len(),
{
    reveal(Seq::filter);
    if items.len() > 0 {
        let rest = items.drop_last();
        assert(items.contains(items[items.len() - 1]));
        assert forall|item: A| #[trigger] rest.contains(item) implies first(item) == second(
            item,
        ) by {
            let i = choose|i: int| 0 <= i < rest.len() && rest[i] == item;
            assert(items[i] == item);
            assert(items.contains(item));
        }
        lemma_same_filter(rest, first, second);
    }
}

/// The priority of a resolver as a number; one without a priority comes last.
pub open spec fn place_by_priority(endpoint: ResolverEndpointView) -> nat {
    match endpoint.priority {
        Some(priority) => priority as nat,
        None => u64::MAX as nat,
    }
}

/// Whether an address comes before another or is the same: IPv4 before IPv6, then by number.
pub open spec fn address_le(left: IpAddr, right: IpAddr) -> bool {
    match (left, right) {
        (IpAddr::V4(left), IpAddr::V4(right)) => left.bits <= right.bits,
        (IpAddr::V4(_), IpAddr::V6(_)) => true,
        (IpAddr::V6(_), IpAddr::V4(_)) => false,
        (IpAddr::V6(left), IpAddr::V6(right)) => left.bits <= right.bits,
    }
}

/// Where the order of the configuration means nothing, the resolvers of one interface are asked by
/// their priority, those of one priority by their address, and those of one address by their port.
pub proof fn resolvers_of_an_interface_are_asked_by_priority(
    ascii: Seq<char>,
    configuration: ResolverConfigurationView,
    first: int,
    second: int,
)
    requires
        !configuration.ordering_is_semantic,
        0 <= first < second < resolver::plan_for(ascii, configuration).candidates.len(),
        resolver::plan_for(ascii, configuration).candidates[first].interface == resolver::plan_for(
            ascii,
            configuration,
        ).candidates[second].interface,
    ensures
        ({
            let candidates = resolver::plan_for(ascii, configuration).candidates;
            let left = candidates[first];
            let right = candidates[second];
            &&& place_by_priority(left) <= place_by_priority(right)
            &&& place_by_priority(left) == place_by_priority(right) ==> address_le(
                left.address,
                right.address,
            )
            &&& place_by_priority(left) == place_by_priority(right) && left.address
                == right.address ==> left.port <= right.port
        }),
{
    let found = resolver::selected(configuration.endpoints, ascii, true);
    sorting::sorting_is_stable::<ResolverEndpoint>(found);
    let candidates = resolver::plan_for(ascii, configuration).candidates;
    assert(candidates == sorting::sorted::<ResolverEndpoint>(found));
    lemma_key_order(candidates[first], candidates[second]);
}

/// The part of a resolver's key that comes from its interface.
spec fn interface_key(endpoint: ResolverEndpointView) -> Seq<u128> {
    resolver::optional_text_key(
        match endpoint.interface {
            Some(interface) => interface.stable_id,
            None => None,
        },
    ) + sorting::optional_key(
        match endpoint.interface {
            Some(interface) => Some(interface.index as u64),
            None => None,
        },
    )
}

/// The part of a resolver's key behind its interface.
spec fn further_key(endpoint: ResolverEndpointView) -> Seq<u128> {
    seq![
        match endpoint.priority {
            Some(priority) => priority as u128,
            None => u64::MAX as u128,
        },
    ] + sorting::address_key(endpoint.address) + seq![
        endpoint.port as u128,
        resolver::transport_rank(endpoint.transport),
    ] + sorting::text_key(resolver::domains_text(endpoint.domains))
}

proof fn lemma_key_order(left: ResolverEndpointView, right: ResolverEndpointView)
    requires
        left.interface == right.interface,
        sorting::key_le(resolver::resolver_key(left), resolver::resolver_key(right)),
    ensures
        place_by_priority(left) <= place_by_priority(right),
        place_by_priority(left) == place_by_priority(right) ==> address_le(
            left.address,
            right.address,
        ),
        place_by_priority(left) == place_by_priority(right) && left.address == right.address
            ==> left.port <= right.port,
{
    assert(resolver::resolver_key(left) =~= interface_key(left) + further_key(left));
    assert(resolver::resolver_key(right) =~= interface_key(right) + further_key(right));
    lemma_common_start(interface_key(left), further_key(left), further_key(right));
    lemma_first_difference(further_key(left), further_key(right));
    let mine = further_key(left);
    let theirs = further_key(right);
    assert(mine[0] == place_by_priority(left) && theirs[0] == place_by_priority(right));
    assert(mine[1] == sorting::address_key(left.address)[0]);
    assert(theirs[1] == sorting::address_key(right.address)[0]);
    assert(mine[2] == sorting::address_key(left.address)[1]);
    assert(theirs[2] == sorting::address_key(right.address)[1]);
    assert(mine[3] == left.port && theirs[3] == right.port);
}

proof fn lemma_common_start(start: Seq<u128>, left: Seq<u128>, right: Seq<u128>)
    requires
        sorting::key_le(start + left, start + right),
    ensures
        sorting::key_le(left, right),
    decreases start.len(),
{
    if start.len() == 0 {
        assert(start + left =~= left);
        assert(start + right =~= right);
    } else {
        assert((start + left).drop_first() =~= start.drop_first() + left);
        assert((start + right).drop_first() =~= start.drop_first() + right);
        lemma_common_start(start.drop_first(), left, right);
    }
}

/// The first of the four leading numbers in which two keys differ decides.
proof fn lemma_first_difference(left: Seq<u128>, right: Seq<u128>)
    requires
        sorting::key_le(left, right),
        left.len() >= 4,
        right.len() >= 4,
    ensures
        left[0] <= right[0],
        left[0] == right[0] ==> left[1] <= right[1],
        left[0] == right[0] && left[1] == right[1] ==> left[2] <= right[2],
        left[0] == right[0] && left[1] == right[1] && left[2] == right[2] ==> left[3] <= right[3],
{
    reveal_with_fuel(sorting::key_le, 5);
}

/// Whether a query got an answer from the server at all.
pub open spec fn is_answered(attempt: AttemptView) -> bool {
    match attempt.outcome {
        AttemptOutcomeView::Dns(DnsAttemptResultView::Response { .. }) => true,
        _ => false,
    }
}

/// Whether any of the queries got an answer.
pub open spec fn some_answered(attempts: Seq<AttemptView>) -> bool {
    exists|i: int| 0 <= i < attempts.len() && is_answered(#[trigger] attempts[i])
}

/// Whether a series asks a resolver for a name and type, at the resolver's own address and port and
/// on its interface where an IPv6 address needs one.
pub open spec fn asks_resolver(
    progress: DnsProgressView,
    endpoint: ResolverEndpointView,
    name: Seq<char>,
    query_type: DnsQueryType,
) -> bool {
    progress matches DnsProgressView::Pending { action, .. } && {
        let operation = dns_laws::operation_of(action).0;
        &&& operation.resolver.address == endpoint.address
        &&& operation.resolver.port == endpoint.port
        &&& operation.resolver.scope_id == (match (endpoint.address, endpoint.interface) {
            (IpAddr::V6(_), Some(interface)) => interface.index,
            _ => 0,
        })
        &&& operation.query_name == name
        &&& operation.query_type == query_type
        &&& action is Tcp <==> endpoint.transport == ResolverTransport::Tcp
    }
}

/// A resolver whose path the snapshot rules out is not asked. Any other is asked for the addresses
/// of both families that the name has, over its own transport.
pub proof fn resolvers_are_asked_for_both_families(
    prepared: PreparedResolverView,
    hostname: HostnameView,
    ordinal: usize,
)
    ensures
        match resolver::resolver_started(prepared, hostname, ordinal) {
            ResolverProgressView::Querying { machine, a, aaaa } => {
                &&& prepared.path.initial_path.status != InitialPathStatus::DefinitiveNoPath
                &&& machine.prepared == prepared
                &&& asks_resolver(a, prepared.endpoint, hostname.ascii, DnsQueryType::A)
                &&& asks_resolver(aaaa, prepared.endpoint, hostname.ascii, DnsQueryType::Aaaa)
            },
            ResolverProgressView::Finished(diagnostic) => {
                &&& prepared.path.initial_path.status == InitialPathStatus::DefinitiveNoPath
                &&& diagnostic.endpoint == prepared.endpoint
                &&& diagnostic.attempts.len() == 0
            },
            _ => false,
        },
{
}

/// Once both series of queries have ended, the diagnosis has the attempts of both. It looks at the
/// neighbor on the way exactly where no query was answered and that neighbor is known.
pub proof fn silence_leads_to_the_neighbor(
    machine: ResolverMachineView,
    a: Seq<AttemptView>,
    aaaa: Seq<AttemptView>,
)
    requires
        forall|i: int| 0 <= i < a.len() ==> (#[trigger] a[i]).outcome is Dns,
        forall|i: int| 0 <= i < aaaa.len() ==> (#[trigger] aaaa[i]).outcome is Dns,
    ensures
        match machine.joined(DnsProgressView::Finished(a), DnsProgressView::Finished(aaaa)) {
            ResolverProgressView::ReadingNeighbor { machine: later, identity } => {
                &&& !some_answered(a) && !some_answered(aaaa)
                &&& machine.prepared.path.neighbor_dependency == NeighborDependencyView::Known(
                    identity,
                )
                &&& later.attempts == a + aaaa
                &&& later.prepared == machine.prepared
            },
            ResolverProgressView::Finished(diagnostic) => {
                &&& some_answered(a) || some_answered(aaaa)
                    || !(machine.prepared.path.neighbor_dependency is Known)
                &&& diagnostic.attempts == a + aaaa
                &&& diagnostic.endpoint == machine.prepared.endpoint
            },
            _ => false,
        },
{
    let attempts = a + aaaa;
    assert forall|i: int| 0 <= i < attempts.len() implies (
    #[trigger] attempts[i]).outcome is Dns by {
        if i < a.len() {
            assert(attempts[i] == a[i]);
        } else {
            assert(attempts[i] == aaaa[i - a.len()]);
        }
    }
    if some_answered(a) {
        let i = choose|i: int| 0 <= i < a.len() && is_answered(#[trigger] a[i]);
        assert(is_answered(attempts[i]));
    }
    if some_answered(aaaa) {
        let i = choose|i: int| 0 <= i < aaaa.len() && is_answered(#[trigger] aaaa[i]);
        assert(attempts[a.len() + i] == aaaa[i]);
        assert(is_answered(attempts[a.len() + i]));
    }
    if resolver::some_response(attempts) {
        let i = choose|i: int| 0 <= i < attempts.len() && is_answered(#[trigger] attempts[i]);
        if i < a.len() {
            assert(is_answered(a[i]));
        } else {
            assert(is_answered(aaaa[i - a.len()]));
        }
    }
}

/// An error of either series ends the diagnosis with that error; of two errors the one on IPv4
/// counts.
pub proof fn errors_of_queries_end_the_diagnosis(
    machine: ResolverMachineView,
    a: DnsProgressView,
    aaaa: DnsProgressView,
)
    ensures
        a matches DnsProgressView::Failed(error) ==> machine.joined(a, aaaa)
            == ResolverProgressView::Failed(error),
        a is Finished ==> (aaaa matches DnsProgressView::Failed(error) ==> machine.joined(a, aaaa)
            == ResolverProgressView::Failed(error)),
        a is Pending ==> machine.joined(a, aaaa) is Querying,
        a is Finished && aaaa is Pending ==> machine.joined(a, aaaa) is Querying,
{
}

/// A neighbor that is still being resolved when it is read is given time, once. What was observed
/// last is kept, and the attempts stay as they are.
pub proof fn neighbor_of_a_resolver_is_given_time(
    machine: ResolverMachineView,
    observed: CapabilityValueView<NeighborFactView>,
)
    requires
        machine.valid(),
        machine.stage != ResolverStage::Queries,
    ensures
        match machine.after_neighbor_read(observed) {
            ResolverProgressView::AwaitingNeighbor { machine: later, identity } => {
                &&& machine.stage == ResolverStage::NeighborRead
                &&& observed matches CapabilityValueView::Available { value, .. } && value.state
                    == NeighborState::Resolving
                &&& machine.prepared.path.neighbor_dependency == NeighborDependencyView::Known(
                    identity,
                )
                &&& later.stage == ResolverStage::NeighborConvergence
                &&& later.attempts == machine.attempts
            },
            ResolverProgressView::Finished(diagnostic) => {
                &&& machine.stage == ResolverStage::NeighborRead ==> !(observed matches
                    CapabilityValueView::Available { value, .. } && value.state
                    == NeighborState::Resolving)
                &&& diagnostic.network_facts.neighbor_post_state == Some(observed)
                &&& diagnostic.attempts == machine.attempts
                &&& diagnostic.endpoint == machine.prepared.endpoint
            },
            _ => false,
        },
{
}

/// The path to a resolver is the path to its address, on its own interface where it has one.
pub proof fn resolvers_are_reached_on_their_interface(
    endpoints: Seq<ResolverEndpointView>,
    place: int,
)
    requires
        0 <= place < endpoints.len(),
    ensures
        run::resolver_targets(endpoints).len() == endpoints.len(),
        run::resolver_targets(endpoints)[place].address == endpoints[place].address,
        run::resolver_targets(endpoints)[place].scope == endpoints[place].interface,
{
}

/// Every direct query becomes one item of evidence, on the resolver that was asked, behind what was
/// there before.
pub proof fn direct_queries_become_evidence(
    evidence: Seq<EvidenceView>,
    attempts: Seq<AttemptView>,
    subject: EvidenceSubjectView,
    place: int,
)
    requires
        0 <= place < attempts.len(),
    ensures
        ({
            let after = resolver::with_answers(evidence, attempts, subject);
            let item = after[evidence.len() + place];
            &&& after.len() == evidence.len() + attempts.len()
            &&& after.take(evidence.len() as int) == evidence
            &&& item.id.0 == attempts[place].id.0
            &&& item.subject == subject
            &&& item.role == EvidenceRole::BoundaryNarrowing
            &&& item.fact is DirectDnsResult
        }),
{
    let after = resolver::with_answers(evidence, attempts, subject);
    assert(after.take(evidence.len() as int) =~= evidence);
}

} // verus!
