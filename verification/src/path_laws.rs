//! What holds of every analysis of a path: the most specific routes decide, the smallest metric
//! picks among them, and the interface behind the choice has to work.

use vstd::prelude::*;

use crate::capability::CapabilityValueView;
use crate::lists;
use crate::model::{
    InitialNetworkSnapshotView, InterfaceFactView, InterfaceIdView, InterfaceState, PathRelation,
    RouteBehavior, RouteFact, RouteFactView, SnapshotInconsistencyScope, TargetIpView,
};
use crate::net::IpAddr;
use crate::path::{self, InitialPathAnalysisView, InitialPathStatus};
use crate::sorting;

verus! {

/// Whether a route is one way to a target: its block holds the address, and where the target is
/// bound to an interface the route does not leave through another.
pub open spec fn reaches(route: RouteFactView, target: TargetIpView) -> bool {
    &&& route.destination.covers(target.address)
    &&& match (target.scope, route.egress_interface) {
        (Some(scope), Some(egress)) => egress.index == scope.index,
        _ => true,
    }
}

/// Whether no other way to a target has a longer prefix than this one.
pub open spec fn most_specific(
    routes: Seq<RouteFactView>,
    target: TargetIpView,
    route: RouteFactView,
) -> bool {
    &&& routes.contains(route)
    &&& reaches(route, target)
    &&& forall|other: RouteFactView| #[trigger]
        routes.contains(other) && reaches(other, target) ==> other.destination.prefix()
            <= route.destination.prefix()
}

/// Whether no other most specific route has a smaller metric than this one.
pub open spec fn preferred(
    routes: Seq<RouteFactView>,
    target: TargetIpView,
    route: RouteFactView,
) -> bool {
    &&& most_specific(routes, target, route)
    &&& forall|other: RouteFactView| #[trigger]
        most_specific(routes, target, other) ==> match (route.metric, other.metric) {
            (Some(own), Some(metric)) => own <= metric,
            (own, metric) => own is None && metric is None,
        }
}

/// Whether traffic along a route is dropped on purpose.
pub open spec fn drops(route: RouteFactView) -> bool {
    match route.behavior {
        RouteBehavior::Reject => true,
        RouteBehavior::Blackhole => true,
        RouteBehavior::Unreachable => true,
        RouteBehavior::Prohibit => true,
        _ => false,
    }
}

/// Whether a route delivers or forwards ordinary traffic.
pub open spec fn carries(route: RouteFactView) -> bool {
    match route.behavior {
        RouteBehavior::Local => true,
        RouteBehavior::Unicast => true,
        _ => false,
    }
}

/// Whether a route is the one way that traffic to a target takes: it is preferred, every most
/// specific route carries traffic, and all that are preferred lead the same way.
pub open spec fn taken(
    routes: Seq<RouteFactView>,
    target: TargetIpView,
    route: RouteFactView,
) -> bool {
    &&& preferred(routes, target, route)
    &&& forall|other: RouteFactView| #[trigger]
        most_specific(routes, target, other) ==> carries(other)
    &&& forall|other: RouteFactView| #[trigger]
        preferred(routes, target, other) ==> {
            &&& other.behavior == route.behavior
            &&& other.next_hop == route.next_hop
            &&& other.egress_interface == route.egress_interface
            &&& other.preferred_source == route.preferred_source
            &&& other.table_or_compartment == route.table_or_compartment
        }
}

/// Whether an interface may be the one that an identity names.
pub open spec fn may_be(interface: InterfaceFactView, id: InterfaceIdView) -> bool {
    &&& interface.id.index == id.index
    &&& match (interface.id.stable_id, id.stable_id) {
        (Some(own), Some(named)) => own == named,
        _ => true,
    }
}

/// Whether an interface is the only one that an identity can name.
pub open spec fn is_the_only(
    interfaces: Seq<InterfaceFactView>,
    id: InterfaceIdView,
    place: int,
) -> bool {
    &&& 0 <= place < interfaces.len()
    &&& may_be(interfaces[place], id)
    &&& forall|other: int|
        0 <= other < interfaces.len() && may_be(#[trigger] interfaces[other], id) ==> other == place
}

/// Whether an interface is known to carry traffic.
pub open spec fn works(interface: InterfaceFactView) -> bool {
    &&& interface.administrative_state == InterfaceState::Up || interface.administrative_state
        == InterfaceState::Dormant
    &&& interface.operational_state == InterfaceState::Up || interface.operational_state
        == InterfaceState::Dormant
}

/// The routes that a snapshot has for the family of a target.
pub open spec fn family_routes(
    snapshot: InitialNetworkSnapshotView,
    target: TargetIpView,
) -> CapabilityValueView<Seq<RouteFactView>> {
    match target.address {
        IpAddr::V4(_) => snapshot.routes_v4,
        IpAddr::V6(_) => snapshot.routes_v6,
    }
}

/// Whether a snapshot says all that is needed to decide on the path to a target.
pub open spec fn is_complete(snapshot: InitialNetworkSnapshotView, target: TargetIpView) -> bool {
    &&& forall|i: int|
        0 <= i < snapshot.inconsistencies.len() ==> (#[trigger] snapshot.inconsistencies[i]).scope
            != SnapshotInconsistencyScope::PathSelection
    &&& family_routes(snapshot, target) is Available
    &&& snapshot.routing_policy_facts matches CapabilityValueView::Available { value, .. }
        && value.static_selection_complete
    &&& snapshot.interfaces is Available
}

/// Whether an analysis follows a route.
pub open spec fn follows(analysis: InitialPathAnalysisView, route: RouteFactView) -> bool {
    &&& analysis.egress_interface == route.egress_interface
    &&& analysis.next_hop == route.next_hop
    &&& analysis.preferred_source == route.preferred_source
    &&& analysis.relation == (match (route.behavior, route.next_hop) {
        (RouteBehavior::Local, _) => PathRelation::Local,
        (_, Some(_)) => PathRelation::Remote,
        (_, None) => PathRelation::OnLink,
    })
}

/// Whether traffic can leave along a route: it is delivered on this machine, or its interface is
/// the only one of its identity and works.
pub open spec fn can_leave(route: RouteFactView, interfaces: Seq<InterfaceFactView>) -> bool {
    match route.egress_interface {
        None => route.behavior == RouteBehavior::Local,
        Some(id) => exists|place: int| #[trigger]
            is_the_only(interfaces, id, place) && works(interfaces[place]),
    }
}

/// Whether the interface of a route is known to be switched off.
pub open spec fn is_switched_off(route: RouteFactView, interfaces: Seq<InterfaceFactView>) -> bool {
    route.egress_interface matches Some(id) && exists|place: int| #[trigger]
        is_the_only(interfaces, id, place) && interfaces[place].administrative_state
            == InterfaceState::Down
}

/// A usable path follows a route that covers the target, that no other way to the target exceeds
/// in prefix length, that has the smallest metric among those, and whose interface works.
pub proof fn usable_paths_follow_the_best_route(
    snapshot: InitialNetworkSnapshotView,
    target: TargetIpView,
)
    ensures
        path::initial_path(snapshot, target).status == InitialPathStatus::UsablePath ==> {
            &&& is_complete(snapshot, target)
            &&& exists|route: RouteFactView| #[trigger]
                taken(family_routes(snapshot, target)->Available_value, target, route) && follows(
                    path::initial_path(snapshot, target),
                    route,
                ) && can_leave(route, snapshot.interfaces->Available_value)
        },
{
    lemma_completeness(snapshot, target);
    if path::initial_path(snapshot, target).status == InitialPathStatus::UsablePath {
        lemma_select(
            target,
            family_routes(snapshot, target)->Available_value,
            snapshot.interfaces->Available_value,
        );
    }
}

/// The routes that an analysis names are ways to the target with the longest prefix, and all
/// preferred ones are among them.
pub proof fn named_routes_are_the_most_specific(
    snapshot: InitialNetworkSnapshotView,
    target: TargetIpView,
)
    ensures
        forall|route: RouteFactView| #[trigger]
            path::initial_path(snapshot, target).matching_routes.contains(route) ==> is_complete(
                snapshot,
                target,
            ) && most_specific(
                family_routes(snapshot, target)->Available_value,
                target,
                route,
            ),
        is_complete(snapshot, target) ==> forall|route: RouteFactView| #[trigger]
            preferred(family_routes(snapshot, target)->Available_value, target, route)
                ==> path::initial_path(snapshot, target).matching_routes.contains(route),
{
    lemma_completeness(snapshot, target);
    if is_complete(snapshot, target) {
        lemma_select(
            target,
            family_routes(snapshot, target)->Available_value,
            snapshot.interfaces->Available_value,
        );
    }
}

/// Complete facts decide: there is no path where no route reaches the target, where every most
/// specific route drops traffic, or where the interface of the route taken is switched off; there
/// is a usable one where traffic can leave along the route taken; and in every other case, as
/// without complete facts, nothing is decided.
pub proof fn complete_facts_decide(snapshot: InitialNetworkSnapshotView, target: TargetIpView)
    ensures
        ({
            let status = path::initial_path(snapshot, target).status;
            let routes = family_routes(snapshot, target)->Available_value;
            let interfaces = snapshot.interfaces->Available_value;
            &&& status == InitialPathStatus::DefinitiveNoPath <==> is_complete(snapshot, target) && {
                ||| forall|route: RouteFactView| #[trigger]
                    routes.contains(route) ==> !reaches(route, target)
                ||| forall|route: RouteFactView| #[trigger]
                    most_specific(routes, target, route) ==> drops(route)
                ||| exists|route: RouteFactView| #[trigger]
                    taken(routes, target, route) && is_switched_off(route, interfaces)
            }
            &&& status == InitialPathStatus::UsablePath <==> is_complete(snapshot, target)
                && exists|route: RouteFactView| #[trigger]
                taken(routes, target, route) && can_leave(route, interfaces)
        }),
        path::initial_path(snapshot, target).target == target,
        path::initial_path(snapshot, target).limitations.len() == 0 <==> path::initial_path(
            snapshot,
            target,
        ).status != InitialPathStatus::UnknownPath,
{
    lemma_completeness(snapshot, target);
    if is_complete(snapshot, target) {
        lemma_select(
            target,
            family_routes(snapshot, target)->Available_value,
            snapshot.interfaces->Available_value,
        );
    }
}

proof fn lemma_completeness(snapshot: InitialNetworkSnapshotView, target: TargetIpView)
    ensures
        is_complete(snapshot, target) ==> path::initial_path(snapshot, target) == path::select(
            target,
            family_routes(snapshot, target)->Available_value,
            snapshot.interfaces->Available_value,
        ),
        !is_complete(snapshot, target) ==> {
            let analysis = path::initial_path(snapshot, target);
            &&& analysis.target == target
            &&& analysis.status == InitialPathStatus::UnknownPath
            &&& analysis.matching_routes.len() == 0
            &&& analysis.limitations.len() > 0
        },
{
    let scope = SnapshotInconsistencyScope::PathSelection;
    let all = snapshot.inconsistencies;
    let kept = all.filter(path::of_scope(scope));
    lists::lemma_filter_contains(all, path::of_scope(scope));
    if kept.len() > 0 {
        assert(kept.contains(kept[0]));
        let i = choose|i: int| 0 <= i < all.len() && all[i] == kept[0];
        assert(all[i].scope == scope);
    } else {
        assert forall|i: int| 0 <= i < all.len() implies (#[trigger] all[i]).scope != scope by {
            if all[i].scope == scope {
                assert(all.contains(all[i]));
                assert(kept.contains(all[i]));
            }
        }
    }
}

proof fn lemma_only_one(
    interfaces: Seq<InterfaceFactView>,
    id: InterfaceIdView,
    keep: spec_fn(InterfaceFactView) -> bool,
)
    requires
        forall|interface: InterfaceFactView| #[trigger] keep(interface) == may_be(interface, id),
    ensures
        interfaces.filter(keep).len() == 0 <==> forall|i: int|
            0 <= i < interfaces.len() ==> !may_be(#[trigger] interfaces[i], id),
        forall|place: int| #[trigger]
            is_the_only(interfaces, id, place) ==> interfaces.filter(keep) == seq![
                interfaces[place],
            ],
        interfaces.filter(keep).len() == 1 ==> exists|place: int| #[trigger]
            is_the_only(interfaces, id, place),
    decreases interfaces.len(),
{
    reveal(Seq::filter);
    if interfaces.len() > 0 {
        let front = interfaces.drop_last();
        let last = interfaces.len() - 1;
        lemma_only_one(front, id, keep);
        assert forall|i: int| 0 <= i < front.len() implies #[trigger] interfaces[i] == front[i] by {}
        assert(interfaces[last] == interfaces.last());
        assert(keep(interfaces.last()) == may_be(interfaces.last(), id));
        assert forall|place: int| #[trigger]
            is_the_only(interfaces, id, place) implies interfaces.filter(keep) == seq![
            interfaces[place],
        ] by {
            if place == last {
                assert forall|i: int| 0 <= i < front.len() implies !may_be(
                    #[trigger] front[i],
                    id,
                ) by {
                    assert(front[i] == interfaces[i]);
                }
                assert(interfaces.filter(keep) =~= seq![interfaces[place]]);
            } else {
                assert(!may_be(interfaces[last], id));
                assert(is_the_only(front, id, place)) by {
                    assert forall|other: int|
                        0 <= other < front.len() && may_be(#[trigger] front[other], id) implies other
                        == place by {
                        assert(front[other] == interfaces[other]);
                    }
                }
            }
        }
        if interfaces.filter(keep).len() == 1 {
            if may_be(interfaces[last], id) {
                assert(is_the_only(interfaces, id, last)) by {
                    assert forall|other: int|
                        0 <= other < interfaces.len() && may_be(
                            #[trigger] interfaces[other],
                            id,
                        ) implies other == last by {
                        if other < last {
                            assert(front[other] == interfaces[other]);
                        }
                    }
                }
            } else {
                let place = choose|place: int| #[trigger] is_the_only(front, id, place);
                assert(is_the_only(interfaces, id, place)) by {
                    assert forall|other: int|
                        0 <= other < interfaces.len() && may_be(
                            #[trigger] interfaces[other],
                            id,
                        ) implies other == place by {
                        assert(other < last);
                        assert(front[other] == interfaces[other]);
                    }
                }
            }
        }
        if forall|i: int| 0 <= i < interfaces.len() ==> !may_be(#[trigger] interfaces[i], id) {
            assert forall|i: int| 0 <= i < front.len() implies !may_be(#[trigger] front[i], id) by {
                assert(front[i] == interfaces[i]);
            }
        }
    }
}

proof fn lemma_specific(target: TargetIpView, routes: Seq<RouteFactView>)
    ensures
        ({
            let candidates = sorting::sorted::<RouteFact>(routes.filter(path::leads_to(target)));
            let specific = candidates.filter(path::has_prefix(path::longest_prefix(candidates)));
            &&& candidates.len() == 0 <==> forall|route: RouteFactView| #[trigger]
                routes.contains(route) ==> !reaches(route, target)
            &&& candidates.len() > 0 ==> specific.len() > 0
            &&& forall|route: RouteFactView|
                #![trigger specific.contains(route)]
                #![trigger most_specific(routes, target, route)]
                specific.contains(route) <==> most_specific(routes, target, route)
        }),
{
    let keep = path::leads_to(target);
    let candidates = sorting::sorted::<RouteFact>(routes.filter(keep));
    let longest = path::longest_prefix(candidates);
    let specific = candidates.filter(path::has_prefix(longest));
    sorting::sorting_is_stable::<RouteFact>(routes.filter(keep));
    lists::lemma_reordered_contains(candidates, routes.filter(keep));
    lists::lemma_filter_contains(routes, keep);
    lists::lemma_filter_contains(candidates, path::has_prefix(longest));
    path::lemma_longest_prefix(candidates);
    assert forall|route: RouteFactView| #[trigger]
        candidates.contains(route) <==> routes.contains(route) && reaches(route, target) by {
        assert(routes.filter(keep).contains(route) <==> routes.contains(route) && keep(route));
        assert(keep(route) == reaches(route, target));
    }
    if candidates.len() > 0 {
        let i = choose|i: int|
            0 <= i < candidates.len() && (#[trigger] candidates[i]).destination.prefix() == longest;
        assert(candidates.contains(candidates[i]));
        assert(specific.contains(candidates[i]));
        assert(routes.contains(candidates[i]));
        assert forall|route: RouteFactView| #[trigger]
            specific.contains(route) <==> most_specific(routes, target, route) by {
            if specific.contains(route) {
                assert(candidates.contains(route));
                assert forall|other: RouteFactView| #[trigger]
                    routes.contains(other) && reaches(
                        other,
                        target,
                    ) implies other.destination.prefix() <= route.destination.prefix() by {
                    assert(candidates.contains(other));
                    let k = choose|k: int| 0 <= k < candidates.len() && candidates[k] == other;
                    assert(candidates[k].destination.prefix() <= longest);
                }
            }
            if most_specific(routes, target, route) {
                assert(candidates.contains(route));
                let k = choose|k: int| 0 <= k < candidates.len() && candidates[k] == route;
                assert(candidates[k].destination.prefix() <= longest);
                assert(routes.contains(candidates[i]) && reaches(candidates[i], target));
            }
        }
    } else {
        assert forall|route: RouteFactView| #[trigger] routes.contains(route) implies !reaches(
            route,
            target,
        ) by {
            assert(!candidates.contains(route));
        }
        assert forall|route: RouteFactView| #[trigger]
            specific.contains(route) <==> most_specific(routes, target, route) by {
            if specific.contains(route) {
                assert(candidates.contains(route));
            }
        }
    }
    if forall|route: RouteFactView| #[trigger] routes.contains(route) ==> !reaches(route, target) {
        if candidates.len() > 0 {
            assert(candidates.contains(candidates[0]));
            assert(routes.contains(candidates[0]));
        }
    }
}

proof fn lemma_select(
    target: TargetIpView,
    routes: Seq<RouteFactView>,
    interfaces: Seq<InterfaceFactView>,
)
    ensures
        decided(path::select(target, routes, interfaces), target, routes, interfaces),
{
    let candidates = sorting::sorted::<RouteFact>(routes.filter(path::leads_to(target)));
    let specific = candidates.filter(path::has_prefix(path::longest_prefix(candidates)));
    lemma_specific(target, routes);
    if candidates.len() > 0 {
        lemma_decide(target, routes, specific, interfaces);
    }
}

/// What an analysis of complete facts has to satisfy.
pub open spec fn decided(
    analysis: InitialPathAnalysisView,
    target: TargetIpView,
    routes: Seq<RouteFactView>,
    interfaces: Seq<InterfaceFactView>,
) -> bool {
    &&& analysis.target == target
    &&& analysis.limitations.len() == 0 <==> analysis.status != InitialPathStatus::UnknownPath
    &&& forall|route: RouteFactView| #[trigger]
        analysis.matching_routes.contains(route) ==> most_specific(routes, target, route)
    &&& forall|route: RouteFactView| #[trigger]
        preferred(routes, target, route) ==> analysis.matching_routes.contains(route)
    &&& analysis.status == InitialPathStatus::DefinitiveNoPath <==> {
        ||| forall|route: RouteFactView| #[trigger]
            routes.contains(route) ==> !reaches(route, target)
        ||| forall|route: RouteFactView| #[trigger]
            most_specific(routes, target, route) ==> drops(route)
        ||| exists|route: RouteFactView| #[trigger]
            taken(routes, target, route) && is_switched_off(route, interfaces)
    }
    &&& analysis.status == InitialPathStatus::UsablePath <==> exists|route: RouteFactView| #[trigger]
        taken(routes, target, route) && can_leave(route, interfaces)
    &&& analysis.status == InitialPathStatus::UsablePath ==> exists|route: RouteFactView| #[trigger]
        taken(routes, target, route) && follows(analysis, route) && can_leave(route, interfaces)
}

proof fn lemma_best(
    target: TargetIpView,
    routes: Seq<RouteFactView>,
    specific: Seq<RouteFactView>,
)
    requires
        specific.len() > 0,
        forall|route: RouteFactView|
            #![trigger specific.contains(route)]
            #![trigger most_specific(routes, target, route)]
            specific.contains(route) <==> most_specific(routes, target, route),
    ensures
        ({
            let every = forall|i: int|
                0 <= i < specific.len() ==> (#[trigger] specific[i]).metric is Some;
            let none = forall|i: int|
                0 <= i < specific.len() ==> (#[trigger] specific[i]).metric is None;
            let best = match path::lowest_metric(specific) {
                Some(metric) => specific.filter(path::has_metric(metric)),
                None => specific,
            };
            &&& (every || none) ==> best.len() > 0 && forall|route: RouteFactView|
                #![trigger best.contains(route)]
                #![trigger preferred(routes, target, route)]
                best.contains(route) <==> preferred(routes, target, route)
            &&& !every && !none ==> forall|route: RouteFactView| !(#[trigger] preferred(
                routes,
                target,
                route,
            ))
        }),
{
    path::lemma_lowest_metric(specific);
    let every = forall|i: int| 0 <= i < specific.len() ==> (#[trigger] specific[i]).metric is Some;
    let none = forall|i: int| 0 <= i < specific.len() ==> (#[trigger] specific[i]).metric is None;
    assert forall|i: int| 0 <= i < specific.len() implies most_specific(
        routes,
        target,
        #[trigger] specific[i],
    ) by {
        assert(specific.contains(specific[i]));
    }
    if !every && !none {
        let with = choose|i: int| 0 <= i < specific.len() && (#[trigger] specific[i]).metric is Some;
        let without = choose|i: int|
            0 <= i < specific.len() && (#[trigger] specific[i]).metric is None;
        assert(most_specific(routes, target, specific[with]));
        assert(most_specific(routes, target, specific[without]));
    } else if every {
        let metric = path::lowest_metric(specific)->Some_0;
        assert(specific[0].metric is Some);
        let best = specific.filter(path::has_metric(metric));
        lists::lemma_filter_contains(specific, path::has_metric(metric));
        let i = choose|i: int|
            0 <= i < specific.len() && (#[trigger] specific[i]).metric == Some(metric);
        assert(specific.contains(specific[i]));
        assert(best.contains(specific[i]));
        assert forall|route: RouteFactView|
            #![trigger best.contains(route)]
            #![trigger preferred(routes, target, route)]
            best.contains(route) <==> preferred(routes, target, route) by {
            if best.contains(route) {
                assert(specific.contains(route));
                assert forall|other: RouteFactView| #[trigger]
                    most_specific(routes, target, other) implies match (
                    route.metric,
                    other.metric,
                ) {
                    (Some(own), Some(least)) => own <= least,
                    (own, least) => own is None && least is None,
                } by {
                    assert(specific.contains(other));
                    let k = choose|k: int| 0 <= k < specific.len() && specific[k] == other;
                    assert(specific[k].metric is Some);
                }
            }
            if preferred(routes, target, route) {
                assert(specific.contains(route));
                assert(most_specific(routes, target, specific[i]));
                let k = choose|k: int| 0 <= k < specific.len() && specific[k] == route;
                assert(specific[k].metric is Some);
            }
        }
    } else {
        assert(specific[0].metric is None);
        assert forall|route: RouteFactView|
            #![trigger specific.contains(route)]
            #![trigger preferred(routes, target, route)]
            specific.contains(route) <==> preferred(routes, target, route) by {
            if specific.contains(route) {
                let k = choose|k: int| 0 <= k < specific.len() && specific[k] == route;
                assert(specific[k].metric is None);
                assert forall|other: RouteFactView| #[trigger]
                    most_specific(routes, target, other) implies match (
                    route.metric,
                    other.metric,
                ) {
                    (Some(own), Some(least)) => own <= least,
                    (own, least) => own is None && least is None,
                } by {
                    assert(specific.contains(other));
                    let k = choose|k: int| 0 <= k < specific.len() && specific[k] == other;
                    assert(specific[k].metric is None);
                }
            }
        }
    }
}

proof fn lemma_decide(
    target: TargetIpView,
    routes: Seq<RouteFactView>,
    specific: Seq<RouteFactView>,
    interfaces: Seq<InterfaceFactView>,
)
    requires
        specific.len() > 0,
        forall|route: RouteFactView|
            #![trigger specific.contains(route)]
            #![trigger most_specific(routes, target, route)]
            specific.contains(route) <==> most_specific(routes, target, route),
    ensures
        decided(path::decide(target, specific, interfaces), target, routes, interfaces),
{
    lemma_best(target, routes, specific);
    assert(specific.contains(specific[0]));
    assert(routes.contains(specific[0]) && reaches(specific[0], target));
    assert forall|i: int| 0 <= i < specific.len() implies most_specific(
        routes,
        target,
        #[trigger] specific[i],
    ) by {
        assert(specific.contains(specific[i]));
    }
    if exists|i: int| 0 <= i < specific.len() && !carries(#[trigger] specific[i]) {
        let i = choose|i: int| 0 <= i < specific.len() && !carries(#[trigger] specific[i]);
        assert(most_specific(routes, target, specific[i]));
        assert(forall|route: RouteFactView| !(#[trigger] taken(routes, target, route)));
        if forall|i: int| 0 <= i < specific.len() ==> drops(#[trigger] specific[i]) {
            assert forall|route: RouteFactView| #[trigger]
                most_specific(routes, target, route) implies drops(route) by {
                assert(specific.contains(route));
            }
        }
    } else {
        assert(!drops(specific[0]));
        assert forall|route: RouteFactView| #[trigger]
            most_specific(routes, target, route) implies carries(route) by {
            assert(specific.contains(route));
        }
        let every = forall|i: int|
            0 <= i < specific.len() ==> (#[trigger] specific[i]).metric is Some;
        let none = forall|i: int|
            0 <= i < specific.len() ==> (#[trigger] specific[i]).metric is None;
        if every || none {
            let best = match path::lowest_metric(specific) {
                Some(metric) => specific.filter(path::has_metric(metric)),
                None => specific,
            };
            lemma_decide_among_best(target, routes, best, interfaces);
        }
    }
}

proof fn lemma_decide_among_best(
    target: TargetIpView,
    routes: Seq<RouteFactView>,
    best: Seq<RouteFactView>,
    interfaces: Seq<InterfaceFactView>,
)
    requires
        best.len() > 0,
        forall|route: RouteFactView|
            #![trigger best.contains(route)]
            #![trigger preferred(routes, target, route)]
            best.contains(route) <==> preferred(routes, target, route),
        forall|route: RouteFactView| #[trigger]
            most_specific(routes, target, route) ==> carries(route),
        exists|route: RouteFactView| #[trigger]
            routes.contains(route) && reaches(route, target),
    ensures
        decided(path::decide_among_best(target, best, interfaces), target, routes, interfaces),
{
    let first = best[0];
    assert(best.contains(first));
    assert(most_specific(routes, target, first) && !drops(first));
    if exists|i: int| 0 <= i < best.len() && !path::same_semantics(first, #[trigger] best[i]) {
        let i = choose|i: int|
            0 <= i < best.len() && !path::same_semantics(first, #[trigger] best[i]);
        assert(best.contains(best[i]));
        assert(preferred(routes, target, first) && preferred(routes, target, best[i]));
        assert(forall|route: RouteFactView| !(#[trigger] taken(routes, target, route)));
    } else {
        assert forall|other: RouteFactView| #[trigger]
            preferred(routes, target, other) implies path::same_semantics(first, other) by {
            assert(best.contains(other));
            let k = choose|k: int| 0 <= k < best.len() && best[k] == other;
            assert(path::same_semantics(first, best[k]));
        }
        assert(taken(routes, target, first));
        assert forall|route: RouteFactView| #[trigger] taken(routes, target, route) implies
            route.egress_interface == first.egress_interface && route.behavior == first.behavior by {
            assert(preferred(routes, target, route));
        }
        if let Some(id) = first.egress_interface {
            let keep = path::identified_by(id);
            assert forall|interface: InterfaceFactView| #[trigger]
                keep(interface) == may_be(interface, id) by {}
            lemma_only_one(interfaces, id, keep);
            let found = interfaces.filter(keep);
            if found.len() == 1 {
                let place = choose|place: int| #[trigger] is_the_only(interfaces, id, place);
                assert(found[0] == interfaces[place]);
                assert forall|other: int| #[trigger] is_the_only(interfaces, id, other) implies other
                    == place by {
                    assert(may_be(interfaces[other], id));
                }
            } else {
                assert forall|place: int| !(#[trigger] is_the_only(interfaces, id, place)) by {
                    if is_the_only(interfaces, id, place) {
                        assert(found == seq![interfaces[place]]);
                    }
                }
            }
        }
    }
}

} // verus!
