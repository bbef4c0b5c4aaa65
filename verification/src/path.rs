//! What the initial snapshot says about the path to a target.

use vstd::prelude::*;

use crate::capability::{CapabilityValue, CapabilityValueView};
use crate::lists;
use crate::model::{
    self, same_optional_interface, AddressFamily, InitialNetworkSnapshot,
    InitialNetworkSnapshotView, InterfaceFact, InterfaceFactView, InterfaceId, InterfaceIdView,
    InterfaceState, NeighborIdentity, NeighborIdentityView, OperationPathContext,
    OperationPathContextView, PathRelation, RouteBehavior, RouteFact, RouteFactView,
    SnapshotInconsistency, SnapshotInconsistencyScope, SnapshotInconsistencyView, TargetIp,
    TargetIpView,
};
use crate::net::IpAddr;
use crate::sorting::{self, Keyed};
use crate::text;

verus! {

#[derive(Clone, Copy, Debug, Eq, PartialEq, Structural)]
pub enum InitialPathStatus {
    UsablePath,
    DefinitiveNoPath,
    UnknownPath,
}

impl DeepView for InitialPathStatus {
    type V = InitialPathStatus;

    open spec fn deep_view(&self) -> InitialPathStatus {
        *self
    }
}

impl InitialPathStatus {
    /// The name of the status.
    pub open spec fn debug(self) -> Seq<char> {
        match self {
            InitialPathStatus::UsablePath => "UsablePath"@,
            InitialPathStatus::DefinitiveNoPath => "DefinitiveNoPath"@,
            InitialPathStatus::UnknownPath => "UnknownPath"@,
        }
    }

    /// Names the status.
    pub fn debug_text(self) -> (result: &'static str)
        ensures
            result@ == self.debug(),
    {
        match self {
            InitialPathStatus::UsablePath => "UsablePath",
            InitialPathStatus::DefinitiveNoPath => "DefinitiveNoPath",
            InitialPathStatus::UnknownPath => "UnknownPath",
        }
    }
}

#[derive(Debug, Eq, PartialEq)]
pub struct InitialPathAnalysis {
    pub target: TargetIp,
    pub status: InitialPathStatus,
    pub matching_routes: Vec<RouteFact>,
    pub egress_interface: Option<InterfaceId>,
    pub relation: PathRelation,
    pub next_hop: Option<IpAddr>,
    pub preferred_source: Option<IpAddr>,
    pub limitations: Vec<String>,
}

/// The contents of a [`InitialPathAnalysis`].
#[verifier::ext_equal]
pub struct InitialPathAnalysisView {
    pub target: TargetIpView,
    pub status: InitialPathStatus,
    pub matching_routes: Seq<RouteFactView>,
    pub egress_interface: Option<InterfaceIdView>,
    pub relation: PathRelation,
    pub next_hop: Option<IpAddr>,
    pub preferred_source: Option<IpAddr>,
    pub limitations: Seq<Seq<char>>,
}

impl DeepView for InitialPathAnalysis {
    type V = InitialPathAnalysisView;

    open spec fn deep_view(&self) -> InitialPathAnalysisView {
        InitialPathAnalysisView {
            target: self.target.deep_view(),
            status: self.status,
            matching_routes: self.matching_routes.deep_view(),
            egress_interface: self.egress_interface.deep_view(),
            relation: self.relation,
            next_hop: self.next_hop,
            preferred_source: self.preferred_source,
            limitations: self.limitations.deep_view(),
        }
    }
}

impl Clone for InitialPathAnalysis {
    fn clone(&self) -> (copy: Self)
        ensures
            copy.deep_view() == self.deep_view(),
    {
        let copy = InitialPathAnalysis {
            target: self.target.clone(),
            status: self.status,
            matching_routes: self.matching_routes.clone(),
            egress_interface: self.egress_interface.clone(),
            relation: self.relation,
            next_hop: self.next_hop,
            preferred_source: self.preferred_source,
            limitations: self.limitations.clone(),
        };
        assert(copy.matching_routes.deep_view() =~= self.matching_routes.deep_view());
        assert(copy.limitations.deep_view() =~= self.limitations.deep_view());
        copy
    }
}

/// The neighbor that traffic on a path depends on.
#[derive(Debug, Eq, PartialEq)]
pub enum NeighborDependency {
    NotApplicable,
    Known(NeighborIdentity),
    Unknown { reason: String },
}

/// The contents of a [`NeighborDependency`].
#[verifier::ext_equal]
pub enum NeighborDependencyView {
    NotApplicable,
    Known(NeighborIdentityView),
    Unknown { reason: Seq<char> },
}

impl DeepView for NeighborDependency {
    type V = NeighborDependencyView;

    open spec fn deep_view(&self) -> NeighborDependencyView {
        match self {
            NeighborDependency::NotApplicable => NeighborDependencyView::NotApplicable,
            NeighborDependency::Known(value) => NeighborDependencyView::Known(value.deep_view()),
            NeighborDependency::Unknown { reason } => NeighborDependencyView::Unknown {
                reason: reason.deep_view(),
            },
        }
    }
}

impl Clone for NeighborDependency {
    fn clone(&self) -> (copy: Self)
        ensures
            copy.deep_view() == self.deep_view(),
    {
        match self {
            NeighborDependency::NotApplicable => NeighborDependency::NotApplicable,
            NeighborDependency::Known(value) => NeighborDependency::Known(value.clone()),
            NeighborDependency::Unknown { reason } => NeighborDependency::Unknown {
                reason: reason.clone(),
            },
        }
    }
}

/// An analysis that decides nothing, with the routes it looked at and what stood in the way.
pub open spec fn undecided(
    target: TargetIpView,
    matching_routes: Seq<RouteFactView>,
    limitations: Seq<Seq<char>>,
) -> InitialPathAnalysisView {
    InitialPathAnalysisView {
        target,
        status: InitialPathStatus::UnknownPath,
        matching_routes,
        egress_interface: None,
        relation: PathRelation::Unknown,
        next_hop: None,
        preferred_source: None,
        limitations,
    }
}

/// An analysis that finds no path.
pub open spec fn without_path(
    target: TargetIpView,
    matching_routes: Seq<RouteFactView>,
) -> InitialPathAnalysisView {
    InitialPathAnalysisView {
        target,
        status: InitialPathStatus::DefinitiveNoPath,
        matching_routes,
        egress_interface: None,
        relation: PathRelation::Unknown,
        next_hop: None,
        preferred_source: None,
        limitations: Seq::empty(),
    }
}

/// An analysis that finds a path along a route.
pub open spec fn usable(
    target: TargetIpView,
    matching_routes: Seq<RouteFactView>,
    selected: RouteFactView,
) -> InitialPathAnalysisView {
    InitialPathAnalysisView {
        target,
        status: InitialPathStatus::UsablePath,
        matching_routes,
        egress_interface: selected.egress_interface,
        relation: if selected.behavior == RouteBehavior::Local {
            PathRelation::Local
        } else if selected.next_hop is Some {
            PathRelation::Remote
        } else {
            PathRelation::OnLink
        },
        next_hop: selected.next_hop,
        preferred_source: selected.preferred_source,
        limitations: Seq::empty(),
    }
}

/// Accepts the inconsistencies of a scope.
pub open spec fn of_scope(scope: SnapshotInconsistencyScope) -> spec_fn(
    SnapshotInconsistencyView,
) -> bool {
    |item: SnapshotInconsistencyView| item.scope == scope
}

/// The details of the inconsistencies of a scope, in order.
pub open spec fn inconsistency_details(
    items: Seq<SnapshotInconsistencyView>,
    scope: SnapshotInconsistencyScope,
) -> Seq<Seq<char>> {
    let kept = items.filter(of_scope(scope));
    Seq::new(kept.len(), |i: int| kept[i].detail)
}

/// What is said of a fact that could not be had.
pub open spec fn missing_text<V>(name: Seq<char>, fact: CapabilityValueView<V>) -> Seq<char> {
    match fact {
        CapabilityValueView::Available { .. } => Seq::empty(),
        CapabilityValueView::Unknown { reason, .. } => name + " is unknown: "@ + reason.debug(),
        CapabilityValueView::Unavailable { reason, .. } => name + " is unavailable: "@
            + reason.debug(),
    }
}

/// Accepts the routes that cover a target and leave through its scope, where both name one.
pub open spec fn leads_to(target: TargetIpView) -> spec_fn(RouteFactView) -> bool {
    |route: RouteFactView|
        {
            &&& route.destination.covers(target.address)
            &&& target.scope is Some && route.egress_interface is Some
                ==> route.egress_interface->Some_0.index == target.scope->Some_0.index
        }
}

/// The length of the longest prefix among routes.
pub open spec fn longest_prefix(routes: Seq<RouteFactView>) -> u8
    decreases routes.len(),
{
    if routes.len() == 0 {
        0
    } else {
        let before = longest_prefix(routes.drop_last());
        if routes.last().destination.prefix() > before {
            routes.last().destination.prefix()
        } else {
            before
        }
    }
}

pub open spec fn has_prefix(prefix: u8) -> spec_fn(RouteFactView) -> bool {
    |route: RouteFactView| route.destination.prefix() == prefix
}

/// The smallest metric among routes, where any has one.
pub open spec fn lowest_metric(routes: Seq<RouteFactView>) -> Option<u64>
    decreases routes.len(),
{
    if routes.len() == 0 {
        None
    } else {
        match (lowest_metric(routes.drop_last()), routes.last().metric) {
            (Some(before), Some(metric)) => Some(
                if metric < before {
                    metric
                } else {
                    before
                },
            ),
            (Some(before), None) => Some(before),
            (None, metric) => metric,
        }
    }
}

pub open spec fn has_metric(metric: u64) -> spec_fn(RouteFactView) -> bool {
    |route: RouteFactView| route.metric == Some(metric)
}

/// Whether a route drops traffic on purpose.
pub open spec fn blocks(behavior: RouteBehavior) -> bool {
    behavior == RouteBehavior::Reject || behavior == RouteBehavior::Blackhole || behavior
        == RouteBehavior::Unreachable || behavior == RouteBehavior::Prohibit
}

/// Whether a route forwards or delivers ordinary traffic.
pub open spec fn forwards(behavior: RouteBehavior) -> bool {
    behavior == RouteBehavior::Local || behavior == RouteBehavior::Unicast
}

/// Whether two routes lead to the same dependency.
pub open spec fn same_semantics(left: RouteFactView, right: RouteFactView) -> bool {
    &&& left.behavior == right.behavior
    &&& left.next_hop == right.next_hop
    &&& left.egress_interface == right.egress_interface
    &&& left.preferred_source == right.preferred_source
    &&& left.table_or_compartment == right.table_or_compartment
}

/// Accepts the interfaces that an identity may stand for: the index is the same, and so is the
/// stable identity where both have one.
pub open spec fn identified_by(id: InterfaceIdView) -> spec_fn(InterfaceFactView) -> bool {
    |interface: InterfaceFactView|
        {
            &&& interface.id.index == id.index
            &&& interface.id.stable_id is Some && id.stable_id is Some
                ==> interface.id.stable_id == id.stable_id
        }
}

/// What an ordered choice of routes with the longest prefix says.
pub open spec fn decide(
    target: TargetIpView,
    routes: Seq<RouteFactView>,
    interfaces: Seq<InterfaceFactView>,
) -> InitialPathAnalysisView {
    let all_block = forall|i: int| 0 <= i < routes.len() ==> blocks((#[trigger] routes[i]).behavior);
    let some_block = exists|i: int|
        0 <= i < routes.len() && blocks((#[trigger] routes[i]).behavior);
    let some_other = exists|i: int|
        0 <= i < routes.len() && !forwards((#[trigger] routes[i]).behavior);
    let every_metric = forall|i: int|
        0 <= i < routes.len() ==> (#[trigger] routes[i]).metric is Some;
    let no_metric = forall|i: int| 0 <= i < routes.len() ==> (#[trigger] routes[i]).metric is None;
    if all_block {
        without_path(target, routes)
    } else if some_block {
        undecided(
            target,
            routes,
            seq!["equally specific route facts conflict on forwarding behavior"@],
        )
    } else if some_other {
        undecided(
            target,
            routes,
            seq!["matching route behavior does not prove ordinary unicast forwarding semantics"@],
        )
    } else if !every_metric && !no_metric {
        undecided(
            target,
            routes,
            seq!["equally specific routes mix known and unknown metrics"@],
        )
    } else {
        decide_among_best(
            target,
            match lowest_metric(routes) {
                Some(metric) => routes.filter(has_metric(metric)),
                None => routes,
            },
            interfaces,
        )
    }
}

/// What the routes that are left say once prefix and metric have decided.
pub open spec fn decide_among_best(
    target: TargetIpView,
    best: Seq<RouteFactView>,
    interfaces: Seq<InterfaceFactView>,
) -> InitialPathAnalysisView {
    let first = best[0];
    let differ = exists|i: int|
        0 <= i < best.len() && !same_semantics(first, #[trigger] best[i]);
    if differ {
        undecided(
            target,
            best,
            seq!["equally preferred route facts do not identify one deterministic dependency"@],
        )
    } else {
        match first.egress_interface {
            None => if first.behavior != RouteBehavior::Local {
                undecided(
                    target,
                    best,
                    seq!["selected forwarding route has no egress interface identity"@],
                )
            } else {
                usable(target, best, first)
            },
            Some(id) => {
                let found = interfaces.filter(identified_by(id));
                if found.len() != 1 {
                    undecided(
                        target,
                        best,
                        seq![
                            "egress interface index "@ + text::decimal(id.index as nat)
                                + " does not map to exactly one snapshot identity"@,
                        ],
                    )
                } else {
                    decide_on_interface(target, best, first, found[0])
                }
            },
        }
    }
}

/// What the state of the interface that a route leaves through says.
pub open spec fn decide_on_interface(
    target: TargetIpView,
    best: Seq<RouteFactView>,
    first: RouteFactView,
    interface: InterfaceFactView,
) -> InitialPathAnalysisView {
    if interface.administrative_state == InterfaceState::Down {
        InitialPathAnalysisView {
            egress_interface: Some(interface.id),
            next_hop: first.next_hop,
            preferred_source: first.preferred_source,
            ..without_path(target, best)
        }
    } else if (interface.operational_state != InterfaceState::Up && interface.operational_state
        != InterfaceState::Dormant) || interface.administrative_state == InterfaceState::Unknown {
        InitialPathAnalysisView {
            egress_interface: Some(interface.id),
            ..undecided(
                target,
                best,
                seq!["egress interface usability is not definitive in the snapshot"@],
            )
        }
    } else {
        usable(target, best, first)
    }
}

/// What complete facts say: the routes that lead to the target are put in order, those with the
/// longest prefix decide, and without any there is no path.
pub open spec fn select(
    target: TargetIpView,
    routes: Seq<RouteFactView>,
    interfaces: Seq<InterfaceFactView>,
) -> InitialPathAnalysisView {
    let candidates = sorting::sorted::<RouteFact>(routes.filter(leads_to(target)));
    if candidates.len() == 0 {
        without_path(target, Seq::empty())
    } else {
        decide(target, candidates.filter(has_prefix(longest_prefix(candidates))), interfaces)
    }
}

/// The routes of the target's family.
pub open spec fn routes_for(
    snapshot: InitialNetworkSnapshotView,
    target: TargetIpView,
) -> CapabilityValueView<Seq<RouteFactView>> {
    match target.address {
        IpAddr::V4(_) => snapshot.routes_v4,
        IpAddr::V6(_) => snapshot.routes_v6,
    }
}

/// What the snapshot says about the path to a target. A fact that is missing, inconsistent or
/// incomplete leaves the path unknown.
pub open spec fn initial_path(
    snapshot: InitialNetworkSnapshotView,
    target: TargetIpView,
) -> InitialPathAnalysisView {
    let inconsistent = inconsistency_details(
        snapshot.inconsistencies,
        SnapshotInconsistencyScope::PathSelection,
    );
    let routes = routes_for(snapshot, target);
    let route_name = match target.address {
        IpAddr::V4(_) => "IPv4 route snapshot"@,
        IpAddr::V6(_) => "IPv6 route snapshot"@,
    };
    if inconsistent.len() > 0 {
        undecided(
            target,
            Seq::empty(),
            inconsistent.push("snapshot inconsistency prevents a definitive path decision"@),
        )
    } else if routes.known() is None {
        undecided(target, Seq::empty(), seq![missing_text(route_name, routes)])
    } else if snapshot.routing_policy_facts.known() is None {
        undecided(
            target,
            Seq::empty(),
            seq![missing_text("routing policy snapshot"@, snapshot.routing_policy_facts)],
        )
    } else if !snapshot.routing_policy_facts.known()->Some_0.static_selection_complete {
        undecided(
            target,
            Seq::empty(),
            snapshot.routing_policy_facts.known()->Some_0.limitations.push(
                "captured routing-policy facts are insufficient for a definitive static path decision"@,
            ),
        )
    } else if snapshot.interfaces.known() is None {
        undecided(
            target,
            Seq::empty(),
            seq![missing_text("interface snapshot"@, snapshot.interfaces)],
        )
    } else {
        select(target, routes.known()->Some_0, snapshot.interfaces.known()->Some_0)
    }
}

/// The place of a behavior among routes that are otherwise equal.
pub open spec fn behavior_rank(behavior: RouteBehavior) -> u128 {
    match behavior {
        RouteBehavior::Local => 0,
        RouteBehavior::Unicast => 1,
        RouteBehavior::Reject => 2,
        RouteBehavior::Blackhole => 3,
        RouteBehavior::Unreachable => 4,
        RouteBehavior::Prohibit => 5,
        RouteBehavior::Throw => 6,
        RouteBehavior::Broadcast => 7,
        RouteBehavior::Multicast => 8,
        RouteBehavior::Unknown => 9,
    }
}

fn route_behavior_order(behavior: RouteBehavior) -> (result: u128)
    ensures
        result == behavior_rank(behavior),
{
    match behavior {
        RouteBehavior::Local => 0,
        RouteBehavior::Unicast => 1,
        RouteBehavior::Reject => 2,
        RouteBehavior::Blackhole => 3,
        RouteBehavior::Unreachable => 4,
        RouteBehavior::Prohibit => 5,
        RouteBehavior::Throw => 6,
        RouteBehavior::Broadcast => 7,
        RouteBehavior::Multicast => 8,
        RouteBehavior::Unknown => 9,
    }
}

/// Routes are ordered by prefix length, the longest first, then by table, metric, interface
/// index, next hop and behavior.
pub open spec fn route_key(route: RouteFactView) -> Seq<u128> {
    seq![(255 - route.destination.prefix()) as u128] + sorting::optional_key(
        route.table_or_compartment,
    ) + sorting::optional_key(route.metric) + sorting::optional_key(
        match route.egress_interface {
            Some(interface) => Some(interface.index as u64),
            None => None,
        },
    ) + sorting::optional_address_key(route.next_hop) + seq![behavior_rank(route.behavior)]
}

impl Keyed for RouteFact {
    open spec fn key_of(view: RouteFactView) -> Seq<u128> {
        route_key(view)
    }

    fn sort_key(&self) -> (key: Vec<u128>) {
        let mut key: Vec<u128> = Vec::new();
        key.push(255 - self.destination.prefix_len() as u128);
        assert(key@ =~= seq![(255 - self.destination.prefix()) as u128]);
        sorting::push_optional(&mut key, self.table_or_compartment);
        sorting::push_optional(&mut key, self.metric);
        let index: Option<u64> = match &self.egress_interface {
            Some(interface) => Some(interface.index as u64),
            None => None,
        };
        sorting::push_optional(&mut key, index);
        sorting::push_optional_address(&mut key, self.next_hop);
        let ghost before = key@;
        key.push(route_behavior_order(self.behavior));
        assert(key@ =~= before + seq![behavior_rank(self.behavior)]);
        key
    }
}

impl InitialPathAnalysis {
    fn unknown(
        target: &TargetIp,
        matching_routes: Vec<RouteFact>,
        limitations: Vec<String>,
    ) -> (result: InitialPathAnalysis)
        ensures
            result.deep_view() == undecided(
                target.deep_view(),
                matching_routes.deep_view(),
                limitations.deep_view(),
            ),
    {
        InitialPathAnalysis {
            target: target.clone(),
            status: InitialPathStatus::UnknownPath,
            matching_routes,
            egress_interface: None,
            relation: PathRelation::Unknown,
            next_hop: None,
            preferred_source: None,
            limitations,
        }
    }

    fn no_path(target: &TargetIp, matching_routes: Vec<RouteFact>) -> (result: InitialPathAnalysis)
        ensures
            result.deep_view() == without_path(target.deep_view(), matching_routes.deep_view()),
    {
        let limitations: Vec<String> = Vec::new();
        assert(limitations.deep_view() =~= Seq::<Seq<char>>::empty());
        InitialPathAnalysis {
            target: target.clone(),
            status: InitialPathStatus::DefinitiveNoPath,
            matching_routes,
            egress_interface: None,
            relation: PathRelation::Unknown,
            next_hop: None,
            preferred_source: None,
            limitations,
        }
    }
}

fn one_limitation(limitation: String) -> (result: Vec<String>)
    ensures
        result.deep_view() == seq![limitation@],
{
    let mut result: Vec<String> = Vec::new();
    result.push(limitation);
    assert(result.deep_view() =~= seq![limitation@]);
    result
}

fn no_routes() -> (result: Vec<RouteFact>)
    ensures
        result.deep_view() == Seq::<RouteFactView>::empty(),
{
    let result: Vec<RouteFact> = Vec::new();
    assert(result.deep_view() =~= Seq::<RouteFactView>::empty());
    result
}

/// Lists the details of the inconsistencies of a scope.
pub fn details_of(
    items: &Vec<SnapshotInconsistency>,
    scope: SnapshotInconsistencyScope,
) -> (result: Vec<String>)
    ensures
        result.deep_view() == inconsistency_details(items.deep_view(), scope),
{
    let ghost all = items.deep_view();
    let ghost keep = of_scope(scope);
    let mut result: Vec<String> = Vec::new();
    let mut i: usize = 0;
    proof {
        lists::lemma_filter_empty(all, keep);
        assert(result.deep_view() =~= Seq::new(
            all.take(0).filter(keep).len(),
            |j: int| all.take(0).filter(keep)[j].detail,
        ));
    }
    while i < items.len()
        invariant
            i <= items.len(),
            all == items.deep_view(),
            keep == of_scope(scope),
            result.deep_view() == Seq::new(
                all.take(i as int).filter(keep).len(),
                |j: int| all.take(i as int).filter(keep)[j].detail,
            ),
        decreases items.len() - i,
    {
        proof {
            lists::lemma_filter_step(all, i as int, keep);
        }
        let ghost before = result.deep_view();
        if items[i].scope == scope {
            result.push(items[i].detail.clone());
            assert(result.deep_view() =~= before.push(all[i as int].detail));
        }
        i += 1;
        assert(result.deep_view() =~= Seq::new(
            all.take(i as int).filter(keep).len(),
            |j: int| all.take(i as int).filter(keep)[j].detail,
        ));
    }
    assert(all.take(i as int) =~= all);
    result
}

fn missing_limitation<T: DeepView>(name: &str, fact: &CapabilityValue<T>) -> (result: Vec<String>)
    ensures
        fact.deep_view().known() is None ==> result.deep_view() == seq![
            missing_text(name@, fact.deep_view()),
        ],
{
    match fact {
        CapabilityValue::Available { .. } => Vec::new(),
        CapabilityValue::Unknown { reason, .. } => one_limitation(
            text::join3(name, " is unknown: ", reason.debug_text().as_str()),
        ),
        CapabilityValue::Unavailable { reason, .. } => one_limitation(
            text::join3(name, " is unavailable: ", reason.debug_text().as_str()),
        ),
    }
}

fn routes_to(routes: &Vec<RouteFact>, target: &TargetIp) -> (result: Vec<RouteFact>)
    ensures
        result.deep_view() == routes.deep_view().filter(leads_to(target.deep_view())),
{
    let ghost all = routes.deep_view();
    let ghost keep = leads_to(target.deep_view());
    let mut result: Vec<RouteFact> = Vec::new();
    let mut i: usize = 0;
    proof {
        lists::lemma_filter_empty(all, keep);
        assert(result.deep_view() =~= all.take(0).filter(keep));
    }
    while i < routes.len()
        invariant
            i <= routes.len(),
            all == routes.deep_view(),
            keep == leads_to(target.deep_view()),
            result.deep_view() == all.take(i as int).filter(keep),
        decreases routes.len() - i,
    {
        proof {
            lists::lemma_filter_step(all, i as int, keep);
        }
        let ghost before = result.deep_view();
        let route = &routes[i];
        let in_scope = match (&target.scope, &route.egress_interface) {
            (Some(scope), Some(interface)) => interface.index == scope.index,
            _ => true,
        };
        if route.destination.contains(&target.address) && in_scope {
            result.push(route.clone());
            assert(result.deep_view() =~= before.push(all[i as int]));
        }
        i += 1;
    }
    assert(all.take(i as int) =~= all);
    result
}

fn find_longest_prefix(routes: &Vec<RouteFact>) -> (result: u8)
    ensures
        result == longest_prefix(routes.deep_view()),
{
    let ghost all = routes.deep_view();
    let mut longest: u8 = 0;
    let mut i: usize = 0;
    while i < routes.len()
        invariant
            i <= routes.len(),
            all == routes.deep_view(),
            longest == longest_prefix(all.take(i as int)),
        decreases routes.len() - i,
    {
        assert(all.take(i + 1).drop_last() =~= all.take(i as int));
        let prefix = routes[i].destination.prefix_len();
        if prefix > longest {
            longest = prefix;
        }
        i += 1;
    }
    assert(all.take(i as int) =~= all);
    longest
}

fn keep_prefix(routes: &Vec<RouteFact>, prefix: u8) -> (result: Vec<RouteFact>)
    ensures
        result.deep_view() == routes.deep_view().filter(has_prefix(prefix)),
{
    let ghost all = routes.deep_view();
    let ghost keep = has_prefix(prefix);
    let mut result: Vec<RouteFact> = Vec::new();
    let mut i: usize = 0;
    proof {
        lists::lemma_filter_empty(all, keep);
        assert(result.deep_view() =~= all.take(0).filter(keep));
    }
    while i < routes.len()
        invariant
            i <= routes.len(),
            all == routes.deep_view(),
            keep == has_prefix(prefix),
            result.deep_view() == all.take(i as int).filter(keep),
        decreases routes.len() - i,
    {
        proof {
            lists::lemma_filter_step(all, i as int, keep);
        }
        let ghost before = result.deep_view();
        if routes[i].destination.prefix_len() == prefix {
            result.push(routes[i].clone());
            assert(result.deep_view() =~= before.push(all[i as int]));
        }
        i += 1;
    }
    assert(all.take(i as int) =~= all);
    result
}

fn find_lowest_metric(routes: &Vec<RouteFact>) -> (result: Option<u64>)
    ensures
        result == lowest_metric(routes.deep_view()),
{
    let ghost all = routes.deep_view();
    let mut lowest: Option<u64> = None;
    let mut i: usize = 0;
    while i < routes.len()
        invariant
            i <= routes.len(),
            all == routes.deep_view(),
            lowest == lowest_metric(all.take(i as int)),
        decreases routes.len() - i,
    {
        assert(all.take(i + 1).drop_last() =~= all.take(i as int));
        assert(all.take(i + 1).last() == routes@[i as int].deep_view());
        lowest = match (lowest, routes[i].metric) {
            (Some(before), Some(metric)) => Some(
                if metric < before {
                    metric
                } else {
                    before
                },
            ),
            (Some(before), None) => Some(before),
            (None, metric) => metric,
        };
        i += 1;
    }
    assert(all.take(i as int) =~= all);
    lowest
}

fn keep_metric(routes: &Vec<RouteFact>, metric: u64) -> (result: Vec<RouteFact>)
    ensures
        result.deep_view() == routes.deep_view().filter(has_metric(metric)),
{
    let ghost all = routes.deep_view();
    let ghost keep = has_metric(metric);
    let mut result: Vec<RouteFact> = Vec::new();
    let mut i: usize = 0;
    proof {
        lists::lemma_filter_empty(all, keep);
        assert(result.deep_view() =~= all.take(0).filter(keep));
    }
    while i < routes.len()
        invariant
            i <= routes.len(),
            all == routes.deep_view(),
            keep == has_metric(metric),
            result.deep_view() == all.take(i as int).filter(keep),
        decreases routes.len() - i,
    {
        proof {
            lists::lemma_filter_step(all, i as int, keep);
        }
        let ghost before = result.deep_view();
        let matches = match routes[i].metric {
            Some(own) => own == metric,
            None => false,
        };
        if matches {
            result.push(routes[i].clone());
            assert(result.deep_view() =~= before.push(all[i as int]));
        }
        i += 1;
    }
    assert(all.take(i as int) =~= all);
    result
}

fn definitively_blocks_traffic(behavior: RouteBehavior) -> (result: bool)
    ensures
        result == blocks(behavior),
{
    match behavior {
        RouteBehavior::Reject
        | RouteBehavior::Blackhole
        | RouteBehavior::Unreachable
        | RouteBehavior::Prohibit => true,
        _ => false,
    }
}

/// What a set of routes looks like as a whole.
struct RouteSurvey {
    all_block: bool,
    some_block: bool,
    some_other: bool,
    every_metric: bool,
    no_metric: bool,
}

fn survey(routes: &Vec<RouteFact>) -> (result: RouteSurvey)
    ensures
        ({
            let all = routes.deep_view();
            &&& result.all_block == (forall|i: int|
                0 <= i < all.len() ==> blocks((#[trigger] all[i]).behavior))
            &&& result.some_block == (exists|i: int|
                0 <= i < all.len() && blocks((#[trigger] all[i]).behavior))
            &&& result.some_other == (exists|i: int|
                0 <= i < all.len() && !forwards((#[trigger] all[i]).behavior))
            &&& result.every_metric == (forall|i: int|
                0 <= i < all.len() ==> (#[trigger] all[i]).metric is Some)
            &&& result.no_metric == (forall|i: int|
                0 <= i < all.len() ==> (#[trigger] all[i]).metric is None)
        }),
{
    let ghost all = routes.deep_view();
    let mut result = RouteSurvey {
        all_block: true,
        some_block: false,
        some_other: false,
        every_metric: true,
        no_metric: true,
    };
    let mut i: usize = 0;
    while i < routes.len()
        invariant
            i <= routes.len(),
            all == routes.deep_view(),
            result.all_block == (forall|j: int|
                0 <= j < i ==> blocks((#[trigger] all[j]).behavior)),
            result.some_block == (exists|j: int|
                0 <= j < i && blocks((#[trigger] all[j]).behavior)),
            result.some_other == (exists|j: int|
                0 <= j < i && !forwards((#[trigger] all[j]).behavior)),
            result.every_metric == (forall|j: int|
                0 <= j < i ==> (#[trigger] all[j]).metric is Some),
            result.no_metric == (forall|j: int|
                0 <= j < i ==> (#[trigger] all[j]).metric is None),
        decreases routes.len() - i,
    {
        let route = &routes[i];
        assert(all[i as int] == route.deep_view());
        if definitively_blocks_traffic(route.behavior) {
            result.some_block = true;
        } else {
            result.all_block = false;
        }
        match route.behavior {
            RouteBehavior::Local | RouteBehavior::Unicast => {},
            _ => {
                result.some_other = true;
            },
        }
        if route.metric.is_some() {
            result.no_metric = false;
        } else {
            result.every_metric = false;
        }
        i += 1;
    }
    result
}

fn same_optional_address(left: Option<IpAddr>, right: Option<IpAddr>) -> (result: bool)
    ensures
        result == (left == right),
{
    match (left, right) {
        (Some(left), Some(right)) => left == right,
        (None, None) => true,
        _ => false,
    }
}

fn same_optional_number(left: Option<u64>, right: Option<u64>) -> (result: bool)
    ensures
        result == (left == right),
{
    match (left, right) {
        (Some(left), Some(right)) => left == right,
        (None, None) => true,
        _ => false,
    }
}

fn same_path_semantics(left: &RouteFact, right: &RouteFact) -> (result: bool)
    ensures
        result == same_semantics(left.deep_view(), right.deep_view()),
{
    left.behavior == right.behavior && same_optional_address(left.next_hop, right.next_hop)
        && same_optional_interface(&left.egress_interface, &right.egress_interface)
        && same_optional_address(left.preferred_source, right.preferred_source)
        && same_optional_number(left.table_or_compartment, right.table_or_compartment)
}

fn same_interface(left: &InterfaceId, right: &InterfaceId) -> (result: bool)
    ensures
        result == {
            &&& left.index == right.index
            &&& left.stable_id is Some && right.stable_id is Some ==> left.stable_id.deep_view()
                == right.stable_id.deep_view()
        },
{
    left.index == right.index && match (&left.stable_id, &right.stable_id) {
        (Some(left), Some(right)) => text::same_text(left.as_str(), right.as_str()),
        _ => true,
    }
}

/// Finds the interfaces that an identity may stand for: how many there are, and the first.
fn find_interfaces(interfaces: &Vec<InterfaceFact>, id: &InterfaceId) -> (result: (
    usize,
    usize,
))
    ensures
        ({
            let found = interfaces.deep_view().filter(identified_by(id.deep_view()));
            &&& result.0 == found.len()
            &&& found.len() > 0 ==> result.1 < interfaces@.len()
                && interfaces.deep_view()[result.1 as int] == found[0]
        }),
{
    let ghost all = interfaces.deep_view();
    let ghost keep = identified_by(id.deep_view());
    let mut count: usize = 0;
    let mut first: usize = 0;
    let mut i: usize = 0;
    proof {
        lists::lemma_filter_empty(all, keep);
    }
    while i < interfaces.len()
        invariant
            i <= interfaces.len(),
            all == interfaces.deep_view(),
            keep == identified_by(id.deep_view()),
            count == all.take(i as int).filter(keep).len(),
            count <= i,
            count > 0 ==> first < interfaces.len() && all[first as int] == all.take(
                i as int,
            ).filter(keep)[0],
        decreases interfaces.len() - i,
    {
        proof {
            lists::lemma_filter_step(all, i as int, keep);
        }
        assert(all[i as int] == interfaces@[i as int].deep_view());
        if same_interface(&interfaces[i].id, id) {
            if count == 0 {
                first = i;
            }
            count += 1;
        }
        i += 1;
    }
    assert(all.take(i as int) =~= all);
    (count, first)
}

fn usable_analysis(
    target: &TargetIp,
    candidates: Vec<RouteFact>,
    selected: &RouteFact,
) -> (result: InitialPathAnalysis)
    ensures
        result.deep_view() == usable(
            target.deep_view(),
            candidates.deep_view(),
            selected.deep_view(),
        ),
{
    let relation = if selected.behavior == RouteBehavior::Local {
        PathRelation::Local
    } else if selected.next_hop.is_some() {
        PathRelation::Remote
    } else {
        PathRelation::OnLink
    };
    let limitations: Vec<String> = Vec::new();
    assert(limitations.deep_view() =~= Seq::<Seq<char>>::empty());
    InitialPathAnalysis {
        target: target.clone(),
        status: InitialPathStatus::UsablePath,
        matching_routes: candidates,
        egress_interface: selected.egress_interface.clone(),
        relation,
        next_hop: selected.next_hop,
        preferred_source: selected.preferred_source,
        limitations,
    }
}

fn analyze_on_interface(
    target: &TargetIp,
    best: Vec<RouteFact>,
    first: &RouteFact,
    interface: &InterfaceFact,
) -> (result: InitialPathAnalysis)
    ensures
        result.deep_view() == decide_on_interface(
            target.deep_view(),
            best.deep_view(),
            first.deep_view(),
            interface.deep_view(),
        ),
{
    if interface.administrative_state == InterfaceState::Down {
        let mut analysis = InitialPathAnalysis::no_path(target, best);
        analysis.egress_interface = Some(interface.id.clone());
        analysis.next_hop = first.next_hop;
        analysis.preferred_source = first.preferred_source;
        return analysis;
    }
    let running = match interface.operational_state {
        InterfaceState::Up | InterfaceState::Dormant => true,
        _ => false,
    };
    if !running || interface.administrative_state == InterfaceState::Unknown {
        let mut analysis = InitialPathAnalysis::unknown(
            target,
            best,
            one_limitation(
                "egress interface usability is not definitive in the snapshot".to_owned(),
            ),
        );
        analysis.egress_interface = Some(interface.id.clone());
        return analysis;
    }
    usable_analysis(target, best, first)
}

fn analyze_among_best(
    target: &TargetIp,
    best: Vec<RouteFact>,
    interfaces: &Vec<InterfaceFact>,
) -> (result: InitialPathAnalysis)
    requires
        best@.len() > 0,
    ensures
        result.deep_view() == decide_among_best(
            target.deep_view(),
            best.deep_view(),
            interfaces.deep_view(),
        ),
{
    let ghost all = best.deep_view();
    let first = best[0].clone();
    assert(first.deep_view() == all[0]);
    let mut i: usize = 0;
    while i < best.len()
        invariant
            i <= best.len(),
            all == best.deep_view(),
            best@.len() > 0,
            first.deep_view() == all[0],
            forall|j: int| 0 <= j < i ==> same_semantics(all[0], #[trigger] all[j]),
        decreases best.len() - i,
    {
        assert(all[i as int] == best@[i as int].deep_view());
        if !same_path_semantics(&first, &best[i]) {
            return InitialPathAnalysis::unknown(
                target,
                best,
                one_limitation(
                    "equally preferred route facts do not identify one deterministic dependency".to_owned(),
                ),
            );
        }
        i += 1;
    }
    match &first.egress_interface {
        None => {
            if first.behavior != RouteBehavior::Local {
                return InitialPathAnalysis::unknown(
                    target,
                    best,
                    one_limitation(
                        "selected forwarding route has no egress interface identity".to_owned(),
                    ),
                );
            }
            usable_analysis(target, best, &first)
        },
        Some(id) => {
            let (count, place) = find_interfaces(interfaces, id);
            if count != 1 {
                let limitation = text::join3(
                    "egress interface index ",
                    text::decimal_text(id.index as u64).as_str(),
                    " does not map to exactly one snapshot identity",
                );
                return InitialPathAnalysis::unknown(target, best, one_limitation(limitation));
            }
            analyze_on_interface(target, best, &first, &interfaces[place])
        },
    }
}

proof fn lemma_lowest_metric_is_held(routes: Seq<RouteFactView>)
    ensures
        match lowest_metric(routes) {
            Some(metric) => routes.filter(has_metric(metric)).len() > 0,
            None => true,
        },
{
    lemma_lowest_metric(routes);
    if let Some(metric) = lowest_metric(routes) {
        let i = choose|i: int| 0 <= i < routes.len() && (#[trigger] routes[i]).metric == Some(metric);
        lists::lemma_filter_contains(routes, has_metric(metric));
        assert(routes.contains(routes[i]));
        assert(routes.filter(has_metric(metric)).contains(routes[i]));
    }
}

pub(crate) proof fn lemma_lowest_metric(routes: Seq<RouteFactView>)
    ensures
        match lowest_metric(routes) {
            Some(metric) => {
                &&& exists|i: int|
                    0 <= i < routes.len() && (#[trigger] routes[i]).metric == Some(metric)
                &&& forall|i: int|
                    0 <= i < routes.len() && (#[trigger] routes[i]).metric is Some
                        ==> routes[i].metric->Some_0 >= metric
            },
            None => forall|i: int| 0 <= i < routes.len() ==> (#[trigger] routes[i]).metric is None,
        },
    decreases routes.len(),
{
    if routes.len() > 0 {
        let rest = routes.drop_last();
        lemma_lowest_metric(rest);
        assert forall|i: int| 0 <= i < rest.len() implies #[trigger] routes[i] == rest[i] by {}
        let last = routes.len() - 1;
        assert(routes[last] == routes.last());
        if let Some(metric) = lowest_metric(routes) {
            if routes[last].metric != Some(metric) {
                let i = choose|i: int|
                    0 <= i < rest.len() && (#[trigger] rest[i]).metric == Some(metric);
                assert(routes[i].metric == Some(metric));
            }
        }
    }
}

pub(crate) proof fn lemma_longest_prefix(routes: Seq<RouteFactView>)
    ensures
        forall|i: int|
            0 <= i < routes.len() ==> (#[trigger] routes[i]).destination.prefix()
                <= longest_prefix(routes),
        routes.len() > 0 ==> exists|i: int|
            0 <= i < routes.len() && (#[trigger] routes[i]).destination.prefix()
                == longest_prefix(routes),
    decreases routes.len(),
{
    if routes.len() > 0 {
        let rest = routes.drop_last();
        lemma_longest_prefix(rest);
        assert forall|i: int| 0 <= i < rest.len() implies #[trigger] routes[i] == rest[i] by {}
        let last = routes.len() - 1;
        assert(routes[last] == routes.last());
        if routes[last].destination.prefix() != longest_prefix(routes) {
            if rest.len() > 0 {
                let i = choose|i: int|
                    0 <= i < rest.len() && (#[trigger] rest[i]).destination.prefix()
                        == longest_prefix(rest);
                assert(routes[i].destination.prefix() == longest_prefix(routes));
            }
        }
    }
}

fn analyze_routes(
    target: &TargetIp,
    routes: Vec<RouteFact>,
    interfaces: &Vec<InterfaceFact>,
) -> (result: InitialPathAnalysis)
    requires
        routes@.len() > 0,
    ensures
        result.deep_view() == decide(
            target.deep_view(),
            routes.deep_view(),
            interfaces.deep_view(),
        ),
{
    let seen = survey(&routes);
    if seen.all_block {
        return InitialPathAnalysis::no_path(target, routes);
    }
    if seen.some_block {
        return InitialPathAnalysis::unknown(
            target,
            routes,
            one_limitation(
                "equally specific route facts conflict on forwarding behavior".to_owned(),
            ),
        );
    }
    if seen.some_other {
        return InitialPathAnalysis::unknown(
            target,
            routes,
            one_limitation(
                "matching route behavior does not prove ordinary unicast forwarding semantics".to_owned(),
            ),
        );
    }
    if !seen.every_metric && !seen.no_metric {
        return InitialPathAnalysis::unknown(
            target,
            routes,
            one_limitation("equally specific routes mix known and unknown metrics".to_owned()),
        );
    }
    proof {
        lemma_lowest_metric_is_held(routes.deep_view());
    }
    let best = match find_lowest_metric(&routes) {
        Some(metric) => keep_metric(&routes, metric),
        None => routes,
    };
    assert(best@.len() == best.deep_view().len());
    analyze_among_best(target, best, interfaces)
}

/// Conservatively analyzes the immutable initial snapshot. Any missing or
/// conflicting fact degrades to `UnknownPath`; only complete, internally
/// consistent evidence may suppress the real primary network operation.
#[must_use]
pub fn analyze_initial_path(
    snapshot: &InitialNetworkSnapshot,
    target: &TargetIp,
) -> (result: InitialPathAnalysis)
    ensures
        result.deep_view() == initial_path(snapshot.deep_view(), target.deep_view()),
{
    let mut limitations = details_of(
        &snapshot.inconsistencies,
        SnapshotInconsistencyScope::PathSelection,
    );
    assert(limitations@.len() == limitations.deep_view().len());
    if limitations.len() > 0 {
        let ghost before = limitations.deep_view();
        limitations.push("snapshot inconsistency prevents a definitive path decision".to_owned());
        assert(limitations.deep_view() =~= before.push(
            "snapshot inconsistency prevents a definitive path decision"@,
        ));
        return InitialPathAnalysis::unknown(target, no_routes(), limitations);
    }
    let (routes, route_name) = match target.address {
        IpAddr::V4(_) => (&snapshot.routes_v4, "IPv4 route snapshot"),
        IpAddr::V6(_) => (&snapshot.routes_v6, "IPv6 route snapshot"),
    };
    let CapabilityValue::Available { value: known_routes, .. } = routes else {
        return InitialPathAnalysis::unknown(
            target,
            no_routes(),
            missing_limitation(route_name, routes),
        );
    };
    let CapabilityValue::Available { value: policy, .. } = &snapshot.routing_policy_facts else {
        return InitialPathAnalysis::unknown(
            target,
            no_routes(),
            missing_limitation("routing policy snapshot", &snapshot.routing_policy_facts),
        );
    };
    if !policy.static_selection_complete {
        let mut limitations = policy.limitations.clone();
        assert(limitations.deep_view() =~= policy.limitations.deep_view());
        limitations.push(
            "captured routing-policy facts are insufficient for a definitive static path decision".to_owned(),
        );
        assert(limitations.deep_view() =~= policy.limitations.deep_view().push(
            "captured routing-policy facts are insufficient for a definitive static path decision"@,
        ));
        return InitialPathAnalysis::unknown(target, no_routes(), limitations);
    }
    let CapabilityValue::Available { value: interfaces, .. } = &snapshot.interfaces else {
        return InitialPathAnalysis::unknown(
            target,
            no_routes(),
            missing_limitation("interface snapshot", &snapshot.interfaces),
        );
    };
    let candidates = sorting::stable_sort(routes_to(known_routes, target));
    assert(candidates@.len() == candidates.deep_view().len());
    if candidates.len() == 0 {
        return InitialPathAnalysis::no_path(target, no_routes());
    }
    let longest = find_longest_prefix(&candidates);
    let specific = keep_prefix(&candidates, longest);
    proof {
        let all = candidates.deep_view();
        lemma_longest_prefix(all);
        let i = choose|i: int|
            0 <= i < all.len() && (#[trigger] all[i]).destination.prefix() == longest_prefix(all);
        lists::lemma_filter_contains(all, has_prefix(longest));
        assert(all.contains(all[i]));
        assert(specific.deep_view().contains(all[i]));
        assert(specific@.len() == specific.deep_view().len());
    }
    analyze_routes(target, specific, interfaces)
}

/// A current path that is bound to the interfaces of the snapshot and set against the initial
/// analysis.
pub open spec fn reconciled(
    current: OperationPathContextView,
    initial: InitialPathAnalysisView,
    interfaces: CapabilityValueView<Seq<InterfaceFactView>>,
) -> OperationPathContextView {
    let egress = bound_interface(current.egress_interface, interfaces);
    OperationPathContextView {
        egress_interface: egress,
        relation_to_initial_snapshot: Some(
            if initial.status == InitialPathStatus::UnknownPath {
                "initial path was unknown; current kernel dependency retained"@
            } else if egress == initial.egress_interface && current.relation == initial.relation
                && current.next_hop == initial.next_hop {
                "consistent with initial snapshot"@
            } else {
                "current kernel dependency differs from initial snapshot"@
            },
        ),
        ..current
    }
}

pub open spec fn has_index(index: u32) -> spec_fn(InterfaceFactView) -> bool {
    |interface: InterfaceFactView| interface.id.index == index
}

/// The snapshot's identity of an interface, where exactly one has its index.
pub open spec fn bound_interface(
    interface: Option<InterfaceIdView>,
    interfaces: CapabilityValueView<Seq<InterfaceFactView>>,
) -> Option<InterfaceIdView> {
    match (interface, interfaces.known()) {
        (Some(id), Some(known)) => {
            let found = known.filter(has_index(id.index));
            if found.len() == 1 {
                Some(found[0].id)
            } else {
                Some(id)
            }
        },
        _ => interface,
    }
}

fn bind_interface(
    interface: Option<InterfaceId>,
    interfaces: &CapabilityValue<Vec<InterfaceFact>>,
) -> (result: Option<InterfaceId>)
    ensures
        result.deep_view() == bound_interface(interface.deep_view(), interfaces.deep_view()),
{
    let CapabilityValue::Available { value: known, .. } = interfaces else {
        return interface;
    };
    let Some(id) = interface else {
        return None;
    };
    let ghost all = known.deep_view();
    let ghost keep = has_index(id.index);
    let mut count: usize = 0;
    let mut first: usize = 0;
    let mut i: usize = 0;
    proof {
        lists::lemma_filter_empty(all, keep);
    }
    while i < known.len()
        invariant
            i <= known.len(),
            all == known.deep_view(),
            keep == has_index(id.index),
            count == all.take(i as int).filter(keep).len(),
            count <= i,
            count > 0 ==> first < known.len() && all[first as int] == all.take(i as int).filter(
                keep,
            )[0],
        decreases known.len() - i,
    {
        proof {
            lists::lemma_filter_step(all, i as int, keep);
        }
        assert(all[i as int] == known@[i as int].deep_view());
        if known[i].id.index == id.index {
            if count == 0 {
                first = i;
            }
            count += 1;
        }
        i += 1;
    }
    assert(all.take(i as int) =~= all);
    if count == 1 {
        Some(known[first].id.clone())
    } else {
        Some(id)
    }
}

/// Rebinds an index-only targeted-path observation to the immutable interface
/// identity captured for this run and records whether the dependency changed.
/// It never lets the initial prediction overwrite the current kernel fact.
pub fn reconcile_current_operation_path(
    current: OperationPathContext,
    initial: &InitialPathAnalysis,
    interfaces: &CapabilityValue<Vec<InterfaceFact>>,
) -> (result: OperationPathContext)
    ensures
        result.deep_view() == reconciled(
            current.deep_view(),
            initial.deep_view(),
            interfaces.deep_view(),
        ),
{
    let egress_interface = bind_interface(current.egress_interface, interfaces);
    let relation = if initial.status == InitialPathStatus::UnknownPath {
        "initial path was unknown; current kernel dependency retained"
    } else if same_optional_interface(&egress_interface, &initial.egress_interface)
        && current.relation == initial.relation && same_optional_address(
        current.next_hop,
        initial.next_hop,
    ) {
        "consistent with initial snapshot"
    } else {
        "current kernel dependency differs from initial snapshot"
    };
    OperationPathContext {
        captured_at: current.captured_at,
        target_or_dependency: current.target_or_dependency,
        family: current.family,
        egress_interface,
        relation: current.relation,
        next_hop: current.next_hop,
        preferred_source: current.preferred_source,
        relation_to_initial_snapshot: Some(relation.to_owned()),
        provenance: current.provenance,
    }
}

/// The neighbor that a path depends on: the target itself on the link, the next hop behind it,
/// and none for a local path.
pub open spec fn dependency_of(path: OperationPathContextView) -> NeighborDependencyView {
    if path.relation == PathRelation::Local {
        NeighborDependencyView::NotApplicable
    } else if path.egress_interface is None {
        NeighborDependencyView::Unknown {
            reason: "current operation path has no egress interface identity"@,
        }
    } else {
        let interface = path.egress_interface->Some_0;
        match path.relation {
            PathRelation::OnLink => NeighborDependencyView::Known(
                NeighborIdentityView {
                    family: model::family_of(path.target_or_dependency),
                    interface,
                    address: path.target_or_dependency,
                },
            ),
            PathRelation::Remote => match path.next_hop {
                Some(next_hop) => NeighborDependencyView::Known(
                    NeighborIdentityView {
                        family: model::family_of(next_hop),
                        interface,
                        address: next_hop,
                    },
                ),
                None => NeighborDependencyView::Unknown {
                    reason: "remote current operation path has no next-hop address"@,
                },
            },
            _ => NeighborDependencyView::Unknown {
                reason: "current operation path relation is unknown"@,
            },
        }
    }
}

#[must_use]
pub fn neighbor_dependency_for_path(path: &OperationPathContext) -> (result: NeighborDependency)
    ensures
        result.deep_view() == dependency_of(path.deep_view()),
{
    if path.relation == PathRelation::Local {
        return NeighborDependency::NotApplicable;
    }
    let Some(interface) = path.egress_interface.clone() else {
        return NeighborDependency::Unknown {
            reason: "current operation path has no egress interface identity".to_owned(),
        };
    };
    let address = match path.relation {
        PathRelation::OnLink => path.target_or_dependency,
        PathRelation::Remote => {
            let Some(next_hop) = path.next_hop else {
                return NeighborDependency::Unknown {
                    reason: "remote current operation path has no next-hop address".to_owned(),
                };
            };
            next_hop
        },
        _ => {
            return NeighborDependency::Unknown {
                reason: "current operation path relation is unknown".to_owned(),
            };
        },
    };
    NeighborDependency::Known(
        NeighborIdentity { family: AddressFamily::from(address), interface, address },
    )
}

/// Whether two analyses decide the same; the routes they list may be in another order.
pub open spec fn same_decision(
    left: InitialPathAnalysisView,
    right: InitialPathAnalysisView,
) -> bool {
    &&& left.matching_routes.to_multiset() == right.matching_routes.to_multiset()
    &&& right == InitialPathAnalysisView { matching_routes: right.matching_routes, ..left }
}

/// Whether two snapshots differ, as far as a target is concerned, at most in the order in which
/// its routes are listed.
pub open spec fn same_but_for_route_order(
    left: InitialNetworkSnapshotView,
    right: InitialNetworkSnapshotView,
    target: TargetIpView,
) -> bool {
    &&& left.inconsistencies == right.inconsistencies
    &&& left.routing_policy_facts == right.routing_policy_facts
    &&& left.interfaces == right.interfaces
    &&& match (routes_for(left, target).known(), routes_for(right, target).known()) {
        (Some(routes), Some(others)) => routes.to_multiset() == others.to_multiset(),
        _ => routes_for(left, target) == routes_for(right, target),
    }
}

/// The order in which routes are enumerated does not change what is decided.
pub proof fn route_order_does_not_matter(
    left: InitialNetworkSnapshotView,
    right: InitialNetworkSnapshotView,
    target: TargetIpView,
)
    requires
        same_but_for_route_order(left, right, target),
    ensures
        same_decision(initial_path(left, target), initial_path(right, target)),
{
    if routes_for(left, target).known() is Some && left.interfaces.known() is Some {
        let routes = routes_for(left, target).known()->Some_0;
        let others = routes_for(right, target).known()->Some_0;
        let keep = leads_to(target);
        lists::lemma_filter_multiset(routes, keep);
        lists::lemma_filter_multiset(others, keep);
        sorting::sorting_is_stable::<RouteFact>(routes.filter(keep));
        sorting::sorting_is_stable::<RouteFact>(others.filter(keep));
        let first = sorting::sorted::<RouteFact>(routes.filter(keep));
        let second = sorting::sorted::<RouteFact>(others.filter(keep));
        lists::lemma_reordered_contains(first, second);
        if first.len() > 0 {
            lemma_longest_prefix(first);
            lemma_longest_prefix(second);
            let i = choose|i: int|
                0 <= i < first.len() && (#[trigger] first[i]).destination.prefix()
                    == longest_prefix(first);
            assert(first.contains(first[i]));
            assert(second.contains(first[i]));
            let j = choose|j: int|
                0 <= j < second.len() && (#[trigger] second[j]).destination.prefix()
                    == longest_prefix(second);
            assert(second.contains(second[j]));
            assert(first.contains(second[j]));
            assert(longest_prefix(first) == longest_prefix(second));
            let prefix = has_prefix(longest_prefix(first));
            lists::lemma_filter_multiset(first, prefix);
            lists::lemma_filter_multiset(second, prefix);
            lists::lemma_filter_contains(first, prefix);
            assert(first.filter(prefix).contains(first[i]));
            lemma_decide_in_any_order(
                target,
                first.filter(prefix),
                second.filter(prefix),
                left.interfaces.known()->Some_0,
            );
        }
    }
}

proof fn lemma_decide_in_any_order(
    target: TargetIpView,
    left: Seq<RouteFactView>,
    right: Seq<RouteFactView>,
    interfaces: Seq<InterfaceFactView>,
)
    requires
        left.len() > 0,
        left.to_multiset() == right.to_multiset(),
    ensures
        same_decision(decide(target, left, interfaces), decide(target, right, interfaces)),
{
    lemma_same_quantities(left, right);
    lemma_same_quantities(right, left);
    lemma_lowest_metric_is_held(left);
    assert(lowest_metric(left) == lowest_metric(right));
    if let Some(metric) = lowest_metric(left) {
        lists::lemma_filter_multiset(left, has_metric(metric));
        lists::lemma_filter_multiset(right, has_metric(metric));
        lemma_decide_among_best_in_any_order(
            target,
            left.filter(has_metric(metric)),
            right.filter(has_metric(metric)),
            interfaces,
        );
    } else {
        lemma_decide_among_best_in_any_order(target, left, right, interfaces);
    }
}

proof fn lemma_same_semantics_of_all(left: Seq<RouteFactView>, right: Seq<RouteFactView>)
    requires
        left.len() > 0,
        right.len() > 0,
        left.to_multiset() == right.to_multiset(),
        forall|i: int| 0 <= i < left.len() ==> same_semantics(left[0], #[trigger] left[i]),
    ensures
        forall|i: int| 0 <= i < right.len() ==> same_semantics(right[0], #[trigger] right[i]),
        same_semantics(left[0], right[0]),
{
    let first = left[0];
    lists::lemma_reordered_all(left, right, |route: RouteFactView| same_semantics(first, route));
    assert(same_semantics(first, right[0]));
    assert forall|i: int| 0 <= i < right.len() implies same_semantics(
        right[0],
        #[trigger] right[i],
    ) by {
        assert(same_semantics(first, right[i]));
    }
}

proof fn lemma_same_quantities(left: Seq<RouteFactView>, right: Seq<RouteFactView>)
    requires
        left.to_multiset() == right.to_multiset(),
    ensures
        (forall|i: int| 0 <= i < left.len() ==> blocks((#[trigger] left[i]).behavior)) ==> (forall|
            i: int,
        |
            0 <= i < right.len() ==> blocks((#[trigger] right[i]).behavior)),
        (forall|i: int| 0 <= i < left.len() ==> !blocks((#[trigger] left[i]).behavior)) ==> (forall|
            i: int,
        |
            0 <= i < right.len() ==> !blocks((#[trigger] right[i]).behavior)),
        (forall|i: int| 0 <= i < left.len() ==> forwards((#[trigger] left[i]).behavior)) ==> (
        forall|i: int| 0 <= i < right.len() ==> forwards((#[trigger] right[i]).behavior)),
        (forall|i: int| 0 <= i < left.len() ==> (#[trigger] left[i]).metric is Some) ==> (forall|
            i: int,
        |
            0 <= i < right.len() ==> (#[trigger] right[i]).metric is Some),
        (forall|i: int| 0 <= i < left.len() ==> (#[trigger] left[i]).metric is None) ==> (forall|
            i: int,
        |
            0 <= i < right.len() ==> (#[trigger] right[i]).metric is None),
        lowest_metric(left) == lowest_metric(right),
{
    if forall|i: int| 0 <= i < left.len() ==> blocks((#[trigger] left[i]).behavior) {
        lists::lemma_reordered_all(left, right, |route: RouteFactView| blocks(route.behavior));
    }
    if forall|i: int| 0 <= i < left.len() ==> !blocks((#[trigger] left[i]).behavior) {
        lists::lemma_reordered_all(left, right, |route: RouteFactView| !blocks(route.behavior));
    }
    if forall|i: int| 0 <= i < left.len() ==> forwards((#[trigger] left[i]).behavior) {
        lists::lemma_reordered_all(left, right, |route: RouteFactView| forwards(route.behavior));
    }
    if forall|i: int| 0 <= i < left.len() ==> (#[trigger] left[i]).metric is Some {
        lists::lemma_reordered_all(left, right, |route: RouteFactView| route.metric is Some);
    }
    if forall|i: int| 0 <= i < left.len() ==> (#[trigger] left[i]).metric is None {
        lists::lemma_reordered_all(left, right, |route: RouteFactView| route.metric is None);
    }
    lemma_lowest_metric(left);
    lemma_lowest_metric(right);
    lists::lemma_reordered_contains(left, right);
    if let Some(metric) = lowest_metric(left) {
        let i = choose|i: int| 0 <= i < left.len() && (#[trigger] left[i]).metric == Some(metric);
        assert(left.contains(left[i]));
        assert(right.contains(left[i]));
    }
    if let Some(metric) = lowest_metric(right) {
        let i = choose|i: int|
            0 <= i < right.len() && (#[trigger] right[i]).metric == Some(metric);
        assert(right.contains(right[i]));
        assert(left.contains(right[i]));
    }
}

proof fn lemma_decide_among_best_in_any_order(
    target: TargetIpView,
    left: Seq<RouteFactView>,
    right: Seq<RouteFactView>,
    interfaces: Seq<InterfaceFactView>,
)
    requires
        left.len() > 0,
        left.to_multiset() == right.to_multiset(),
    ensures
        same_decision(
            decide_among_best(target, left, interfaces),
            decide_among_best(target, right, interfaces),
        ),
{
    lists::lemma_reordered_contains(left, right);
    assert(left.contains(left[0]) && right.contains(right[0]));
    if forall|i: int| 0 <= i < left.len() ==> same_semantics(left[0], #[trigger] left[i]) {
        lemma_same_semantics_of_all(left, right);
    }
    if forall|i: int| 0 <= i < right.len() ==> same_semantics(right[0], #[trigger] right[i]) {
        lemma_same_semantics_of_all(right, left);
    }
}

/// A path is called usable or definitively missing only where the snapshot is consistent and
/// holds the routes, the complete routing policy and the interfaces.
pub proof fn only_complete_facts_decide(snapshot: InitialNetworkSnapshotView, target: TargetIpView)
    ensures
        initial_path(snapshot, target).status != InitialPathStatus::UnknownPath ==> {
            &&& inconsistency_details(
                snapshot.inconsistencies,
                SnapshotInconsistencyScope::PathSelection,
            ).len() == 0
            &&& routes_for(snapshot, target) is Available
            &&& snapshot.routing_policy_facts matches CapabilityValueView::Available { value, .. }
                && value.static_selection_complete
            &&& snapshot.interfaces is Available
        },
{
}

} // verus!
