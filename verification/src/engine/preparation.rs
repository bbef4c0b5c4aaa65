//! What is gathered about a path before anything is sent along it.

use vstd::prelude::*;

use crate::capability::{CapabilityValue, CapabilityValueView};
use crate::engine::observation;
use crate::model::{
    InitialNetworkSnapshot, InitialNetworkSnapshotView, NeighborFact, NeighborFactView,
    NeighborIdentity, NeighborIdentityView, OperationPathContext, OperationPathContextView,
    TargetIp, TargetIpView,
};
use crate::path::{
    self, InitialPathAnalysis, InitialPathAnalysisView, InitialPathStatus, NeighborDependency,
    NeighborDependencyView,
};
use crate::result::{TargetNetworkFacts, TargetNetworkFactsView};

verus! {

/// What is known about the path to an address before any traffic of the run.
#[derive(Debug, Eq, PartialEq)]
pub struct PreparedPath {
    pub target: TargetIp,
    pub initial_path: InitialPathAnalysis,
    pub current_path: CapabilityValue<OperationPathContext>,
    pub neighbor_dependency: NeighborDependency,
    pub neighbor_pre_state: Option<CapabilityValue<NeighborFact>>,
}

/// The contents of a [`PreparedPath`].
#[verifier::ext_equal]
pub struct PreparedPathView {
    pub target: TargetIpView,
    pub initial_path: InitialPathAnalysisView,
    pub current_path: CapabilityValueView<OperationPathContextView>,
    pub neighbor_dependency: NeighborDependencyView,
    pub neighbor_pre_state: Option<CapabilityValueView<NeighborFactView>>,
}

impl DeepView for PreparedPath {
    type V = PreparedPathView;

    open spec fn deep_view(&self) -> PreparedPathView {
        PreparedPathView {
            target: self.target.deep_view(),
            initial_path: self.initial_path.deep_view(),
            current_path: self.current_path.deep_view(),
            neighbor_dependency: self.neighbor_dependency.deep_view(),
            neighbor_pre_state: self.neighbor_pre_state.deep_view(),
        }
    }
}

impl Clone for PreparedPath {
    fn clone(&self) -> (copy: Self)
        ensures
            copy.deep_view() == self.deep_view(),
    {
        PreparedPath {
            target: self.target.clone(),
            initial_path: self.initial_path.clone(),
            current_path: self.current_path.clone(),
            neighbor_dependency: self.neighbor_dependency.clone(),
            neighbor_pre_state: self.neighbor_pre_state.clone(),
        }
    }
}

impl PreparedPathView {
    /// The facts that a diagnosis starts with.
    pub open spec fn facts(self) -> TargetNetworkFactsView {
        TargetNetworkFactsView {
            initial_path: self.initial_path,
            current_path: self.current_path,
            neighbor_pre_state: self.neighbor_pre_state,
            neighbor_post_state: None,
        }
    }

    /// Whether the snapshot already rules the path out.
    pub open spec fn hopeless(self) -> bool {
        self.initial_path.status == InitialPathStatus::DefinitiveNoPath
    }
}

impl PreparedPath {
    /// Collects the facts that a diagnosis starts with.
    pub fn network_facts(&self) -> (result: TargetNetworkFacts)
        ensures
            result.deep_view() == self.deep_view().facts(),
    {
        TargetNetworkFacts {
            initial_path: self.initial_path.clone(),
            current_path: self.current_path.clone(),
            neighbor_pre_state: self.neighbor_pre_state.clone(),
            neighbor_post_state: None,
        }
    }
}

/// A path that need not be asked for: the snapshot shows that there is none.
pub open spec fn settled_path(
    snapshot: InitialNetworkSnapshotView,
    target: TargetIpView,
) -> PreparedPathView {
    PreparedPathView {
        target,
        initial_path: path::initial_path(snapshot, target),
        current_path: observation::skipped_path(snapshot.capture_completed_at),
        neighbor_dependency: NeighborDependencyView::NotApplicable,
        neighbor_pre_state: None,
    }
}

/// The answer to a path query, set against the snapshot.
pub open spec fn reconciled_answer(
    snapshot: InitialNetworkSnapshotView,
    target: TargetIpView,
    answer: CapabilityValueView<OperationPathContextView>,
) -> CapabilityValueView<OperationPathContextView> {
    match answer {
        CapabilityValueView::Available { value, provenance } => CapabilityValueView::Available {
            value: path::reconciled(
                value,
                path::initial_path(snapshot, target),
                snapshot.interfaces,
            ),
            provenance,
        },
        _ => answer,
    }
}

/// A path that was asked for.
pub open spec fn queried_path(
    snapshot: InitialNetworkSnapshotView,
    target: TargetIpView,
    answer: CapabilityValueView<OperationPathContextView>,
) -> PreparedPathView {
    let current_path = reconciled_answer(snapshot, target, answer);
    PreparedPathView {
        target,
        initial_path: path::initial_path(snapshot, target),
        current_path,
        neighbor_dependency: observation::current_dependency(current_path),
        neighbor_pre_state: None,
    }
}

/// Settles a path without a query where the snapshot rules it out.
pub fn settle_path(snapshot: &InitialNetworkSnapshot, target: &TargetIp) -> (result: Option<
    PreparedPath,
>)
    ensures
        result.deep_view() == (if settled_path(snapshot.deep_view(), target.deep_view()).hopeless() {
            Some(settled_path(snapshot.deep_view(), target.deep_view()))
        } else {
            None
        }),
{
    let initial_path = path::analyze_initial_path(snapshot, target);
    if initial_path.status == InitialPathStatus::DefinitiveNoPath {
        Some(
            PreparedPath {
                target: target.clone(),
                initial_path,
                current_path: observation::skipped_current_path(snapshot),
                neighbor_dependency: NeighborDependency::NotApplicable,
                neighbor_pre_state: None,
            },
        )
    } else {
        None
    }
}

/// Makes a prepared path of the answer to a path query.
pub fn path_from_answer(
    snapshot: &InitialNetworkSnapshot,
    target: &TargetIp,
    answer: CapabilityValue<OperationPathContext>,
) -> (result: PreparedPath)
    ensures
        result.deep_view() == queried_path(
            snapshot.deep_view(),
            target.deep_view(),
            answer.deep_view(),
        ),
{
    let initial_path = path::analyze_initial_path(snapshot, target);
    let current_path = match answer {
        CapabilityValue::Available { value, provenance } => CapabilityValue::Available {
            value: path::reconcile_current_operation_path(
                value,
                &initial_path,
                &snapshot.interfaces,
            ),
            provenance,
        },
        other => other,
    };
    let neighbor_dependency = observation::dependency_from_current_path(&current_path);
    PreparedPath {
        target: target.clone(),
        initial_path,
        current_path,
        neighbor_dependency,
        neighbor_pre_state: None,
    }
}

/// The neighbors that paths depend on, each once, in the order of the paths.
pub open spec fn neighbors_of(paths: Seq<PreparedPathView>) -> Seq<NeighborIdentityView>
    decreases paths.len(),
{
    if paths.len() == 0 {
        Seq::empty()
    } else {
        let before = neighbors_of(paths.drop_last());
        match paths.last().neighbor_dependency {
            NeighborDependencyView::Known(identity) => if before.contains(identity) {
                before
            } else {
                before.push(identity)
            },
            _ => before,
        }
    }
}

/// Where an identity stands in a list; behind its end where it does not.
fn find_identity(identities: &Vec<NeighborIdentity>, identity: &NeighborIdentity) -> (result: usize)
    ensures
        result <= identities@.len(),
        forall|j: int|
            0 <= j < result ==> #[trigger] identities.deep_view()[j] != identity.deep_view(),
        result < identities@.len() ==> identities.deep_view()[result as int]
            == identity.deep_view(),
        result < identities@.len() <==> identities.deep_view().contains(identity.deep_view()),
{
    let ghost all = identities.deep_view();
    let mut i: usize = 0;
    while i < identities.len()
        invariant
            i <= identities.len(),
            all == identities.deep_view(),
            forall|j: int| 0 <= j < i ==> #[trigger] all[j] != identity.deep_view(),
        decreases identities.len() - i,
    {
        assert(all[i as int] == identities@[i as int].deep_view());
        if identities[i].same(identity) {
            assert(all.contains(all[i as int]));
            return i;
        }
        i += 1;
    }
    i
}

/// Lists the neighbors that paths depend on.
pub fn neighbors_to_read(paths: &Vec<PreparedPath>) -> (result: Vec<NeighborIdentity>)
    ensures
        result.deep_view() == neighbors_of(paths.deep_view()),
{
    let ghost all = paths.deep_view();
    let mut identities: Vec<NeighborIdentity> = Vec::new();
    let mut i: usize = 0;
    assert(identities.deep_view() =~= neighbors_of(all.take(0)));
    while i < paths.len()
        invariant
            i <= paths.len(),
            all == paths.deep_view(),
            identities.deep_view() == neighbors_of(all.take(i as int)),
        decreases paths.len() - i,
    {
        assert(all.take(i + 1).drop_last() =~= all.take(i as int));
        assert(all.take(i + 1).last() == paths@[i as int].deep_view());
        let ghost before = identities.deep_view();
        if let NeighborDependency::Known(identity) = &paths[i].neighbor_dependency {
            if find_identity(&identities, identity) == identities.len() {
                identities.push(identity.clone());
                assert(identities.deep_view() =~= before.push(identity.deep_view()));
            }
        }
        i += 1;
    }
    assert(all.take(i as int) =~= all);
    identities
}

/// The first observation that was made of an identity.
pub open spec fn observed(
    identities: Seq<NeighborIdentityView>,
    states: Seq<CapabilityValueView<NeighborFactView>>,
    identity: NeighborIdentityView,
) -> Option<CapabilityValueView<NeighborFactView>>
    decreases identities.len(),
{
    if identities.len() == 0 || states.len() == 0 {
        None
    } else if identities[0] == identity {
        Some(states[0])
    } else {
        observed(identities.drop_first(), states.drop_first(), identity)
    }
}

/// A path with the observation of the neighbor that it depends on.
pub open spec fn with_pre_state(
    path: PreparedPathView,
    identities: Seq<NeighborIdentityView>,
    states: Seq<CapabilityValueView<NeighborFactView>>,
) -> PreparedPathView {
    match path.neighbor_dependency {
        NeighborDependencyView::Known(identity) => PreparedPathView {
            neighbor_pre_state: observed(identities, states, identity),
            ..path
        },
        _ => path,
    }
}

/// Paths with the observations of their neighbors.
pub open spec fn with_pre_states(
    paths: Seq<PreparedPathView>,
    identities: Seq<NeighborIdentityView>,
    states: Seq<CapabilityValueView<NeighborFactView>>,
) -> Seq<PreparedPathView> {
    Seq::new(paths.len(), |i: int| with_pre_state(paths[i], identities, states))
}

proof fn lemma_observed_at(
    identities: Seq<NeighborIdentityView>,
    states: Seq<CapabilityValueView<NeighborFactView>>,
    identity: NeighborIdentityView,
    place: int,
)
    requires
        identities.len() == states.len(),
        0 <= place <= identities.len(),
        forall|j: int| 0 <= j < place ==> #[trigger] identities[j] != identity,
        place < identities.len() ==> identities[place] == identity,
    ensures
        observed(identities, states, identity) == (if place < identities.len() {
            Some(states[place])
        } else {
            None
        }),
    decreases identities.len(),
{
    if identities.len() > 0 && identities[0] != identity {
        assert(place > 0);
        let rest = identities.drop_first();
        assert forall|j: int| 0 <= j < place - 1 implies #[trigger] rest[j] != identity by {
            assert(rest[j] == identities[j + 1]);
        }
        lemma_observed_at(rest, states.drop_first(), identity, place - 1);
    }
}

/// Gives each path the observation of its neighbor.
pub fn attach_pre_states(
    paths: &Vec<PreparedPath>,
    identities: &Vec<NeighborIdentity>,
    states: &Vec<CapabilityValue<NeighborFact>>,
) -> (result: Vec<PreparedPath>)
    requires
        identities@.len() == states@.len(),
    ensures
        result.deep_view() == with_pre_states(
            paths.deep_view(),
            identities.deep_view(),
            states.deep_view(),
        ),
{
    let ghost all = paths.deep_view();
    let ghost known = identities.deep_view();
    let ghost seen = states.deep_view();
    let mut result: Vec<PreparedPath> = Vec::new();
    let mut i: usize = 0;
    while i < paths.len()
        invariant
            i <= paths.len(),
            identities@.len() == states@.len(),
            all == paths.deep_view(),
            known == identities.deep_view(),
            seen == states.deep_view(),
            result@.len() == i,
            forall|j: int|
                0 <= j < i ==> (#[trigger] result@[j]).deep_view() == with_pre_state(
                    all[j],
                    known,
                    seen,
                ),
        decreases paths.len() - i,
    {
        let mut path = paths[i].clone();
        if let NeighborDependency::Known(identity) = &path.neighbor_dependency {
            let place = find_identity(identities, identity);
            proof {
                lemma_observed_at(known, seen, identity.deep_view(), place as int);
            }
            let state = if place < identities.len() {
                let state = states[place].clone();
                assert(state.deep_view() == seen[place as int]);
                Some(state)
            } else {
                None
            };
            path.neighbor_pre_state = state;
        }
        result.push(path);
        i += 1;
    }
    assert(result.deep_view() =~= with_pre_states(all, known, seen));
    result
}

/// Every neighbor that a path depends on is read exactly once.
pub proof fn every_neighbor_is_read_once(paths: Seq<PreparedPathView>)
    ensures
        forall|i: int|
            #![trigger paths[i]]
            0 <= i < paths.len() ==> (paths[i].neighbor_dependency matches
                NeighborDependencyView::Known(identity) ==> neighbors_of(paths).contains(identity)),
        forall|i: int, j: int|
            #![trigger neighbors_of(paths)[i], neighbors_of(paths)[j]]
            0 <= i < j < neighbors_of(paths).len() ==> neighbors_of(paths)[i]
                != neighbors_of(paths)[j],
    decreases paths.len(),
{
    if paths.len() > 0 {
        let rest = paths.drop_last();
        every_neighbor_is_read_once(rest);
        let before = neighbors_of(rest);
        let now = neighbors_of(paths);
        assert forall|identity: NeighborIdentityView| before.contains(identity) implies
            #[trigger] now.contains(identity) by {
            let k = choose|k: int| 0 <= k < before.len() && before[k] == identity;
            assert(now[k] == identity);
        }
        if let NeighborDependencyView::Known(identity) = paths.last().neighbor_dependency {
            if !before.contains(identity) {
                assert(now[now.len() - 1] == identity);
                assert forall|k: int| 0 <= k < before.len() implies #[trigger] before[k]
                    != identity by {
                    assert(before.contains(before[k]));
                }
            }
        }
        assert forall|i: int|
            #![trigger paths[i]]
            0 <= i < paths.len() implies (paths[i].neighbor_dependency matches
                NeighborDependencyView::Known(identity) ==> now.contains(identity)) by {
            if i < rest.len() {
                assert(rest[i] == paths[i]);
            }
        }
    }
}

/// Paths that share a neighbor start from the same observation of it, and every path that
/// depends on a known neighbor has one.
pub proof fn shared_neighbors_have_one_pre_state(
    paths: Seq<PreparedPathView>,
    states: Seq<CapabilityValueView<NeighborFactView>>,
)
    requires
        states.len() == neighbors_of(paths).len(),
    ensures
        ({
            let ready = with_pre_states(paths, neighbors_of(paths), states);
            &&& forall|i: int, j: int|
                #![trigger ready[i], ready[j]]
                0 <= i < ready.len() && 0 <= j < ready.len() && ready[i].neighbor_dependency is Known
                    && ready[i].neighbor_dependency == ready[j].neighbor_dependency
                    ==> ready[i].neighbor_pre_state == ready[j].neighbor_pre_state
            &&& forall|i: int|
                #![trigger ready[i]]
                0 <= i < ready.len() && ready[i].neighbor_dependency is Known
                    ==> ready[i].neighbor_pre_state is Some
        }),
{
    let known = neighbors_of(paths);
    let ready = with_pre_states(paths, known, states);
    every_neighbor_is_read_once(paths);
    assert forall|i: int|
        #![trigger ready[i]]
        0 <= i < ready.len() && ready[i].neighbor_dependency is Known implies
        ready[i].neighbor_pre_state is Some by {
        let identity = paths[i].neighbor_dependency->Known_0;
        assert(known.contains(identity));
        lemma_contained_is_observed(known, states, identity);
    }
}

proof fn lemma_contained_is_observed(
    identities: Seq<NeighborIdentityView>,
    states: Seq<CapabilityValueView<NeighborFactView>>,
    identity: NeighborIdentityView,
)
    requires
        identities.len() == states.len(),
        identities.contains(identity),
    ensures
        observed(identities, states, identity) is Some,
    decreases identities.len(),
{
    if identities[0] != identity {
        let k = choose|k: int| 0 <= k < identities.len() && identities[k] == identity;
        assert(identities.drop_first()[k - 1] == identity);
        lemma_contained_is_observed(identities.drop_first(), states.drop_first(), identity);
    }
}

} // verus!
