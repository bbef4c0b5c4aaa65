//! What holds of every run.

use vstd::prelude::*;

use crate::capability::CapabilityValueView;
use crate::engine::preparation;
use crate::engine::run::{
    self, PreparationStepView, PreparationView, RunActionView, RunContextView, RunEventView,
    RunMachineView, RunProgressView,
};
use crate::engine::target::PreparedTargetView;
use crate::input::{HostnameView, ParsedRequestView};
use crate::io::DiagnosticIoErrorKind;
use crate::model::{
    self,
    FormalTargetView, InitialNetworkSnapshotView, NeighborFactView, OperationPathContextView,
    ResolverEndpointView, SystemResolverObservationView, SystemResolverResultView, TargetIpView,
};
use crate::result::{
    AggregateOutcome, DiagnosticResultView, ExitStatus, ResolverDependencyDiagnosticView,
    TargetDiagnostic, TargetDiagnosticView,
};
use crate::sorting::{self, Keyed};

verus! {

/// A run that ends after it was cancelled ends as cancelled, whatever came of the operation.
pub proof fn cancellation_comes_first(machine: RunMachineView, event: RunEventView)
    ensures
        machine.next(event, true) matches RunProgressView::Finished(result) ==> result
            == run::interrupted() && result.status() == ExitStatus::Cancelled,
{
    match machine {
        RunMachineView::Capturing { request } => {
            if let RunEventView::SnapshotCaptured(snapshot) = event {
                lemma_cancelled_snapshot(request, snapshot);
            }
        },
        RunMachineView::Resolving { request, snapshot, hostname } => {
            if let RunEventView::Resolved(observation) = event {
                lemma_cancelled_resolution(request, snapshot, hostname, observation);
            }
        },
        _ => {},
    }
}

proof fn lemma_cancelled_snapshot(request: ParsedRequestView, snapshot: InitialNetworkSnapshotView)
    ensures
        run::after_snapshot(request, snapshot, true) matches RunProgressView::Finished(result)
            ==> result == run::interrupted(),
{
}

proof fn lemma_cancelled_resolution(
    request: ParsedRequestView,
    snapshot: InitialNetworkSnapshotView,
    hostname: HostnameView,
    observation: SystemResolverObservationView,
)
    ensures
        run::after_resolution(request, snapshot, hostname, observation, true) matches
            RunProgressView::Finished(result) ==> result == run::interrupted(),
{
}

/// A run ends as cancelled only where it was cancelled, or where an operation says so.
pub proof fn nothing_else_cancels(machine: RunMachineView, event: RunEventView)
    requires
        event matches RunEventView::Failed(error) ==> error.kind
            != DiagnosticIoErrorKind::Cancelled,
    ensures
        machine.next(event, false) matches RunProgressView::Finished(result) ==> !(result
            is Cancelled),
{
    match machine {
        RunMachineView::Capturing { request } => {
            if let RunEventView::SnapshotCaptured(snapshot) = event {
                lemma_uncancelled_snapshot(request, snapshot);
            }
        },
        RunMachineView::Resolving { request, snapshot, hostname } => {
            if let RunEventView::Resolved(observation) = event {
                lemma_uncancelled_resolution(request, snapshot, hostname, observation);
            }
        },
        RunMachineView::PreparingResolvers { context, hostname, endpoints, preparation } => {
            if let RunEventView::PathAnswered(answer) = event {
                if preparation.querying() {
                    lemma_answer_without_cancellation(preparation, context.snapshot, answer);
                }
            }
        },
        RunMachineView::PreparingTargets { context, targets, preparation } => {
            if let RunEventView::PathAnswered(answer) = event {
                if preparation.querying() {
                    lemma_answer_without_cancellation(preparation, context.snapshot, answer);
                }
            }
        },
        _ => {},
    }
}

proof fn lemma_go_on_without_cancellation(
    preparation: PreparationView,
    snapshot: InitialNetworkSnapshotView,
)
    ensures
        !(preparation.go_on(snapshot, false) is Interrupted),
    decreases preparation.targets.len() - preparation.prepared.len(),
{
    if preparation.prepared.len() < preparation.targets.len() {
        let target = preparation.targets[preparation.prepared.len() as int];
        let settled = preparation::settled_path(snapshot, target);
        lemma_go_on_without_cancellation(preparation.with_path(settled), snapshot);
    }
}

proof fn lemma_answer_without_cancellation(
    preparation: PreparationView,
    snapshot: InitialNetworkSnapshotView,
    answer: CapabilityValueView<OperationPathContextView>,
)
    ensures
        !(preparation.after_answer(snapshot, answer, false) is Interrupted),
{
    lemma_go_on_without_cancellation(
        preparation.with_path(
            preparation::queried_path(
                snapshot,
                preparation.targets[preparation.prepared.len() as int],
                answer,
            ),
        ),
        snapshot,
    );
}

proof fn lemma_targets_without_cancellation(
    context: RunContextView,
    targets: Seq<FormalTargetView>,
)
    ensures
        context.begin_targets(targets, false) matches RunProgressView::Finished(result)
            ==> !(result is Cancelled),
{
    lemma_go_on_without_cancellation(
        run::preparation_of(run::formal_addresses(targets)),
        context.snapshot,
    );
}

proof fn lemma_uncancelled_snapshot(
    request: ParsedRequestView,
    snapshot: InitialNetworkSnapshotView,
)
    ensures
        run::after_snapshot(request, snapshot, false) matches RunProgressView::Finished(result)
            ==> !(result is Cancelled),
{
    let context = run::literal_context(request, snapshot);
    assert forall|targets: Seq<FormalTargetView>| #[trigger]
        context.begin_targets(targets, false) matches RunProgressView::Finished(result)
            ==> !(result is Cancelled) by {
        lemma_targets_without_cancellation(context, targets);
    }
}

proof fn lemma_uncancelled_resolution(
    request: ParsedRequestView,
    snapshot: InitialNetworkSnapshotView,
    hostname: HostnameView,
    observation: SystemResolverObservationView,
)
    ensures
        run::after_resolution(request, snapshot, hostname, observation, false) matches
            RunProgressView::Finished(result) ==> !(result is Cancelled),
{
    assert forall|context: RunContextView, targets: Seq<FormalTargetView>| #[trigger]
        context.begin_targets(targets, false) matches RunProgressView::Finished(result)
            ==> !(result is Cancelled) by {
        lemma_targets_without_cancellation(context, targets);
    }
    assert forall|context: RunContextView| #[trigger]
        context.begin_resolvers(hostname, false) matches RunProgressView::Finished(result)
            ==> !(result is Cancelled) by {
        lemma_resolvers_without_cancellation(context, hostname);
    }
}

proof fn lemma_resolvers_without_cancellation(context: RunContextView, hostname: HostnameView)
    ensures
        context.begin_resolvers(hostname, false) matches RunProgressView::Finished(result)
            ==> !(result is Cancelled),
{
    let plan = crate::engine::resolver::resolver_plan(hostname, context.snapshot);
    lemma_go_on_without_cancellation(
        run::preparation_of(run::resolver_targets(plan.candidates)),
        context.snapshot,
    );
}

/// What resolvers answer directly never becomes a destination: a run that asked them has no
/// targets and does not succeed.
pub proof fn direct_answers_form_no_targets(
    context: RunContextView,
    diagnostics: Seq<ResolverDependencyDiagnosticView>,
    cancelled: bool,
)
    ensures
        (RunMachineView::DiagnosingResolvers { context }).next(
            RunEventView::ResolversDiagnosed(diagnostics),
            cancelled,
        ) matches RunProgressView::Finished(result) && result.status() != ExitStatus::Success && (
        result matches DiagnosticResultView::Completed(completed) ==> completed.targets.len() == 0
            && completed.aggregate_outcome == AggregateOutcome::NoFormalTargets
            && completed.resolver_diagnostics == diagnostics),
{
}

/// Whether every prepared path belongs to its target.
pub open spec fn faithful(preparation: PreparationView) -> bool {
    &&& preparation.prepared.len() <= preparation.targets.len()
    &&& forall|i: int|
        0 <= i < preparation.prepared.len() ==> (#[trigger] preparation.prepared[i]).target
            == preparation.targets[i]
}

/// Whether a step of preparation keeps to the targets: what goes on is faithful, what is asked
/// for is the next target and is not ruled out, and what is ready is complete.
pub open spec fn keeps_to(
    step: PreparationStepView,
    targets: Seq<TargetIpView>,
    snapshot: InitialNetworkSnapshotView,
) -> bool {
    match step {
        PreparationStepView::Query { preparation, target } => {
            &&& faithful(preparation)
            &&& preparation.targets == targets
            &&& preparation.querying()
            &&& target == targets[preparation.prepared.len() as int]
            &&& !preparation::settled_path(snapshot, target).hopeless()
        },
        PreparationStepView::Read { preparation, identity } => {
            &&& faithful(preparation)
            &&& preparation.targets == targets
            &&& preparation.reading()
            &&& preparation.identities == preparation::neighbors_of(preparation.prepared)
            &&& identity == preparation.identities[preparation.states.len() as int]
        },
        PreparationStepView::Ready(paths) => {
            &&& paths.len() == targets.len()
            &&& forall|i: int|
                0 <= i < paths.len() ==> (#[trigger] paths[i]).target == targets[i]
            &&& forall|i: int|
                0 <= i < paths.len() && (#[trigger] paths[i]).neighbor_dependency is Known
                    ==> paths[i].neighbor_pre_state is Some
            &&& forall|i: int, j: int|
                #![trigger paths[i], paths[j]]
                0 <= i < paths.len() && 0 <= j < paths.len() && paths[i].neighbor_dependency
                    is Known && paths[i].neighbor_dependency == paths[j].neighbor_dependency
                    ==> paths[i].neighbor_pre_state == paths[j].neighbor_pre_state
        },
        PreparationStepView::Interrupted => true,
    }
}

/// Preparation asks for every path that the snapshot does not rule out, in order, then reads
/// every neighbor that any path depends on, each once, and only then is anything ready. Paths
/// that share a neighbor share the observation of it.
pub proof fn preparation_is_complete(
    targets: Seq<TargetIpView>,
    snapshot: InitialNetworkSnapshotView,
    cancelled: bool,
)
    ensures
        keeps_to(run::preparation_of(targets).go_on(snapshot, cancelled), targets, snapshot),
{
    lemma_go_on_keeps(run::preparation_of(targets), snapshot, cancelled);
}

/// The same holds after each answer to a path query.
pub proof fn path_answers_keep_preparation_complete(
    preparation: PreparationView,
    snapshot: InitialNetworkSnapshotView,
    answer: CapabilityValueView<OperationPathContextView>,
    cancelled: bool,
)
    requires
        faithful(preparation),
        preparation.querying(),
    ensures
        keeps_to(
            preparation.after_answer(snapshot, answer, cancelled),
            preparation.targets,
            snapshot,
        ),
{
    lemma_go_on_keeps(
        preparation.with_path(
            preparation::queried_path(
                snapshot,
                preparation.targets[preparation.prepared.len() as int],
                answer,
            ),
        ),
        snapshot,
        cancelled,
    );
}

/// The same holds after each neighbor that is read.
pub proof fn neighbor_reads_keep_preparation_complete(
    preparation: PreparationView,
    snapshot: InitialNetworkSnapshotView,
    observed: CapabilityValueView<NeighborFactView>,
)
    requires
        faithful(preparation),
        preparation.reading(),
        preparation.identities == preparation::neighbors_of(preparation.prepared),
    ensures
        keeps_to(preparation.after_neighbor(observed), preparation.targets, snapshot),
{
    lemma_read_on_keeps(
        PreparationView { states: preparation.states.push(observed), ..preparation },
        snapshot,
    );
}

proof fn lemma_read_on_keeps(preparation: PreparationView, snapshot: InitialNetworkSnapshotView)
    requires
        faithful(preparation),
        preparation.prepared.len() == preparation.targets.len(),
        preparation.states.len() <= preparation.identities.len(),
        preparation.identities == preparation::neighbors_of(preparation.prepared),
    ensures
        keeps_to(preparation.read_on(), preparation.targets, snapshot),
{
    if preparation.states.len() == preparation.identities.len() {
        preparation::shared_neighbors_have_one_pre_state(preparation.prepared, preparation.states);
        let paths = preparation::with_pre_states(
            preparation.prepared,
            preparation.identities,
            preparation.states,
        );
        assert forall|i: int| 0 <= i < paths.len() implies (#[trigger] paths[i]).target
            == preparation.targets[i] by {
            assert(preparation.prepared[i].target == preparation.targets[i]);
        }
    }
}

proof fn lemma_go_on_keeps(
    preparation: PreparationView,
    snapshot: InitialNetworkSnapshotView,
    cancelled: bool,
)
    requires
        faithful(preparation),
        preparation.states.len() == 0,
        preparation.identities.len() == 0,
    ensures
        keeps_to(preparation.go_on(snapshot, cancelled), preparation.targets, snapshot),
    decreases preparation.targets.len() - preparation.prepared.len(),
{
    if preparation.prepared.len() < preparation.targets.len() {
        let target = preparation.targets[preparation.prepared.len() as int];
        let settled = preparation::settled_path(snapshot, target);
        lemma_go_on_keeps(preparation.with_path(settled), snapshot, cancelled);
    } else {
        lemma_read_on_keeps(
            PreparationView {
                identities: preparation::neighbors_of(preparation.prepared),
                ..preparation
            },
            snapshot,
        );
    }
}

/// The targets of a run for a hostname are exactly those that the system resolver gave, in its
/// order, or there are none.
pub proof fn targets_come_from_the_system_resolver(
    request: ParsedRequestView,
    snapshot: InitialNetworkSnapshotView,
    hostname: HostnameView,
    observation: SystemResolverObservationView,
    cancelled: bool,
)
    ensures
        run::after_resolution(request, snapshot, hostname, observation, cancelled) matches
            RunProgressView::Pending { machine, action } ==> match machine {
            RunMachineView::PreparingTargets { targets, preparation, .. } => {
                &&& observation.name_resolution.result matches SystemResolverResultView::Succeeded(
                    addresses,
                ) && targets == addresses.formal_targets
                &&& preparation.targets == run::formal_addresses(targets)
                &&& faithful(preparation)
                &&& preparation.reading() ==> preparation.identities == preparation::neighbors_of(
                    preparation.prepared,
                )
            },
            RunMachineView::DiagnosingTargets { .. } => {
                &&& observation.name_resolution.result matches SystemResolverResultView::Succeeded(
                    addresses,
                ) && action matches RunActionView::DiagnoseTargets { targets, .. } && targets.len()
                    == addresses.formal_targets.len() && forall|i: int|
                    0 <= i < targets.len() ==> (#[trigger] targets[i]).path.target
                        == addresses.formal_targets[i].target && targets[i].resolver_ordinal
                        == addresses.formal_targets[i].resolver_ordinal
            },
            RunMachineView::PreparingResolvers { .. } => {
                !(observation.name_resolution.result is Succeeded)
            },
            RunMachineView::DiagnosingResolvers { .. } => {
                !(observation.name_resolution.result is Succeeded)
            },
            _ => false,
        },
{
    let (outcome, targets) = run::resolution_of(observation.name_resolution.result);
    preparation_is_complete(run::formal_addresses(targets), snapshot, cancelled);
}

/// Once its preparation is complete, the run diagnoses every target, each with its own path and
/// ordinal.
pub proof fn every_target_is_diagnosed(
    context: RunContextView,
    targets: Seq<FormalTargetView>,
    preparation: PreparationView,
    event: RunEventView,
    cancelled: bool,
)
    requires
        faithful(preparation),
        preparation.targets == run::formal_addresses(targets),
        preparation.reading() ==> preparation.identities == preparation::neighbors_of(
            preparation.prepared,
        ),
    ensures
        (RunMachineView::PreparingTargets { context, targets, preparation }).next(
            event,
            cancelled,
        ) matches RunProgressView::Pending { machine, action } ==> match machine {
            RunMachineView::PreparingTargets { targets: same, preparation: later, .. } => {
                &&& same == targets
                &&& later.targets == preparation.targets
                &&& faithful(later)
                &&& later.reading() ==> later.identities == preparation::neighbors_of(
                    later.prepared,
                )
            },
            RunMachineView::DiagnosingTargets { .. } => {
                action matches RunActionView::DiagnoseTargets { targets: ready, .. }
                    && ready.len() == targets.len() && forall|i: int|
                    0 <= i < ready.len() ==> (#[trigger] ready[i]).path.target == targets[i].target
                        && ready[i].resolver_ordinal == targets[i].resolver_ordinal
            },
            _ => false,
        },
{
    if let RunEventView::PathAnswered(answer) = event {
        if preparation.querying() {
            path_answers_keep_preparation_complete(
                preparation,
                context.snapshot,
                answer,
                cancelled,
            );
        }
    }
    if let RunEventView::NeighborObserved(observed) = event {
        if preparation.reading() {
            neighbor_reads_keep_preparation_complete(preparation, context.snapshot, observed);
        }
    }
}

/// The progress of a run after a series of events, each with the word whether the run was
/// cancelled by then; a run that has ended takes no more.
pub open spec fn followed(
    progress: RunProgressView,
    steps: Seq<(RunEventView, bool)>,
) -> RunProgressView
    decreases steps.len(),
{
    if steps.len() == 0 {
        progress
    } else {
        match progress {
            RunProgressView::Pending { machine, .. } => followed(
                machine.next(steps[0].0, steps[0].1),
                steps.drop_first(),
            ),
            RunProgressView::Finished(_) => progress,
        }
    }
}

/// Whether there is one diagnosis for every target that was asked for, in order, with its target
/// and its ordinal.
pub open spec fn answers(
    diagnoses: Seq<TargetDiagnosticView>,
    asked: Seq<PreparedTargetView>,
) -> bool {
    &&& diagnoses.len() == asked.len()
    &&& forall|i: int|
        0 <= i < diagnoses.len() ==> (#[trigger] diagnoses[i]).target == asked[i].path.target
            && diagnoses[i].resolver_ordinal == asked[i].resolver_ordinal
}

/// Whether every request for diagnoses was answered with those that it asked for.
pub open spec fn is_answered(progress: RunProgressView, steps: Seq<(RunEventView, bool)>) -> bool
    decreases steps.len(),
{
    match progress {
        RunProgressView::Pending { machine, action } if steps.len() > 0 => {
            &&& match (action, steps[0].0) {
                (
                    RunActionView::DiagnoseTargets { targets, .. },
                    RunEventView::TargetsDiagnosed(diagnoses),
                ) => answers(diagnoses, targets),
                _ => true,
            }
            &&& is_answered(machine.next(steps[0].0, steps[0].1), steps.drop_first())
        },
        _ => true,
    }
}

/// Whether diagnoses are those of formal targets, place by place.
pub open spec fn diagnosed(
    diagnoses: Seq<TargetDiagnosticView>,
    targets: Seq<FormalTargetView>,
) -> bool {
    &&& diagnoses.len() == targets.len()
    &&& forall|i: int|
        0 <= i < diagnoses.len() ==> (#[trigger] diagnoses[i]).target == targets[i].target
            && diagnoses[i].resolver_ordinal == targets[i].resolver_ordinal
}

/// Whether the ordinals of formal targets never go down.
pub open spec fn in_resolver_order(targets: Seq<FormalTargetView>) -> bool {
    forall|i: int, j: int|
        #![trigger targets[i], targets[j]]
        0 <= i < j < targets.len() ==> targets[i].resolver_ordinal is Some
            && targets[j].resolver_ordinal is Some && targets[i].resolver_ordinal->Some_0
            <= targets[j].resolver_ordinal->Some_0
}

/// Whether a run is on its way to results for the given targets and no others.
pub open spec fn is_bound_for(progress: RunProgressView, targets: Seq<FormalTargetView>) -> bool {
    match progress {
        RunProgressView::Pending { machine, action } => match machine {
            RunMachineView::PreparingTargets { targets: own, preparation, .. } => {
                &&& own == targets
                &&& preparation.targets == run::formal_addresses(targets)
                &&& faithful(preparation)
                &&& preparation.reading() ==> preparation.identities == preparation::neighbors_of(
                    preparation.prepared,
                )
            },
            RunMachineView::DiagnosingTargets { .. } => {
                action matches RunActionView::DiagnoseTargets { targets: asked, .. } && asked.len()
                    == targets.len() && forall|i: int|
                    0 <= i < asked.len() ==> (#[trigger] asked[i]).path.target == targets[i].target
                        && asked[i].resolver_ordinal == targets[i].resolver_ordinal
            },
            RunMachineView::PreparingResolvers { .. } => targets.len() == 0,
            RunMachineView::DiagnosingResolvers { .. } => targets.len() == 0,
            _ => false,
        },
        RunProgressView::Finished(DiagnosticResultView::Completed(completed)) => diagnosed(
            completed.targets,
            targets,
        ),
        RunProgressView::Finished(_) => true,
    }
}

/// A run for a hostname that completes has exactly the targets that the system resolver gave, each
/// once, in its order and with its ordinal; where the resolver gave none, it has none.
pub proof fn completed_targets_are_those_of_the_resolver(
    request: ParsedRequestView,
    snapshot: InitialNetworkSnapshotView,
    hostname: HostnameView,
    observation: SystemResolverObservationView,
    cancelled: bool,
    steps: Seq<(RunEventView, bool)>,
)
    requires
        observation.name_resolution.result matches SystemResolverResultView::Succeeded(addresses)
            ==> addresses.raw_addresses.len() <= usize::MAX && addresses.formal_targets
            == model::deduplicated(addresses.raw_addresses),
        is_answered(
            run::after_resolution(request, snapshot, hostname, observation, cancelled),
            steps,
        ),
    ensures
        followed(
            run::after_resolution(request, snapshot, hostname, observation, cancelled),
            steps,
        ) matches RunProgressView::Finished(DiagnosticResultView::Completed(completed)) ==> match
            observation.name_resolution.result {
            SystemResolverResultView::Succeeded(addresses) => diagnosed(
                completed.targets,
                addresses.formal_targets,
            ),
            SystemResolverResultView::Failed(_) => completed.targets.len() == 0,
        },
{
    let targets = run::resolution_of(observation.name_resolution.result).1;
    targets_come_from_the_system_resolver(request, snapshot, hostname, observation, cancelled);
    if let SystemResolverResultView::Succeeded(addresses) = observation.name_resolution.result {
        model::deduplication_keeps_first_occurrences(addresses.raw_addresses);
        assert(targets =~= addresses.formal_targets);
    }
    lemma_targets_stay(
        run::after_resolution(request, snapshot, hostname, observation, cancelled),
        targets,
        steps,
    );
}

/// A run for a literal address that completes has that address as its only target.
pub proof fn completed_target_is_the_literal(
    context: RunContextView,
    target: TargetIpView,
    cancelled: bool,
    steps: Seq<(RunEventView, bool)>,
)
    requires
        is_answered(
            context.begin_targets(
                seq![FormalTargetView { target, resolver_ordinal: None }],
                cancelled,
            ),
            steps,
        ),
    ensures
        followed(
            context.begin_targets(
                seq![FormalTargetView { target, resolver_ordinal: None }],
                cancelled,
            ),
            steps,
        ) matches RunProgressView::Finished(DiagnosticResultView::Completed(completed))
            ==> completed.targets.len() == 1 && completed.targets[0].target == target
            && completed.targets[0].resolver_ordinal is None,
{
    let targets = seq![FormalTargetView { target, resolver_ordinal: None }];
    preparation_is_complete(run::formal_addresses(targets), context.snapshot, cancelled);
    lemma_targets_stay(context.begin_targets(targets, cancelled), targets, steps);
}

proof fn lemma_targets_stay(
    progress: RunProgressView,
    targets: Seq<FormalTargetView>,
    steps: Seq<(RunEventView, bool)>,
)
    requires
        is_bound_for(progress, targets),
        in_resolver_order(targets),
        is_answered(progress, steps),
    ensures
        is_bound_for(followed(progress, steps), targets),
    decreases steps.len(),
{
    if steps.len() > 0 {
        if let RunProgressView::Pending { machine, action } = progress {
            let (event, cancelled) = steps[0];
            match machine {
                RunMachineView::PreparingTargets { context, targets: own, preparation } => {
                    every_target_is_diagnosed(context, targets, preparation, event, cancelled);
                },
                RunMachineView::DiagnosingTargets { context } => {
                    if let RunEventView::TargetsDiagnosed(diagnoses) = event {
                        lemma_diagnoses_stay_in_order(diagnoses, targets);
                    }
                },
                _ => {},
            }
            lemma_targets_stay(machine.next(event, cancelled), targets, steps.drop_first());
        }
    }
}

proof fn lemma_diagnoses_stay_in_order(
    diagnoses: Seq<TargetDiagnosticView>,
    targets: Seq<FormalTargetView>,
)
    requires
        in_resolver_order(targets),
        diagnosed(diagnoses, targets),
    ensures
        sorting::sorted::<TargetDiagnostic>(diagnoses) == diagnoses,
{
    assert forall|i: int, j: int|
        #![trigger diagnoses[i], diagnoses[j]]
        0 <= i <= j < diagnoses.len() implies sorting::key_le(
        <TargetDiagnostic as Keyed>::key_of(diagnoses[i]),
        <TargetDiagnostic as Keyed>::key_of(diagnoses[j]),
    ) by {
        let earlier = <TargetDiagnostic as Keyed>::key_of(diagnoses[i]);
        let later = <TargetDiagnostic as Keyed>::key_of(diagnoses[j]);
        if i == j {
            sorting::key_order_is_total(earlier, later);
        } else {
            assert(targets[i].resolver_ordinal is Some && targets[j].resolver_ordinal is Some);
            reveal_with_fuel(sorting::key_le, 2);
        }
    }
    sorting::lemma_sorted_items_stay::<TargetDiagnostic>(diagnoses);
}

/// How far a machine is from the end of its run, in stages.
pub open spec fn stages_left(machine: RunMachineView) -> nat {
    match machine {
        RunMachineView::Capturing { .. } => 5,
        RunMachineView::Resolving { .. } => 4,
        RunMachineView::PreparingResolvers { .. } => 3,
        RunMachineView::DiagnosingResolvers { .. } => 2,
        RunMachineView::PreparingTargets { .. } => 1,
        RunMachineView::DiagnosingTargets { .. } => 0,
    }
}

/// How many operations a preparation may still ask for at most.
pub open spec fn operations_left(preparation: PreparationView) -> int {
    if preparation.querying() {
        2 * preparation.targets.len() - preparation.prepared.len()
    } else {
        preparation.identities.len() - preparation.states.len()
    }
}

/// How many operations a machine may still ask for at most before its next stage.
pub open spec fn steps_left(machine: RunMachineView) -> int {
    match machine {
        RunMachineView::PreparingResolvers { preparation, .. } => operations_left(preparation),
        RunMachineView::PreparingTargets { preparation, .. } => operations_left(preparation),
        _ => 0,
    }
}

proof fn lemma_few_neighbors(paths: Seq<preparation::PreparedPathView>)
    ensures
        preparation::neighbors_of(paths).len() <= paths.len(),
    decreases paths.len(),
{
    if paths.len() > 0 {
        lemma_few_neighbors(paths.drop_last());
    }
}

proof fn lemma_going_on_is_bounded(
    preparation: PreparationView,
    snapshot: InitialNetworkSnapshotView,
    cancelled: bool,
)
    requires
        preparation.prepared.len() <= preparation.targets.len(),
        preparation.states.len() == 0,
        preparation.identities.len() == 0,
    ensures
        match preparation.go_on(snapshot, cancelled) {
            PreparationStepView::Query { preparation: next, .. } => 0 < operations_left(next)
                <= 2 * preparation.targets.len() - preparation.prepared.len(),
            PreparationStepView::Read { preparation: next, .. } => 0 < operations_left(next)
                <= preparation.targets.len(),
            _ => true,
        },
    decreases preparation.targets.len() - preparation.prepared.len(),
{
    if preparation.prepared.len() < preparation.targets.len() {
        let target = preparation.targets[preparation.prepared.len() as int];
        let settled = preparation::settled_path(snapshot, target);
        lemma_going_on_is_bounded(preparation.with_path(settled), snapshot, cancelled);
    } else {
        lemma_few_neighbors(preparation.prepared);
    }
}

/// Whether a progress is at most at a stage.
spec fn at_most_at(progress: RunProgressView, stage: nat) -> bool {
    progress matches RunProgressView::Pending { machine, .. } ==> stages_left(machine) <= stage
}

proof fn lemma_targets_are_last(
    context: RunContextView,
    targets: Seq<FormalTargetView>,
    step: PreparationStepView,
    cancelled: bool,
)
    ensures
        at_most_at(context.prepare_targets(targets, step, cancelled), 1),
        context.prepare_targets(targets, step, cancelled) matches RunProgressView::Pending {
            machine: RunMachineView::PreparingTargets { preparation, .. },
            ..
        } ==> match step {
            PreparationStepView::Query { preparation: next, .. } => preparation == next,
            PreparationStepView::Read { preparation: next, .. } => preparation == next,
            _ => false,
        },
{
}

proof fn lemma_resolvers_come_before(
    context: RunContextView,
    hostname: HostnameView,
    endpoints: Seq<ResolverEndpointView>,
    step: PreparationStepView,
)
    ensures
        at_most_at(context.prepare_resolvers(hostname, endpoints, step), 3),
        context.prepare_resolvers(hostname, endpoints, step) matches RunProgressView::Pending {
            machine,
            ..
        } ==> machine is PreparingResolvers || machine is DiagnosingResolvers,
        context.prepare_resolvers(hostname, endpoints, step) matches RunProgressView::Pending {
            machine: RunMachineView::PreparingResolvers { preparation, .. },
            ..
        } ==> match step {
            PreparationStepView::Query { preparation: next, .. } => preparation == next,
            PreparationStepView::Read { preparation: next, .. } => preparation == next,
            _ => false,
        },
{
}

proof fn lemma_begun_targets(
    context: RunContextView,
    targets: Seq<FormalTargetView>,
    cancelled: bool,
)
    ensures
        at_most_at(context.begin_targets(targets, cancelled), 1),
{
    let step = run::preparation_of(run::formal_addresses(targets)).go_on(
        context.snapshot,
        cancelled,
    );
    lemma_targets_are_last(context, targets, step, cancelled);
}

proof fn lemma_snapshot_stage(
    request: ParsedRequestView,
    snapshot: InitialNetworkSnapshotView,
    cancelled: bool,
)
    ensures
        at_most_at(run::after_snapshot(request, snapshot, cancelled), 4),
{
    let context = run::literal_context(request, snapshot);
    assert forall|targets: Seq<FormalTargetView>| #[trigger]
        at_most_at(context.begin_targets(targets, cancelled), 1) by {
        lemma_begun_targets(context, targets, cancelled);
    }
}

proof fn lemma_resolution_stage(
    request: ParsedRequestView,
    snapshot: InitialNetworkSnapshotView,
    hostname: HostnameView,
    observation: SystemResolverObservationView,
    cancelled: bool,
)
    ensures
        at_most_at(
            run::after_resolution(request, snapshot, hostname, observation, cancelled),
            3,
        ),
{
    assert forall|context: RunContextView, targets: Seq<FormalTargetView>| #[trigger]
        at_most_at(context.begin_targets(targets, cancelled), 1) by {
        lemma_begun_targets(context, targets, cancelled);
    }
    assert forall|context: RunContextView| #[trigger]
        at_most_at(context.begin_resolvers(hostname, cancelled), 3) by {
        let plan = crate::engine::resolver::resolver_plan(hostname, context.snapshot);
        let step = run::preparation_of(run::resolver_targets(plan.candidates)).go_on(
            context.snapshot,
            cancelled,
        );
        assert forall|planned: RunContextView| #[trigger]
            at_most_at(planned.prepare_resolvers(hostname, plan.candidates, step), 3) by {
            lemma_resolvers_come_before(planned, hostname, plan.candidates, step);
        }
    }
}

/// Whether a progress is closer to the end of a run than a machine.
pub open spec fn closer(progress: RunProgressView, machine: RunMachineView) -> bool {
    progress matches RunProgressView::Pending { machine: next, .. } ==> stages_left(next)
        < stages_left(machine) || (stages_left(next) == stages_left(machine) && 0 < steps_left(
        next,
    ) < steps_left(machine))
}

proof fn lemma_preparation_proceeds(
    machine: RunMachineView,
    event: RunEventView,
    cancelled: bool,
)
    requires
        machine is PreparingResolvers || machine is PreparingTargets,
    ensures
        closer(machine.next(event, cancelled), machine),
{
    match machine {
        RunMachineView::PreparingResolvers { context, hostname, endpoints, preparation } => {
            match event {
                RunEventView::PathAnswered(answer) => {
                    if preparation.querying() {
                        let step = preparation.after_answer(context.snapshot, answer, cancelled);
                        lemma_answers_are_bounded(preparation, context.snapshot, answer, cancelled);
                        lemma_resolvers_come_before(context, hostname, endpoints, step);
                    }
                },
                RunEventView::NeighborObserved(observed) => {
                    if preparation.reading() {
                        let step = preparation.after_neighbor(observed);
                        lemma_resolvers_come_before(context, hostname, endpoints, step);
                    }
                },
                _ => {},
            }
        },
        RunMachineView::PreparingTargets { context, targets, preparation } => {
            match event {
                RunEventView::PathAnswered(answer) => {
                    if preparation.querying() {
                        let step = preparation.after_answer(context.snapshot, answer, cancelled);
                        lemma_answers_are_bounded(preparation, context.snapshot, answer, cancelled);
                        lemma_targets_are_last(context, targets, step, cancelled);
                    }
                },
                RunEventView::NeighborObserved(observed) => {
                    if preparation.reading() {
                        let step = preparation.after_neighbor(observed);
                        lemma_targets_are_last(context, targets, step, cancelled);
                    }
                },
                _ => {},
            }
        },
        _ => {},
    }
}

/// Every answer brings a run closer to its end: the next operation belongs to a later stage, or
/// to the same stage with fewer operations left in it.
pub proof fn every_run_proceeds(machine: RunMachineView, event: RunEventView, cancelled: bool)
    ensures
        closer(machine.next(event, cancelled), machine),
{
    match machine {
        RunMachineView::Capturing { request } => {
            if let RunEventView::SnapshotCaptured(snapshot) = event {
                lemma_snapshot_stage(request, snapshot, cancelled);
            }
        },
        RunMachineView::Resolving { request, snapshot, hostname } => {
            if let RunEventView::Resolved(observation) = event {
                lemma_resolution_stage(request, snapshot, hostname, observation, cancelled);
            }
        },
        RunMachineView::PreparingResolvers { .. } => {
            lemma_preparation_proceeds(machine, event, cancelled);
        },
        RunMachineView::PreparingTargets { .. } => {
            lemma_preparation_proceeds(machine, event, cancelled);
        },
        _ => {},
    }
}

proof fn lemma_answers_are_bounded(
    preparation: PreparationView,
    snapshot: InitialNetworkSnapshotView,
    answer: CapabilityValueView<OperationPathContextView>,
    cancelled: bool,
)
    requires
        preparation.querying(),
    ensures
        match preparation.after_answer(snapshot, answer, cancelled) {
            PreparationStepView::Query { preparation: next, .. } => 0 < operations_left(next)
                < operations_left(preparation),
            PreparationStepView::Read { preparation: next, .. } => 0 < operations_left(next)
                < operations_left(preparation),
            _ => true,
        },
{
    let target = preparation.targets[preparation.prepared.len() as int];
    let path = preparation::queried_path(snapshot, target, answer);
    lemma_going_on_is_bounded(preparation.with_path(path), snapshot, cancelled);
}

} // verus!
