//! How attempts become evidence, and how long operations may take.

use vstd::prelude::*;

use crate::capability::CapabilityValueView;
use crate::engine::conclusion_laws;
use crate::engine::observation;
use crate::engine::target::{
    self, TargetActionView, TargetEventView, TargetMachineView, TargetProgressView, TargetStage,
};
use crate::engine::target_laws;
use crate::io::IcmpEchoSubjectView;
use crate::model::{
    AttemptSubjectView, AttemptView, NeighborFactView, NeighborState, OperationPathContextView,
    TcpAttemptResultView,
};
use crate::path::{InitialPathAnalysisView, NeighborDependencyView};
use crate::result::{
    EvidenceFactView, EvidenceRole, EvidenceSubjectView, EvidenceView, NeighborObservation,
    TargetNetworkFactsView,
};
use crate::time::Duration;

verus! {

/// The place of the next attempt to be recorded among those of the primary check, where it is one
/// of them.
pub open spec fn place_in_check(machine: TargetMachineView) -> Option<int> {
    match machine.stage {
        TargetStage::FirstConnect => Some(0),
        TargetStage::SecondConnect => Some(1),
        TargetStage::TargetEcho | TargetStage::TargetEchoRetry => if machine.port is None {
            Some(0)
        } else {
            None
        },
        _ => None,
    }
}

/// Whether an item of evidence stands for an attempt: the first attempt of the primary check is
/// what it decides by, the second is history of the same check, and any other is neither.
pub open spec fn stands_for(item: EvidenceView, attempt: AttemptView, place: Option<int>) -> bool {
    &&& item.fact == EvidenceFactView::Attempt(attempt.id)
    &&& item.id.0 == attempt.id.0
    &&& match attempt.subject {
        AttemptSubjectView::Target(target) => item.subject == EvidenceSubjectView::Target(target),
        AttemptSubjectView::NextHop(neighbor) => item.subject == EvidenceSubjectView::Neighbor(
            neighbor,
        ),
        AttemptSubjectView::Resolver { .. } => item.subject is Resolver,
    }
    &&& item.role == EvidenceRole::PrimaryDecision <==> place == Some(0int)
    &&& item.role == EvidenceRole::AnomalyHistory <==> place == Some(1int)
}

/// A place some steps on.
pub open spec fn further(place: Option<int>, steps: int) -> Option<int> {
    match place {
        Some(place) => Some(place + steps),
        None => None,
    }
}

/// Whether one item of evidence is another, but for the part that it plays.
pub open spec fn is_still(item: EvidenceView, earlier: EvidenceView) -> bool {
    item.id == earlier.id && item.subject == earlier.subject && item.fact == earlier.fact
}

/// Whether evidence holds all that was there before, in order, and behind it an item for each
/// attempt that was added.
pub open spec fn records(
    evidence: Seq<EvidenceView>,
    before: Seq<EvidenceView>,
    attempts: Seq<AttemptView>,
    from: int,
    place: Option<int>,
) -> bool {
    &&& evidence.len() >= before.len() + attempts.len() - from
    &&& forall|i: int| 0 <= i < before.len() ==> is_still(#[trigger] evidence[i], before[i])
    &&& forall|i: int|
        from <= i < attempts.len() ==> stands_for(
            evidence[before.len() + i - from],
            #[trigger] attempts[i],
            further(place, i - from),
        )
}

/// Whether a step of a diagnosis leaves it with attempts, and with evidence for all that are
/// complete.
pub open spec fn is_recorded(
    progress: TargetProgressView,
    machine: TargetMachineView,
    attempts: Seq<AttemptView>,
) -> bool {
    let from = machine.attempts.len() as int;
    let place = place_in_check(machine);
    match progress {
        TargetProgressView::Pending { machine: later, .. } => {
            &&& later.attempts + later.series == attempts
            &&& records(later.evidence, machine.evidence, later.attempts, from, place)
        },
        TargetProgressView::Finished(diagnostic) => {
            &&& diagnostic.attempts == attempts
            &&& records(diagnostic.evidence, machine.evidence, diagnostic.attempts, from, place)
        },
        TargetProgressView::Failed(_) => true,
    }
}

/// Every attempt that is made is kept, in order, and becomes evidence once its series is complete;
/// no evidence is lost. Where an operation could not be carried out and the diagnosis ends there,
/// it ends with the attempts of the series that were complete.
pub proof fn attempts_become_evidence(machine: TargetMachineView, event: TargetEventView)
    requires
        machine.valid(),
    ensures
        is_recorded(
            machine.next(event),
            machine,
            if event is Failed {
                machine.attempts
            } else {
                machine.attempts + machine.series + conclusion_laws::brought(event)
            },
        ),
{
    match event {
        TargetEventView::Failed(_) => {},
        TargetEventView::Attempted(attempt) => match machine.stage {
            TargetStage::FirstConnect | TargetStage::SecondConnect => {
                lemma_connect(machine, attempt);
            },
            TargetStage::TargetEcho | TargetStage::TargetEchoRetry => {
                lemma_target_echo(machine, attempt);
            },
            TargetStage::NextHopEcho | TargetStage::NextHopEchoRetry => {
                lemma_next_hop_echo(machine, attempt);
            },
            _ => {},
        },
        TargetEventView::NeighborObserved(observed) => match machine.stage {
            TargetStage::NeighborRead | TargetStage::NeighborConvergence => {
                let seen = TargetMachineView {
                    facts: TargetNetworkFactsView {
                        neighbor_post_state: Some(observed),
                        ..machine.facts
                    },
                    ..machine
                };
                lemma_neighbor(seen, observation::neighbor_state_of(observed));
            },
            _ => {},
        },
        TargetEventView::PathAttempted(CapabilityValueView::Available { value, .. }) => {
            match machine.stage {
                TargetStage::PathFirst | TargetStage::PathSecond => {
                    lemma_path_attempt(machine, value);
                },
                _ => {},
            }
        },
        TargetEventView::PathAttempted(_) => {},
    }
}

/// Whether evidence begins with other evidence.
spec fn begins_with(evidence: Seq<EvidenceView>, start: Seq<EvidenceView>) -> bool {
    &&& evidence.len() >= start.len()
    &&& forall|i: int| 0 <= i < start.len() ==> #[trigger] evidence[i] == start[i]
}

spec fn only_adds(progress: TargetProgressView, machine: TargetMachineView) -> bool {
    match progress {
        TargetProgressView::Pending { machine: later, .. } => later.attempts == machine.attempts
            && later.series == machine.series && begins_with(later.evidence, machine.evidence),
        TargetProgressView::Finished(diagnostic) => diagnostic.attempts == machine.attempts
            && begins_with(diagnostic.evidence, machine.evidence),
        TargetProgressView::Failed(_) => true,
    }
}

proof fn lemma_neighbor(machine: TargetMachineView, state: Option<NeighborState>)
    ensures
        only_adds(machine.after_neighbor(state), machine),
{
}

proof fn lemma_read_neighbor(machine: TargetMachineView)
    ensures
        only_adds(machine.read_neighbor(), machine),
{
    lemma_neighbor(machine, None);
}

proof fn lemma_connect(machine: TargetMachineView, attempt: AttemptView)
    requires
        machine.valid(),
        machine.stage == TargetStage::FirstConnect || machine.stage == TargetStage::SecondConnect,
    ensures
        is_recorded(
            machine.after_connect(attempt),
            machine,
            machine.attempts + machine.series + seq![attempt],
        ),
{
    let attempts = machine.attempts.push(attempt);
    assert(attempts =~= machine.attempts + machine.series + seq![attempt]);
    assert(attempts + machine.series =~= attempts);
}

/// What is added behind a complete record keeps it one.
proof fn lemma_added(
    progress: TargetProgressView,
    seen: TargetMachineView,
    machine: TargetMachineView,
)
    requires
        only_adds(progress, seen),
        seen.series.len() == 0,
        machine.attempts.len() <= seen.attempts.len(),
        records(
            seen.evidence,
            machine.evidence,
            seen.attempts,
            machine.attempts.len() as int,
            place_in_check(machine),
        ),
    ensures
        is_recorded(progress, machine, seen.attempts),
{
    let from = machine.attempts.len() as int;
    let place = place_in_check(machine);
    let before = machine.evidence;
    let evidence = match progress {
        TargetProgressView::Pending { machine: later, .. } => later.evidence,
        TargetProgressView::Finished(diagnostic) => diagnostic.evidence,
        TargetProgressView::Failed(_) => seen.evidence,
    };
    assert(seen.attempts + seen.series =~= seen.attempts);
    assert forall|i: int| 0 <= i < before.len() implies is_still(
        #[trigger] evidence[i],
        before[i],
    ) by {
        assert(is_still(seen.evidence[i], before[i]));
    }
    assert forall|i: int| from <= i < seen.attempts.len() implies stands_for(
        evidence[before.len() + i - from],
        #[trigger] seen.attempts[i],
        further(place, i - from),
    ) by {
        assert(evidence[before.len() + i - from] == seen.evidence[before.len() + i - from]);
    }
}

proof fn lemma_target_echo(machine: TargetMachineView, attempt: AttemptView)
    requires
        machine.valid(),
        machine.stage == TargetStage::TargetEcho || machine.stage == TargetStage::TargetEchoRetry,
    ensures
        is_recorded(
            machine.after_echo(attempt),
            machine,
            machine.attempts + machine.series + seq![attempt],
        ),
{
    let from = machine.attempts.len() as int;
    let place = place_in_check(machine);
    let series = machine.series.push(attempt);
    let ready = TargetMachineView { series, ..machine };
    let seen = TargetMachineView {
        attempts: machine.attempts + series,
        series: Seq::empty(),
        evidence: if machine.tcp() {
            target::with_attempts(machine.evidence, series, EvidenceRole::BoundaryNarrowing)
        } else {
            machine.evidence + target::primary_series_evidence(series)
        },
        ..ready
    };
    assert(records(seen.evidence, machine.evidence, seen.attempts, from, place)) by {
        assert forall|i: int| from <= i < seen.attempts.len() implies stands_for(
            seen.evidence[machine.evidence.len() + i - from],
            #[trigger] seen.attempts[i],
            further(place, i - from),
        ) by {
            assert(seen.attempts[i] == series[i - from]);
        }
    }
    lemma_read_neighbor(seen);
    lemma_added(seen.read_neighbor(), seen, machine);
    assert(seen.attempts =~= machine.attempts + machine.series + seq![attempt]);
    assert(seen.attempts + Seq::<AttemptView>::empty() =~= seen.attempts);
    assert(machine.attempts + series =~= seen.attempts);
}

proof fn lemma_next_hop_echo(machine: TargetMachineView, attempt: AttemptView)
    requires
        machine.valid(),
        machine.stage == TargetStage::NextHopEcho || machine.stage
            == TargetStage::NextHopEchoRetry,
    ensures
        is_recorded(
            machine.after_echo(attempt),
            machine,
            machine.attempts + machine.series + seq![attempt],
        ),
{
    let from = machine.attempts.len() as int;
    let place = place_in_check(machine);
    let series = machine.series.push(attempt);
    let attempts = machine.attempts + series;
    let evidence = target::with_attempts(
        machine.evidence,
        series,
        EvidenceRole::BoundaryNarrowing,
    );
    assert(records(evidence, machine.evidence, attempts, from, place)) by {
        assert forall|i: int| from <= i < attempts.len() implies stands_for(
            evidence[machine.evidence.len() + i - from],
            #[trigger] attempts[i],
            further(place, i - from),
        ) by {
            assert(attempts[i] == series[i - from]);
        }
    }
    assert(attempts =~= machine.attempts + machine.series + seq![attempt]);
    assert(attempts + Seq::<AttemptView>::empty() =~= attempts);
}

proof fn lemma_path_attempt(machine: TargetMachineView, attempt: AttemptView)
    requires
        machine.valid(),
        machine.stage == TargetStage::PathFirst || machine.stage == TargetStage::PathSecond,
    ensures
        is_recorded(
            machine.after_path_attempt(attempt),
            machine,
            machine.attempts + machine.series + seq![attempt],
        ),
{
    let attempts = machine.attempts.push(attempt);
    assert(attempts =~= machine.attempts + machine.series + seq![attempt]);
    assert(attempts + machine.series =~= attempts);
}

/// No operation takes longer than its kind may: a TCP connection five seconds, an echo of the
/// target two, and an echo of the next hop and an attempt along the path one. No path is followed
/// beyond thirty hops.
pub proof fn operations_end_in_time(machine: TargetMachineView, action: TargetActionView)
    requires
        target_laws::permitted(machine, action),
    ensures
        match action {
            TargetActionView::TcpConnect(operation) => operation.budget == Duration::of_millis(
                5_000,
            ),
            TargetActionView::IcmpEcho(operation) => match operation.subject {
                IcmpEchoSubjectView::Target(_) => operation.budget == Duration::of_millis(2_000),
                IcmpEchoSubjectView::NextHop(_) => operation.budget == Duration::of_millis(1_000),
            },
            TargetActionView::TcpPath(operation) => operation.budget == Duration::of_millis(1_000)
                && operation.hop_limit <= 30,
            TargetActionView::IcmpPath(operation) => operation.budget == Duration::of_millis(1_000)
                && operation.hop_limit <= 30,
            TargetActionView::ReadNeighbor(_) => true,
            TargetActionView::AwaitNeighbor(_) => true,
        },
{
}

/// What is known of a path before anything is sent is told in two items on the same subject: what
/// the snapshot says, in the part that is asked for, and the current path, or why it is not known.
pub proof fn paths_are_told_first(
    base_id: u64,
    subject: EvidenceSubjectView,
    role: EvidenceRole,
    initial_path: InitialPathAnalysisView,
    current_path: CapabilityValueView<OperationPathContextView>,
    lookup: Seq<char>,
)
    requires
        base_id < u64::MAX,
    ensures
        ({
            let told = observation::path_evidence(
                base_id,
                subject,
                role,
                initial_path,
                current_path,
                lookup,
            );
            &&& told.len() == 2
            &&& told[0].id.0 == base_id && told[1].id.0 == base_id + 1
            &&& told[0].subject == subject && told[1].subject == subject
            &&& told[0].role == role
            &&& told[0].fact is InitialPath
            &&& told[1].role == EvidenceRole::Context
            &&& match current_path {
                CapabilityValueView::Available { .. } => told[1].fact is CurrentPath,
                CapabilityValueView::Unknown { reason, .. } => told[1].fact
                    == (EvidenceFactView::CapabilityUnavailable { capability: lookup, reason }),
                CapabilityValueView::Unavailable { reason, .. } => told[1].fact
                    == (EvidenceFactView::CapabilityUnavailable { capability: lookup, reason }),
            }
        }),
{
}

/// Whether what was known of a neighbor before an operation is told as it was.
pub open spec fn is_told(
    before: NeighborObservation,
    pre_state: Option<CapabilityValueView<NeighborFactView>>,
) -> bool {
    match before {
        NeighborObservation::NotSampled => pre_state is None,
        NeighborObservation::Observed(state) => pre_state matches Some(
            CapabilityValueView::Available { value, .. },
        ) && value.state == state,
        NeighborObservation::Unknown => pre_state matches Some(
            CapabilityValueView::Unknown { .. },
        ),
        NeighborObservation::Unavailable => pre_state matches Some(
            CapabilityValueView::Unavailable { .. },
        ),
    }
}

/// A neighbor that was observed after a failure becomes one item of evidence, on that neighbor,
/// with what was known of it before and its state now; any other becomes none.
pub proof fn neighbor_changes_become_evidence(
    evidence: Seq<EvidenceView>,
    facts: TargetNetworkFactsView,
    id: u64,
)
    ensures
        ({
            let after = observation::with_neighbor_evidence(evidence, facts, id);
            match facts.neighbor_post_state {
                Some(CapabilityValueView::Available { value, .. }) => {
                    let item = after[evidence.len() as int];
                    &&& after == evidence.push(item)
                    &&& item.id.0 == id
                    &&& item.subject == EvidenceSubjectView::Neighbor(value.identity)
                    &&& item.role == EvidenceRole::BoundaryNarrowing
                    &&& item.fact matches EvidenceFactView::NeighborTransition {
                        before,
                        after: state,
                    } && state == value.state && is_told(before, facts.neighbor_pre_state)
                },
                _ => after == evidence,
            }
        }),
{
}

/// An error of the socket is compared with the snapshot exactly where it says that there is no way
/// to the target.
pub proof fn path_errors_are_compared(
    evidence: Seq<EvidenceView>,
    result: TcpAttemptResultView,
    initial_path: InitialPathAnalysisView,
    id: u64,
)
    ensures
        ({
            let after = observation::with_path_comparison(evidence, result, initial_path, id);
            let no_way = match result {
                TcpAttemptResultView::NoRoute => true,
                TcpAttemptResultView::NetworkUnreachable => true,
                TcpAttemptResultView::HostUnreachable => true,
                _ => false,
            };
            let item = after[evidence.len() as int];
            &&& !no_way ==> after == evidence
            &&& no_way ==> {
                &&& after == evidence.push(item)
                &&& item.fact is SocketPathComparison
                &&& item.role == EvidenceRole::BoundaryNarrowing
                &&& item.subject == EvidenceSubjectView::Target(initial_path.target)
                &&& item.id.0 == id
            }
        }),
{
}

/// What stands in the way of a look at the neighbor is told exactly where something does: a path
/// whose neighbor is not known, or a known neighbor that could not be read.
pub proof fn limits_are_told(
    dependency: NeighborDependencyView,
    post_state: Option<CapabilityValueView<NeighborFactView>>,
    subject: EvidenceSubjectView,
    capability: Seq<char>,
    id: u64,
)
    ensures
        observation::dependency_limitation(dependency, subject, capability, id) is Some
            <==> dependency is Unknown,
        observation::observation_limitation(dependency, post_state, subject, capability, id) is Some
            <==> dependency is Known && (post_state matches Some(observed) && !(observed
            is Available)),
        observation::dependency_limitation(dependency, subject, capability, id) matches Some(item)
            ==> item.role == EvidenceRole::CapabilityLimitation && item.subject == subject
            && item.id.0 == id,
        observation::observation_limitation(
            dependency,
            post_state,
            subject,
            capability,
            id,
        ) matches Some(item) ==> item.role == EvidenceRole::CapabilityLimitation && item.subject
            == subject && item.id.0 == id,
{
}

} // verus!
