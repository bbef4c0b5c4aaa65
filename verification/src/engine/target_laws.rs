//! What holds of every diagnosis of a target.

use vstd::prelude::*;

use crate::capability::CapabilityValueView;
use crate::engine::observation::{self, PathAttemptDisposition};
use crate::engine::target::{
    self, PreparedTargetView, TargetActionView, TargetEventView, TargetMachineView,
    TargetProgressView, TargetStage,
};
use crate::io::IcmpEchoSubjectView;
use crate::model::{AttemptOutcomeView, AttemptView, NeighborState, TcpAttemptResultView};
use crate::path::NeighborDependencyView;
use crate::policy::{
    MAX_PATH_HOP_LIMIT, NEXT_HOP_ICMP_BUDGET, PATH_ATTEMPT_BUDGET, TARGET_ICMP_BUDGET,
    TCP_CONNECT_BUDGET,
};
use crate::result::{Conclusion, EvidenceRole, PrimaryOutcome, TargetNetworkFactsView};
use crate::time::Duration;

verus! {

/// The progress after a series of events; a diagnosis that has ended takes no more.
pub open spec fn followed(
    progress: TargetProgressView,
    events: Seq<TargetEventView>,
) -> TargetProgressView
    decreases events.len(),
{
    if events.len() == 0 {
        progress
    } else {
        match progress {
            TargetProgressView::Pending { machine, .. } => followed(
                machine.next(events[0]),
                events.drop_first(),
            ),
            _ => progress,
        }
    }
}

/// Whether an attempt satisfies the primary check: a connection where there is a port, and an
/// Echo Reply from the target where there is none.
pub open spec fn satisfies(attempt: AttemptView, tcp: bool) -> bool {
    if tcp {
        attempt.outcome matches AttemptOutcomeView::Tcp(TcpAttemptResultView::Connected { .. })
    } else {
        observation::echo_replied(attempt)
    }
}

/// Whether an operation is one that the diagnosis of a machine's target may carry out: it is
/// aimed at the exact target and port, or at the known neighbor on the way to it, within its
/// fixed budget, and its identifier belongs to the target.
pub open spec fn permitted(machine: TargetMachineView, action: TargetActionView) -> bool {
    match action {
        TargetActionView::TcpConnect(operation) => {
            &&& operation.target == machine.target()
            &&& machine.port == Some(operation.port)
            &&& operation.budget == Duration::of_millis(TCP_CONNECT_BUDGET)
            &&& own_id(machine, operation.attempt_id.0)
        },
        TargetActionView::IcmpEcho(operation) => {
            &&& own_id(machine, operation.attempt_id.0)
            &&& match operation.subject {
                IcmpEchoSubjectView::Target(aim) => aim == machine.target() && operation.budget
                    == Duration::of_millis(TARGET_ICMP_BUDGET),
                IcmpEchoSubjectView::NextHop(identity) => machine.dependency()
                    == NeighborDependencyView::Known(identity) && operation.budget
                    == Duration::of_millis(NEXT_HOP_ICMP_BUDGET),
            }
        },
        TargetActionView::ReadNeighbor(identity) => machine.dependency()
            == NeighborDependencyView::Known(identity),
        TargetActionView::AwaitNeighbor(identity) => machine.dependency()
            == NeighborDependencyView::Known(identity),
        TargetActionView::TcpPath(operation) => {
            &&& machine.port is Some
            &&& operation.target == machine.target()
            &&& operation.port == machine.port
            &&& 1 <= operation.hop_limit <= MAX_PATH_HOP_LIMIT
            &&& operation.budget == Duration::of_millis(PATH_ATTEMPT_BUDGET)
            &&& own_id(machine, operation.attempt_id.0)
        },
        TargetActionView::IcmpPath(operation) => {
            &&& machine.port is None
            &&& operation.target == machine.target()
            &&& operation.port == machine.port
            &&& 1 <= operation.hop_limit <= MAX_PATH_HOP_LIMIT
            &&& operation.budget == Duration::of_millis(PATH_ATTEMPT_BUDGET)
            &&& own_id(machine, operation.attempt_id.0)
        },
    }
}

/// Whether an identifier belongs to a machine's target.
pub open spec fn own_id(machine: TargetMachineView, id: u64) -> bool {
    machine.base_id + 10 <= id < machine.base_id + target::TARGET_ID_STRIDE
}

/// How many operations may still come at most.
pub open spec fn remaining(machine: TargetMachineView) -> int {
    match machine.stage {
        TargetStage::FirstConnect => 68,
        TargetStage::SecondConnect => 67,
        TargetStage::TargetEcho => 66,
        TargetStage::TargetEchoRetry => 65,
        TargetStage::NeighborRead => 64,
        TargetStage::NeighborConvergence => 63,
        TargetStage::NextHopEcho => 62,
        TargetStage::NextHopEchoRetry => 61,
        TargetStage::PathFirst => 2 * (31 - machine.hop),
        TargetStage::PathSecond => 2 * (31 - machine.hop) - 1,
    }
}

/// A target whose path is ruled out by the snapshot is never tried: the diagnosis ends at once,
/// without any attempt.
pub proof fn hopeless_targets_are_not_tried(
    prepared: PreparedTargetView,
    port: Option<u16>,
    ordinal: usize,
)
    requires
        prepared.path.hopeless(),
    ensures
        target::started(prepared, port, ordinal) matches TargetProgressView::Finished(diagnostic)
            && diagnostic.attempts.len() == 0 && diagnostic.primary_outcome
            == PrimaryOutcome::NotSatisfied && diagnostic.conclusion
            == Conclusion::DefinitiveNoPath,
{
}

/// A diagnosis begins with an operation that is permitted.
pub proof fn first_operation_is_permitted(
    prepared: PreparedTargetView,
    port: Option<u16>,
    ordinal: usize,
)
    requires
        target::has_target_ids(ordinal),
    ensures
        target::started(prepared, port, ordinal).valid(),
        target::started(prepared, port, ordinal) matches TargetProgressView::Pending {
            machine,
            action,
        } ==> permitted(machine, action) && machine.port == port && machine.prepared == prepared
            && machine.base_id == target::target_base(ordinal) && remaining(machine)
            <= target::MAX_TARGET_OPERATIONS,
{
}

/// With a port, the primary check is a TCP connection to that exact address and port; without
/// one, it is an ICMP Echo to that exact address.
pub proof fn primary_check_follows_the_request(
    prepared: PreparedTargetView,
    port: Option<u16>,
    ordinal: usize,
)
    requires
        target::has_target_ids(ordinal),
        !prepared.path.hopeless(),
    ensures
        target::started(prepared, port, ordinal) matches TargetProgressView::Pending {
            action,
            ..
        } && match port {
            Some(port) => action matches TargetActionView::TcpConnect(operation)
                && operation.target == prepared.path.target && operation.port == port,
            None => action matches TargetActionView::IcmpEcho(operation) && operation.subject
                == IcmpEchoSubjectView::Target(prepared.path.target),
        },
{
}

/// Whether a list of attempts continues another.
pub open spec fn continues(attempts: Seq<AttemptView>, earlier: Seq<AttemptView>) -> bool {
    &&& earlier.len() <= attempts.len()
    &&& forall|i: int| 0 <= i < earlier.len() ==> #[trigger] attempts[i] == earlier[i]
}

/// What every step of a diagnosis keeps.
pub open spec fn proceeds(machine: TargetMachineView, progress: TargetProgressView) -> bool {
    match progress {
        TargetProgressView::Pending { machine: later, action } => {
            &&& later.valid()
            &&& same_diagnosis(machine, later)
            &&& permitted(later, action)
            &&& 0 < remaining(later) < remaining(machine)
            &&& continues(later.attempts, machine.attempts)
        },
        TargetProgressView::Finished(diagnostic) => {
            &&& diagnostic.target == machine.target()
            &&& diagnostic.resolver_ordinal == machine.prepared.resolver_ordinal
            &&& continues(diagnostic.attempts, machine.attempts)
        },
        TargetProgressView::Failed(_) => true,
    }
}

/// Whether two machines belong to the diagnosis of the same target.
pub open spec fn same_diagnosis(machine: TargetMachineView, later: TargetMachineView) -> bool {
    &&& later.prepared == machine.prepared
    &&& later.port == machine.port
    &&& later.base_id == machine.base_id
}

/// Every further operation is permitted too, there are ever fewer to come, and attempts stay in
/// order and are never dropped once their series is complete.
pub proof fn further_operations_are_permitted(machine: TargetMachineView, event: TargetEventView)
    requires
        machine.valid(),
    ensures
        machine.next(event).valid(),
        proceeds(machine, machine.next(event)),
{
    match event {
        TargetEventView::Failed(error) => {},
        TargetEventView::Attempted(attempt) => {
            if machine.stage == TargetStage::FirstConnect || machine.stage
                == TargetStage::SecondConnect {
                lemma_connect_proceeds(machine, attempt);
            } else if machine.stage == TargetStage::TargetEcho || machine.stage
                == TargetStage::TargetEchoRetry {
                lemma_target_echo_proceeds(machine, attempt);
            } else if machine.stage == TargetStage::NextHopEcho || machine.stage
                == TargetStage::NextHopEchoRetry {
                lemma_next_hop_echo_proceeds(machine, attempt);
            }
        },
        TargetEventView::NeighborObserved(observed) => {
            if machine.stage == TargetStage::NeighborRead || machine.stage
                == TargetStage::NeighborConvergence {
                let seen = TargetMachineView {
                    facts: TargetNetworkFactsView {
                        neighbor_post_state: Some(observed),
                        ..machine.facts
                    },
                    ..machine
                };
                lemma_neighbor_proceeds(machine, seen, observation::neighbor_state_of(observed));
            }
        },
        TargetEventView::PathAttempted(answer) => {
            if machine.stage == TargetStage::PathFirst || machine.stage == TargetStage::PathSecond {
                lemma_path_proceeds(machine, answer);
            }
        },
    }
}

proof fn lemma_connect_proceeds(machine: TargetMachineView, attempt: AttemptView)
    requires
        machine.valid(),
        machine.stage == TargetStage::FirstConnect || machine.stage == TargetStage::SecondConnect,
    ensures
        proceeds(machine, machine.after_connect(attempt)),
{
}

proof fn lemma_neighbor_proceeds(
    start: TargetMachineView,
    machine: TargetMachineView,
    state: Option<NeighborState>,
)
    requires
        same_diagnosis(start, machine),
        continues(machine.attempts, start.attempts),
        remaining(start) > 62,
        machine.attempts.len() > 0,
        machine.series.len() == 0,
        machine.base_id + target::TARGET_ID_STRIDE <= u64::MAX,
        machine.base_id + 10 < machine.next_id <= machine.base_id + 14,
        !machine.prepared.path.hopeless(),
    ensures
        proceeds(start, machine.after_neighbor(state)),
{
}

proof fn lemma_read_neighbor_proceeds(start: TargetMachineView, machine: TargetMachineView)
    requires
        same_diagnosis(start, machine),
        continues(machine.attempts, start.attempts),
        remaining(start) > 64,
        machine.attempts.len() > 0,
        machine.series.len() == 0,
        machine.base_id + target::TARGET_ID_STRIDE <= u64::MAX,
        machine.base_id + 10 < machine.next_id <= machine.base_id + 14,
        !machine.prepared.path.hopeless(),
    ensures
        proceeds(start, machine.read_neighbor()),
{
    lemma_neighbor_proceeds(start, machine, None);
}

proof fn lemma_target_echo_proceeds(machine: TargetMachineView, attempt: AttemptView)
    requires
        machine.valid(),
        machine.stage == TargetStage::TargetEcho || machine.stage == TargetStage::TargetEchoRetry,
    ensures
        proceeds(machine, machine.after_echo(attempt)),
{
    let series = machine.series.push(attempt);
    let full = TargetMachineView { series, ..machine };
    let seen = if machine.tcp() {
        TargetMachineView {
            attempts: machine.attempts + series,
            series: Seq::empty(),
            evidence: target::with_attempts(
                machine.evidence,
                series,
                EvidenceRole::BoundaryNarrowing,
            ),
            ..full
        }
    } else {
        TargetMachineView {
            attempts: machine.attempts + series,
            series: Seq::empty(),
            evidence: machine.evidence + target::primary_series_evidence(series),
            ..full
        }
    };
    lemma_read_neighbor_proceeds(machine, seen);
    assert(continues(seen.attempts, machine.attempts));
    assert(proceeds(machine, full.after_target_series()));
    if machine.stage == TargetStage::TargetEcho && observation::timed_out(attempt) {
        assert(full.all_timed_out());
    }
}

proof fn lemma_next_hop_echo_proceeds(machine: TargetMachineView, attempt: AttemptView)
    requires
        machine.valid(),
        machine.stage == TargetStage::NextHopEcho || machine.stage == TargetStage::NextHopEchoRetry,
    ensures
        proceeds(machine, machine.after_echo(attempt)),
{
}

proof fn lemma_next_hop_proceeds(start: TargetMachineView, machine: TargetMachineView)
    requires
        start.valid(),
        start.stage == TargetStage::PathFirst || start.stage == TargetStage::PathSecond,
        same_diagnosis(start, machine),
        continues(machine.attempts, start.attempts),
        machine.attempts.len() > 0,
        machine.series.len() == 0,
        machine.hop == start.hop,
        machine.next_id == start.next_id,
    ensures
        proceeds(start, machine.next_hop()),
{
}

proof fn lemma_path_proceeds(machine: TargetMachineView, answer: CapabilityValueView<AttemptView>)
    requires
        machine.valid(),
        machine.stage == TargetStage::PathFirst || machine.stage == TargetStage::PathSecond,
    ensures
        proceeds(machine, machine.after_path(answer)),
{
    if let CapabilityValueView::Available { value, provenance } = answer {
        let several = observation::several_responders(value);
        let seen = TargetMachineView {
            several_responders: machine.several_responders || several,
            ..machine.with_attempt(
                value,
                if several && !machine.several_responders {
                    EvidenceRole::BoundaryNarrowing
                } else {
                    EvidenceRole::Context
                },
            )
        };
        assert(continues(seen.attempts, machine.attempts));
        lemma_next_hop_proceeds(machine, seen);
        assert(proceeds(machine, machine.after_path_attempt(value)));
    }
}

/// The identifiers of different targets do not meet, and those of an earlier target are smaller.
pub proof fn targets_have_their_own_identifiers(
    earlier: TargetMachineView,
    later: TargetMachineView,
    first: usize,
    second: usize,
    id: u64,
    other: u64,
)
    requires
        first < second,
        target::has_target_ids(second),
        earlier.base_id == target::target_base(first),
        later.base_id == target::target_base(second),
        own_id(earlier, id),
        own_id(later, other),
    ensures
        id < other,
{
    assert((first + 1) * target::TARGET_ID_STRIDE + target::TARGET_ID_STRIDE <= (second + 1)
        * target::TARGET_ID_STRIDE) by (nonlinear_arith)
        requires
            first < second,
    ;
    assert((first + 1) * target::TARGET_ID_STRIDE <= u64::MAX && (second + 1)
        * target::TARGET_ID_STRIDE <= u64::MAX) by (nonlinear_arith)
        requires
            first < second,
            (second + 2) * target::TARGET_ID_STRIDE <= u64::MAX,
    ;
}

/// Every diagnosis ends after a bounded number of operations, whatever comes of them.
pub proof fn every_diagnosis_ends(
    prepared: PreparedTargetView,
    port: Option<u16>,
    ordinal: usize,
    events: Seq<TargetEventView>,
)
    requires
        target::has_target_ids(ordinal),
        events.len() >= target::MAX_TARGET_OPERATIONS,
    ensures
        !(followed(target::started(prepared, port, ordinal), events) is Pending),
{
    first_operation_is_permitted(prepared, port, ordinal);
    if let TargetProgressView::Pending { machine, action } = target::started(
        prepared,
        port,
        ordinal,
    ) {
        lemma_ends(target::started(prepared, port, ordinal), events);
    }
}

proof fn lemma_ends(progress: TargetProgressView, events: Seq<TargetEventView>)
    requires
        progress.valid(),
        progress matches TargetProgressView::Pending { machine, .. } ==> 0 <= remaining(machine)
            <= events.len() && remaining(machine) > 0,
    ensures
        !(followed(progress, events) is Pending),
    decreases events.len(),
{
    if let TargetProgressView::Pending { machine, action } = progress {
        further_operations_are_permitted(machine, events[0]);
        lemma_ends(machine.next(events[0]), events.drop_first());
    }
}

/// A target is satisfied exactly where its first and only attempt satisfied the check, and
/// satisfied with an anomaly exactly where the first attempt timed out and the second satisfied
/// it.
pub proof fn satisfaction_comes_from_the_first_attempts(
    prepared: PreparedTargetView,
    port: Option<u16>,
    ordinal: usize,
    events: Seq<TargetEventView>,
)
    requires
        target::has_target_ids(ordinal),
    ensures
        followed(target::started(prepared, port, ordinal), events) matches
            TargetProgressView::Finished(diagnostic) ==> {
            &&& diagnostic.primary_outcome == PrimaryOutcome::Satisfied <==> diagnostic.attempts.len()
                > 0 && satisfies(diagnostic.attempts[0], port is Some)
            &&& diagnostic.primary_outcome == PrimaryOutcome::Satisfied ==> diagnostic.attempts.len()
                == 1
            &&& diagnostic.primary_outcome == PrimaryOutcome::SatisfiedWithAnomaly
                <==> diagnostic.attempts.len() == 2 && observation::timed_out(
                diagnostic.attempts[0],
            ) && satisfies(diagnostic.attempts[1], port is Some)
        },
{
    first_operation_is_permitted(prepared, port, ordinal);
    lemma_satisfaction(target::started(prepared, port, ordinal), port, events);
}

/// Whether a machine is past the attempts of its primary check.
pub open spec fn past_primary(machine: TargetMachineView) -> bool {
    &&& machine.stage != TargetStage::FirstConnect
    &&& machine.stage != TargetStage::SecondConnect
    &&& machine.stage != TargetStage::TargetEcho
    &&& machine.stage != TargetStage::TargetEchoRetry
}

/// Whether the first two attempts of a diagnosis are there and the second does not satisfy the
/// check.
pub open spec fn second_missed(attempts: Seq<AttemptView>, tcp: bool) -> bool {
    attempts.len() >= 2 && !satisfies(attempts[1], tcp)
}

/// Whether nothing that is kept so far satisfies the check.
pub open spec fn unsatisfied(progress: TargetProgressView, port: Option<u16>) -> bool {
    match progress {
        TargetProgressView::Pending { machine, .. } => {
            &&& machine.valid()
            &&& machine.port == port
            &&& machine.attempts.len() > 0 ==> observation::timed_out(machine.attempts[0])
            &&& past_primary(machine) ==> second_missed(machine.attempts, port is Some)
        },
        TargetProgressView::Finished(diagnostic) => {
            &&& diagnostic.primary_outcome == PrimaryOutcome::Satisfied <==> diagnostic.attempts.len()
                > 0 && satisfies(diagnostic.attempts[0], port is Some)
            &&& diagnostic.primary_outcome == PrimaryOutcome::Satisfied ==> diagnostic.attempts.len()
                == 1
            &&& diagnostic.primary_outcome == PrimaryOutcome::SatisfiedWithAnomaly
                <==> diagnostic.attempts.len() == 2 && observation::timed_out(
                diagnostic.attempts[0],
            ) && satisfies(diagnostic.attempts[1], port is Some)
        },
        TargetProgressView::Failed(_) => true,
    }
}

proof fn lemma_satisfaction(
    progress: TargetProgressView,
    port: Option<u16>,
    events: Seq<TargetEventView>,
)
    requires
        unsatisfied(progress, port),
    ensures
        unsatisfied(followed(progress, events), port),
    decreases events.len(),
{
    if events.len() > 0 {
        if let TargetProgressView::Pending { machine, action } = progress {
            lemma_satisfaction_step(machine, events[0]);
            lemma_satisfaction(machine.next(events[0]), port, events.drop_first());
        }
    }
}

#[verifier::spinoff_prover]
proof fn lemma_satisfaction_step(machine: TargetMachineView, event: TargetEventView)
    requires
        machine.valid(),
        machine.attempts.len() > 0 ==> observation::timed_out(machine.attempts[0]),
        past_primary(machine) ==> second_missed(machine.attempts, machine.tcp()),
    ensures
        unsatisfied(machine.next(event), machine.port),
{
    further_operations_are_permitted(machine, event);
    if machine.attempts.len() > 0 {
        lemma_timeout_satisfies_nothing(machine.attempts[0], machine.tcp());
    }
    match event {
        TargetEventView::Attempted(attempt) => {
            lemma_timeout_satisfies_nothing(attempt, machine.tcp());
            if machine.stage == TargetStage::FirstConnect || machine.stage
                == TargetStage::SecondConnect {
                lemma_satisfaction_after_connect(machine, attempt);
            } else if machine.stage == TargetStage::TargetEcho || machine.stage
                == TargetStage::TargetEchoRetry {
                lemma_satisfaction_after_echo(machine, attempt);
            }
        },
        _ => {},
    }
    if machine.stage != TargetStage::FirstConnect && machine.stage != TargetStage::SecondConnect
        && (machine.tcp() || (machine.stage != TargetStage::TargetEcho && machine.stage
        != TargetStage::TargetEchoRetry)) {
        later_diagnosis_does_not_rewrite_the_outcome(machine, event);
    }
    if machine.attempts.len() == 2 && machine.all_timed_out() {
        lemma_timeout_satisfies_nothing(machine.attempts[1], machine.tcp());
    }
}

proof fn lemma_timeout_satisfies_nothing(attempt: AttemptView, tcp: bool)
    ensures
        observation::timed_out(attempt) ==> !satisfies(attempt, tcp),
{
}

proof fn lemma_satisfaction_after_connect(machine: TargetMachineView, attempt: AttemptView)
    requires
        machine.valid(),
        machine.stage == TargetStage::FirstConnect || machine.stage == TargetStage::SecondConnect,
        machine.attempts.len() > 0 ==> observation::timed_out(machine.attempts[0]),
        proceeds(machine, machine.after_connect(attempt)),
    ensures
        unsatisfied(machine.after_connect(attempt), machine.port),
{
    let attempts = machine.attempts.push(attempt);
    lemma_timeout_satisfies_nothing(attempts[0], true);
    if machine.stage == TargetStage::FirstConnect {
        assert(attempts[0] == attempt);
    } else {
        assert(attempts[0] == machine.attempts[0] && attempts[1] == attempt);
    }
}

proof fn lemma_satisfaction_after_echo(machine: TargetMachineView, attempt: AttemptView)
    requires
        machine.valid(),
        machine.stage == TargetStage::TargetEcho || machine.stage == TargetStage::TargetEchoRetry,
        machine.attempts.len() > 0 ==> observation::timed_out(machine.attempts[0]),
        proceeds(machine, machine.after_echo(attempt)),
    ensures
        unsatisfied(machine.after_echo(attempt), machine.port),
{
    let series = machine.series.push(attempt);
    let attempts = machine.attempts + series;
    lemma_timeout_satisfies_nothing(attempts[0], machine.tcp());
    if machine.tcp() {
        assert(attempts[0] == machine.attempts[0]);
    } else {
        assert(attempts =~= series);
        if machine.stage == TargetStage::TargetEcho {
            assert(series[0] == attempt);
        } else {
            assert(series[0] == machine.series[0] && series[1] == attempt);
        }
    }
}

/// A diagnosis ends with the target and the ordinal that it began with.
pub proof fn diagnoses_keep_their_target(
    prepared: PreparedTargetView,
    port: Option<u16>,
    ordinal: usize,
    events: Seq<TargetEventView>,
)
    requires
        target::has_target_ids(ordinal),
    ensures
        followed(target::started(prepared, port, ordinal), events) matches
            TargetProgressView::Finished(diagnostic) ==> diagnostic.target == prepared.path.target
            && diagnostic.resolver_ordinal == prepared.resolver_ordinal,
{
    first_operation_is_permitted(prepared, port, ordinal);
    lemma_target_is_kept(target::started(prepared, port, ordinal), prepared, events);
}

/// Whether a diagnosis is that of a prepared target.
pub open spec fn is_of(progress: TargetProgressView, prepared: PreparedTargetView) -> bool {
    match progress {
        TargetProgressView::Pending { machine, .. } => machine.valid() && machine.prepared
            == prepared,
        TargetProgressView::Finished(diagnostic) => diagnostic.target == prepared.path.target
            && diagnostic.resolver_ordinal == prepared.resolver_ordinal,
        TargetProgressView::Failed(_) => true,
    }
}

proof fn lemma_target_is_kept(
    progress: TargetProgressView,
    prepared: PreparedTargetView,
    events: Seq<TargetEventView>,
)
    requires
        is_of(progress, prepared),
    ensures
        is_of(followed(progress, events), prepared),
    decreases events.len(),
{
    if events.len() > 0 {
        if let TargetProgressView::Pending { machine, action } = progress {
            further_operations_are_permitted(machine, events[0]);
            lemma_target_is_kept(machine.next(events[0]), prepared, events.drop_first());
        }
    }
}

/// Once the primary check has its result, no later step of the diagnosis turns it into a
/// success; a TCP check that timed out twice stays not satisfied.
#[verifier::spinoff_prover]
pub proof fn later_diagnosis_does_not_rewrite_the_outcome(
    machine: TargetMachineView,
    event: TargetEventView,
)
    requires
        machine.valid(),
        machine.stage != TargetStage::FirstConnect,
        machine.stage != TargetStage::SecondConnect,
        machine.tcp() || (machine.stage != TargetStage::TargetEcho && machine.stage
            != TargetStage::TargetEchoRetry),
    ensures
        machine.next(event) matches TargetProgressView::Finished(diagnostic) ==> {
            &&& !diagnostic.primary_outcome.eventual()
            &&& machine.tcp() ==> diagnostic.primary_outcome == PrimaryOutcome::NotSatisfied
        },
{
}

/// Only an attempt that timed out is repeated.
#[verifier::spinoff_prover]
pub proof fn only_timeouts_are_repeated(machine: TargetMachineView, event: TargetEventView)
    requires
        machine.valid(),
    ensures
        machine.next(event) matches TargetProgressView::Pending { machine: later, .. } && (
        later.stage == TargetStage::SecondConnect || later.stage == TargetStage::TargetEchoRetry
            || later.stage == TargetStage::NextHopEchoRetry || later.stage
            == TargetStage::PathSecond) ==> match event {
            TargetEventView::Attempted(attempt) => observation::timed_out(attempt),
            TargetEventView::PathAttempted(answer) => answer.known() is Some
                && observation::timed_out(answer.known()->Some_0),
            _ => false,
        },
{
    if let TargetEventView::PathAttempted(answer) = event {
        if let Some(attempt) = answer.known() {
            lemma_timeout_disposition(attempt, machine);
        }
    }
}

proof fn lemma_timeout_disposition(attempt: AttemptView, machine: TargetMachineView)
    ensures
        observation::disposition(attempt, machine.target().address)
            == PathAttemptDisposition::Timeout ==> observation::timed_out(attempt),
{
}

} // verus!
