//! What a diagnosis of a target concludes, and from which attempts.

use vstd::prelude::*;

use crate::capability::{CapabilityReasonView, CapabilityValueView};
use crate::engine::observation::{self, PathAttemptDisposition};
use crate::engine::target::{
    self, PreparedTargetView, TargetActionView, TargetEventView, TargetMachineView,
    TargetProgressView, TargetStage,
};
use crate::engine::target_laws;
use crate::io::{DiagnosticIoErrorKind, DiagnosticIoErrorView};
use crate::model::{
    AttemptOutcomeView, AttemptSubjectView, AttemptView, IcmpAttemptResultView, IcmpMessageKind,
    IcmpMessageObservation, NeighborFactView, NeighborState, PathRelation, TcpAttemptResultView,
};
use crate::net::IpAddr;
use crate::path::{InitialPathStatus, NeighborDependencyView};
use crate::policy::MAX_PATH_HOP_LIMIT;
use crate::result::{
    Conclusion, EvidenceRole, EvidenceSubjectView, PrimaryOutcome, TargetDiagnosticView,
    TargetNetworkFactsView,
};

verus! {

/// Whether a TCP attempt brought no result in time.
pub open spec fn late_tcp(attempt: AttemptView) -> bool {
    attempt.outcome == AttemptOutcomeView::Tcp(TcpAttemptResultView::Timeout)
}

/// Whether an ICMP attempt brought no result in time.
pub open spec fn late_icmp(attempt: AttemptView) -> bool {
    attempt.outcome == AttemptOutcomeView::Icmp(IcmpAttemptResultView::Timeout)
}

/// Whether a message of an ICMP result satisfies a condition on its kind and its sender.
pub open spec fn some_message(
    result: IcmpAttemptResultView,
    holds: spec_fn(IcmpMessageKind, IpAddr) -> bool,
) -> bool {
    match result {
        IcmpAttemptResultView::Message { kind, responder, .. } => holds(kind, responder),
        IcmpAttemptResultView::Messages(messages) => exists|i: int|
            0 <= i < messages.len() && holds(
                (#[trigger] messages[i]).kind,
                messages[i].responder,
            ),
        _ => false,
    }
}

/// Whether there are messages in an ICMP result and all satisfy a condition on their kind.
pub open spec fn only_messages(
    result: IcmpAttemptResultView,
    holds: spec_fn(IcmpMessageKind) -> bool,
) -> bool {
    match result {
        IcmpAttemptResultView::Message { kind, .. } => holds(kind),
        IcmpAttemptResultView::Messages(messages) => messages.len() > 0 && forall|i: int|
            0 <= i < messages.len() ==> holds((#[trigger] messages[i]).kind),
        _ => false,
    }
}

/// Whether an Echo Reply came from an address.
pub open spec fn echo_from(result: IcmpAttemptResultView, address: IpAddr) -> bool {
    some_message(
        result,
        |kind: IcmpMessageKind, responder: IpAddr|
            kind == IcmpMessageKind::EchoReply && responder == address,
    )
}

/// Whether the target of an echo replied to it.
pub open spec fn target_replied(attempt: AttemptView) -> bool {
    match (attempt.subject, attempt.outcome) {
        (AttemptSubjectView::Target(target), AttemptOutcomeView::Icmp(result)) => echo_from(
            result,
            target.address,
        ),
        _ => false,
    }
}

/// Whether the subject of an echo sent any message at all.
pub open spec fn subject_answered(attempt: AttemptView) -> bool {
    match (attempt.subject, attempt.outcome) {
        (AttemptSubjectView::Target(target), AttemptOutcomeView::Icmp(result)) => some_message(
            result,
            |kind: IcmpMessageKind, responder: IpAddr| responder == target.address,
        ),
        (AttemptSubjectView::NextHop(neighbor), AttemptOutcomeView::Icmp(result)) => some_message(
            result,
            |kind: IcmpMessageKind, responder: IpAddr| responder == neighbor.address,
        ),
        _ => false,
    }
}

/// Whether an ICMP attempt brought messages of which one settles nothing: one of an uncommon kind,
/// an Echo Reply from someone else than the target, or a list without any.
pub open spec fn is_unclear(attempt: AttemptView) -> bool {
    match attempt.outcome {
        AttemptOutcomeView::Icmp(result) => {
            ||| result == IcmpAttemptResultView::Messages(Seq::empty())
            ||| some_message(
                result,
                |kind: IcmpMessageKind, responder: IpAddr| kind == IcmpMessageKind::Other,
            )
            ||| match attempt.subject {
                AttemptSubjectView::Target(target) => some_message(
                    result,
                    |kind: IcmpMessageKind, responder: IpAddr|
                        kind == IcmpMessageKind::EchoReply && responder != target.address,
                ),
                _ => false,
            }
        },
        _ => false,
    }
}

/// Whether the primary check ran without a result: two connections, where a port was asked for,
/// and two echoes of the target, none of which was answered in time.
pub open spec fn all_silent(attempts: Seq<AttemptView>, tcp: bool) -> bool {
    if tcp {
        &&& attempts.len() >= 4
        &&& late_tcp(attempts[0])
        &&& late_tcp(attempts[1])
        &&& late_icmp(attempts[2])
        &&& late_icmp(attempts[3])
    } else {
        &&& attempts.len() >= 2
        &&& late_icmp(attempts[0])
        &&& late_icmp(attempts[1])
    }
}

/// How many attempts a primary check takes that brings no result.
pub open spec fn silent_count(tcp: bool) -> int {
    if tcp {
        4
    } else {
        2
    }
}

/// The state of a neighbor, where it was observed.
pub open spec fn observed_state(
    observation: Option<CapabilityValueView<NeighborFactView>>,
) -> Option<NeighborState> {
    match observation {
        Some(CapabilityValueView::Available { value, .. }) => Some(value.state),
        _ => None,
    }
}

/// Whether an outcome and a conclusion are those of a neighbor that could not be resolved.
pub open spec fn blames_neighbor(diagnostic: TargetDiagnosticView, tcp: bool) -> bool {
    &&& all_silent(diagnostic.attempts, tcp)
    &&& diagnostic.attempts.len() == silent_count(tcp)
    &&& diagnostic.diagnostic_conclusions.len() == 0
    &&& match observed_state(diagnostic.network_facts.neighbor_post_state) {
        Some(NeighborState::TerminalFailure) => {
            &&& diagnostic.conclusion == Conclusion::NeighborResolutionFailed
            &&& diagnostic.primary_outcome == PrimaryOutcome::NotSatisfied
        },
        Some(NeighborState::Resolving) => {
            &&& diagnostic.conclusion == Conclusion::NeighborResolutionIndeterminate
            &&& diagnostic.primary_outcome == (if tcp {
                PrimaryOutcome::NotSatisfied
            } else {
                PrimaryOutcome::Indeterminate
            })
        },
        _ => false,
    }
}

/// Whether the conclusion of a port check follows from its attempts.
pub open spec fn explains_connection(
    diagnostic: TargetDiagnosticView,
    prepared: PreparedTargetView,
) -> bool {
    let attempts = diagnostic.attempts;
    let outcome = diagnostic.primary_outcome;
    let last = attempts[attempts.len() - 1];
    let connected = attempts.len() == 1 || (attempts.len() == 2 && late_tcp(attempts[0]));
    let narrowed = attempts.len() == 3 || (attempts.len() == 4 && late_icmp(attempts[2]));
    let timed_out = attempts.len() >= 2 && late_tcp(attempts[0]) && late_tcp(attempts[1]);
    match diagnostic.conclusion {
        Conclusion::TcpConnectSucceeded => {
            &&& attempts.len() == 1
            &&& last.outcome matches AttemptOutcomeView::Tcp(TcpAttemptResultView::Connected { .. })
            &&& outcome == PrimaryOutcome::Satisfied
            &&& diagnostic.diagnostic_conclusions.len() == 0
        },
        Conclusion::TcpConnectSucceededAfterTimeout => {
            &&& attempts.len() == 2
            &&& late_tcp(attempts[0])
            &&& last.outcome matches AttemptOutcomeView::Tcp(TcpAttemptResultView::Connected { .. })
            &&& outcome == PrimaryOutcome::SatisfiedWithAnomaly
            &&& diagnostic.diagnostic_conclusions.len() == 0
        },
        Conclusion::TcpConnectionRefused => {
            &&& connected
            &&& last.outcome == AttemptOutcomeView::Tcp(TcpAttemptResultView::ConnectionRefused)
            &&& outcome == PrimaryOutcome::NotSatisfied
            &&& diagnostic.diagnostic_conclusions.len() == 0
        },
        Conclusion::TcpExplicitFailure => {
            &&& connected
            &&& last.outcome matches AttemptOutcomeView::Tcp(result) && (result is NoRoute || result
                is NetworkUnreachable || result is HostUnreachable || result is PermissionDenied
                || result is OtherExplicitError)
            &&& outcome == PrimaryOutcome::NotSatisfied
            &&& diagnostic.diagnostic_conclusions.len() == 0
        },
        Conclusion::TcpTimedOutButTargetIcmpResponded => {
            &&& timed_out
            &&& narrowed
            &&& target_replied(last)
            &&& outcome == PrimaryOutcome::NotSatisfied
            &&& diagnostic.diagnostic_conclusions.len() == 0
        },
        Conclusion::TcpTimedOutWithExplicitIcmpResult => {
            &&& timed_out
            &&& narrowed
            &&& last.outcome is Icmp
            &&& !late_icmp(last)
            &&& !target_replied(last)
            &&& outcome == PrimaryOutcome::NotSatisfied
            &&& diagnostic.diagnostic_conclusions.len() == 0
        },
        Conclusion::NeighborResolutionFailed => blames_neighbor(diagnostic, true),
        Conclusion::NeighborResolutionIndeterminate => blames_neighbor(diagnostic, true),
        Conclusion::TcpConnectTimedOut => {
            &&& timed_out
            &&& outcome == PrimaryOutcome::NotSatisfied
            &&& if attempts.len() == 2 {
                diagnostic.diagnostic_conclusions == seq![Conclusion::CapabilityLimited]
            } else {
                narrowed_down(diagnostic, prepared, true)
            }
        },
        _ => false,
    }
}

/// Whether the conclusion of a check without a port follows from its attempts.
pub open spec fn explains_echo(
    diagnostic: TargetDiagnosticView,
    prepared: PreparedTargetView,
) -> bool {
    let attempts = diagnostic.attempts;
    let outcome = diagnostic.primary_outcome;
    let last = attempts[attempts.len() - 1];
    let answered = attempts.len() == 1 || (attempts.len() == 2 && late_icmp(attempts[0]));
    match diagnostic.conclusion {
        Conclusion::IcmpEchoReplied => {
            &&& attempts.len() == 1
            &&& target_replied(last)
            &&& outcome == PrimaryOutcome::Satisfied
            &&& diagnostic.diagnostic_conclusions.len() == 0
        },
        Conclusion::IcmpEchoRepliedAfterTimeout => {
            &&& attempts.len() == 2
            &&& late_icmp(attempts[0])
            &&& target_replied(last)
            &&& outcome == PrimaryOutcome::SatisfiedWithAnomaly
            &&& diagnostic.diagnostic_conclusions.len() == 0
        },
        Conclusion::IcmpResponseIndeterminate => {
            &&& answered
            &&& !target_replied(last)
            &&& is_unclear(last)
            &&& outcome == PrimaryOutcome::Indeterminate
            &&& diagnostic.diagnostic_conclusions.len() == 0
        },
        Conclusion::IcmpExplicitFailure => {
            &&& answered
            &&& last.outcome is Icmp
            &&& !late_icmp(last)
            &&& !target_replied(last)
            &&& !is_unclear(last)
            &&& outcome == PrimaryOutcome::NotSatisfied
            &&& diagnostic.diagnostic_conclusions.len() == 0
        },
        Conclusion::NeighborResolutionFailed => blames_neighbor(diagnostic, false),
        Conclusion::NeighborResolutionIndeterminate => blames_neighbor(diagnostic, false),
        Conclusion::IcmpEchoTimedOut => {
            &&& outcome == PrimaryOutcome::Indeterminate
            &&& narrowed_down(diagnostic, prepared, false)
        },
        _ => false,
    }
}

/// How many attempts the echo of the next hop took, which is repeated where it was not answered in
/// time.
pub open spec fn hop_count(attempts: Seq<AttemptView>, from: int) -> int {
    if late_icmp(attempts[from]) {
        2
    } else {
        1
    }
}

/// Whether any of the attempts from one place up to another was answered by its own subject.
pub open spec fn some_subject_answered(attempts: Seq<AttemptView>, from: int, to: int) -> bool {
    exists|i: int| from <= i < to && subject_answered(#[trigger] attempts[i])
}

/// Whether an attempt brought messages from more than one sender.
pub open spec fn has_several_senders(attempt: AttemptView) -> bool {
    attempt.outcome matches AttemptOutcomeView::Icmp(IcmpAttemptResultView::Messages(messages))
        && exists|i: int, j: int|
        0 <= i < messages.len() && 0 <= j < messages.len() && (#[trigger] messages[i]).responder
            != (#[trigger] messages[j]).responder
}

pub open spec fn some_has_several_senders(attempts: Seq<AttemptView>, from: int) -> bool {
    exists|i: int| from <= i < attempts.len() && has_several_senders(#[trigger] attempts[i])
}

/// Whether a path attempt got through to the target.
pub open spec fn got_through(attempt: AttemptView, target: IpAddr) -> bool {
    match attempt.outcome {
        AttemptOutcomeView::Tcp(result) => result is Connected || result is ConnectionRefused,
        AttemptOutcomeView::Icmp(result) => echo_from(result, target),
        AttemptOutcomeView::Dns(_) => false,
    }
}

/// Whether a path attempt was turned back for good.
pub open spec fn was_turned_back(attempt: AttemptView) -> bool {
    match attempt.outcome {
        AttemptOutcomeView::Tcp(result) => result is NoRoute || result is NetworkUnreachable
            || result is HostUnreachable,
        AttemptOutcomeView::Icmp(result) => only_messages(
            result,
            |kind: IcmpMessageKind|
                kind == IcmpMessageKind::DestinationUnreachable || kind
                    == IcmpMessageKind::PacketTooBig || kind == IcmpMessageKind::ParameterProblem,
        ),
        AttemptOutcomeView::Dns(_) => false,
    }
}

/// Whether a path attempt only ran out of hops, or of time.
pub open spec fn ran_out(attempt: AttemptView) -> bool {
    match attempt.outcome {
        AttemptOutcomeView::Tcp(result) => result is Timeout,
        AttemptOutcomeView::Icmp(result) => result is Timeout || only_messages(
            result,
            |kind: IcmpMessageKind| kind == IcmpMessageKind::TimeExceeded,
        ),
        AttemptOutcomeView::Dns(_) => false,
    }
}

/// Whether the last word on a path follows from its attempts, which begin at a place: each but the
/// last ran out on its way, and the last one decides.
pub open spec fn ends_path(
    terminal: Conclusion,
    attempts: Seq<AttemptView>,
    from: int,
    target: IpAddr,
) -> bool {
    let last = attempts[attempts.len() - 1];
    let decided = attempts.len() > from && forall|i: int|
        from <= i < attempts.len() - 1 ==> ran_out(#[trigger] attempts[i]);
    match terminal {
        Conclusion::CapabilityLimited => attempts.len() >= from && forall|i: int|
            from <= i < attempts.len() ==> ran_out(#[trigger] attempts[i]),
        Conclusion::PathEndpointResponded => decided && got_through(last, target),
        Conclusion::PathExplicitlyTerminated => decided && !got_through(last, target)
            && was_turned_back(last),
        Conclusion::PathResponseIndeterminate => decided && !got_through(last, target)
            && !was_turned_back(last) && !ran_out(last),
        Conclusion::PathLimitReachedWithoutEndpointEvidence => decided && ran_out(last)
            && attempts.len() >= from + 30,
        _ => false,
    }
}

/// Whether what a diagnosis found out about a silent target follows from the neighbor on the way
/// and from the attempts behind the primary check.
pub open spec fn narrowed_down(
    diagnostic: TargetDiagnosticView,
    prepared: PreparedTargetView,
    tcp: bool,
) -> bool {
    let attempts = diagnostic.attempts;
    let found = diagnostic.diagnostic_conclusions;
    let count = silent_count(tcp);
    let state = observed_state(diagnostic.network_facts.neighbor_post_state);
    let remote = prepared.path.current_path matches CapabilityValueView::Available { value, .. }
        && value.relation == PathRelation::Remote;
    &&& all_silent(attempts, tcp)
    &&& match prepared.path.neighbor_dependency {
        NeighborDependencyView::NotApplicable => attempts.len() == count && found.len() == 0
            && diagnostic.network_facts.neighbor_post_state is None,
        NeighborDependencyView::Unknown { .. } => attempts.len() == count && found == seq![
            Conclusion::CapabilityLimited,
        ] && diagnostic.network_facts.neighbor_post_state is None,
        NeighborDependencyView::Known(_) => diagnostic.network_facts.neighbor_post_state is Some
            && match state {
            None => attempts.len() == count && found == seq![Conclusion::CapabilityLimited],
            Some(NeighborState::Unknown) => attempts.len() == count && found == seq![
                Conclusion::NeighborResolutionIndeterminate,
            ],
            Some(NeighborState::Absent) => attempts.len() == count && found.len() == 0,
            Some(NeighborState::Usable) => if remote {
                went_on(attempts, found, count, prepared.path.target.address)
            } else {
                attempts.len() == count && found.len() == 0
            },
            _ => false,
        },
    }
}

/// Whether what was found behind a usable neighbor follows from the attempts: the next hop could
/// not be asked, did not answer, or answered and led on along the path.
pub open spec fn went_on(
    attempts: Seq<AttemptView>,
    found: Seq<Conclusion>,
    count: int,
    target: IpAddr,
) -> bool {
    if attempts.len() == count {
        found == seq![Conclusion::CapabilityLimited]
    } else {
        let from = count + hop_count(attempts, count);
        if some_subject_answered(attempts, count, from) {
            &&& found.len() == (if some_has_several_senders(attempts, from) {
                3int
            } else {
                2int
            })
            &&& found[0] == Conclusion::FirstHopResponded
            &&& found.len() == 3 ==> found[1] == Conclusion::MultiplePathRespondersObserved
            &&& ends_path(found[found.len() - 1], attempts, from, target)
        } else {
            found.len() == 0 && attempts.len() == from
        }
    }
}

/// Whether the conclusion of a diagnosis follows from its attempts.
pub open spec fn is_explained(
    diagnostic: TargetDiagnosticView,
    prepared: PreparedTargetView,
    port: Option<u16>,
) -> bool {
    &&& diagnostic.target == prepared.path.target
    &&& diagnostic.resolver_ordinal == prepared.resolver_ordinal
    &&& keeps_facts(diagnostic.network_facts, prepared)
    &&& if prepared.path.initial_path.status == InitialPathStatus::DefinitiveNoPath {
        &&& diagnostic.conclusion == Conclusion::DefinitiveNoPath
        &&& diagnostic.primary_outcome == PrimaryOutcome::NotSatisfied
        &&& diagnostic.attempts.len() == 0
        &&& diagnostic.diagnostic_conclusions.len() == 0
    } else if port is Some {
        explains_connection(diagnostic, prepared)
    } else {
        explains_echo(diagnostic, prepared)
    }
}

/// Whether the facts of a diagnosis are those that it began with.
pub open spec fn keeps_facts(facts: TargetNetworkFactsView, prepared: PreparedTargetView) -> bool {
    &&& facts.initial_path == prepared.path.initial_path
    &&& facts.current_path == prepared.path.current_path
    &&& facts.neighbor_pre_state == prepared.path.neighbor_pre_state
}

/// What a diagnosis concludes follows from its attempts: each conclusion is drawn exactly from the
/// answers that it names, with the outcome that belongs to it, and what is said beside it follows
/// from the neighbor and the path attempts.
pub proof fn conclusions_follow_from_the_attempts(
    prepared: PreparedTargetView,
    port: Option<u16>,
    ordinal: usize,
    events: Seq<TargetEventView>,
)
    requires
        target::has_target_ids(ordinal),
    ensures
        target_laws::followed(target::started(prepared, port, ordinal), events) matches
            TargetProgressView::Finished(diagnostic) ==> is_explained(diagnostic, prepared, port),
{
    target_laws::first_operation_is_permitted(prepared, port, ordinal);
    lemma_history(target::started(prepared, port, ordinal), prepared, port, events);
}

/// What is known of a diagnosis by its stage.
spec fn remembers(
    machine: TargetMachineView,
    prepared: PreparedTargetView,
    port: Option<u16>,
) -> bool {
    let tcp = port is Some;
    let count = silent_count(tcp);
    let attempts = machine.attempts;
    &&& machine.valid()
    &&& machine.prepared == prepared
    &&& machine.port == port
    &&& keeps_facts(machine.facts, prepared)
    &&& prepared.path.initial_path.status != InitialPathStatus::DefinitiveNoPath
    &&& match machine.stage {
        TargetStage::FirstConnect => attempts.len() == 0 && machine.conclusions.len() == 0
            && machine.facts.neighbor_post_state is None,
        TargetStage::SecondConnect => attempts.len() == 1 && late_tcp(attempts[0])
            && machine.conclusions.len() == 0 && machine.facts.neighbor_post_state is None,
        TargetStage::TargetEcho | TargetStage::TargetEchoRetry => {
            &&& attempts.len() == (if tcp {
                2int
            } else {
                0int
            })
            &&& tcp ==> late_tcp(attempts[0]) && late_tcp(attempts[1])
            &&& machine.stage == TargetStage::TargetEchoRetry ==> late_icmp(machine.series[0])
            &&& machine.conclusions.len() == 0
            &&& machine.facts.neighbor_post_state is None
        },
        TargetStage::NeighborRead | TargetStage::NeighborConvergence => {
            &&& attempts.len() == count
            &&& all_silent(attempts, tcp)
            &&& machine.conclusions.len() == 0
            &&& machine.facts.neighbor_post_state is None
        },
        TargetStage::NextHopEcho | TargetStage::NextHopEchoRetry => {
            &&& attempts.len() == count
            &&& all_silent(attempts, tcp)
            &&& machine.conclusions.len() == 0
            &&& leads_on(machine, prepared)
            &&& machine.stage == TargetStage::NextHopEchoRetry ==> late_icmp(machine.series[0])
        },
        TargetStage::PathFirst | TargetStage::PathSecond => {
            let from = count + hop_count(attempts, count);
            &&& all_silent(attempts, tcp)
            &&& leads_on(machine, prepared)
            &&& machine.conclusions =~= seq![Conclusion::FirstHopResponded]
            &&& attempts.len() >= from + machine.hop - 1 + (if machine.stage
                == TargetStage::PathSecond {
                1int
            } else {
                0int
            })
            &&& some_subject_answered(attempts, count, from)
            &&& forall|i: int| from <= i < attempts.len() ==> ran_out(#[trigger] attempts[i])
            &&& machine.several_responders == some_has_several_senders(attempts, from)
        },
    }
}

spec fn leads_on(machine: TargetMachineView, prepared: PreparedTargetView) -> bool {
    &&& prepared.path.neighbor_dependency is Known
    &&& machine.facts.neighbor_post_state is Some
    &&& observed_state(machine.facts.neighbor_post_state) == Some(NeighborState::Usable)
    &&& prepared.path.current_path matches CapabilityValueView::Available { value, .. }
        && value.relation == PathRelation::Remote
}

spec fn is_accounted_for(
    progress: TargetProgressView,
    prepared: PreparedTargetView,
    port: Option<u16>,
) -> bool {
    match progress {
        TargetProgressView::Pending { machine, .. } => remembers(machine, prepared, port),
        TargetProgressView::Finished(diagnostic) => is_explained(diagnostic, prepared, port),
        TargetProgressView::Failed(_) => true,
    }
}

proof fn lemma_history(
    progress: TargetProgressView,
    prepared: PreparedTargetView,
    port: Option<u16>,
    events: Seq<TargetEventView>,
)
    requires
        is_accounted_for(progress, prepared, port),
    ensures
        is_accounted_for(target_laws::followed(progress, events), prepared, port),
    decreases events.len(),
{
    if events.len() > 0 {
        if let TargetProgressView::Pending { machine, action } = progress {
            lemma_step(machine, prepared, port, events[0]);
            lemma_history(machine.next(events[0]), prepared, port, events.drop_first());
        }
    }
}

proof fn lemma_step(
    machine: TargetMachineView,
    prepared: PreparedTargetView,
    port: Option<u16>,
    event: TargetEventView,
)
    requires
        remembers(machine, prepared, port),
    ensures
        is_accounted_for(machine.next(event), prepared, port),
{
    target_laws::further_operations_are_permitted(machine, event);
    match event {
        TargetEventView::Failed(error) => {
            lemma_failure(machine, prepared, port, error);
        },
        TargetEventView::Attempted(attempt) => match machine.stage {
            TargetStage::FirstConnect | TargetStage::SecondConnect => {
                lemma_connect(machine, prepared, port, attempt);
            },
            TargetStage::TargetEcho | TargetStage::TargetEchoRetry => {
                if port is Some {
                    lemma_narrowing_echo(machine, prepared, port, attempt);
                } else {
                    lemma_primary_echo(machine, prepared, port, attempt);
                }
            },
            TargetStage::NextHopEcho | TargetStage::NextHopEchoRetry => {
                lemma_next_hop(machine, prepared, port, attempt);
            },
            _ => {},
        },
        TargetEventView::NeighborObserved(observed) => {
            if machine.stage == TargetStage::NeighborRead || machine.stage
                == TargetStage::NeighborConvergence {
                lemma_neighbor_read(machine, prepared, port, observed);
            }
        },
        TargetEventView::PathAttempted(answer) => {
            if machine.stage == TargetStage::PathFirst || machine.stage == TargetStage::PathSecond {
                lemma_path(machine, prepared, port, answer);
            }
        },
    }
}

proof fn lemma_failure(
    machine: TargetMachineView,
    prepared: PreparedTargetView,
    port: Option<u16>,
    error: DiagnosticIoErrorView,
)
    requires
        remembers(machine, prepared, port),
    ensures
        is_accounted_for(machine.after_failure(error), prepared, port),
{
    let none = Seq::<Conclusion>::empty();
    assert(none.push(Conclusion::CapabilityLimited) =~= seq![Conclusion::CapabilityLimited]);
    if machine.conclusions.len() == 0 {
        assert(machine.conclusions =~= none);
    }
}

proof fn lemma_connect(
    machine: TargetMachineView,
    prepared: PreparedTargetView,
    port: Option<u16>,
    attempt: AttemptView,
)
    requires
        remembers(machine, prepared, port),
        machine.stage == TargetStage::FirstConnect || machine.stage == TargetStage::SecondConnect,
        machine.after_connect(attempt).valid(),
    ensures
        is_accounted_for(machine.after_connect(attempt), prepared, port),
{
    let attempts = machine.attempts.push(attempt);
    assert(attempts[attempts.len() - 1] == attempt);
    if machine.stage == TargetStage::SecondConnect {
        assert(attempts[0] == machine.attempts[0]);
    }
}

proof fn lemma_icmp_readings(attempt: AttemptView)
    ensures
        observation::echo_replied(attempt) == target_replied(attempt),
        observation::inconclusive(attempt) == is_unclear(attempt),
        observation::answered_by_subject(attempt) == subject_answered(attempt),
        observation::several_responders(attempt) == has_several_senders(attempt),
        observation::timed_out(attempt) && attempt.outcome is Icmp <==> late_icmp(attempt),
        late_icmp(attempt) ==> !target_replied(attempt) && !is_unclear(attempt)
            && !subject_answered(attempt),
{
    if let AttemptOutcomeView::Icmp(IcmpAttemptResultView::Messages(messages)) = attempt.outcome {
        assert(messages.len() == 0 <==> messages =~= Seq::empty());
        match attempt.subject {
            AttemptSubjectView::Target(subject) => {
                if observation::echo_replied(attempt) {
                    let i = choose|i: int|
                        0 <= i < messages.len() && (#[trigger] messages[i]).kind
                            == IcmpMessageKind::EchoReply && messages[i].responder
                            == subject.address;
                    assert(messages[i].responder == subject.address);
                }
            },
            _ => {},
        }
        if observation::inconclusive(attempt) && messages.len() > 0 {
            let i = choose|i: int|
                0 <= i < messages.len() && observation::inconclusive_message(
                    (#[trigger] messages[i]).kind,
                    messages[i].responder,
                    attempt.subject,
                );
            assert(observation::inconclusive_message(
                messages[i].kind,
                messages[i].responder,
                attempt.subject,
            ));
        }
    }
}

proof fn lemma_narrowing_echo(
    machine: TargetMachineView,
    prepared: PreparedTargetView,
    port: Option<u16>,
    attempt: AttemptView,
)
    requires
        remembers(machine, prepared, port),
        port is Some,
        machine.stage == TargetStage::TargetEcho || machine.stage == TargetStage::TargetEchoRetry,
        machine.after_echo(attempt).valid(),
    ensures
        is_accounted_for(machine.after_echo(attempt), prepared, port),
{
    lemma_icmp_readings(attempt);
    let series = machine.series.push(attempt);
    let attempts = machine.attempts + series;
    assert(series.last() == attempt);
    assert(attempts[0] == machine.attempts[0] && attempts[1] == machine.attempts[1]);
    if machine.stage == TargetStage::TargetEchoRetry {
        assert(series[0] == machine.series[0]);
        lemma_icmp_readings(series[0]);
        assert(attempts[2] == series[0] && attempts[3] == attempt);
    } else {
        assert(series[0] == attempt);
        assert(attempts[2] == attempt);
    }
    assert(target::some_reply(series) <==> target_replied(attempt)) by {
        if target_replied(attempt) {
            assert(observation::echo_replied(series[series.len() - 1]));
        }
    }
    assert(target::some_icmp_result(attempts) <==> !late_icmp(attempt) && attempt.outcome is Icmp)
        by {
        if attempt.outcome is Icmp && !late_icmp(attempt) {
            assert(observation::icmp_result(attempts[attempts.len() - 1]));
        }
    }
    if attempt.outcome is Icmp && !(machine.stage == TargetStage::TargetEcho && late_icmp(attempt))
        && late_icmp(attempt) {
        let seen = TargetMachineView {
            attempts,
            series: Seq::empty(),
            evidence: target::with_attempts(
                machine.evidence,
                series,
                EvidenceRole::BoundaryNarrowing,
            ),
            ..TargetMachineView { series, ..machine }
        };
        lemma_read_neighbor(seen, prepared, port);
    }
}

proof fn lemma_primary_echo(
    machine: TargetMachineView,
    prepared: PreparedTargetView,
    port: Option<u16>,
    attempt: AttemptView,
)
    requires
        remembers(machine, prepared, port),
        port is None,
        machine.stage == TargetStage::TargetEcho || machine.stage == TargetStage::TargetEchoRetry,
        machine.after_echo(attempt).valid(),
    ensures
        is_accounted_for(machine.after_echo(attempt), prepared, port),
{
    lemma_icmp_readings(attempt);
    let series = machine.series.push(attempt);
    let attempts = machine.attempts + series;
    assert(attempts =~= series);
    assert(series.last() == attempt);
    if machine.stage == TargetStage::TargetEchoRetry {
        assert(series[0] == machine.series[0] && series[1] == attempt);
        lemma_icmp_readings(series[0]);
    } else {
        assert(series[0] == attempt);
    }
    assert(target::some_inconclusive(series) <==> is_unclear(attempt)) by {
        if is_unclear(attempt) {
            assert(observation::inconclusive(series[series.len() - 1]));
        }
    }
    assert(target::some_icmp_result(series) <==> !late_icmp(attempt) && attempt.outcome is Icmp)
        by {
        if attempt.outcome is Icmp && !late_icmp(attempt) {
            assert(observation::icmp_result(series[series.len() - 1]));
        }
    }
    if machine.stage == TargetStage::TargetEchoRetry && late_icmp(attempt) {
        let seen = TargetMachineView {
            attempts,
            series: Seq::empty(),
            evidence: machine.evidence + target::primary_series_evidence(series),
            ..TargetMachineView { series, ..machine }
        };
        lemma_read_neighbor(seen, prepared, port);
    }
}

/// Whether a machine has just ended its primary check without a result.
spec fn has_no_result(
    machine: TargetMachineView,
    prepared: PreparedTargetView,
    port: Option<u16>,
) -> bool {
    &&& machine.prepared == prepared
    &&& machine.port == port
    &&& keeps_facts(machine.facts, prepared)
    &&& prepared.path.initial_path.status != InitialPathStatus::DefinitiveNoPath
    &&& machine.attempts.len() == silent_count(port is Some)
    &&& all_silent(machine.attempts, port is Some)
    &&& machine.conclusions.len() == 0
}

proof fn lemma_read_neighbor(
    machine: TargetMachineView,
    prepared: PreparedTargetView,
    port: Option<u16>,
)
    requires
        has_no_result(machine, prepared, port),
        machine.facts.neighbor_post_state is None,
        machine.read_neighbor().valid(),
    ensures
        is_accounted_for(machine.read_neighbor(), prepared, port),
{
    if !(machine.dependency() is Known) {
        lemma_after_neighbor(machine, prepared, port, None);
    }
}

proof fn lemma_neighbor_read(
    machine: TargetMachineView,
    prepared: PreparedTargetView,
    port: Option<u16>,
    observed: CapabilityValueView<NeighborFactView>,
)
    requires
        remembers(machine, prepared, port),
        machine.stage == TargetStage::NeighborRead || machine.stage
            == TargetStage::NeighborConvergence,
        machine.after_neighbor_read(observed).valid(),
    ensures
        is_accounted_for(machine.after_neighbor_read(observed), prepared, port),
{
    let state = observation::neighbor_state_of(observed);
    if !(machine.stage == TargetStage::NeighborRead && state == Some(NeighborState::Resolving)) {
        let seen = TargetMachineView {
            facts: TargetNetworkFactsView { neighbor_post_state: Some(observed), ..machine.facts },
            ..machine
        };
        lemma_after_neighbor(seen, prepared, port, state);
    }
}

proof fn lemma_after_neighbor(
    machine: TargetMachineView,
    prepared: PreparedTargetView,
    port: Option<u16>,
    state: Option<NeighborState>,
)
    requires
        has_no_result(machine, prepared, port),
        match prepared.path.neighbor_dependency {
            NeighborDependencyView::Known(_) => machine.facts.neighbor_post_state is Some
                && state == observed_state(machine.facts.neighbor_post_state),
            _ => machine.facts.neighbor_post_state is None && state is None,
        },
        machine.after_neighbor(state).valid(),
    ensures
        is_accounted_for(machine.after_neighbor(state), prepared, port),
{
    let none = Seq::<Conclusion>::empty();
    assert(machine.conclusions =~= none);
    assert(none.push(Conclusion::CapabilityLimited) =~= seq![Conclusion::CapabilityLimited]);
    assert(none.push(Conclusion::NeighborResolutionIndeterminate) =~= seq![
        Conclusion::NeighborResolutionIndeterminate,
    ]);
}

proof fn lemma_next_hop(
    machine: TargetMachineView,
    prepared: PreparedTargetView,
    port: Option<u16>,
    attempt: AttemptView,
)
    requires
        remembers(machine, prepared, port),
        machine.stage == TargetStage::NextHopEcho || machine.stage
            == TargetStage::NextHopEchoRetry,
        machine.after_echo(attempt).valid(),
    ensures
        is_accounted_for(machine.after_echo(attempt), prepared, port),
{
    lemma_icmp_readings(attempt);
    let count = silent_count(port is Some);
    let series = machine.series.push(attempt);
    let attempts = machine.attempts + series;
    assert forall|i: int| 0 <= i < count implies #[trigger] attempts[i] == machine.attempts[i] by {}
    assert(attempts[count] == series[0]);
    if machine.stage == TargetStage::NextHopEchoRetry {
        assert(series[0] == machine.series[0] && series[1] == attempt);
        lemma_icmp_readings(series[0]);
        assert(attempts[count + 1] == attempt);
    } else {
        assert(series[0] == attempt);
    }
    if attempt.outcome is Icmp && !(machine.stage == TargetStage::NextHopEcho && late_icmp(
        attempt,
    )) {
        let from = count + hop_count(attempts, count);
        assert(from == attempts.len());
        assert(target::some_answer_by_subject(series) <==> subject_answered(attempt)) by {
            if subject_answered(attempt) {
                assert(observation::answered_by_subject(series[series.len() - 1]));
            }
        }
        assert(some_subject_answered(attempts, count, from) <==> subject_answered(attempt)) by {
            if subject_answered(attempt) {
                assert(subject_answered(attempts[attempts.len() - 1]));
            }
        }
        assert(machine.conclusions.push(Conclusion::FirstHopResponded) =~= seq![
            Conclusion::FirstHopResponded,
        ]);
        assert(!some_has_several_senders(attempts, from));
    }
}

proof fn lemma_path_readings(attempt: AttemptView, target: IpAddr)
    ensures
        observation::disposition(attempt, target) == (if got_through(attempt, target) {
            PathAttemptDisposition::Endpoint
        } else if was_turned_back(attempt) {
            PathAttemptDisposition::ExplicitTermination
        } else if ran_out(attempt) {
            if attempt.outcome == AttemptOutcomeView::Icmp(IcmpAttemptResultView::Timeout)
                || attempt.outcome == AttemptOutcomeView::Tcp(TcpAttemptResultView::Timeout) {
                PathAttemptDisposition::Timeout
            } else {
                PathAttemptDisposition::Advance
            }
        } else {
            PathAttemptDisposition::Indeterminate
        }),
        ran_out(attempt) ==> !got_through(attempt, target) && !was_turned_back(attempt),
        observation::several_responders(attempt) == has_several_senders(attempt),
{
    if let AttemptOutcomeView::Icmp(IcmpAttemptResultView::Messages(messages)) = attempt.outcome {
        lemma_messages_readings(messages, target);
    }
}

proof fn lemma_messages_readings(messages: Seq<IcmpMessageObservation>, target: IpAddr)
    ensures
        ({
            let result = IcmpAttemptResultView::Messages(messages);
            let back = only_messages(
                result,
                |kind: IcmpMessageKind|
                    kind == IcmpMessageKind::DestinationUnreachable || kind
                        == IcmpMessageKind::PacketTooBig || kind
                        == IcmpMessageKind::ParameterProblem,
            );
            let out = only_messages(
                result,
                |kind: IcmpMessageKind| kind == IcmpMessageKind::TimeExceeded,
            );
            &&& observation::messages_disposition(messages, target) == (if echo_from(
                result,
                target,
            ) {
                PathAttemptDisposition::Endpoint
            } else if back {
                PathAttemptDisposition::ExplicitTermination
            } else if out {
                PathAttemptDisposition::Advance
            } else {
                PathAttemptDisposition::Indeterminate
            })
            &&& out ==> !back && !echo_from(result, target)
        }),
{
    let result = IcmpAttemptResultView::Messages(messages);
    assert(echo_from(result, target) <==> exists|i: int|
        0 <= i < messages.len() && observation::message_disposition(
            (#[trigger] messages[i]).kind,
            messages[i].responder,
            target,
        ) == PathAttemptDisposition::Endpoint);
    assert(only_messages(
        result,
        |kind: IcmpMessageKind| kind == IcmpMessageKind::TimeExceeded,
    ) <==> messages.len() > 0 && forall|i: int|
        0 <= i < messages.len() ==> observation::message_disposition(
            (#[trigger] messages[i]).kind,
            messages[i].responder,
            target,
        ) == PathAttemptDisposition::Advance);
    assert(only_messages(
        result,
        |kind: IcmpMessageKind|
            kind == IcmpMessageKind::DestinationUnreachable || kind == IcmpMessageKind::PacketTooBig
                || kind == IcmpMessageKind::ParameterProblem,
    ) <==> messages.len() > 0 && forall|i: int|
        0 <= i < messages.len() ==> observation::message_disposition(
            (#[trigger] messages[i]).kind,
            messages[i].responder,
            target,
        ) == PathAttemptDisposition::ExplicitTermination);
    if messages.len() > 0 {
        let first = messages[0].kind;
        assert(first == IcmpMessageKind::TimeExceeded ==> first
            != IcmpMessageKind::DestinationUnreachable);
    }
}

/// Whether a machine is on its way along the path, and what its attempts say so far.
spec fn is_on_path(
    machine: TargetMachineView,
    prepared: PreparedTargetView,
    port: Option<u16>,
) -> bool {
    let count = silent_count(port is Some);
    let from = count + hop_count(machine.attempts, count);
    &&& machine.prepared == prepared
    &&& machine.port == port
    &&& keeps_facts(machine.facts, prepared)
    &&& prepared.path.initial_path.status != InitialPathStatus::DefinitiveNoPath
    &&& all_silent(machine.attempts, port is Some)
    &&& leads_on(machine, prepared)
    &&& machine.conclusions == seq![Conclusion::FirstHopResponded]
    &&& machine.attempts.len() >= from
    &&& some_subject_answered(machine.attempts, count, from)
    &&& machine.several_responders == some_has_several_senders(machine.attempts, from)
}

proof fn lemma_path_ends(
    machine: TargetMachineView,
    prepared: PreparedTargetView,
    port: Option<u16>,
    terminal: Conclusion,
)
    requires
        is_on_path(machine, prepared, port),
        ({
            let count = silent_count(port is Some);
            ends_path(
                terminal,
                machine.attempts,
                count + hop_count(machine.attempts, count),
                prepared.path.target.address,
            )
        }),
    ensures
        is_accounted_for(machine.end_path(terminal), prepared, port),
{
    let found = machine.conclusions + observation::path_conclusions_of(
        machine.several_responders,
        terminal,
    );
    if machine.several_responders {
        assert(found =~= seq![
            Conclusion::FirstHopResponded,
            Conclusion::MultiplePathRespondersObserved,
            terminal,
        ]);
    } else {
        assert(found =~= seq![Conclusion::FirstHopResponded, terminal]);
    }
    assert(went_on(
        machine.attempts,
        found,
        silent_count(port is Some),
        prepared.path.target.address,
    ));
}

proof fn lemma_path_attempt_is_kept(
    machine: TargetMachineView,
    later: TargetMachineView,
    prepared: PreparedTargetView,
    port: Option<u16>,
    attempt: AttemptView,
)
    requires
        is_on_path(machine, prepared, port),
        later.attempts == machine.attempts.push(attempt),
        later.several_responders == (machine.several_responders || has_several_senders(attempt)),
        later.prepared == machine.prepared,
        later.port == machine.port,
        later.facts == machine.facts,
        later.conclusions == machine.conclusions,
    ensures
        is_on_path(later, prepared, port),
        hop_count(later.attempts, silent_count(port is Some)) == hop_count(
            machine.attempts,
            silent_count(port is Some),
        ),
{
    let count = silent_count(port is Some);
    let from = count + hop_count(machine.attempts, count);
    let attempts = later.attempts;
    assert(attempts[count] == machine.attempts[count]);
    assert(some_subject_answered(attempts, count, from)) by {
        let i = choose|i: int|
            count <= i < from && subject_answered(#[trigger] machine.attempts[i]);
        assert(subject_answered(attempts[i]));
    }
    assert(some_has_several_senders(attempts, from) <==> later.several_responders) by {
        if machine.several_responders {
            let i = choose|i: int|
                from <= i < machine.attempts.len() && has_several_senders(
                    #[trigger] machine.attempts[i],
                );
            assert(has_several_senders(attempts[i]));
        }
        if has_several_senders(attempt) {
            assert(has_several_senders(attempts[attempts.len() - 1]));
        }
        if some_has_several_senders(attempts, from) && !has_several_senders(attempt) {
            let i = choose|i: int|
                from <= i < attempts.len() && has_several_senders(#[trigger] attempts[i]);
            assert(has_several_senders(machine.attempts[i]));
        }
    }
}

#[verifier::spinoff_prover]
proof fn lemma_path(
    machine: TargetMachineView,
    prepared: PreparedTargetView,
    port: Option<u16>,
    answer: CapabilityValueView<AttemptView>,
)
    requires
        remembers(machine, prepared, port),
        machine.stage == TargetStage::PathFirst || machine.stage == TargetStage::PathSecond,
        machine.after_path(answer).valid(),
    ensures
        is_accounted_for(machine.after_path(answer), prepared, port),
{
    let count = silent_count(port is Some);
    let from = count + hop_count(machine.attempts, count);
    let target = prepared.path.target.address;
    assert(machine.conclusions == seq![Conclusion::FirstHopResponded]);
    match answer {
        CapabilityValueView::Available { value, .. } => {
            if value.outcome is Icmp || (port is Some && value.outcome is Tcp) {
                lemma_path_attempt(machine, prepared, port, value);
            }
        },
        CapabilityValueView::Unknown { reason, .. } => {
            lemma_path_limitation(machine, prepared, port, reason);
        },
        CapabilityValueView::Unavailable { reason, .. } => {
            lemma_path_limitation(machine, prepared, port, reason);
        },
    }
}

proof fn lemma_path_limitation(
    machine: TargetMachineView,
    prepared: PreparedTargetView,
    port: Option<u16>,
    reason: CapabilityReasonView,
)
    requires
        remembers(machine, prepared, port),
        machine.stage == TargetStage::PathFirst || machine.stage == TargetStage::PathSecond,
    ensures
        is_accounted_for(machine.after_path_limitation(reason), prepared, port),
{
    let limited = machine.with_evidence(
        observation::limitation(
            machine.last_id(),
            EvidenceSubjectView::Run,
            "TTL/Hop-Limit path response correlation"@,
            reason,
        ),
    );
    lemma_path_ends(limited, prepared, port, Conclusion::CapabilityLimited);
}

#[verifier::spinoff_prover]
proof fn lemma_path_attempt(
    machine: TargetMachineView,
    prepared: PreparedTargetView,
    port: Option<u16>,
    value: AttemptView,
)
    requires
        remembers(machine, prepared, port),
        machine.stage == TargetStage::PathFirst || machine.stage == TargetStage::PathSecond,
        machine.after_path_attempt(value).valid(),
    ensures
        is_accounted_for(machine.after_path_attempt(value), prepared, port),
{
    let count = silent_count(port is Some);
    let from = count + hop_count(machine.attempts, count);
    let target = prepared.path.target.address;
    lemma_path_readings(value, target);
    let several = observation::several_responders(value);
    let seen = TargetMachineView {
        several_responders: machine.several_responders || several,
        ..machine.with_attempt(
            value,
            if several && !machine.several_responders {
                EvidenceRole::BoundaryNarrowing
            } else {
                EvidenceRole::Context
            },
        )
    };
    let ended = seen.with_last_narrowing();
    lemma_path_attempt_is_kept(machine, seen, prepared, port, value);
    lemma_path_attempt_is_kept(machine, ended, prepared, port, value);
    let attempts = seen.attempts;
    assert(attempts[attempts.len() - 1] == value);
    assert forall|i: int| from <= i < attempts.len() - 1 implies ran_out(
        #[trigger] attempts[i],
    ) by {
        assert(attempts[i] == machine.attempts[i]);
    }
    match observation::disposition(value, target) {
        PathAttemptDisposition::Endpoint => {
            lemma_path_ends(ended, prepared, port, Conclusion::PathEndpointResponded);
        },
        PathAttemptDisposition::ExplicitTermination => {
            lemma_path_ends(ended, prepared, port, Conclusion::PathExplicitlyTerminated);
        },
        PathAttemptDisposition::Indeterminate => {
            lemma_path_ends(ended, prepared, port, Conclusion::PathResponseIndeterminate);
        },
        _ => {
            let goes_on = observation::disposition(value, target)
                == PathAttemptDisposition::Advance || machine.stage == TargetStage::PathSecond;
            if goes_on && machine.hop >= MAX_PATH_HOP_LIMIT {
                lemma_path_ends(
                    ended,
                    prepared,
                    port,
                    Conclusion::PathLimitReachedWithoutEndpointEvidence,
                );
            }
        },
    }
}

/// The attempts that an event brings.
pub open spec fn brought(event: TargetEventView) -> Seq<AttemptView> {
    match event {
        TargetEventView::Attempted(attempt) => seq![attempt],
        TargetEventView::PathAttempted(CapabilityValueView::Available { value, .. }) => seq![value],
        _ => Seq::empty(),
    }
}

/// Whether an event answers what a diagnosis waits for.
pub open spec fn is_answer(event: TargetEventView, stage: TargetStage, tcp: bool) -> bool {
    match stage {
        TargetStage::FirstConnect | TargetStage::SecondConnect => {
            event matches TargetEventView::Attempted(attempt) && attempt.outcome is Tcp
        },
        TargetStage::TargetEcho
        | TargetStage::TargetEchoRetry
        | TargetStage::NextHopEcho
        | TargetStage::NextHopEchoRetry => {
            event matches TargetEventView::Attempted(attempt) && attempt.outcome is Icmp
        },
        TargetStage::NeighborRead | TargetStage::NeighborConvergence => event is NeighborObserved,
        TargetStage::PathFirst | TargetStage::PathSecond => {
            &&& event is PathAttempted
            &&& brought(event).len() > 0 ==> brought(event)[0].outcome is Icmp || (tcp && brought(
                event,
            )[0].outcome is Tcp)
        },
    }
}

/// Whether this machine ran out of what a TCP attempt needs.
pub open spec fn lacks_resources(event: TargetEventView) -> bool {
    brought(event).len() > 0 && brought(event)[0].outcome == AttemptOutcomeView::Tcp(
        TcpAttemptResultView::ResourceExhausted,
    )
}

/// A diagnosis fails exactly where an operation could not be carried out that it cannot do
/// without, where this machine ran out of resources, or where something else is answered than was
/// asked for. It can do without the echoes that only narrow a failure down, if the system does
/// not offer them.
#[verifier::spinoff_prover]
pub proof fn only_failed_operations_end_in_failure(
    machine: TargetMachineView,
    event: TargetEventView,
)
    requires
        machine.valid(),
    ensures
        ({
            let narrowing = match machine.stage {
                TargetStage::TargetEcho | TargetStage::TargetEchoRetry => machine.port is Some,
                TargetStage::NextHopEcho | TargetStage::NextHopEchoRetry => true,
                _ => false,
            };
            match event {
                TargetEventView::Failed(error) => if narrowing && error.kind
                    == DiagnosticIoErrorKind::RequiredCapabilityUnavailable {
                    machine.next(event) is Finished
                } else {
                    machine.next(event) == TargetProgressView::Failed(error)
                },
                _ => match machine.next(event) {
                    TargetProgressView::Failed(error) => if error.kind
                        == DiagnosticIoErrorKind::ResourceExhausted {
                        lacks_resources(event)
                    } else {
                        &&& error.kind == DiagnosticIoErrorKind::Internal
                        &&& !is_answer(event, machine.stage, machine.port is Some)
                    },
                    _ => {
                        &&& is_answer(event, machine.stage, machine.port is Some)
                        &&& !lacks_resources(event)
                    },
                },
            }
        }),
{
}

/// The hop limit of the path attempt that is asked for, where one is.
pub open spec fn asked_hop(progress: TargetProgressView) -> Option<u8> {
    match progress {
        TargetProgressView::Pending { action: TargetActionView::TcpPath(operation), .. } => Some(
            operation.hop_limit,
        ),
        TargetProgressView::Pending { action: TargetActionView::IcmpPath(operation), .. } => Some(
            operation.hop_limit,
        ),
        _ => None,
    }
}

/// The hops of a path are tried one after the other from the first, and each once more where its
/// first attempt was not answered in time.
#[verifier::spinoff_prover]
pub proof fn hops_are_tried_in_order(machine: TargetMachineView, event: TargetEventView)
    requires
        machine.valid(),
        match machine.stage {
            TargetStage::NextHopEcho | TargetStage::NextHopEchoRetry => true,
            TargetStage::PathFirst | TargetStage::PathSecond => true,
            _ => false,
        },
    ensures
        asked_hop(machine.next(event)) matches Some(hop) ==> match machine.stage {
            TargetStage::PathFirst => {
                let late = late_tcp(brought(event)[0]) || late_icmp(brought(event)[0]);
                &&& brought(event).len() == 1
                &&& late ==> hop == machine.hop
                &&& !late ==> hop == machine.hop + 1
                &&& machine.next(event)->machine.hop == hop
                &&& (machine.next(event)->machine.stage == TargetStage::PathSecond <==> late)
            },
            TargetStage::PathSecond => {
                &&& hop == machine.hop + 1
                &&& machine.next(event)->machine.hop == hop
                &&& machine.next(event)->machine.stage == TargetStage::PathFirst
            },
            _ => {
                &&& hop == 1
                &&& machine.next(event)->machine.hop == hop
                &&& machine.next(event)->machine.stage == TargetStage::PathFirst
            },
        },
{
    if let TargetEventView::PathAttempted(CapabilityValueView::Available { value, .. }) = event {
        lemma_path_readings(value, machine.target().address);
    }
}

/// A neighbor that is still being resolved when it is read is given time, once; no other neighbor
/// is waited for.
#[verifier::spinoff_prover]
pub proof fn resolving_neighbors_are_given_time(machine: TargetMachineView, event: TargetEventView)
    requires
        machine.valid(),
        machine.stage == TargetStage::NeighborRead || machine.stage
            == TargetStage::NeighborConvergence,
    ensures
        machine.next(event) matches TargetProgressView::Pending {
            action: TargetActionView::AwaitNeighbor(_),
            ..
        } <==> machine.stage == TargetStage::NeighborRead && (event matches
            TargetEventView::NeighborObserved(CapabilityValueView::Available { value, .. })
            && value.state == NeighborState::Resolving),
{
}

} // verus!
