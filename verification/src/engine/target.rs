//! The diagnosis of one target: the primary check, and what narrows a failure down.

use vstd::prelude::*;

use crate::capability::{CapabilityReason, CapabilityReasonView, CapabilityValue, CapabilityValueView};
use crate::engine::observation::{self, PathAttemptDisposition};
use crate::engine::preparation::{PreparedPath, PreparedPathView};
use crate::engine::target_laws;
use crate::io::{
    DiagnosticIoError, DiagnosticIoErrorKind, DiagnosticIoErrorView, IcmpEchoSubject,
    IcmpEchoSubjectView, IcmpOperation, IcmpOperationView, PathOperation, PathOperationView,
    TcpOperation, TcpOperationView,
};
use crate::model::{
    Attempt, AttemptId, AttemptOutcome, AttemptOutcomeView, AttemptView, NeighborFact,
    NeighborFactView, NeighborIdentity, NeighborIdentityView, NeighborState, PathRelation,
    TargetIpView, TcpAttemptResult, TcpAttemptResultView,
};
use crate::number::NonZeroU16;
use crate::path::{NeighborDependency, NeighborDependencyView};
use crate::policy::{
    MAX_PATH_HOP_LIMIT, NEXT_HOP_ICMP_BUDGET, PATH_ATTEMPT_BUDGET, TARGET_ICMP_BUDGET,
    TCP_CONNECT_BUDGET,
};
use crate::result::{
    self, Conclusion, Evidence, EvidenceRole, EvidenceSubject, EvidenceSubjectView, EvidenceView,
    PrimaryOutcome, TargetDiagnostic, TargetDiagnosticView, TargetNetworkFacts,
    TargetNetworkFactsView,
};
use crate::time::Duration;

verus! {

/// The distance between the identifiers of one target and the next.
pub const TARGET_ID_STRIDE: u64 = 10_000;

/// The most operations that the diagnosis of one target takes.
pub const MAX_TARGET_OPERATIONS: u64 = 70;

/// A target that is ready to be diagnosed.
#[derive(Debug, Eq, PartialEq)]
pub struct PreparedTarget {
    pub path: PreparedPath,
    pub resolver_ordinal: Option<usize>,
}

/// The contents of a [`PreparedTarget`].
#[verifier::ext_equal]
pub struct PreparedTargetView {
    pub path: PreparedPathView,
    pub resolver_ordinal: Option<usize>,
}

impl DeepView for PreparedTarget {
    type V = PreparedTargetView;

    open spec fn deep_view(&self) -> PreparedTargetView {
        PreparedTargetView {
            path: self.path.deep_view(),
            resolver_ordinal: self.resolver_ordinal,
        }
    }
}

impl Clone for PreparedTarget {
    fn clone(&self) -> (copy: Self)
        ensures
            copy.deep_view() == self.deep_view(),
    {
        PreparedTarget {
            path: self.path.clone(),
            resolver_ordinal: self.resolver_ordinal,
        }
    }
}

/// What the diagnosis of a target waits for.
#[derive(Clone, Copy, Debug, Eq, PartialEq, Structural)]
pub enum TargetStage {
    FirstConnect,
    SecondConnect,
    TargetEcho,
    TargetEchoRetry,
    NeighborRead,
    NeighborConvergence,
    NextHopEcho,
    NextHopEchoRetry,
    PathFirst,
    PathSecond,
}

impl DeepView for TargetStage {
    type V = TargetStage;

    open spec fn deep_view(&self) -> TargetStage {
        *self
    }
}

/// The diagnosis of one target, between two operations.
#[derive(Debug, Eq, PartialEq)]
pub struct TargetMachine {
    prepared: PreparedTarget,
    port: Option<u16>,
    base_id: u64,
    next_id: u64,
    facts: TargetNetworkFacts,
    attempts: Vec<Attempt>,
    series: Vec<Attempt>,
    evidence: Vec<Evidence>,
    conclusions: Vec<Conclusion>,
    stage: TargetStage,
    hop: u8,
    several_responders: bool,
}

/// The contents of a [`TargetMachine`].
#[verifier::ext_equal]
pub struct TargetMachineView {
    pub prepared: PreparedTargetView,
    pub port: Option<u16>,
    pub base_id: u64,
    pub next_id: u64,
    pub facts: TargetNetworkFactsView,
    pub attempts: Seq<AttemptView>,
    pub series: Seq<AttemptView>,
    pub evidence: Seq<EvidenceView>,
    pub conclusions: Seq<Conclusion>,
    pub stage: TargetStage,
    pub hop: u8,
    pub several_responders: bool,
}

impl DeepView for TargetMachine {
    type V = TargetMachineView;

    closed spec fn deep_view(&self) -> TargetMachineView {
        TargetMachineView {
            prepared: self.prepared.deep_view(),
            port: self.port,
            base_id: self.base_id,
            next_id: self.next_id,
            facts: self.facts.deep_view(),
            attempts: self.attempts.deep_view(),
            series: self.series.deep_view(),
            evidence: self.evidence.deep_view(),
            conclusions: self.conclusions.deep_view(),
            stage: self.stage,
            hop: self.hop,
            several_responders: self.several_responders,
        }
    }
}

impl Clone for TargetMachine {
    fn clone(&self) -> (copy: Self)
        ensures
            copy.deep_view() == self.deep_view(),
    {
        let copy = TargetMachine {
            prepared: self.prepared.clone(),
            port: self.port,
            base_id: self.base_id,
            next_id: self.next_id,
            facts: self.facts.clone(),
            attempts: self.attempts.clone(),
            series: self.series.clone(),
            evidence: self.evidence.clone(),
            conclusions: self.conclusions.clone(),
            stage: self.stage,
            hop: self.hop,
            several_responders: self.several_responders,
        };
        assert(copy.attempts.deep_view() =~= self.attempts.deep_view());
        assert(copy.series.deep_view() =~= self.series.deep_view());
        assert(copy.evidence.deep_view() =~= self.evidence.deep_view());
        assert(copy.conclusions.deep_view() =~= self.conclusions.deep_view());
        copy
    }
}

/// An operation that is to be carried out next.
#[derive(Debug, Eq, PartialEq)]
pub enum TargetAction {
    TcpConnect(TcpOperation),
    IcmpEcho(IcmpOperation),
    ReadNeighbor(NeighborIdentity),
    AwaitNeighbor(NeighborIdentity),
    TcpPath(PathOperation),
    IcmpPath(PathOperation),
}

/// The contents of a [`TargetAction`].
#[verifier::ext_equal]
pub enum TargetActionView {
    TcpConnect(TcpOperationView),
    IcmpEcho(IcmpOperationView),
    ReadNeighbor(NeighborIdentityView),
    AwaitNeighbor(NeighborIdentityView),
    TcpPath(PathOperationView),
    IcmpPath(PathOperationView),
}

impl DeepView for TargetAction {
    type V = TargetActionView;

    open spec fn deep_view(&self) -> TargetActionView {
        match self {
            TargetAction::TcpConnect(value) => TargetActionView::TcpConnect(value.deep_view()),
            TargetAction::IcmpEcho(value) => TargetActionView::IcmpEcho(value.deep_view()),
            TargetAction::ReadNeighbor(value) => TargetActionView::ReadNeighbor(value.deep_view()),
            TargetAction::AwaitNeighbor(value) => TargetActionView::AwaitNeighbor(value.deep_view()),
            TargetAction::TcpPath(value) => TargetActionView::TcpPath(value.deep_view()),
            TargetAction::IcmpPath(value) => TargetActionView::IcmpPath(value.deep_view()),
        }
    }
}

impl Clone for TargetAction {
    fn clone(&self) -> (copy: Self)
        ensures
            copy.deep_view() == self.deep_view(),
    {
        match self {
            TargetAction::TcpConnect(value) => TargetAction::TcpConnect(value.clone()),
            TargetAction::IcmpEcho(value) => TargetAction::IcmpEcho(value.clone()),
            TargetAction::ReadNeighbor(value) => TargetAction::ReadNeighbor(value.clone()),
            TargetAction::AwaitNeighbor(value) => TargetAction::AwaitNeighbor(value.clone()),
            TargetAction::TcpPath(value) => TargetAction::TcpPath(value.clone()),
            TargetAction::IcmpPath(value) => TargetAction::IcmpPath(value.clone()),
        }
    }
}

/// What came of an operation.
#[derive(Debug, Eq, PartialEq)]
pub enum TargetEvent {
    Attempted(Attempt),
    NeighborObserved(CapabilityValue<NeighborFact>),
    PathAttempted(CapabilityValue<Attempt>),
    Failed(DiagnosticIoError),
}

/// The contents of a [`TargetEvent`].
#[verifier::ext_equal]
pub enum TargetEventView {
    Attempted(AttemptView),
    NeighborObserved(CapabilityValueView<NeighborFactView>),
    PathAttempted(CapabilityValueView<AttemptView>),
    Failed(DiagnosticIoErrorView),
}

impl DeepView for TargetEvent {
    type V = TargetEventView;

    open spec fn deep_view(&self) -> TargetEventView {
        match self {
            TargetEvent::Attempted(value) => TargetEventView::Attempted(value.deep_view()),
            TargetEvent::NeighborObserved(value) => TargetEventView::NeighborObserved(value.deep_view()),
            TargetEvent::PathAttempted(value) => TargetEventView::PathAttempted(value.deep_view()),
            TargetEvent::Failed(value) => TargetEventView::Failed(value.deep_view()),
        }
    }
}

impl Clone for TargetEvent {
    fn clone(&self) -> (copy: Self)
        ensures
            copy.deep_view() == self.deep_view(),
    {
        match self {
            TargetEvent::Attempted(value) => TargetEvent::Attempted(value.clone()),
            TargetEvent::NeighborObserved(value) => TargetEvent::NeighborObserved(value.clone()),
            TargetEvent::PathAttempted(value) => TargetEvent::PathAttempted(value.clone()),
            TargetEvent::Failed(value) => TargetEvent::Failed(value.clone()),
        }
    }
}

/// Where the diagnosis of a target stands.
#[derive(Debug, Eq, PartialEq)]
pub enum TargetProgress {
    Pending { machine: TargetMachine, action: TargetAction },
    Finished(TargetDiagnostic),
    Failed(DiagnosticIoError),
}

/// The contents of a [`TargetProgress`].
#[verifier::ext_equal]
pub enum TargetProgressView {
    Pending { machine: TargetMachineView, action: TargetActionView },
    Finished(TargetDiagnosticView),
    Failed(DiagnosticIoErrorView),
}

impl DeepView for TargetProgress {
    type V = TargetProgressView;

    open spec fn deep_view(&self) -> TargetProgressView {
        match self {
            TargetProgress::Pending { machine, action } => TargetProgressView::Pending {
                machine: machine.deep_view(),
                action: action.deep_view(),
            },
            TargetProgress::Finished(value) => TargetProgressView::Finished(value.deep_view()),
            TargetProgress::Failed(value) => TargetProgressView::Failed(value.deep_view()),
        }
    }
}

impl Clone for TargetProgress {
    fn clone(&self) -> (copy: Self)
        ensures
            copy.deep_view() == self.deep_view(),
    {
        match self {
            TargetProgress::Pending { machine, action } => TargetProgress::Pending {
                machine: machine.clone(),
                action: action.clone(),
            },
            TargetProgress::Finished(value) => TargetProgress::Finished(value.clone()),
            TargetProgress::Failed(value) => TargetProgress::Failed(value.clone()),
        }
    }
}

/// The identifier that follows.
pub open spec fn following(id: u64) -> u64 {
    (id + 1) as u64
}

/// The first identifier of a target.
pub open spec fn target_base(ordinal: usize) -> u64 {
    ((ordinal + 1) * TARGET_ID_STRIDE) as u64
}

/// Whether a target with this ordinal has room for its identifiers.
pub open spec fn has_target_ids(ordinal: usize) -> bool {
    (ordinal + 2) * TARGET_ID_STRIDE <= u64::MAX
}

/// The error of an event that does not answer the operation that is waited for.
pub open spec fn unexpected_event() -> DiagnosticIoErrorView {
    observation::io_error(
        DiagnosticIoErrorKind::Internal,
        "the event does not answer the pending operation"@,
    )
}

pub(crate) fn unexpected_event_error() -> (result: DiagnosticIoError)
    ensures
        result.deep_view() == unexpected_event(),
{
    DiagnosticIoError::new(
        DiagnosticIoErrorKind::Internal,
        "the event does not answer the pending operation",
    )
}

/// The evidence of attempts, all in one role, behind other evidence.
pub open spec fn with_attempts(
    evidence: Seq<EvidenceView>,
    attempts: Seq<AttemptView>,
    role: EvidenceRole,
) -> Seq<EvidenceView> {
    evidence + Seq::new(
        attempts.len(),
        |i: int| observation::evidence_of_attempt(attempts[i], role),
    )
}

/// The evidence of a primary echo series: its first attempt decides, the next is history.
pub open spec fn primary_series_evidence(series: Seq<AttemptView>) -> Seq<EvidenceView> {
    Seq::new(
        series.len(),
        |i: int|
            observation::evidence_of_attempt(
                series[i],
                if i == 0 {
                    EvidenceRole::PrimaryDecision
                } else {
                    EvidenceRole::AnomalyHistory
                },
            ),
    )
}

pub open spec fn some_reply(attempts: Seq<AttemptView>) -> bool {
    exists|i: int| 0 <= i < attempts.len() && observation::echo_replied(#[trigger] attempts[i])
}

pub open spec fn some_icmp_result(attempts: Seq<AttemptView>) -> bool {
    exists|i: int| 0 <= i < attempts.len() && observation::icmp_result(#[trigger] attempts[i])
}

pub open spec fn some_inconclusive(attempts: Seq<AttemptView>) -> bool {
    exists|i: int| 0 <= i < attempts.len() && observation::inconclusive(#[trigger] attempts[i])
}

pub open spec fn some_answer_by_subject(attempts: Seq<AttemptView>) -> bool {
    exists|i: int|
        0 <= i < attempts.len() && observation::answered_by_subject(#[trigger] attempts[i])
}

impl TargetMachineView {
    /// Whether the primary check is a TCP connection.
    pub open spec fn tcp(self) -> bool {
        self.port is Some
    }

    pub open spec fn target(self) -> TargetIpView {
        self.prepared.path.target
    }

    pub open spec fn subject(self) -> EvidenceSubjectView {
        EvidenceSubjectView::Target(self.target())
    }

    pub open spec fn dependency(self) -> NeighborDependencyView {
        self.prepared.path.neighbor_dependency
    }

    /// The machine after an identifier was used.
    pub open spec fn spent(self) -> TargetMachineView {
        TargetMachineView { next_id: following(self.next_id), ..self }
    }

    pub open spec fn at(self, stage: TargetStage) -> TargetMachineView {
        TargetMachineView { stage, ..self }
    }

    pub open spec fn with_evidence(self, item: EvidenceView) -> TargetMachineView {
        TargetMachineView { evidence: self.evidence.push(item), ..self }
    }

    pub open spec fn with_conclusion(self, conclusion: Conclusion) -> TargetMachineView {
        TargetMachineView { conclusions: self.conclusions.push(conclusion), ..self }
    }

    /// The machine with an attempt and its evidence.
    pub open spec fn with_attempt(
        self,
        attempt: AttemptView,
        role: EvidenceRole,
    ) -> TargetMachineView {
        TargetMachineView {
            attempts: self.attempts.push(attempt),
            evidence: self.evidence.push(observation::evidence_of_attempt(attempt, role)),
            ..self
        }
    }

    /// The end of the diagnosis.
    pub open spec fn finished(
        self,
        outcome: PrimaryOutcome,
        conclusion: Conclusion,
        diagnostic_conclusions: Seq<Conclusion>,
    ) -> TargetProgressView {
        TargetProgressView::Finished(
            TargetDiagnosticView {
                diagnostic_conclusions,
                ..result::target_diagnostic(
                    self.target(),
                    self.prepared.resolver_ordinal,
                    outcome,
                    conclusion,
                    self.facts,
                    self.attempts,
                    self.evidence,
                )
            },
        )
    }

    /// The end of a primary check without a result, with all that was found out about it.
    pub open spec fn exhausted(self) -> TargetProgressView {
        if self.tcp() {
            self.finished(
                PrimaryOutcome::NotSatisfied,
                Conclusion::TcpConnectTimedOut,
                self.conclusions,
            )
        } else {
            self.finished(
                PrimaryOutcome::Indeterminate,
                Conclusion::IcmpEchoTimedOut,
                self.conclusions,
            )
        }
    }

    /// Asks for a TCP connection to the target and port.
    pub open spec fn ask_connect(self, stage: TargetStage) -> TargetProgressView {
        TargetProgressView::Pending {
            machine: self.spent().at(stage),
            action: TargetActionView::TcpConnect(
                TcpOperationView {
                    attempt_id: AttemptId(self.next_id),
                    target: self.target(),
                    port: self.port->Some_0,
                    budget: Duration::of_millis(TCP_CONNECT_BUDGET),
                },
            ),
        }
    }

    /// Asks for an echo of the target.
    pub open spec fn ask_target_echo(self, stage: TargetStage) -> TargetProgressView {
        TargetProgressView::Pending {
            machine: self.spent().at(stage),
            action: TargetActionView::IcmpEcho(
                IcmpOperationView {
                    attempt_id: AttemptId(self.next_id),
                    subject: IcmpEchoSubjectView::Target(self.target()),
                    budget: Duration::of_millis(TARGET_ICMP_BUDGET),
                },
            ),
        }
    }

    /// Asks for an echo of the next hop.
    pub open spec fn ask_next_hop_echo(self, stage: TargetStage) -> TargetProgressView {
        TargetProgressView::Pending {
            machine: self.spent().at(stage),
            action: TargetActionView::IcmpEcho(
                IcmpOperationView {
                    attempt_id: AttemptId(self.next_id),
                    subject: IcmpEchoSubjectView::NextHop(self.dependency()->Known_0),
                    budget: Duration::of_millis(NEXT_HOP_ICMP_BUDGET),
                },
            ),
        }
    }

    /// Asks for a path attempt with the machine's hop limit.
    pub open spec fn ask_path(self, stage: TargetStage) -> TargetProgressView {
        let operation = PathOperationView {
            attempt_id: AttemptId(self.next_id),
            target: self.target(),
            port: self.port,
            hop_limit: self.hop,
            budget: Duration::of_millis(PATH_ATTEMPT_BUDGET),
        };
        TargetProgressView::Pending {
            machine: self.spent().at(stage),
            action: if self.tcp() {
                TargetActionView::TcpPath(operation)
            } else {
                TargetActionView::IcmpPath(operation)
            },
        }
    }

    /// After a TCP attempt. The first decides; the second counts where the first timed out.
    pub open spec fn after_connect(self, attempt: AttemptView) -> TargetProgressView {
        let first = self.stage == TargetStage::FirstConnect;
        let seen = self.with_attempt(
            attempt,
            if first {
                EvidenceRole::PrimaryDecision
            } else {
                EvidenceRole::AnomalyHistory
            },
        );
        match attempt.outcome {
            AttemptOutcomeView::Tcp(outcome) => match outcome {
                TcpAttemptResultView::Connected { .. } => if first {
                    seen.finished(
                        PrimaryOutcome::Satisfied,
                        Conclusion::TcpConnectSucceeded,
                        Seq::empty(),
                    )
                } else {
                    seen.finished(
                        PrimaryOutcome::SatisfiedWithAnomaly,
                        Conclusion::TcpConnectSucceededAfterTimeout,
                        Seq::empty(),
                    )
                },
                TcpAttemptResultView::ResourceExhausted => TargetProgressView::Failed(
                    observation::resources_exhausted(),
                ),
                TcpAttemptResultView::Timeout => if first {
                    seen.ask_connect(TargetStage::SecondConnect)
                } else {
                    seen.ask_target_echo(TargetStage::TargetEcho)
                },
                TcpAttemptResultView::ConnectionRefused => seen.finished(
                    PrimaryOutcome::NotSatisfied,
                    Conclusion::TcpConnectionRefused,
                    Seq::empty(),
                ),
                _ => TargetMachineView {
                    evidence: observation::with_path_comparison(
                        seen.evidence,
                        outcome,
                        self.prepared.path.initial_path,
                        self.next_id,
                    ),
                    ..seen
                }.finished(
                    PrimaryOutcome::NotSatisfied,
                    Conclusion::TcpExplicitFailure,
                    Seq::empty(),
                ),
            },
            _ => TargetProgressView::Failed(observation::wrong_tcp_outcome()),
        }
    }

    /// After an attempt of an echo series: a first attempt that timed out is repeated.
    pub open spec fn after_echo(self, attempt: AttemptView) -> TargetProgressView {
        let seen = TargetMachineView { series: self.series.push(attempt), ..self };
        if !(attempt.outcome is Icmp) {
            TargetProgressView::Failed(observation::wrong_icmp_outcome())
        } else {
            match self.stage {
                TargetStage::TargetEcho => if observation::timed_out(attempt) {
                    seen.ask_target_echo(TargetStage::TargetEchoRetry)
                } else {
                    seen.after_target_series()
                },
                TargetStage::TargetEchoRetry => seen.after_target_series(),
                TargetStage::NextHopEcho => if observation::timed_out(attempt) {
                    seen.ask_next_hop_echo(TargetStage::NextHopEchoRetry)
                } else {
                    seen.after_next_hop_series()
                },
                _ => seen.after_next_hop_series(),
            }
        }
    }

    /// After the echo series of the target. For a TCP check it narrows the failure down; without
    /// a port it is the primary check itself.
    pub open spec fn after_target_series(self) -> TargetProgressView {
        let series = self.series;
        if self.tcp() {
            let seen = TargetMachineView {
                attempts: self.attempts + series,
                series: Seq::empty(),
                evidence: with_attempts(self.evidence, series, EvidenceRole::BoundaryNarrowing),
                ..self
            };
            if some_reply(series) {
                seen.finished(
                    PrimaryOutcome::NotSatisfied,
                    Conclusion::TcpTimedOutButTargetIcmpResponded,
                    Seq::empty(),
                )
            } else if some_icmp_result(seen.attempts) {
                seen.finished(
                    PrimaryOutcome::NotSatisfied,
                    Conclusion::TcpTimedOutWithExplicitIcmpResult,
                    Seq::empty(),
                )
            } else {
                seen.read_neighbor()
            }
        } else {
            let seen = TargetMachineView {
                attempts: self.attempts + series,
                series: Seq::empty(),
                evidence: self.evidence + primary_series_evidence(series),
                ..self
            };
            if observation::echo_replied(series[0]) {
                seen.finished(
                    PrimaryOutcome::Satisfied,
                    Conclusion::IcmpEchoReplied,
                    Seq::empty(),
                )
            } else if series.len() > 1 && observation::echo_replied(series[1]) {
                seen.finished(
                    PrimaryOutcome::SatisfiedWithAnomaly,
                    Conclusion::IcmpEchoRepliedAfterTimeout,
                    Seq::empty(),
                )
            } else if some_inconclusive(series) {
                seen.finished(
                    PrimaryOutcome::Indeterminate,
                    Conclusion::IcmpResponseIndeterminate,
                    Seq::empty(),
                )
            } else if some_icmp_result(series) {
                seen.finished(
                    PrimaryOutcome::NotSatisfied,
                    Conclusion::IcmpExplicitFailure,
                    Seq::empty(),
                )
            } else {
                seen.read_neighbor()
            }
        }
    }

    /// Asks for the neighbor that the path depends on, where it is known.
    pub open spec fn read_neighbor(self) -> TargetProgressView {
        match self.dependency() {
            NeighborDependencyView::Known(identity) => TargetProgressView::Pending {
                machine: self.at(TargetStage::NeighborRead),
                action: TargetActionView::ReadNeighbor(identity),
            },
            _ => self.after_neighbor(None),
        }
    }

    /// After the neighbor was read. One that is still resolving is given time.
    pub open spec fn after_neighbor_read(
        self,
        observed: CapabilityValueView<NeighborFactView>,
    ) -> TargetProgressView {
        let state = observation::neighbor_state_of(observed);
        if self.stage == TargetStage::NeighborRead && state == Some(NeighborState::Resolving) {
            TargetProgressView::Pending {
                machine: self.at(TargetStage::NeighborConvergence),
                action: TargetActionView::AwaitNeighbor(self.dependency()->Known_0),
            }
        } else {
            TargetMachineView {
                facts: TargetNetworkFactsView { neighbor_post_state: Some(observed), ..self.facts },
                ..self
            }.after_neighbor(state)
        }
    }

    /// What the state of the neighbor means for the failure.
    pub open spec fn after_neighbor(self, state: Option<NeighborState>) -> TargetProgressView {
        if state == Some(NeighborState::TerminalFailure) {
            self.with_neighbor().finished(
                PrimaryOutcome::NotSatisfied,
                Conclusion::NeighborResolutionFailed,
                Seq::empty(),
            )
        } else if state == Some(NeighborState::Resolving) {
            self.with_neighbor().finished(
                if self.tcp() {
                    PrimaryOutcome::NotSatisfied
                } else {
                    PrimaryOutcome::Indeterminate
                },
                Conclusion::NeighborResolutionIndeterminate,
                Seq::empty(),
            )
        } else if state == Some(NeighborState::Unknown) {
            self.with_neighbor().with_conclusion(
                Conclusion::NeighborResolutionIndeterminate,
            ).beyond_neighbor(false)
        } else {
            self.beyond_neighbor(state == Some(NeighborState::Usable))
        }
    }

    /// The machine with what limits the view of the neighbor and of what lies behind it.
    pub open spec fn with_neighbor_limitations(self) -> TargetMachineView {
        let limited = self.with_limitation(
            observation::observation_limitation(
                self.dependency(),
                self.facts.neighbor_post_state,
                self.subject(),
                "post-failure Neighbor observation"@,
                self.next_id,
            ),
        );
        limited.with_limitation(
            observation::dependency_limitation(
                self.dependency(),
                self.subject(),
                "neighbor and deeper path diagnosis"@,
                limited.next_id,
            ),
        )
    }

    /// Goes on behind the neighbor where it is usable and leads to a remote target.
    pub open spec fn beyond_neighbor(self, usable: bool) -> TargetProgressView {
        let ready = self.with_neighbor_limitations();
        if usable && observation::relation_of(self.facts.current_path) == Some(PathRelation::Remote)
            && self.dependency() is Known {
            ready.ask_next_hop_echo(TargetStage::NextHopEcho)
        } else {
            ready.exhausted()
        }
    }

    /// The machine with the change of the neighbor as evidence.
    pub open spec fn with_neighbor(self) -> TargetMachineView {
        TargetMachineView {
            evidence: observation::with_neighbor_evidence(self.evidence, self.facts, self.next_id),
            ..self.spent()
        }
    }

    /// The machine with a limitation, where there is one; an identifier is used either way.
    pub open spec fn with_limitation(self, item: Option<EvidenceView>) -> TargetMachineView {
        match item {
            Some(item) => self.spent().with_evidence(item).with_conclusion(
                Conclusion::CapabilityLimited,
            ),
            None => self.spent(),
        }
    }

    /// The machine with the message of an operation that this system does not offer.
    pub open spec fn with_io_limitation(
        self,
        capability: Seq<char>,
        error: DiagnosticIoErrorView,
    ) -> TargetMachineView {
        self.spent().with_evidence(
            observation::limitation(
                self.next_id,
                self.subject(),
                capability,
                CapabilityReasonView::Other(error.safe_message),
            ),
        )
    }

    /// After the echo series of the next hop. A first hop that answers leads on along the path.
    pub open spec fn after_next_hop_series(self) -> TargetProgressView {
        let seen = TargetMachineView {
            attempts: self.attempts + self.series,
            series: Seq::empty(),
            evidence: with_attempts(self.evidence, self.series, EvidenceRole::BoundaryNarrowing),
            ..self
        };
        if some_answer_by_subject(self.series) {
            TargetMachineView {
                hop: 1,
                several_responders: false,
                ..seen.with_conclusion(Conclusion::FirstHopResponded)
            }.ask_path(TargetStage::PathFirst)
        } else {
            seen.exhausted()
        }
    }

    /// The end of path diagnosis.
    pub open spec fn end_path(self, terminal: Conclusion) -> TargetProgressView {
        TargetMachineView {
            conclusions: self.conclusions + observation::path_conclusions_of(
                self.several_responders,
                terminal,
            ),
            ..self
        }.exhausted()
    }

    /// The machine with its latest evidence kept as narrowing the boundary.
    pub open spec fn with_last_narrowing(self) -> TargetMachineView {
        TargetMachineView {
            evidence: self.evidence.drop_last().push(
                EvidenceView {
                    role: EvidenceRole::BoundaryNarrowing,
                    ..self.evidence.last()
                },
            ),
            ..self
        }
    }

    /// After a path attempt, or the news that the system offers none.
    pub open spec fn after_path(
        self,
        answer: CapabilityValueView<AttemptView>,
    ) -> TargetProgressView {
        match answer {
            CapabilityValueView::Available { value, .. } => {
                if value.outcome == AttemptOutcomeView::Tcp(
                    TcpAttemptResultView::ResourceExhausted,
                ) {
                    TargetProgressView::Failed(observation::resources_exhausted())
                } else if !(value.outcome is Icmp) && !(self.tcp() && value.outcome is Tcp) {
                    TargetProgressView::Failed(observation::wrong_path_outcome())
                } else {
                    self.after_path_attempt(value)
                }
            },
            CapabilityValueView::Unknown { reason, .. } => self.after_path_limitation(reason),
            CapabilityValueView::Unavailable { reason, .. } => self.after_path_limitation(reason),
        }
    }

    pub open spec fn after_path_limitation(
        self,
        reason: CapabilityReasonView,
    ) -> TargetProgressView {
        self.with_evidence(
            observation::limitation(
                self.last_id(),
                EvidenceSubjectView::Run,
                "TTL/Hop-Limit path response correlation"@,
                reason,
            ),
        ).end_path(Conclusion::CapabilityLimited)
    }

    /// The identifier of the operation that was asked for last.
    pub open spec fn last_id(self) -> u64 {
        (self.next_id - 1) as u64
    }

    /// What a path attempt means: it ends the path, repeats a hop that timed out once, or goes on
    /// to the next hop up to the limit.
    pub open spec fn after_path_attempt(self, attempt: AttemptView) -> TargetProgressView {
        let several = observation::several_responders(attempt);
        let seen = TargetMachineView {
            several_responders: self.several_responders || several,
            ..self.with_attempt(
                attempt,
                if several && !self.several_responders {
                    EvidenceRole::BoundaryNarrowing
                } else {
                    EvidenceRole::Context
                },
            )
        };
        match observation::disposition(attempt, self.target().address) {
            PathAttemptDisposition::Endpoint => seen.with_last_narrowing().end_path(
                Conclusion::PathEndpointResponded,
            ),
            PathAttemptDisposition::ExplicitTermination => seen.with_last_narrowing().end_path(
                Conclusion::PathExplicitlyTerminated,
            ),
            PathAttemptDisposition::Indeterminate => seen.with_last_narrowing().end_path(
                Conclusion::PathResponseIndeterminate,
            ),
            PathAttemptDisposition::Timeout => if self.stage == TargetStage::PathFirst {
                seen.ask_path(TargetStage::PathSecond)
            } else {
                seen.next_hop()
            },
            PathAttemptDisposition::Advance => seen.next_hop(),
        }
    }

    /// Goes on to the next hop, up to the limit.
    pub open spec fn next_hop(self) -> TargetProgressView {
        if self.hop < MAX_PATH_HOP_LIMIT {
            self.one_hop_on().ask_path(TargetStage::PathFirst)
        } else {
            self.with_last_narrowing().end_path(
                Conclusion::PathLimitReachedWithoutEndpointEvidence,
            )
        }
    }

    pub open spec fn one_hop_on(self) -> TargetMachineView {
        TargetMachineView { hop: (self.hop + 1) as u8, ..self }
    }

    /// After an operation that could not be carried out. A missing capability of a diagnostic
    /// step limits the diagnosis; anything else ends it.
    pub open spec fn after_failure(self, error: DiagnosticIoErrorView) -> TargetProgressView {
        let missing = error.kind == DiagnosticIoErrorKind::RequiredCapabilityUnavailable;
        match self.stage {
            TargetStage::TargetEcho | TargetStage::TargetEchoRetry => if missing && self.tcp() {
                self.with_io_limitation("target ICMP failure diagnosis"@, error).finished(
                    PrimaryOutcome::NotSatisfied,
                    Conclusion::TcpConnectTimedOut,
                    seq![Conclusion::CapabilityLimited],
                )
            } else {
                TargetProgressView::Failed(error)
            },
            TargetStage::NextHopEcho | TargetStage::NextHopEchoRetry => if missing {
                self.with_io_limitation("next-hop ICMP diagnosis"@, error).with_conclusion(
                    Conclusion::CapabilityLimited,
                ).exhausted()
            } else {
                TargetProgressView::Failed(error)
            },
            _ => TargetProgressView::Failed(error),
        }
    }

    /// The step from one operation to the next.
    pub open spec fn next(self, event: TargetEventView) -> TargetProgressView {
        match (self.stage, event) {
            (_, TargetEventView::Failed(error)) => self.after_failure(error),
            (
                TargetStage::FirstConnect | TargetStage::SecondConnect,
                TargetEventView::Attempted(attempt),
            ) => self.after_connect(attempt),
            (
                TargetStage::TargetEcho
                | TargetStage::TargetEchoRetry
                | TargetStage::NextHopEcho
                | TargetStage::NextHopEchoRetry,
                TargetEventView::Attempted(attempt),
            ) => self.after_echo(attempt),
            (
                TargetStage::NeighborRead | TargetStage::NeighborConvergence,
                TargetEventView::NeighborObserved(observed),
            ) => self.after_neighbor_read(observed),
            (
                TargetStage::PathFirst | TargetStage::PathSecond,
                TargetEventView::PathAttempted(answer),
            ) => self.after_path(answer),
            _ => TargetProgressView::Failed(unexpected_event()),
        }
    }

    /// How many identifiers may have been used at most.
    pub open spec fn allowance(self) -> int {
        match self.stage {
            TargetStage::FirstConnect => 1,
            TargetStage::SecondConnect => 2,
            TargetStage::TargetEcho => 3,
            TargetStage::TargetEchoRetry => 4,
            TargetStage::NeighborRead => 4,
            TargetStage::NeighborConvergence => 4,
            TargetStage::NextHopEcho => 8,
            TargetStage::NextHopEchoRetry => 9,
            TargetStage::PathFirst => 8 + 2 * self.hop,
            TargetStage::PathSecond => 9 + 2 * self.hop,
        }
    }

    /// Whether every attempt so far timed out.
    pub open spec fn all_timed_out(self) -> bool {
        &&& forall|i: int|
            0 <= i < self.attempts.len() ==> observation::timed_out(#[trigger] self.attempts[i])
        &&& forall|i: int|
            0 <= i < self.series.len() ==> observation::timed_out(#[trigger] self.series[i])
    }

    /// Whether the parts of the machine fit each other.
    pub open spec fn valid(self) -> bool {
        &&& self.base_id + TARGET_ID_STRIDE <= u64::MAX
        &&& self.base_id + 10 < self.next_id <= self.base_id + 10 + self.allowance()
        &&& !self.prepared.path.hopeless()
        &&& match self.stage {
            TargetStage::FirstConnect => self.tcp() && self.attempts.len() == 0
                && self.series.len() == 0,
            TargetStage::SecondConnect => self.tcp() && self.attempts.len() == 1
                && self.series.len() == 0 && self.all_timed_out(),
            TargetStage::TargetEcho => self.attempts.len() == (if self.tcp() {
                2int
            } else {
                0int
            }) && self.series.len() == 0 && self.all_timed_out(),
            TargetStage::TargetEchoRetry => self.attempts.len() == (if self.tcp() {
                2int
            } else {
                0int
            }) && self.series.len() == 1 && self.all_timed_out(),
            TargetStage::NeighborRead | TargetStage::NeighborConvergence => self.dependency()
                is Known && self.attempts.len() > 0 && self.series.len() == 0,
            TargetStage::NextHopEcho => self.dependency() is Known && self.attempts.len() > 0
                && self.series.len() == 0,
            TargetStage::NextHopEchoRetry => self.dependency() is Known && self.attempts.len() > 0
                && self.series.len() == 1,
            TargetStage::PathFirst | TargetStage::PathSecond => 1 <= self.hop
                <= MAX_PATH_HOP_LIMIT && self.attempts.len() > 0 && self.series.len() == 0,
        }
    }
}

impl TargetProgressView {
    /// Whether a machine that waits is valid.
    pub open spec fn valid(self) -> bool {
        match self {
            TargetProgressView::Pending { machine, .. } => machine.valid(),
            _ => true,
        }
    }
}

/// The machine of a target before its first operation.
pub open spec fn first_machine(
    prepared: PreparedTargetView,
    port: Option<u16>,
    base_id: u64,
    first_id: u64,
    role: EvidenceRole,
) -> TargetMachineView {
    TargetMachineView {
        prepared,
        port,
        base_id,
        next_id: first_id,
        facts: prepared.path.facts(),
        attempts: Seq::empty(),
        series: Seq::empty(),
        evidence: observation::path_evidence(
            base_id,
            EvidenceSubjectView::Target(prepared.path.target),
            role,
            prepared.path.initial_path,
            prepared.path.current_path,
            "current targeted path lookup"@,
        ),
        conclusions: Seq::empty(),
        stage: TargetStage::TargetEcho,
        hop: 0,
        several_responders: false,
    }
}

/// The first identifier that an operation of a target gets.
pub open spec fn first_operation_id(base_id: u64) -> u64 {
    (base_id + 10) as u64
}

/// The start of a diagnosis. A target without a path is not tried; with a port the primary check
/// is a TCP connection, without one it is an echo.
pub open spec fn started(
    prepared: PreparedTargetView,
    port: Option<u16>,
    ordinal: usize,
) -> TargetProgressView {
    let base_id = target_base(ordinal);
    let machine = first_machine(
        prepared,
        port,
        base_id,
        first_operation_id(base_id),
        if prepared.path.hopeless() {
            EvidenceRole::PrimaryDecision
        } else {
            EvidenceRole::Context
        },
    );
    if prepared.path.hopeless() {
        machine.finished(
            PrimaryOutcome::NotSatisfied,
            Conclusion::DefinitiveNoPath,
            Seq::empty(),
        )
    } else if port is Some {
        machine.ask_connect(TargetStage::FirstConnect)
    } else {
        machine.ask_target_echo(TargetStage::TargetEcho)
    }
}

fn millis(milliseconds: u64) -> (result: Duration)
    ensures
        result == Duration::of_millis(milliseconds),
{
    Duration::from_millis(milliseconds)
}

fn base_of(ordinal: usize) -> (result: u64)
    requires
        has_target_ids(ordinal),
    ensures
        result == target_base(ordinal),
        result + TARGET_ID_STRIDE <= u64::MAX,
{
    (ordinal as u64 + 1) * TARGET_ID_STRIDE
}

fn extend_attempts(attempts: &mut Vec<Attempt>, more: &mut Vec<Attempt>)
    ensures
        final(attempts).deep_view() == old(attempts).deep_view() + old(more).deep_view(),
        final(more).deep_view() == Seq::<AttemptView>::empty(),
{
    attempts.append(more);
    assert(attempts.deep_view() =~= old(attempts).deep_view() + old(more).deep_view());
    assert(more.deep_view() =~= Seq::<AttemptView>::empty());
}

fn add_attempts_evidence(evidence: &mut Vec<Evidence>, attempts: &Vec<Attempt>, role: EvidenceRole)
    ensures
        final(evidence).deep_view() == with_attempts(
            old(evidence).deep_view(),
            attempts.deep_view(),
            role,
        ),
{
    let ghost start = evidence.deep_view();
    let ghost all = attempts.deep_view();
    let mut i: usize = 0;
    assert(evidence.deep_view() =~= with_attempts(start, all.take(0), role));
    while i < attempts.len()
        invariant
            i <= attempts.len(),
            all == attempts.deep_view(),
            evidence.deep_view() == with_attempts(start, all.take(i as int), role),
        decreases attempts.len() - i,
    {
        assert(all[i as int] == attempts@[i as int].deep_view());
        observation::push_evidence(evidence, observation::attempt_evidence(&attempts[i], role));
        i += 1;
        assert(evidence.deep_view() =~= with_attempts(start, all.take(i as int), role));
    }
    assert(all.take(i as int) =~= all);
}

fn add_primary_series_evidence(evidence: &mut Vec<Evidence>, series: &Vec<Attempt>)
    ensures
        final(evidence).deep_view() == old(evidence).deep_view() + primary_series_evidence(
            series.deep_view(),
        ),
{
    let ghost start = evidence.deep_view();
    let ghost all = series.deep_view();
    let mut i: usize = 0;
    assert(evidence.deep_view() =~= start + primary_series_evidence(all).take(0));
    while i < series.len()
        invariant
            i <= series.len(),
            all == series.deep_view(),
            evidence.deep_view() == start + primary_series_evidence(all).take(i as int),
        decreases series.len() - i,
    {
        assert(all[i as int] == series@[i as int].deep_view());
        let role = if i == 0 {
            EvidenceRole::PrimaryDecision
        } else {
            EvidenceRole::AnomalyHistory
        };
        observation::push_evidence(evidence, observation::attempt_evidence(&series[i], role));
        i += 1;
        assert(evidence.deep_view() =~= start + primary_series_evidence(all).take(i as int));
    }
    assert(primary_series_evidence(all).take(i as int) =~= primary_series_evidence(all));
}

/// What a series of attempts shows as a whole.
struct SeriesSurvey {
    reply: bool,
    result: bool,
    inconclusive: bool,
    answer: bool,
}

fn survey(attempts: &Vec<Attempt>) -> (seen: SeriesSurvey)
    ensures
        seen.reply == some_reply(attempts.deep_view()),
        seen.result == some_icmp_result(attempts.deep_view()),
        seen.inconclusive == some_inconclusive(attempts.deep_view()),
        seen.answer == some_answer_by_subject(attempts.deep_view()),
{
    let ghost all = attempts.deep_view();
    let mut seen = SeriesSurvey { reply: false, result: false, inconclusive: false, answer: false };
    let mut i: usize = 0;
    while i < attempts.len()
        invariant
            i <= attempts.len(),
            all == attempts.deep_view(),
            forall|j: int| 0 <= j < all.len() ==> all[j] == (#[trigger] attempts@[j]).deep_view(),
            seen.reply == (exists|j: int|
                0 <= j < i && observation::echo_replied(#[trigger] all[j])),
            seen.result == (exists|j: int|
                0 <= j < i && observation::icmp_result(#[trigger] all[j])),
            seen.inconclusive == (exists|j: int|
                0 <= j < i && observation::inconclusive(#[trigger] all[j])),
            seen.answer == (exists|j: int|
                0 <= j < i && observation::answered_by_subject(#[trigger] all[j])),
        decreases attempts.len() - i,
    {
        let attempt = &attempts[i];
        if observation::is_icmp_echo_reply(attempt) {
            seen.reply = true;
        }
        if observation::is_non_timeout_icmp_result(attempt) {
            seen.result = true;
        }
        if observation::is_indeterminate_icmp_message(attempt) {
            seen.inconclusive = true;
        }
        if observation::is_matching_icmp_message(attempt) {
            seen.answer = true;
        }
        i += 1;
    }
    seen
}

fn no_conclusions() -> (result: Vec<Conclusion>)
    ensures
        result.deep_view() == Seq::<Conclusion>::empty(),
{
    let result: Vec<Conclusion> = Vec::new();
    assert(result.deep_view() =~= Seq::<Conclusion>::empty());
    result
}

fn one_conclusion(conclusion: Conclusion) -> (result: Vec<Conclusion>)
    ensures
        result.deep_view() == seq![conclusion],
{
    let mut result: Vec<Conclusion> = Vec::new();
    result.push(conclusion);
    assert(result.deep_view() =~= seq![conclusion]);
    result
}

impl TargetMachine {
    /// Begins the diagnosis of a prepared target.
    pub fn start(
        prepared: PreparedTarget,
        port: Option<NonZeroU16>,
        semantic_ordinal: usize,
    ) -> (result: TargetProgress)
        requires
            has_target_ids(semantic_ordinal),
        ensures
            result.deep_view() == started(
                prepared.deep_view(),
                match port {
                    Some(port) => Some(port.number()),
                    None => None,
                },
                semantic_ordinal,
            ),
            result.deep_view().valid(),
    {
        let base_id = base_of(semantic_ordinal);
        let port: Option<u16> = match port {
            Some(port) => Some(port.get()),
            None => None,
        };
        let hopeless = prepared.path.initial_path.status
            == crate::path::InitialPathStatus::DefinitiveNoPath;
        let subject = EvidenceSubject::Target(prepared.path.target.clone());
        let role = if hopeless {
            EvidenceRole::PrimaryDecision
        } else {
            EvidenceRole::Context
        };
        let evidence = observation::collect_path_evidence(
            base_id,
            &subject,
            role,
            &prepared.path.initial_path,
            &prepared.path.current_path,
            "current targeted path lookup",
        );
        let facts = prepared.path.network_facts();
        let attempts: Vec<Attempt> = Vec::new();
        let series: Vec<Attempt> = Vec::new();
        assert(attempts.deep_view() =~= Seq::<AttemptView>::empty());
        assert(series.deep_view() =~= Seq::<AttemptView>::empty());
        let machine = TargetMachine {
            prepared,
            port,
            base_id,
            next_id: base_id + 10,
            facts,
            attempts,
            series,
            evidence,
            conclusions: no_conclusions(),
            stage: TargetStage::TargetEcho,
            hop: 0,
            several_responders: false,
        };
        if hopeless {
            machine.finish(
                PrimaryOutcome::NotSatisfied,
                Conclusion::DefinitiveNoPath,
                no_conclusions(),
            )
        } else if machine.port.is_some() {
            machine.request_connect(TargetStage::FirstConnect)
        } else {
            machine.request_target_echo(TargetStage::TargetEcho)
        }
    }

    fn finish(
        self,
        outcome: PrimaryOutcome,
        conclusion: Conclusion,
        diagnostic_conclusions: Vec<Conclusion>,
    ) -> (result: TargetProgress)
        ensures
            result.deep_view() == self.deep_view().finished(
                outcome,
                conclusion,
                diagnostic_conclusions.deep_view(),
            ),
    {
        let diagnostic = TargetDiagnostic::new(
            self.prepared.path.target,
            self.prepared.resolver_ordinal,
            outcome,
            conclusion,
            self.facts,
            self.attempts,
            self.evidence,
        );
        TargetProgress::Finished(
            diagnostic.with_diagnostic_conclusions(diagnostic_conclusions),
        )
    }

    fn finish_exhausted(self) -> (result: TargetProgress)
        ensures
            result.deep_view() == self.deep_view().exhausted(),
    {
        let mut machine = self;
        let mut conclusions = no_conclusions();
        std::mem::swap(&mut conclusions, &mut machine.conclusions);
        if machine.port.is_some() {
            machine.finish(
                PrimaryOutcome::NotSatisfied,
                Conclusion::TcpConnectTimedOut,
                conclusions,
            )
        } else {
            machine.finish(
                PrimaryOutcome::Indeterminate,
                Conclusion::IcmpEchoTimedOut,
                conclusions,
            )
        }
    }

    fn spend(&mut self) -> (id: u64)
        requires
            old(self).deep_view().next_id < u64::MAX,
        ensures
            id == old(self).deep_view().next_id,
            final(self).deep_view() == old(self).deep_view().spent(),
    {
        let id = self.next_id;
        self.next_id = self.next_id + 1;
        id
    }

    fn request_connect(self, stage: TargetStage) -> (result: TargetProgress)
        requires
            self.deep_view().next_id < u64::MAX,
            self.deep_view().tcp(),
        ensures
            result.deep_view() == self.deep_view().ask_connect(stage),
    {
        let mut machine = self;
        let id = machine.spend();
        machine.stage = stage;
        let port = match machine.port {
            Some(port) => port,
            None => 0,
        };
        let action = TargetAction::TcpConnect(
            TcpOperation {
                attempt_id: AttemptId(id),
                target: machine.prepared.path.target.clone(),
                port,
                budget: millis(TCP_CONNECT_BUDGET),
            },
        );
        TargetProgress::Pending { machine, action }
    }

    fn request_target_echo(self, stage: TargetStage) -> (result: TargetProgress)
        requires
            self.deep_view().next_id < u64::MAX,
        ensures
            result.deep_view() == self.deep_view().ask_target_echo(stage),
    {
        let mut machine = self;
        let id = machine.spend();
        machine.stage = stage;
        let action = TargetAction::IcmpEcho(
            IcmpOperation {
                attempt_id: AttemptId(id),
                subject: IcmpEchoSubject::Target(machine.prepared.path.target.clone()),
                budget: millis(TARGET_ICMP_BUDGET),
            },
        );
        TargetProgress::Pending { machine, action }
    }

    fn request_next_hop_echo(self, stage: TargetStage) -> (result: TargetProgress)
        requires
            self.deep_view().next_id < u64::MAX,
            self.deep_view().dependency() is Known,
        ensures
            result.deep_view() == self.deep_view().ask_next_hop_echo(stage),
    {
        let mut machine = self;
        let id = machine.spend();
        machine.stage = stage;
        let subject = match &machine.prepared.path.neighbor_dependency {
            NeighborDependency::Known(identity) => IcmpEchoSubject::NextHop(identity.clone()),
            _ => IcmpEchoSubject::Target(machine.prepared.path.target.clone()),
        };
        let action = TargetAction::IcmpEcho(
            IcmpOperation {
                attempt_id: AttemptId(id),
                subject,
                budget: millis(NEXT_HOP_ICMP_BUDGET),
            },
        );
        TargetProgress::Pending { machine, action }
    }

    fn request_path(self, stage: TargetStage) -> (result: TargetProgress)
        requires
            self.deep_view().next_id < u64::MAX,
        ensures
            result.deep_view() == self.deep_view().ask_path(stage),
    {
        let mut machine = self;
        let id = machine.spend();
        machine.stage = stage;
        let operation = PathOperation {
            attempt_id: AttemptId(id),
            target: machine.prepared.path.target.clone(),
            port: machine.port,
            hop_limit: machine.hop,
            budget: millis(PATH_ATTEMPT_BUDGET),
        };
        let action = if machine.port.is_some() {
            TargetAction::TcpPath(operation)
        } else {
            TargetAction::IcmpPath(operation)
        };
        TargetProgress::Pending { machine, action }
    }

    fn record(&mut self, attempt: Attempt, role: EvidenceRole)
        ensures
            final(self).deep_view() == old(self).deep_view().with_attempt(
                attempt.deep_view(),
                role,
            ),
    {
        observation::push_evidence(
            &mut self.evidence,
            observation::attempt_evidence(&attempt, role),
        );
        observation::push_attempt(&mut self.attempts, attempt);
    }

    fn on_connect(self, attempt: Attempt) -> (result: TargetProgress)
        requires
            self.deep_view().valid(),
            self.deep_view().stage == TargetStage::FirstConnect || self.deep_view().stage
                == TargetStage::SecondConnect,
        ensures
            result.deep_view() == self.deep_view().after_connect(attempt.deep_view()),
    {
        let first = self.stage == TargetStage::FirstConnect;
        let mut machine = self;
        let outcome = attempt.outcome.clone();
        let role = if first {
            EvidenceRole::PrimaryDecision
        } else {
            EvidenceRole::AnomalyHistory
        };
        machine.record(attempt, role);
        let AttemptOutcome::Tcp(outcome) = outcome else {
            return TargetProgress::Failed(observation::wrong_tcp_outcome_error());
        };
        match outcome {
            TcpAttemptResult::Connected { .. } => if first {
                machine.finish(
                    PrimaryOutcome::Satisfied,
                    Conclusion::TcpConnectSucceeded,
                    no_conclusions(),
                )
            } else {
                machine.finish(
                    PrimaryOutcome::SatisfiedWithAnomaly,
                    Conclusion::TcpConnectSucceededAfterTimeout,
                    no_conclusions(),
                )
            },
            TcpAttemptResult::ResourceExhausted => TargetProgress::Failed(
                observation::resource_exhausted_error(),
            ),
            TcpAttemptResult::Timeout => if first {
                machine.request_connect(TargetStage::SecondConnect)
            } else {
                machine.request_target_echo(TargetStage::TargetEcho)
            },
            TcpAttemptResult::ConnectionRefused => machine.finish(
                PrimaryOutcome::NotSatisfied,
                Conclusion::TcpConnectionRefused,
                no_conclusions(),
            ),
            other => {
                let id = machine.next_id;
                observation::add_tcp_path_comparison(
                    &other,
                    &machine.prepared.path.initial_path,
                    &mut machine.evidence,
                    id,
                );
                machine.finish(
                    PrimaryOutcome::NotSatisfied,
                    Conclusion::TcpExplicitFailure,
                    no_conclusions(),
                )
            },
        }
    }

    fn on_echo(self, attempt: Attempt) -> (result: TargetProgress)
        requires
            self.deep_view().valid(),
            self.deep_view().stage == TargetStage::TargetEcho || self.deep_view().stage
                == TargetStage::TargetEchoRetry || self.deep_view().stage
                == TargetStage::NextHopEcho || self.deep_view().stage
                == TargetStage::NextHopEchoRetry,
        ensures
            result.deep_view() == self.deep_view().after_echo(attempt.deep_view()),
    {
        if !observation::is_icmp_attempt(&attempt) {
            return TargetProgress::Failed(observation::wrong_icmp_outcome_error());
        }
        let retry = observation::is_attempt_timeout(&attempt);
        let mut machine = self;
        observation::push_attempt(&mut machine.series, attempt);
        match machine.stage {
            TargetStage::TargetEcho => if retry {
                machine.request_target_echo(TargetStage::TargetEchoRetry)
            } else {
                machine.on_target_series()
            },
            TargetStage::TargetEchoRetry => machine.on_target_series(),
            TargetStage::NextHopEcho => if retry {
                machine.request_next_hop_echo(TargetStage::NextHopEchoRetry)
            } else {
                machine.on_next_hop_series()
            },
            _ => machine.on_next_hop_series(),
        }
    }

    fn on_target_series(self) -> (result: TargetProgress)
        requires
            self.deep_view().next_id < u64::MAX - 20,
            self.deep_view().series.len() > 0,
        ensures
            result.deep_view() == self.deep_view().after_target_series(),
    {
        let mut machine = self;
        let seen = survey(&machine.series);
        if machine.port.is_some() {
            add_attempts_evidence(
                &mut machine.evidence,
                &machine.series,
                EvidenceRole::BoundaryNarrowing,
            );
            extend_attempts(&mut machine.attempts, &mut machine.series);
            if seen.reply {
                return machine.finish(
                    PrimaryOutcome::NotSatisfied,
                    Conclusion::TcpTimedOutButTargetIcmpResponded,
                    no_conclusions(),
                );
            }
            if survey(&machine.attempts).result {
                return machine.finish(
                    PrimaryOutcome::NotSatisfied,
                    Conclusion::TcpTimedOutWithExplicitIcmpResult,
                    no_conclusions(),
                );
            }
            machine.request_neighbor()
        } else {
            let first_replied = observation::is_icmp_echo_reply(&machine.series[0]);
            let second_replied = machine.series.len() > 1 && observation::is_icmp_echo_reply(
                &machine.series[1],
            );
            add_primary_series_evidence(&mut machine.evidence, &machine.series);
            extend_attempts(&mut machine.attempts, &mut machine.series);
            if first_replied {
                return machine.finish(
                    PrimaryOutcome::Satisfied,
                    Conclusion::IcmpEchoReplied,
                    no_conclusions(),
                );
            }
            if second_replied {
                return machine.finish(
                    PrimaryOutcome::SatisfiedWithAnomaly,
                    Conclusion::IcmpEchoRepliedAfterTimeout,
                    no_conclusions(),
                );
            }
            if seen.inconclusive {
                return machine.finish(
                    PrimaryOutcome::Indeterminate,
                    Conclusion::IcmpResponseIndeterminate,
                    no_conclusions(),
                );
            }
            if seen.result {
                return machine.finish(
                    PrimaryOutcome::NotSatisfied,
                    Conclusion::IcmpExplicitFailure,
                    no_conclusions(),
                );
            }
            machine.request_neighbor()
        }
    }

    fn request_neighbor(self) -> (result: TargetProgress)
        requires
            self.deep_view().next_id < u64::MAX - 20,
        ensures
            result.deep_view() == self.deep_view().read_neighbor(),
    {
        let mut machine = self;
        let known = match &machine.prepared.path.neighbor_dependency {
            NeighborDependency::Known(identity) => Some(identity.clone()),
            _ => None,
        };
        match known {
            Some(identity) => {
                machine.stage = TargetStage::NeighborRead;
                TargetProgress::Pending { machine, action: TargetAction::ReadNeighbor(identity) }
            },
            None => machine.on_neighbor(None),
        }
    }

    fn on_neighbor_read(self, observed: CapabilityValue<NeighborFact>) -> (result: TargetProgress)
        requires
            self.deep_view().valid(),
            self.deep_view().stage == TargetStage::NeighborRead || self.deep_view().stage
                == TargetStage::NeighborConvergence,
        ensures
            result.deep_view() == self.deep_view().after_neighbor_read(observed.deep_view()),
    {
        let state = observation::capability_neighbor_state(&observed);
        let mut machine = self;
        let resolving = match state {
            Some(NeighborState::Resolving) => true,
            _ => false,
        };
        if machine.stage == TargetStage::NeighborRead && resolving {
            machine.stage = TargetStage::NeighborConvergence;
            if let NeighborDependency::Known(identity) = &machine.prepared.path.neighbor_dependency {
                let identity = identity.clone();
                return TargetProgress::Pending {
                    machine,
                    action: TargetAction::AwaitNeighbor(identity),
                };
            }
        }
        machine.facts.neighbor_post_state = Some(observed);
        machine.on_neighbor(state)
    }

    fn add_neighbor(&mut self)
        requires
            old(self).deep_view().next_id < u64::MAX,
        ensures
            final(self).deep_view() == old(self).deep_view().with_neighbor(),
    {
        let id = self.spend();
        observation::add_neighbor_evidence(&self.facts, &mut self.evidence, id);
    }

    fn add_limitation(&mut self, item: Option<Evidence>)
        requires
            old(self).deep_view().next_id < u64::MAX,
        ensures
            final(self).deep_view() == old(self).deep_view().with_limitation(item.deep_view()),
    {
        self.spend();
        if let Some(item) = item {
            observation::push_evidence(&mut self.evidence, item);
            observation::push_conclusion(&mut self.conclusions, Conclusion::CapabilityLimited);
        }
    }

    #[verifier::spinoff_prover]
    fn on_neighbor(self, state: Option<NeighborState>) -> (result: TargetProgress)
        requires
            self.deep_view().next_id < u64::MAX - 20,
        ensures
            result.deep_view() == self.deep_view().after_neighbor(state),
    {
        let mut machine = self;
        match state {
            Some(NeighborState::TerminalFailure) => {
                machine.add_neighbor();
                return machine.finish(
                    PrimaryOutcome::NotSatisfied,
                    Conclusion::NeighborResolutionFailed,
                    no_conclusions(),
                );
            },
            Some(NeighborState::Resolving) => {
                machine.add_neighbor();
                let outcome = if machine.port.is_some() {
                    PrimaryOutcome::NotSatisfied
                } else {
                    PrimaryOutcome::Indeterminate
                };
                return machine.finish(
                    outcome,
                    Conclusion::NeighborResolutionIndeterminate,
                    no_conclusions(),
                );
            },
            Some(NeighborState::Unknown) => {
                machine.add_neighbor();
                observation::push_conclusion(
                    &mut machine.conclusions,
                    Conclusion::NeighborResolutionIndeterminate,
                );
                machine.on_beyond_neighbor(false)
            },
            Some(NeighborState::Usable) => machine.on_beyond_neighbor(true),
            _ => machine.on_beyond_neighbor(false),
        }
    }

    fn add_neighbor_limitations(&mut self)
        requires
            old(self).deep_view().next_id < u64::MAX - 10,
        ensures
            final(self).deep_view() == old(self).deep_view().with_neighbor_limitations(),
    {
        let subject = EvidenceSubject::Target(self.prepared.path.target.clone());
        let unobserved = observation::find_observation_limitation(
            &self.prepared.path.neighbor_dependency,
            &self.facts.neighbor_post_state,
            &subject,
            "post-failure Neighbor observation",
            self.next_id,
        );
        self.add_limitation(unobserved);
        let unknown = observation::find_dependency_limitation(
            &self.prepared.path.neighbor_dependency,
            &subject,
            "neighbor and deeper path diagnosis",
            self.next_id,
        );
        self.add_limitation(unknown);
    }

    fn on_beyond_neighbor(self, usable: bool) -> (result: TargetProgress)
        requires
            self.deep_view().next_id < u64::MAX - 10,
        ensures
            result.deep_view() == self.deep_view().beyond_neighbor(usable),
    {
        let mut machine = self;
        machine.add_neighbor_limitations();
        let remote = match observation::current_relation(&machine.facts.current_path) {
            Some(PathRelation::Remote) => true,
            _ => false,
        };
        let known = match &machine.prepared.path.neighbor_dependency {
            NeighborDependency::Known(_) => true,
            _ => false,
        };
        if usable && remote && known {
            machine.request_next_hop_echo(TargetStage::NextHopEcho)
        } else {
            machine.finish_exhausted()
        }
    }

    fn on_next_hop_series(self) -> (result: TargetProgress)
        requires
            self.deep_view().next_id < u64::MAX,
        ensures
            result.deep_view() == self.deep_view().after_next_hop_series(),
    {
        let mut machine = self;
        let seen = survey(&machine.series);
        add_attempts_evidence(
            &mut machine.evidence,
            &machine.series,
            EvidenceRole::BoundaryNarrowing,
        );
        extend_attempts(&mut machine.attempts, &mut machine.series);
        if seen.answer {
            observation::push_conclusion(
                &mut machine.conclusions,
                Conclusion::FirstHopResponded,
            );
            machine.hop = 1;
            machine.several_responders = false;
            machine.request_path(TargetStage::PathFirst)
        } else {
            machine.finish_exhausted()
        }
    }

    fn finish_path(self, terminal: Conclusion) -> (result: TargetProgress)
        ensures
            result.deep_view() == self.deep_view().end_path(terminal),
    {
        let mut machine = self;
        observation::push_path_conclusions(
            &mut machine.conclusions,
            machine.several_responders,
            terminal,
        );
        machine.finish_exhausted()
    }

    fn narrow_last(&mut self)
        requires
            old(self).deep_view().evidence.len() > 0,
        ensures
            final(self).deep_view() == old(self).deep_view().with_last_narrowing(),
    {
        let ghost before = self.evidence.deep_view();
        assert(before.len() == self.evidence@.len());
        if let Some(last) = self.evidence.pop() {
            assert(self.evidence.deep_view() =~= before.drop_last());
            assert(last.deep_view() == before.last());
            observation::push_evidence(
                &mut self.evidence,
                Evidence {
                    id: last.id,
                    subject: last.subject,
                    role: EvidenceRole::BoundaryNarrowing,
                    fact: last.fact,
                },
            );
        }
    }

    fn on_path_limitation(self, reason: CapabilityReason) -> (result: TargetProgress)
        requires
            self.deep_view().next_id > 0,
        ensures
            result.deep_view() == self.deep_view().after_path_limitation(reason.deep_view()),
    {
        let mut machine = self;
        let id: u64 = machine.next_id - 1;
        observation::push_evidence(
            &mut machine.evidence,
            observation::limitation_evidence(
                id,
                EvidenceSubject::Run,
                "TTL/Hop-Limit path response correlation",
                reason,
            ),
        );
        machine.finish_path(Conclusion::CapabilityLimited)
    }

    fn on_path(self, answer: CapabilityValue<Attempt>) -> (result: TargetProgress)
        requires
            self.deep_view().valid(),
            self.deep_view().stage == TargetStage::PathFirst || self.deep_view().stage
                == TargetStage::PathSecond,
        ensures
            result.deep_view() == self.deep_view().after_path(answer.deep_view()),
    {
        match answer {
            CapabilityValue::Available { value, .. } => {
                let acceptable = match &value.outcome {
                    AttemptOutcome::Tcp(TcpAttemptResult::ResourceExhausted) => {
                        return TargetProgress::Failed(observation::resource_exhausted_error());
                    },
                    AttemptOutcome::Tcp(_) => self.port.is_some(),
                    AttemptOutcome::Icmp(_) => true,
                    AttemptOutcome::Dns(_) => false,
                };
                if !acceptable {
                    return TargetProgress::Failed(
                        DiagnosticIoError::new(
                            DiagnosticIoErrorKind::Internal,
                            "platform adapter returned the wrong outcome type for a path Attempt",
                        ),
                    );
                }
                self.on_path_attempt(value)
            },
            CapabilityValue::Unknown { reason, .. } => self.on_path_limitation(reason),
            CapabilityValue::Unavailable { reason, .. } => self.on_path_limitation(reason),
        }
    }

    #[verifier::spinoff_prover]
    fn on_path_attempt(self, attempt: Attempt) -> (result: TargetProgress)
        requires
            self.deep_view().valid(),
            self.deep_view().stage == TargetStage::PathFirst || self.deep_view().stage
                == TargetStage::PathSecond,
        ensures
            result.deep_view() == self.deep_view().after_path_attempt(attempt.deep_view()),
    {
        let mut machine = self;
        let disposition = observation::path_attempt_disposition(
            &attempt,
            &machine.prepared.path.target,
        );
        let several = observation::has_multiple_path_responders(&attempt);
        let role = if several && !machine.several_responders {
            EvidenceRole::BoundaryNarrowing
        } else {
            EvidenceRole::Context
        };
        machine.record(attempt, role);
        machine.several_responders = machine.several_responders || several;
        match disposition {
            PathAttemptDisposition::Endpoint => {
                machine.narrow_last();
                machine.finish_path(Conclusion::PathEndpointResponded)
            },
            PathAttemptDisposition::ExplicitTermination => {
                machine.narrow_last();
                machine.finish_path(Conclusion::PathExplicitlyTerminated)
            },
            PathAttemptDisposition::Indeterminate => {
                machine.narrow_last();
                machine.finish_path(Conclusion::PathResponseIndeterminate)
            },
            PathAttemptDisposition::Timeout => if machine.stage == TargetStage::PathFirst {
                machine.request_path(TargetStage::PathSecond)
            } else {
                machine.advance_hop()
            },
            PathAttemptDisposition::Advance => machine.advance_hop(),
        }
    }

    fn advance_hop(self) -> (result: TargetProgress)
        requires
            self.deep_view().next_id < u64::MAX,
            self.deep_view().evidence.len() > 0,
        ensures
            result.deep_view() == self.deep_view().next_hop(),
    {
        let mut machine = self;
        if machine.hop < MAX_PATH_HOP_LIMIT {
            machine.hop = machine.hop + 1;
            machine.request_path(TargetStage::PathFirst)
        } else {
            machine.narrow_last();
            machine.finish_path(Conclusion::PathLimitReachedWithoutEndpointEvidence)
        }
    }

    fn add_io_limitation(&mut self, capability: &str, error: DiagnosticIoError)
        requires
            old(self).deep_view().next_id < u64::MAX,
        ensures
            final(self).deep_view() == old(self).deep_view().with_io_limitation(
                capability@,
                error.deep_view(),
            ),
    {
        let id = self.spend();
        let subject = EvidenceSubject::Target(self.prepared.path.target.clone());
        observation::push_evidence(
            &mut self.evidence,
            observation::limitation_evidence(
                id,
                subject,
                capability,
                CapabilityReason::Other(error.safe_message),
            ),
        );
    }

    fn on_failure(self, error: DiagnosticIoError) -> (result: TargetProgress)
        requires
            self.deep_view().valid(),
        ensures
            result.deep_view() == self.deep_view().after_failure(error.deep_view()),
    {
        let missing = error.kind == DiagnosticIoErrorKind::RequiredCapabilityUnavailable;
        let mut machine = self;
        match machine.stage {
            TargetStage::TargetEcho | TargetStage::TargetEchoRetry => {
                if missing && machine.port.is_some() {
                    machine.add_io_limitation("target ICMP failure diagnosis", error);
                    machine.finish(
                        PrimaryOutcome::NotSatisfied,
                        Conclusion::TcpConnectTimedOut,
                        one_conclusion(Conclusion::CapabilityLimited),
                    )
                } else {
                    TargetProgress::Failed(error)
                }
            },
            TargetStage::NextHopEcho | TargetStage::NextHopEchoRetry => {
                if missing {
                    machine.add_io_limitation("next-hop ICMP diagnosis", error);
                    observation::push_conclusion(
                        &mut machine.conclusions,
                        Conclusion::CapabilityLimited,
                    );
                    machine.finish_exhausted()
                } else {
                    TargetProgress::Failed(error)
                }
            },
            _ => TargetProgress::Failed(error),
        }
    }

    /// Takes the result of the operation that was asked for, and says what comes next.
    pub fn advance(self, event: TargetEvent) -> (result: TargetProgress)
        requires
            self.deep_view().valid(),
        ensures
            result.deep_view() == self.deep_view().next(event.deep_view()),
            result.deep_view().valid(),
    {
        proof {
            target_laws::further_operations_are_permitted(self.deep_view(), event.deep_view());
        }
        match event {
            TargetEvent::Failed(error) => self.on_failure(error),
            TargetEvent::Attempted(attempt) => match self.stage {
                TargetStage::FirstConnect | TargetStage::SecondConnect => self.on_connect(attempt),
                TargetStage::TargetEcho
                | TargetStage::TargetEchoRetry
                | TargetStage::NextHopEcho
                | TargetStage::NextHopEchoRetry => self.on_echo(attempt),
                _ => TargetProgress::Failed(unexpected_event_error()),
            },
            TargetEvent::NeighborObserved(observed) => match self.stage {
                TargetStage::NeighborRead | TargetStage::NeighborConvergence => {
                    self.on_neighbor_read(observed)
                },
                _ => TargetProgress::Failed(unexpected_event_error()),
            },
            TargetEvent::PathAttempted(answer) => match self.stage {
                TargetStage::PathFirst | TargetStage::PathSecond => self.on_path(answer),
                _ => TargetProgress::Failed(unexpected_event_error()),
            },
        }
    }
}

} // verus!
