//! A whole run: from the snapshot to the result.

use vstd::prelude::*;

use crate::capability::{CapabilityValue, CapabilityValueView};
use crate::engine::observation;
use crate::engine::preparation::{self, PreparedPath, PreparedPathView};
use crate::engine::resolver::{self, PreparedResolver, PreparedResolverView};
use crate::engine::target::{self, PreparedTarget, PreparedTargetView};
use crate::formation;
use crate::input::{
    BoundAddressInput, BoundAddressInputView, Hostname, HostnameView, ParsedRequest,
    ParsedRequestView,
};
use crate::io::{DiagnosticIoError, DiagnosticIoErrorKind, DiagnosticIoErrorView};
use crate::model::{
    FormalTarget, FormalTargetView, InitialNetworkSnapshot, InitialNetworkSnapshotView,
    NeighborFact, NeighborFactView, NeighborIdentity, NeighborIdentityView, OperationPathContext,
    OperationPathContextView, ResolverEndpoint, ResolverEndpointView, SystemResolverFailureKind,
    SystemResolverObservation, SystemResolverObservationView, SystemResolverResult,
    SystemResolverResultView, TargetIp, TargetIpView,
};
use crate::number::NonZeroU16;
use crate::result::{
    self, Cancelled, CancelledView, CompletedDiagnostic, DiagnosticResult, DiagnosticResultView,
    Evidence, EvidenceView, ExecutionError, ExecutionErrorKind, ExecutionErrorView,
    HostnameResolutionOutcome, HostnameResolutionOutcomeView, ResolverDependencyDiagnostic,
    ResolverDependencyDiagnosticView, TargetDiagnostic, TargetDiagnosticView,
};

verus! {

/// What a run has found out before its targets are diagnosed.
#[derive(Debug, Eq, PartialEq)]
pub struct RunContext {
    pub request: ParsedRequest,
    pub snapshot: InitialNetworkSnapshot,
    pub system_resolver: Option<SystemResolverObservation>,
    pub hostname_resolution: HostnameResolutionOutcome,
    pub resolver_diagnostics: Vec<ResolverDependencyDiagnostic>,
    pub evidence: Vec<Evidence>,
}

/// The contents of a [`RunContext`].
#[verifier::ext_equal]
pub struct RunContextView {
    pub request: ParsedRequestView,
    pub snapshot: InitialNetworkSnapshotView,
    pub system_resolver: Option<SystemResolverObservationView>,
    pub hostname_resolution: HostnameResolutionOutcomeView,
    pub resolver_diagnostics: Seq<ResolverDependencyDiagnosticView>,
    pub evidence: Seq<EvidenceView>,
}

impl DeepView for RunContext {
    type V = RunContextView;

    open spec fn deep_view(&self) -> RunContextView {
        RunContextView {
            request: self.request.deep_view(),
            snapshot: self.snapshot.deep_view(),
            system_resolver: self.system_resolver.deep_view(),
            hostname_resolution: self.hostname_resolution.deep_view(),
            resolver_diagnostics: self.resolver_diagnostics.deep_view(),
            evidence: self.evidence.deep_view(),
        }
    }
}

impl Clone for RunContext {
    fn clone(&self) -> (copy: Self)
        ensures
            copy.deep_view() == self.deep_view(),
    {
        let copy = RunContext {
            request: self.request.clone(),
            snapshot: self.snapshot.clone(),
            system_resolver: self.system_resolver.clone(),
            hostname_resolution: self.hostname_resolution.clone(),
            resolver_diagnostics: self.resolver_diagnostics.clone(),
            evidence: self.evidence.clone(),
        };
        assert(copy.resolver_diagnostics.deep_view() =~= self.resolver_diagnostics.deep_view());
        assert(copy.evidence.deep_view() =~= self.evidence.deep_view());
        copy
    }
}

/// The preparation of several paths. All paths are asked for first; then every neighbor that any
/// of them depends on is read once. Nothing is sent along a path before all of that is done.
#[derive(Debug, Eq, PartialEq)]
pub struct Preparation {
    pub targets: Vec<TargetIp>,
    pub prepared: Vec<PreparedPath>,
    pub identities: Vec<NeighborIdentity>,
    pub states: Vec<CapabilityValue<NeighborFact>>,
}

/// The contents of a [`Preparation`].
#[verifier::ext_equal]
pub struct PreparationView {
    pub targets: Seq<TargetIpView>,
    pub prepared: Seq<PreparedPathView>,
    pub identities: Seq<NeighborIdentityView>,
    pub states: Seq<CapabilityValueView<NeighborFactView>>,
}

impl DeepView for Preparation {
    type V = PreparationView;

    open spec fn deep_view(&self) -> PreparationView {
        PreparationView {
            targets: self.targets.deep_view(),
            prepared: self.prepared.deep_view(),
            identities: self.identities.deep_view(),
            states: self.states.deep_view(),
        }
    }
}

impl Clone for Preparation {
    fn clone(&self) -> (copy: Self)
        ensures
            copy.deep_view() == self.deep_view(),
    {
        let copy = Preparation {
            targets: self.targets.clone(),
            prepared: self.prepared.clone(),
            identities: self.identities.clone(),
            states: self.states.clone(),
        };
        assert(copy.targets.deep_view() =~= self.targets.deep_view());
        assert(copy.prepared.deep_view() =~= self.prepared.deep_view());
        assert(copy.identities.deep_view() =~= self.identities.deep_view());
        assert(copy.states.deep_view() =~= self.states.deep_view());
        copy
    }
}

/// What the preparation of paths needs next.
#[derive(Debug, Eq, PartialEq)]
pub enum PreparationStep {
    Query { preparation: Preparation, target: TargetIp },
    Read { preparation: Preparation, identity: NeighborIdentity },
    Ready(Vec<PreparedPath>),
    Interrupted,
}

/// The contents of a [`PreparationStep`].
#[verifier::ext_equal]
pub enum PreparationStepView {
    Query { preparation: PreparationView, target: TargetIpView },
    Read { preparation: PreparationView, identity: NeighborIdentityView },
    Ready(Seq<PreparedPathView>),
    Interrupted,
}

impl DeepView for PreparationStep {
    type V = PreparationStepView;

    open spec fn deep_view(&self) -> PreparationStepView {
        match self {
            PreparationStep::Query { preparation, target } => PreparationStepView::Query {
                preparation: preparation.deep_view(),
                target: target.deep_view(),
            },
            PreparationStep::Read { preparation, identity } => PreparationStepView::Read {
                preparation: preparation.deep_view(),
                identity: identity.deep_view(),
            },
            PreparationStep::Ready(value) => PreparationStepView::Ready(value.deep_view()),
            PreparationStep::Interrupted => PreparationStepView::Interrupted,
        }
    }
}

impl Clone for PreparationStep {
    fn clone(&self) -> (copy: Self)
        ensures
            copy.deep_view() == self.deep_view(),
    {
        match self {
            PreparationStep::Query { preparation, target } => PreparationStep::Query {
                preparation: preparation.clone(),
                target: target.clone(),
            },
            PreparationStep::Read { preparation, identity } => PreparationStep::Read {
                preparation: preparation.clone(),
                identity: identity.clone(),
            },
            PreparationStep::Ready(value) => {
                let duplicate = value.clone();
                assert(duplicate.deep_view() =~= value.deep_view());
                PreparationStep::Ready(duplicate)
            },
            PreparationStep::Interrupted => PreparationStep::Interrupted,
        }
    }
}

/// A run, between two operations.
#[derive(Debug, Eq, PartialEq)]
pub enum RunMachine {
    Capturing { request: ParsedRequest },
    Resolving { request: ParsedRequest, snapshot: InitialNetworkSnapshot, hostname: Hostname },
    PreparingResolvers {
        context: RunContext,
        hostname: Hostname,
        endpoints: Vec<ResolverEndpoint>,
        preparation: Preparation,
    },
    DiagnosingResolvers { context: RunContext },
    PreparingTargets { context: RunContext, targets: Vec<FormalTarget>, preparation: Preparation },
    DiagnosingTargets { context: RunContext },
}

/// The contents of a [`RunMachine`].
#[verifier::ext_equal]
pub enum RunMachineView {
    Capturing { request: ParsedRequestView },
    Resolving {
        request: ParsedRequestView,
        snapshot: InitialNetworkSnapshotView,
        hostname: HostnameView,
    },
    PreparingResolvers {
        context: RunContextView,
        hostname: HostnameView,
        endpoints: Seq<ResolverEndpointView>,
        preparation: PreparationView,
    },
    DiagnosingResolvers { context: RunContextView },
    PreparingTargets {
        context: RunContextView,
        targets: Seq<FormalTargetView>,
        preparation: PreparationView,
    },
    DiagnosingTargets { context: RunContextView },
}

impl DeepView for RunMachine {
    type V = RunMachineView;

    open spec fn deep_view(&self) -> RunMachineView {
        match self {
            RunMachine::Capturing { request } => RunMachineView::Capturing {
                request: request.deep_view(),
            },
            RunMachine::Resolving { request, snapshot, hostname } => RunMachineView::Resolving {
                request: request.deep_view(),
                snapshot: snapshot.deep_view(),
                hostname: hostname.deep_view(),
            },
            RunMachine::PreparingResolvers { context, hostname, endpoints, preparation } => RunMachineView::PreparingResolvers {
                context: context.deep_view(),
                hostname: hostname.deep_view(),
                endpoints: endpoints.deep_view(),
                preparation: preparation.deep_view(),
            },
            RunMachine::DiagnosingResolvers { context } => RunMachineView::DiagnosingResolvers {
                context: context.deep_view(),
            },
            RunMachine::PreparingTargets { context, targets, preparation } => RunMachineView::PreparingTargets {
                context: context.deep_view(),
                targets: targets.deep_view(),
                preparation: preparation.deep_view(),
            },
            RunMachine::DiagnosingTargets { context } => RunMachineView::DiagnosingTargets {
                context: context.deep_view(),
            },
        }
    }
}

impl Clone for RunMachine {
    fn clone(&self) -> (copy: Self)
        ensures
            copy.deep_view() == self.deep_view(),
    {
        match self {
            RunMachine::Capturing { request } => RunMachine::Capturing {
                request: request.clone(),
            },
            RunMachine::Resolving { request, snapshot, hostname } => RunMachine::Resolving {
                request: request.clone(),
                snapshot: snapshot.clone(),
                hostname: hostname.clone(),
            },
            RunMachine::PreparingResolvers { context, hostname, endpoints, preparation } => {
                let endpoints_copy = endpoints.clone();
                assert(endpoints_copy.deep_view() =~= endpoints.deep_view());
                RunMachine::PreparingResolvers {
                    context: context.clone(),
                    hostname: hostname.clone(),
                    endpoints: endpoints_copy,
                    preparation: preparation.clone(),
                }
            },
            RunMachine::DiagnosingResolvers { context } => RunMachine::DiagnosingResolvers {
                context: context.clone(),
            },
            RunMachine::PreparingTargets { context, targets, preparation } => {
                let targets_copy = targets.clone();
                assert(targets_copy.deep_view() =~= targets.deep_view());
                RunMachine::PreparingTargets {
                    context: context.clone(),
                    targets: targets_copy,
                    preparation: preparation.clone(),
                }
            },
            RunMachine::DiagnosingTargets { context } => RunMachine::DiagnosingTargets {
                context: context.clone(),
            },
        }
    }
}

/// An operation that is to be carried out next. The diagnoses of several resolvers or targets run
/// side by side; their results are handed back in the order of the list.
#[derive(Debug, Eq, PartialEq)]
pub enum RunAction {
    CaptureSnapshot,
    Resolve(Hostname),
    QueryPath(TargetIp),
    ReadNeighbor(NeighborIdentity),
    DiagnoseResolvers { hostname: Hostname, resolvers: Vec<PreparedResolver> },
    DiagnoseTargets { targets: Vec<PreparedTarget>, port: Option<NonZeroU16> },
}

/// The contents of a [`RunAction`].
#[verifier::ext_equal]
pub enum RunActionView {
    CaptureSnapshot,
    Resolve(HostnameView),
    QueryPath(TargetIpView),
    ReadNeighbor(NeighborIdentityView),
    DiagnoseResolvers { hostname: HostnameView, resolvers: Seq<PreparedResolverView> },
    DiagnoseTargets { targets: Seq<PreparedTargetView>, port: Option<NonZeroU16> },
}

impl DeepView for RunAction {
    type V = RunActionView;

    open spec fn deep_view(&self) -> RunActionView {
        match self {
            RunAction::CaptureSnapshot => RunActionView::CaptureSnapshot,
            RunAction::Resolve(value) => RunActionView::Resolve(value.deep_view()),
            RunAction::QueryPath(value) => RunActionView::QueryPath(value.deep_view()),
            RunAction::ReadNeighbor(value) => RunActionView::ReadNeighbor(value.deep_view()),
            RunAction::DiagnoseResolvers { hostname, resolvers } => RunActionView::DiagnoseResolvers {
                hostname: hostname.deep_view(),
                resolvers: resolvers.deep_view(),
            },
            RunAction::DiagnoseTargets { targets, port } => RunActionView::DiagnoseTargets {
                targets: targets.deep_view(),
                port: *port,
            },
        }
    }
}

impl Clone for RunAction {
    fn clone(&self) -> (copy: Self)
        ensures
            copy.deep_view() == self.deep_view(),
    {
        match self {
            RunAction::CaptureSnapshot => RunAction::CaptureSnapshot,
            RunAction::Resolve(value) => RunAction::Resolve(value.clone()),
            RunAction::QueryPath(value) => RunAction::QueryPath(value.clone()),
            RunAction::ReadNeighbor(value) => RunAction::ReadNeighbor(value.clone()),
            RunAction::DiagnoseResolvers { hostname, resolvers } => {
                let resolvers_copy = resolvers.clone();
                assert(resolvers_copy.deep_view() =~= resolvers.deep_view());
                RunAction::DiagnoseResolvers {
                    hostname: hostname.clone(),
                    resolvers: resolvers_copy,
                }
            },
            RunAction::DiagnoseTargets { targets, port } => {
                let targets_copy = targets.clone();
                assert(targets_copy.deep_view() =~= targets.deep_view());
                RunAction::DiagnoseTargets {
                    targets: targets_copy,
                    port: *port,
                }
            },
        }
    }
}

/// What came of an operation.
#[derive(Debug, Eq, PartialEq)]
pub enum RunEvent {
    SnapshotCaptured(InitialNetworkSnapshot),
    Resolved(SystemResolverObservation),
    PathAnswered(CapabilityValue<OperationPathContext>),
    NeighborObserved(CapabilityValue<NeighborFact>),
    ResolversDiagnosed(Vec<ResolverDependencyDiagnostic>),
    TargetsDiagnosed(Vec<TargetDiagnostic>),
    Failed(DiagnosticIoError),
}

/// The contents of a [`RunEvent`].
#[verifier::ext_equal]
pub enum RunEventView {
    SnapshotCaptured(InitialNetworkSnapshotView),
    Resolved(SystemResolverObservationView),
    PathAnswered(CapabilityValueView<OperationPathContextView>),
    NeighborObserved(CapabilityValueView<NeighborFactView>),
    ResolversDiagnosed(Seq<ResolverDependencyDiagnosticView>),
    TargetsDiagnosed(Seq<TargetDiagnosticView>),
    Failed(DiagnosticIoErrorView),
}

impl DeepView for RunEvent {
    type V = RunEventView;

    open spec fn deep_view(&self) -> RunEventView {
        match self {
            RunEvent::SnapshotCaptured(value) => RunEventView::SnapshotCaptured(value.deep_view()),
            RunEvent::Resolved(value) => RunEventView::Resolved(value.deep_view()),
            RunEvent::PathAnswered(value) => RunEventView::PathAnswered(value.deep_view()),
            RunEvent::NeighborObserved(value) => RunEventView::NeighborObserved(value.deep_view()),
            RunEvent::ResolversDiagnosed(value) => RunEventView::ResolversDiagnosed(value.deep_view()),
            RunEvent::TargetsDiagnosed(value) => RunEventView::TargetsDiagnosed(value.deep_view()),
            RunEvent::Failed(value) => RunEventView::Failed(value.deep_view()),
        }
    }
}

impl Clone for RunEvent {
    fn clone(&self) -> (copy: Self)
        ensures
            copy.deep_view() == self.deep_view(),
    {
        match self {
            RunEvent::SnapshotCaptured(value) => RunEvent::SnapshotCaptured(value.clone()),
            RunEvent::Resolved(value) => RunEvent::Resolved(value.clone()),
            RunEvent::PathAnswered(value) => RunEvent::PathAnswered(value.clone()),
            RunEvent::NeighborObserved(value) => RunEvent::NeighborObserved(value.clone()),
            RunEvent::ResolversDiagnosed(value) => {
                let duplicate = value.clone();
                assert(duplicate.deep_view() =~= value.deep_view());
                RunEvent::ResolversDiagnosed(duplicate)
            },
            RunEvent::TargetsDiagnosed(value) => {
                let duplicate = value.clone();
                assert(duplicate.deep_view() =~= value.deep_view());
                RunEvent::TargetsDiagnosed(duplicate)
            },
            RunEvent::Failed(value) => RunEvent::Failed(value.clone()),
        }
    }
}

/// Where a run stands.
#[derive(Debug, Eq, PartialEq)]
pub enum RunProgress {
    Pending { machine: RunMachine, action: RunAction },
    Finished(DiagnosticResult),
}

/// The contents of a [`RunProgress`].
#[verifier::ext_equal]
pub enum RunProgressView {
    Pending { machine: RunMachineView, action: RunActionView },
    Finished(DiagnosticResultView),
}

impl DeepView for RunProgress {
    type V = RunProgressView;

    open spec fn deep_view(&self) -> RunProgressView {
        match self {
            RunProgress::Pending { machine, action } => RunProgressView::Pending {
                machine: machine.deep_view(),
                action: action.deep_view(),
            },
            RunProgress::Finished(value) => RunProgressView::Finished(value.deep_view()),
        }
    }
}

impl Clone for RunProgress {
    fn clone(&self) -> (copy: Self)
        ensures
            copy.deep_view() == self.deep_view(),
    {
        match self {
            RunProgress::Pending { machine, action } => RunProgress::Pending {
                machine: machine.clone(),
                action: action.clone(),
            },
            RunProgress::Finished(value) => RunProgress::Finished(value.clone()),
        }
    }
}

/// The result of a run that was interrupted.
pub open spec fn interrupted() -> DiagnosticResultView {
    DiagnosticResultView::Cancelled(CancelledView { safe_message: "interrupted"@ })
}

/// The result of a run that an operation stopped. Cancellation comes before any error.
pub open spec fn stopped(error: DiagnosticIoErrorView, cancelled: bool) -> DiagnosticResultView {
    if cancelled || error.kind == DiagnosticIoErrorKind::Cancelled {
        interrupted()
    } else {
        DiagnosticResultView::ExecutionError(
            ExecutionErrorView {
                kind: match error.kind {
                    DiagnosticIoErrorKind::RequiredCapabilityUnavailable => {
                        ExecutionErrorKind::RequiredCapabilityUnavailable
                    },
                    DiagnosticIoErrorKind::ResourceExhausted => {
                        ExecutionErrorKind::ResourceExhausted
                    },
                    _ => ExecutionErrorKind::InternalFailure,
                },
                safe_message: error.safe_message,
                partial_evidence: Seq::empty(),
            },
        )
    }
}

pub fn cancelled_result() -> (result: DiagnosticResult)
    ensures
        result.deep_view() == interrupted(),
{
    DiagnosticResult::Cancelled(Cancelled { safe_message: "interrupted".to_owned() })
}

fn no_evidence() -> (result: Vec<Evidence>)
    ensures
        result.deep_view() == Seq::<EvidenceView>::empty(),
{
    let result: Vec<Evidence> = Vec::new();
    assert(result.deep_view() =~= Seq::<EvidenceView>::empty());
    result
}

pub fn terminal_io_error(error: DiagnosticIoError, cancelled: bool) -> (result: DiagnosticResult)
    ensures
        result.deep_view() == stopped(error.deep_view(), cancelled),
{
    if cancelled || error.kind == DiagnosticIoErrorKind::Cancelled {
        return cancelled_result();
    }
    let kind = match error.kind {
        DiagnosticIoErrorKind::RequiredCapabilityUnavailable => {
            ExecutionErrorKind::RequiredCapabilityUnavailable
        },
        DiagnosticIoErrorKind::ResourceExhausted => ExecutionErrorKind::ResourceExhausted,
        _ => ExecutionErrorKind::InternalFailure,
    };
    DiagnosticResult::ExecutionError(
        ExecutionError {
            kind,
            safe_message: error.safe_message,
            partial_evidence: no_evidence(),
        },
    )
}

/// The preparation of paths to targets, before anything was asked.
pub open spec fn preparation_of(targets: Seq<TargetIpView>) -> PreparationView {
    PreparationView {
        targets,
        prepared: Seq::empty(),
        identities: Seq::empty(),
        states: Seq::empty(),
    }
}

impl PreparationView {
    /// Reads the neighbors that are left, or ends.
    pub open spec fn read_on(self) -> PreparationStepView {
        if self.states.len() < self.identities.len() {
            PreparationStepView::Read {
                preparation: self,
                identity: self.identities[self.states.len() as int],
            }
        } else {
            PreparationStepView::Ready(
                preparation::with_pre_states(self.prepared, self.identities, self.states),
            )
        }
    }

    /// Asks for the next path that is left, or goes on to the neighbors. A path that the snapshot
    /// rules out is not asked for.
    pub open spec fn go_on(
        self,
        snapshot: InitialNetworkSnapshotView,
        cancelled: bool,
    ) -> PreparationStepView
        decreases self.targets.len() - self.prepared.len(),
    {
        if self.prepared.len() < self.targets.len() {
            let target = self.targets[self.prepared.len() as int];
            let settled = preparation::settled_path(snapshot, target);
            if cancelled {
                PreparationStepView::Interrupted
            } else if settled.hopeless() {
                self.with_path(settled).go_on(snapshot, cancelled)
            } else {
                PreparationStepView::Query { preparation: self, target }
            }
        } else {
            PreparationView {
                identities: preparation::neighbors_of(self.prepared),
                ..self
            }.read_on()
        }
    }

    pub open spec fn with_path(self, path: PreparedPathView) -> PreparationView {
        PreparationView { prepared: self.prepared.push(path), ..self }
    }

    /// After the answer to a path query.
    pub open spec fn after_answer(
        self,
        snapshot: InitialNetworkSnapshotView,
        answer: CapabilityValueView<OperationPathContextView>,
        cancelled: bool,
    ) -> PreparationStepView {
        self.with_path(
            preparation::queried_path(
                snapshot,
                self.targets[self.prepared.len() as int],
                answer,
            ),
        ).go_on(snapshot, cancelled)
    }

    /// After a neighbor was read.
    pub open spec fn after_neighbor(
        self,
        observed: CapabilityValueView<NeighborFactView>,
    ) -> PreparationStepView {
        PreparationView { states: self.states.push(observed), ..self }.read_on()
    }

    /// Whether a path query is open.
    pub open spec fn querying(self) -> bool {
        self.prepared.len() < self.targets.len() && self.states.len() == 0
            && self.identities.len() == 0
    }

    /// Whether a neighbor read is open.
    pub open spec fn reading(self) -> bool {
        self.prepared.len() == self.targets.len() && self.states.len() < self.identities.len()
    }
}

impl PreparationStepView {
    /// Whether the preparation that goes on waits for what the step says.
    pub open spec fn valid(self, count: nat) -> bool {
        match self {
            PreparationStepView::Query { preparation, .. } => preparation.querying()
                && preparation.targets.len() == count,
            PreparationStepView::Read { preparation, .. } => preparation.reading()
                && preparation.targets.len() == count,
            PreparationStepView::Ready(paths) => paths.len() == count,
            PreparationStepView::Interrupted => true,
        }
    }
}

fn push_path(paths: &mut Vec<PreparedPath>, path: PreparedPath)
    ensures
        final(paths).deep_view() == old(paths).deep_view().push(path.deep_view()),
{
    paths.push(path);
    assert(paths.deep_view() =~= old(paths).deep_view().push(path.deep_view()));
}

impl Preparation {
    fn of_targets(targets: Vec<TargetIp>) -> (result: Preparation)
        ensures
            result.deep_view() == preparation_of(targets.deep_view()),
    {
        let prepared: Vec<PreparedPath> = Vec::new();
        let identities: Vec<NeighborIdentity> = Vec::new();
        let states: Vec<CapabilityValue<NeighborFact>> = Vec::new();
        assert(prepared.deep_view() =~= Seq::<PreparedPathView>::empty());
        assert(identities.deep_view() =~= Seq::<NeighborIdentityView>::empty());
        assert(states.deep_view() =~= Seq::<CapabilityValueView<NeighborFactView>>::empty());
        Preparation { targets, prepared, identities, states }
    }

    fn continue_reading(self) -> (result: PreparationStep)
        requires
            self.deep_view().states.len() <= self.deep_view().identities.len(),
            self.deep_view().prepared.len() == self.deep_view().targets.len(),
        ensures
            result.deep_view() == self.deep_view().read_on(),
            result.deep_view().valid(self.deep_view().targets.len()),
    {
        if self.states.len() < self.identities.len() {
            let place: usize = self.states.len();
            assert(self.identities.deep_view()[place as int]
                == self.identities@[place as int].deep_view());
            let identity = self.identities[place].clone();
            PreparationStep::Read { preparation: self, identity }
        } else {
            PreparationStep::Ready(
                preparation::attach_pre_states(&self.prepared, &self.identities, &self.states),
            )
        }
    }

    #[verifier::loop_isolation(false)]
    fn proceed(self, snapshot: &InitialNetworkSnapshot, cancelled: bool) -> (result:
        PreparationStep)
        requires
            self.deep_view().prepared.len() <= self.deep_view().targets.len(),
            self.deep_view().states.len() == 0,
            self.deep_view().identities.len() == 0,
        ensures
            result.deep_view() == self.deep_view().go_on(snapshot.deep_view(), cancelled),
            result.deep_view().valid(self.deep_view().targets.len()),
    {
        let ghost goal = self.deep_view().go_on(snapshot.deep_view(), cancelled);
        let ghost count = self.deep_view().targets.len();
        let mut preparation = self;
        while preparation.prepared.len() < preparation.targets.len()
            invariant
                preparation.deep_view().prepared.len() <= preparation.deep_view().targets.len(),
                preparation.deep_view().targets.len() == count,
                preparation.deep_view().states.len() == 0,
                preparation.deep_view().identities.len() == 0,
                preparation.deep_view().go_on(snapshot.deep_view(), cancelled) == goal,
            decreases preparation.targets.len() - preparation.prepared.len(),
        {
            if cancelled {
                return PreparationStep::Interrupted;
            }
            let place: usize = preparation.prepared.len();
            assert(preparation.targets.deep_view()[place as int]
                == preparation.targets@[place as int].deep_view());
            let target = preparation.targets[place].clone();
            match preparation::settle_path(snapshot, &target) {
                Some(path) => {
                    push_path(&mut preparation.prepared, path);
                },
                None => {
                    return PreparationStep::Query { preparation, target };
                },
            }
        }
        preparation.identities = preparation::neighbors_to_read(&preparation.prepared);
        preparation.continue_reading()
    }

    fn on_answer(
        self,
        snapshot: &InitialNetworkSnapshot,
        answer: CapabilityValue<OperationPathContext>,
        cancelled: bool,
    ) -> (result: PreparationStep)
        requires
            self.deep_view().querying(),
        ensures
            result.deep_view() == self.deep_view().after_answer(
                snapshot.deep_view(),
                answer.deep_view(),
                cancelled,
            ),
            result.deep_view().valid(self.deep_view().targets.len()),
    {
        let mut preparation = self;
        let place: usize = preparation.prepared.len();
        assert(preparation.targets.deep_view()[place as int]
            == preparation.targets@[place as int].deep_view());
        let path = preparation::path_from_answer(snapshot, &preparation.targets[place], answer);
        push_path(&mut preparation.prepared, path);
        preparation.proceed(snapshot, cancelled)
    }

    fn on_neighbor(self, observed: CapabilityValue<NeighborFact>) -> (result: PreparationStep)
        requires
            self.deep_view().reading(),
        ensures
            result.deep_view() == self.deep_view().after_neighbor(observed.deep_view()),
            result.deep_view().valid(self.deep_view().targets.len()),
    {
        let mut preparation = self;
        let ghost before = preparation.states.deep_view();
        preparation.states.push(observed);
        assert(preparation.states.deep_view() =~= before.push(observed.deep_view()));
        preparation.continue_reading()
    }
}

/// The targets that the resolver's answer leaves to check, and what the answer is called.
pub open spec fn resolution_of(result: SystemResolverResultView) -> (
    HostnameResolutionOutcomeView,
    Seq<FormalTargetView>,
) {
    match result {
        SystemResolverResultView::Succeeded(addresses) => if addresses.formal_targets.len() == 0 {
            (HostnameResolutionOutcomeView::SucceededWithoutUsableAddress, Seq::empty())
        } else {
            (HostnameResolutionOutcomeView::Succeeded(addresses), addresses.formal_targets)
        },
        SystemResolverResultView::Failed(failure) => (
            match failure.kind {
                SystemResolverFailureKind::DefinitiveNoName => {
                    HostnameResolutionOutcomeView::DefinitiveNegative {
                        platform_code: failure.platform_code,
                    }
                },
                SystemResolverFailureKind::NoUsableAddress => {
                    HostnameResolutionOutcomeView::NegativeWithoutUsableAddress {
                        platform_code: failure.platform_code,
                    }
                },
                _ => HostnameResolutionOutcomeView::NonDefinitiveFailure {
                    platform_code: failure.platform_code,
                    direct_dns_was_diagnostic_only: false,
                },
            },
            Seq::empty(),
        ),
    }
}

/// The address that a resolver is reached at.
pub open spec fn resolver_target(endpoint: ResolverEndpointView) -> TargetIpView {
    TargetIpView { address: endpoint.address, scope: endpoint.interface }
}

pub open spec fn resolver_targets(endpoints: Seq<ResolverEndpointView>) -> Seq<TargetIpView> {
    Seq::new(endpoints.len(), |i: int| resolver_target(endpoints[i]))
}

pub open spec fn formal_addresses(targets: Seq<FormalTargetView>) -> Seq<TargetIpView> {
    Seq::new(targets.len(), |i: int| targets[i].target)
}

pub open spec fn paired_resolvers(
    endpoints: Seq<ResolverEndpointView>,
    paths: Seq<PreparedPathView>,
) -> Seq<PreparedResolverView> {
    Seq::new(
        endpoints.len(),
        |i: int| PreparedResolverView { endpoint: endpoints[i], path: paths[i] },
    )
}

pub open spec fn paired_targets(
    targets: Seq<FormalTargetView>,
    paths: Seq<PreparedPathView>,
) -> Seq<PreparedTargetView> {
    Seq::new(
        targets.len(),
        |i: int|
            PreparedTargetView { path: paths[i], resolver_ordinal: targets[i].resolver_ordinal },
    )
}

/// The evidence of resolvers, in order.
pub open spec fn evidence_of_resolvers(
    diagnostics: Seq<ResolverDependencyDiagnosticView>,
) -> Seq<EvidenceView>
    decreases diagnostics.len(),
{
    if diagnostics.len() == 0 {
        Seq::empty()
    } else {
        evidence_of_resolvers(diagnostics.drop_last()) + diagnostics.last().evidence
    }
}

/// Whether any resolver was asked.
pub open spec fn some_asked(diagnostics: Seq<ResolverDependencyDiagnosticView>) -> bool {
    exists|i: int| 0 <= i < diagnostics.len() && (#[trigger] diagnostics[i]).attempts.len() > 0
}

impl RunContextView {
    /// The end of a run, with the targets that were diagnosed. Cancellation comes first.
    pub open spec fn completed(
        self,
        targets: Seq<TargetDiagnosticView>,
        cancelled: bool,
    ) -> RunProgressView {
        RunProgressView::Finished(
            if cancelled {
                interrupted()
            } else {
                DiagnosticResultView::Completed(
                    result::completed_run(
                        self.request,
                        self.snapshot,
                        self.system_resolver,
                        self.hostname_resolution,
                        targets,
                        self.resolver_diagnostics,
                        self.evidence,
                    ),
                )
            },
        )
    }

    /// Goes on with the preparation of targets.
    pub open spec fn prepare_targets(
        self,
        targets: Seq<FormalTargetView>,
        step: PreparationStepView,
        cancelled: bool,
    ) -> RunProgressView {
        match step {
            PreparationStepView::Query { preparation, target } => RunProgressView::Pending {
                machine: RunMachineView::PreparingTargets { context: self, targets, preparation },
                action: RunActionView::QueryPath(target),
            },
            PreparationStepView::Read { preparation, identity } => RunProgressView::Pending {
                machine: RunMachineView::PreparingTargets { context: self, targets, preparation },
                action: RunActionView::ReadNeighbor(identity),
            },
            PreparationStepView::Ready(paths) => if cancelled {
                RunProgressView::Finished(interrupted())
            } else {
                RunProgressView::Pending {
                    machine: RunMachineView::DiagnosingTargets { context: self },
                    action: RunActionView::DiagnoseTargets {
                        targets: paired_targets(targets, paths),
                        port: self.request.port,
                    },
                }
            },
            PreparationStepView::Interrupted => RunProgressView::Finished(interrupted()),
        }
    }

    /// Begins with the targets.
    pub open spec fn begin_targets(
        self,
        targets: Seq<FormalTargetView>,
        cancelled: bool,
    ) -> RunProgressView {
        self.prepare_targets(
            targets,
            preparation_of(formal_addresses(targets)).go_on(self.snapshot, cancelled),
            cancelled,
        )
    }

    /// Goes on with the preparation of resolvers.
    pub open spec fn prepare_resolvers(
        self,
        hostname: HostnameView,
        endpoints: Seq<ResolverEndpointView>,
        step: PreparationStepView,
    ) -> RunProgressView {
        match step {
            PreparationStepView::Query { preparation, target } => RunProgressView::Pending {
                machine: RunMachineView::PreparingResolvers {
                    context: self,
                    hostname,
                    endpoints,
                    preparation,
                },
                action: RunActionView::QueryPath(target),
            },
            PreparationStepView::Read { preparation, identity } => RunProgressView::Pending {
                machine: RunMachineView::PreparingResolvers {
                    context: self,
                    hostname,
                    endpoints,
                    preparation,
                },
                action: RunActionView::ReadNeighbor(identity),
            },
            PreparationStepView::Ready(paths) => RunProgressView::Pending {
                machine: RunMachineView::DiagnosingResolvers { context: self },
                action: RunActionView::DiagnoseResolvers {
                    hostname,
                    resolvers: paired_resolvers(endpoints, paths),
                },
            },
            PreparationStepView::Interrupted => RunProgressView::Finished(interrupted()),
        }
    }

    /// Begins with the resolvers, where the plan names any.
    pub open spec fn begin_resolvers(
        self,
        hostname: HostnameView,
        cancelled: bool,
    ) -> RunProgressView {
        let plan = resolver::resolver_plan(hostname, self.snapshot);
        let planned = RunContextView { evidence: self.evidence + plan.evidence, ..self };
        if plan.candidates.len() == 0 {
            planned.completed(Seq::empty(), cancelled)
        } else {
            planned.prepare_resolvers(
                hostname,
                plan.candidates,
                preparation_of(resolver_targets(plan.candidates)).go_on(self.snapshot, cancelled),
            )
        }
    }

    /// After the resolvers were asked: their evidence is kept, and so is that they were asked.
    /// What they answered leaves nothing to check.
    pub open spec fn after_resolvers(
        self,
        diagnostics: Seq<ResolverDependencyDiagnosticView>,
        cancelled: bool,
    ) -> RunProgressView {
        RunContextView {
            hostname_resolution: match self.hostname_resolution {
                HostnameResolutionOutcomeView::NonDefinitiveFailure { platform_code, .. } => {
                    HostnameResolutionOutcomeView::NonDefinitiveFailure {
                        platform_code,
                        direct_dns_was_diagnostic_only: some_asked(diagnostics),
                    }
                },
                other => other,
            },
            resolver_diagnostics: diagnostics,
            evidence: self.evidence + evidence_of_resolvers(diagnostics),
            ..self
        }.completed(Seq::empty(), cancelled)
    }
}

/// After the snapshot was captured. A scope that cannot be bound ends the run.
pub open spec fn after_snapshot(
    request: ParsedRequestView,
    snapshot: InitialNetworkSnapshotView,
    cancelled: bool,
) -> RunProgressView {
    match formation::bound_request(request, snapshot.interfaces) {
        Err(error) => RunProgressView::Finished(
            if cancelled {
                interrupted()
            } else {
                DiagnosticResultView::ExecutionError(
                    ExecutionErrorView {
                        kind: ExecutionErrorKind::ScopedIpv6BindingFailed,
                        safe_message: error.shown(),
                        partial_evidence: Seq::empty(),
                    },
                )
            },
        ),
        Ok(bound) => match bound.address {
            BoundAddressInputView::Hostname(hostname) => RunProgressView::Pending {
                machine: RunMachineView::Resolving { request, snapshot, hostname },
                action: RunActionView::Resolve(hostname),
            },
            BoundAddressInputView::Ipv4Literal(target) => literal_context(
                request,
                snapshot,
            ).begin_targets(
                seq![FormalTargetView { target, resolver_ordinal: None }],
                cancelled,
            ),
            BoundAddressInputView::Ipv6Literal(target) => literal_context(
                request,
                snapshot,
            ).begin_targets(
                seq![FormalTargetView { target, resolver_ordinal: None }],
                cancelled,
            ),
        },
    }
}

/// The context of a run that needs no name resolution.
pub open spec fn literal_context(
    request: ParsedRequestView,
    snapshot: InitialNetworkSnapshotView,
) -> RunContextView {
    RunContextView {
        request,
        snapshot,
        system_resolver: None,
        hostname_resolution: HostnameResolutionOutcomeView::NotRequested,
        resolver_diagnostics: Seq::empty(),
        evidence: Seq::empty(),
    }
}

/// After the system resolver answered. Only its own addresses become targets; a failure that is
/// not definitive is looked into.
pub open spec fn after_resolution(
    request: ParsedRequestView,
    snapshot: InitialNetworkSnapshotView,
    hostname: HostnameView,
    observation: SystemResolverObservationView,
    cancelled: bool,
) -> RunProgressView {
    let (outcome, targets) = resolution_of(observation.name_resolution.result);
    let context = RunContextView {
        request,
        snapshot,
        system_resolver: Some(observation),
        hostname_resolution: outcome,
        resolver_diagnostics: Seq::empty(),
        evidence: seq![observation::resolver_evidence(observation)],
    };
    if targets.len() > 0 {
        context.begin_targets(targets, cancelled)
    } else if outcome is NonDefinitiveFailure {
        context.begin_resolvers(hostname, cancelled)
    } else {
        context.completed(Seq::empty(), cancelled)
    }
}

impl RunMachineView {
    /// The step from one operation to the next. `cancelled` says whether the user has interrupted
    /// the run by the time the operation is over.
    pub open spec fn next(self, event: RunEventView, cancelled: bool) -> RunProgressView {
        match (self, event) {
            (_, RunEventView::Failed(error)) => RunProgressView::Finished(
                stopped(error, cancelled),
            ),
            (RunMachineView::Capturing { request }, RunEventView::SnapshotCaptured(snapshot)) => {
                after_snapshot(request, snapshot, cancelled)
            },
            (
                RunMachineView::Resolving { request, snapshot, hostname },
                RunEventView::Resolved(observation),
            ) => after_resolution(request, snapshot, hostname, observation, cancelled),
            (
                RunMachineView::PreparingResolvers { context, hostname, endpoints, preparation },
                RunEventView::PathAnswered(answer),
            ) => if preparation.querying() {
                context.prepare_resolvers(
                    hostname,
                    endpoints,
                    preparation.after_answer(context.snapshot, answer, cancelled),
                )
            } else {
                RunProgressView::Finished(stopped(target::unexpected_event(), cancelled))
            },
            (
                RunMachineView::PreparingResolvers { context, hostname, endpoints, preparation },
                RunEventView::NeighborObserved(observed),
            ) => if preparation.reading() {
                context.prepare_resolvers(
                    hostname,
                    endpoints,
                    preparation.after_neighbor(observed),
                )
            } else {
                RunProgressView::Finished(stopped(target::unexpected_event(), cancelled))
            },
            (
                RunMachineView::DiagnosingResolvers { context },
                RunEventView::ResolversDiagnosed(diagnostics),
            ) => context.after_resolvers(diagnostics, cancelled),
            (
                RunMachineView::PreparingTargets { context, targets, preparation },
                RunEventView::PathAnswered(answer),
            ) => if preparation.querying() {
                context.prepare_targets(
                    targets,
                    preparation.after_answer(context.snapshot, answer, cancelled),
                    cancelled,
                )
            } else {
                RunProgressView::Finished(stopped(target::unexpected_event(), cancelled))
            },
            (
                RunMachineView::PreparingTargets { context, targets, preparation },
                RunEventView::NeighborObserved(observed),
            ) => if preparation.reading() {
                context.prepare_targets(targets, preparation.after_neighbor(observed), cancelled)
            } else {
                RunProgressView::Finished(stopped(target::unexpected_event(), cancelled))
            },
            (
                RunMachineView::DiagnosingTargets { context },
                RunEventView::TargetsDiagnosed(targets),
            ) => context.completed(targets, cancelled),
            _ => RunProgressView::Finished(stopped(target::unexpected_event(), cancelled)),
        }
    }

    /// Whether a preparation is one of the machine's own targets.
    pub open spec fn valid(self) -> bool {
        match self {
            RunMachineView::PreparingResolvers { endpoints, preparation, .. } => {
                preparation.targets.len() == endpoints.len()
            },
            RunMachineView::PreparingTargets { targets, preparation, .. } => {
                preparation.targets.len() == targets.len()
            },
            _ => true,
        }
    }
}

impl RunProgressView {
    /// Whether a machine that waits is valid.
    pub open spec fn valid(self) -> bool {
        match self {
            RunProgressView::Pending { machine, .. } => machine.valid(),
            RunProgressView::Finished(_) => true,
        }
    }
}

/// The start of a run. One that was interrupted before does nothing.
pub open spec fn run_started(request: ParsedRequestView, cancelled: bool) -> RunProgressView {
    if cancelled {
        RunProgressView::Finished(interrupted())
    } else {
        RunProgressView::Pending {
            machine: RunMachineView::Capturing { request },
            action: RunActionView::CaptureSnapshot,
        }
    }
}

fn addresses_of_targets(targets: &Vec<FormalTarget>) -> (result: Vec<TargetIp>)
    ensures
        result.deep_view() == formal_addresses(targets.deep_view()),
{
    let ghost all = targets.deep_view();
    let mut result: Vec<TargetIp> = Vec::new();
    let mut i: usize = 0;
    while i < targets.len()
        invariant
            i <= targets.len(),
            all == targets.deep_view(),
            result@.len() == i,
            forall|j: int| 0 <= j < i ==> (#[trigger] result@[j]).deep_view() == all[j].target,
        decreases targets.len() - i,
    {
        assert(all[i as int] == targets@[i as int].deep_view());
        result.push(targets[i].target.clone());
        i += 1;
    }
    assert(result.deep_view() =~= formal_addresses(all));
    result
}

fn addresses_of_resolvers(endpoints: &Vec<ResolverEndpoint>) -> (result: Vec<TargetIp>)
    ensures
        result.deep_view() == resolver_targets(endpoints.deep_view()),
{
    let ghost all = endpoints.deep_view();
    let mut result: Vec<TargetIp> = Vec::new();
    let mut i: usize = 0;
    while i < endpoints.len()
        invariant
            i <= endpoints.len(),
            all == endpoints.deep_view(),
            result@.len() == i,
            forall|j: int|
                0 <= j < i ==> (#[trigger] result@[j]).deep_view() == resolver_target(all[j]),
        decreases endpoints.len() - i,
    {
        assert(all[i as int] == endpoints@[i as int].deep_view());
        result.push(
            TargetIp { address: endpoints[i].address, scope: endpoints[i].interface.clone() },
        );
        i += 1;
    }
    assert(result.deep_view() =~= resolver_targets(all));
    result
}

fn pair_resolvers(endpoints: &Vec<ResolverEndpoint>, paths: &Vec<PreparedPath>) -> (result: Vec<
    PreparedResolver,
>)
    requires
        endpoints@.len() == paths@.len(),
    ensures
        result.deep_view() == paired_resolvers(endpoints.deep_view(), paths.deep_view()),
{
    let ghost all = endpoints.deep_view();
    let ghost ready = paths.deep_view();
    let mut result: Vec<PreparedResolver> = Vec::new();
    let mut i: usize = 0;
    while i < endpoints.len()
        invariant
            i <= endpoints.len(),
            endpoints@.len() == paths@.len(),
            all == endpoints.deep_view(),
            ready == paths.deep_view(),
            result@.len() == i,
            forall|j: int|
                0 <= j < i ==> (#[trigger] result@[j]).deep_view() == (PreparedResolverView {
                    endpoint: all[j],
                    path: ready[j],
                }),
        decreases endpoints.len() - i,
    {
        assert(all[i as int] == endpoints@[i as int].deep_view());
        assert(ready[i as int] == paths@[i as int].deep_view());
        result.push(PreparedResolver { endpoint: endpoints[i].clone(), path: paths[i].clone() });
        i += 1;
    }
    assert(result.deep_view() =~= paired_resolvers(all, ready));
    result
}

fn pair_targets(targets: &Vec<FormalTarget>, paths: &Vec<PreparedPath>) -> (result: Vec<
    PreparedTarget,
>)
    requires
        targets@.len() == paths@.len(),
    ensures
        result.deep_view() == paired_targets(targets.deep_view(), paths.deep_view()),
{
    let ghost all = targets.deep_view();
    let ghost ready = paths.deep_view();
    let mut result: Vec<PreparedTarget> = Vec::new();
    let mut i: usize = 0;
    while i < targets.len()
        invariant
            i <= targets.len(),
            targets@.len() == paths@.len(),
            all == targets.deep_view(),
            ready == paths.deep_view(),
            result@.len() == i,
            forall|j: int|
                0 <= j < i ==> (#[trigger] result@[j]).deep_view() == (PreparedTargetView {
                    path: ready[j],
                    resolver_ordinal: all[j].resolver_ordinal,
                }),
        decreases targets.len() - i,
    {
        assert(all[i as int] == targets@[i as int].deep_view());
        assert(ready[i as int] == paths@[i as int].deep_view());
        result.push(
            PreparedTarget {
                path: paths[i].clone(),
                resolver_ordinal: targets[i].resolver_ordinal,
            },
        );
        i += 1;
    }
    assert(result.deep_view() =~= paired_targets(all, ready));
    result
}

fn no_targets() -> (result: Vec<TargetDiagnostic>)
    ensures
        result.deep_view() == Seq::<TargetDiagnosticView>::empty(),
{
    let result: Vec<TargetDiagnostic> = Vec::new();
    assert(result.deep_view() =~= Seq::<TargetDiagnosticView>::empty());
    result
}

fn no_resolvers() -> (result: Vec<ResolverDependencyDiagnostic>)
    ensures
        result.deep_view() == Seq::<ResolverDependencyDiagnosticView>::empty(),
{
    let result: Vec<ResolverDependencyDiagnostic> = Vec::new();
    assert(result.deep_view() =~= Seq::<ResolverDependencyDiagnosticView>::empty());
    result
}

impl RunContext {
    fn complete(self, targets: Vec<TargetDiagnostic>, cancelled: bool) -> (result: RunProgress)
        ensures
            result.deep_view() == self.deep_view().completed(targets.deep_view(), cancelled),
    {
        if cancelled {
            return RunProgress::Finished(cancelled_result());
        }
        RunProgress::Finished(
            DiagnosticResult::Completed(
                Box::new(
                    CompletedDiagnostic::new(
                        self.request,
                        self.snapshot,
                        self.system_resolver,
                        self.hostname_resolution,
                        targets,
                        self.resolver_diagnostics,
                        self.evidence,
                    ),
                ),
            ),
        )
    }

    fn on_targets_step(
        self,
        targets: Vec<FormalTarget>,
        step: PreparationStep,
        cancelled: bool,
    ) -> (result: RunProgress)
        requires
            step.deep_view().valid(targets.deep_view().len()),
        ensures
            result.deep_view() == self.deep_view().prepare_targets(
                targets.deep_view(),
                step.deep_view(),
                cancelled,
            ),
            result.deep_view().valid(),
    {
        match step {
            PreparationStep::Query { preparation, target } => RunProgress::Pending {
                machine: RunMachine::PreparingTargets { context: self, targets, preparation },
                action: RunAction::QueryPath(target),
            },
            PreparationStep::Read { preparation, identity } => RunProgress::Pending {
                machine: RunMachine::PreparingTargets { context: self, targets, preparation },
                action: RunAction::ReadNeighbor(identity),
            },
            PreparationStep::Ready(paths) => {
                if cancelled {
                    return RunProgress::Finished(cancelled_result());
                }
                let prepared = pair_targets(&targets, &paths);
                let port = self.request.port;
                RunProgress::Pending {
                    machine: RunMachine::DiagnosingTargets { context: self },
                    action: RunAction::DiagnoseTargets { targets: prepared, port },
                }
            },
            PreparationStep::Interrupted => RunProgress::Finished(cancelled_result()),
        }
    }

    fn start_targets(self, targets: Vec<FormalTarget>, cancelled: bool) -> (result: RunProgress)
        ensures
            result.deep_view() == self.deep_view().begin_targets(targets.deep_view(), cancelled),
            result.deep_view().valid(),
    {
        let preparation = Preparation::of_targets(addresses_of_targets(&targets));
        let step = preparation.proceed(&self.snapshot, cancelled);
        self.on_targets_step(targets, step, cancelled)
    }

    fn on_resolvers_step(
        self,
        hostname: Hostname,
        endpoints: Vec<ResolverEndpoint>,
        step: PreparationStep,
    ) -> (result: RunProgress)
        requires
            step.deep_view().valid(endpoints.deep_view().len()),
        ensures
            result.deep_view() == self.deep_view().prepare_resolvers(
                hostname.deep_view(),
                endpoints.deep_view(),
                step.deep_view(),
            ),
            result.deep_view().valid(),
    {
        match step {
            PreparationStep::Query { preparation, target } => RunProgress::Pending {
                machine: RunMachine::PreparingResolvers {
                    context: self,
                    hostname,
                    endpoints,
                    preparation,
                },
                action: RunAction::QueryPath(target),
            },
            PreparationStep::Read { preparation, identity } => RunProgress::Pending {
                machine: RunMachine::PreparingResolvers {
                    context: self,
                    hostname,
                    endpoints,
                    preparation,
                },
                action: RunAction::ReadNeighbor(identity),
            },
            PreparationStep::Ready(paths) => {
                let resolvers = pair_resolvers(&endpoints, &paths);
                RunProgress::Pending {
                    machine: RunMachine::DiagnosingResolvers { context: self },
                    action: RunAction::DiagnoseResolvers { hostname, resolvers },
                }
            },
            PreparationStep::Interrupted => RunProgress::Finished(cancelled_result()),
        }
    }

    fn start_resolvers(self, hostname: Hostname, cancelled: bool) -> (result: RunProgress)
        ensures
            result.deep_view() == self.deep_view().begin_resolvers(
                hostname.deep_view(),
                cancelled,
            ),
            result.deep_view().valid(),
    {
        let plan = resolver::plan_resolver_diagnosis(&hostname, &self.snapshot);
        let mut context = self;
        result::extend_evidence(&mut context.evidence, &plan.evidence);
        assert(plan.candidates@.len() == plan.candidates.deep_view().len());
        if plan.candidates.len() == 0 {
            return context.complete(no_targets(), cancelled);
        }
        let preparation = Preparation::of_targets(addresses_of_resolvers(&plan.candidates));
        let step = preparation.proceed(&context.snapshot, cancelled);
        context.on_resolvers_step(hostname, plan.candidates, step)
    }

    fn on_resolvers(
        self,
        diagnostics: Vec<ResolverDependencyDiagnostic>,
        cancelled: bool,
    ) -> (result: RunProgress)
        ensures
            result.deep_view() == self.deep_view().after_resolvers(
                diagnostics.deep_view(),
                cancelled,
            ),
    {
        let ghost all = diagnostics.deep_view();
        let mut context = self;
        let ghost start = context.evidence.deep_view();
        let mut asked = false;
        let mut i: usize = 0;
        assert(start + evidence_of_resolvers(all.take(0)) =~= start);
        while i < diagnostics.len()
            invariant
                i <= diagnostics.len(),
                all == diagnostics.deep_view(),
                context.deep_view() == (RunContextView {
                    evidence: context.evidence.deep_view(),
                    ..self.deep_view()
                }),
                context.evidence.deep_view() == start + evidence_of_resolvers(all.take(i as int)),
                asked == (exists|j: int| 0 <= j < i && (#[trigger] all[j]).attempts.len() > 0),
            decreases diagnostics.len() - i,
        {
            let diagnostic = &diagnostics[i];
            assert(all[i as int] == diagnostic.deep_view());
            assert(all.take(i + 1).drop_last() =~= all.take(i as int));
            result::extend_evidence(&mut context.evidence, &diagnostic.evidence);
            assert(context.evidence.deep_view() =~= start + evidence_of_resolvers(all.take(i + 1)));
            assert(diagnostic.attempts@.len() == diagnostic.deep_view().attempts.len());
            if diagnostic.attempts.len() > 0 {
                asked = true;
            }
            i += 1;
        }
        assert(all.take(i as int) =~= all);
        if let HostnameResolutionOutcome::NonDefinitiveFailure { platform_code, .. }
            = context.hostname_resolution {
            context.hostname_resolution = HostnameResolutionOutcome::NonDefinitiveFailure {
                platform_code,
                direct_dns_was_diagnostic_only: asked,
            };
        }
        context.resolver_diagnostics = diagnostics;
        context.complete(no_targets(), cancelled)
    }
}

fn on_snapshot(
    request: ParsedRequest,
    snapshot: InitialNetworkSnapshot,
    cancelled: bool,
) -> (result: RunProgress)
    ensures
        result.deep_view() == after_snapshot(
            request.deep_view(),
            snapshot.deep_view(),
            cancelled,
        ),
        result.deep_view().valid(),
{
    let bound = match formation::bind_diagnostic_request(&request, &snapshot.interfaces) {
        Ok(bound) => bound,
        Err(error) => {
            if cancelled {
                return RunProgress::Finished(cancelled_result());
            }
            return RunProgress::Finished(
                DiagnosticResult::ExecutionError(
                    ExecutionError {
                        kind: ExecutionErrorKind::ScopedIpv6BindingFailed,
                        safe_message: error.message().to_owned(),
                        partial_evidence: no_evidence(),
                    },
                ),
            );
        },
    };
    let target = match bound.address {
        BoundAddressInput::Hostname(hostname) => {
            let action = RunAction::Resolve(hostname.clone());
            return RunProgress::Pending {
                machine: RunMachine::Resolving { request, snapshot, hostname },
                action,
            };
        },
        BoundAddressInput::Ipv4Literal(target) => target,
        BoundAddressInput::Ipv6Literal(target) => target,
    };
    let context = RunContext {
        request,
        snapshot,
        system_resolver: None,
        hostname_resolution: HostnameResolutionOutcome::NotRequested,
        resolver_diagnostics: no_resolvers(),
        evidence: no_evidence(),
    };
    let mut targets: Vec<FormalTarget> = Vec::new();
    targets.push(FormalTarget { target, resolver_ordinal: None });
    assert(targets.deep_view() =~= seq![
        FormalTargetView { target: target.deep_view(), resolver_ordinal: None },
    ]);
    context.start_targets(targets, cancelled)
}

fn resolve_targets(result: &SystemResolverResult) -> (resolution: (
    HostnameResolutionOutcome,
    Vec<FormalTarget>,
))
    ensures
        resolution.0.deep_view() == resolution_of(result.deep_view()).0,
        resolution.1.deep_view() == resolution_of(result.deep_view()).1,
{
    let none: Vec<FormalTarget> = Vec::new();
    assert(none.deep_view() =~= Seq::<FormalTargetView>::empty());
    match result {
        SystemResolverResult::Succeeded(addresses) => {
            assert(addresses.formal_targets@.len() == addresses.formal_targets.deep_view().len());
            if addresses.formal_targets.len() == 0 {
                (HostnameResolutionOutcome::SucceededWithoutUsableAddress, none)
            } else {
                let targets = addresses.formal_targets.clone();
                assert(targets.deep_view() =~= addresses.formal_targets.deep_view());
                (HostnameResolutionOutcome::Succeeded(addresses.clone()), targets)
            }
        },
        SystemResolverResult::Failed(failure) => {
            let platform_code = failure.platform_code;
            let outcome = match failure.kind {
                SystemResolverFailureKind::DefinitiveNoName => {
                    HostnameResolutionOutcome::DefinitiveNegative { platform_code }
                },
                SystemResolverFailureKind::NoUsableAddress => {
                    HostnameResolutionOutcome::NegativeWithoutUsableAddress { platform_code }
                },
                _ => HostnameResolutionOutcome::NonDefinitiveFailure {
                    platform_code,
                    direct_dns_was_diagnostic_only: false,
                },
            };
            (outcome, none)
        },
    }
}

fn on_resolution(
    request: ParsedRequest,
    snapshot: InitialNetworkSnapshot,
    hostname: Hostname,
    observation: SystemResolverObservation,
    cancelled: bool,
) -> (result: RunProgress)
    ensures
        result.deep_view() == after_resolution(
            request.deep_view(),
            snapshot.deep_view(),
            hostname.deep_view(),
            observation.deep_view(),
            cancelled,
        ),
        result.deep_view().valid(),
{
    let (hostname_resolution, targets) = resolve_targets(&observation.name_resolution.result);
    let mut evidence: Vec<Evidence> = Vec::new();
    evidence.push(observation::system_resolver_evidence(&observation));
    assert(evidence.deep_view() =~= seq![observation::resolver_evidence(observation.deep_view())]);
    let indefinite = match &hostname_resolution {
        HostnameResolutionOutcome::NonDefinitiveFailure { .. } => true,
        _ => false,
    };
    let context = RunContext {
        request,
        snapshot,
        system_resolver: Some(observation),
        hostname_resolution,
        resolver_diagnostics: no_resolvers(),
        evidence,
    };
    assert(targets@.len() == targets.deep_view().len());
    if targets.len() > 0 {
        context.start_targets(targets, cancelled)
    } else if indefinite {
        context.start_resolvers(hostname, cancelled)
    } else {
        context.complete(no_targets(), cancelled)
    }
}

impl RunMachine {
    /// Begins a run.
    pub fn start(request: ParsedRequest, cancelled: bool) -> (result: RunProgress)
        ensures
            result.deep_view() == run_started(request.deep_view(), cancelled),
            result.deep_view().valid(),
    {
        if cancelled {
            RunProgress::Finished(cancelled_result())
        } else {
            RunProgress::Pending {
                machine: RunMachine::Capturing { request },
                action: RunAction::CaptureSnapshot,
            }
        }
    }

    /// Takes the result of the operation that was asked for, and says what comes next.
    pub fn advance(self, event: RunEvent, cancelled: bool) -> (result: RunProgress)
        requires
            self.deep_view().valid(),
        ensures
            result.deep_view() == self.deep_view().next(event.deep_view(), cancelled),
            result.deep_view().valid(),
    {
        let event = match event {
            RunEvent::Failed(error) => {
                return RunProgress::Finished(terminal_io_error(error, cancelled));
            },
            other => other,
        };
        match (self, event) {
            (RunMachine::Capturing { request }, RunEvent::SnapshotCaptured(snapshot)) => {
                on_snapshot(request, snapshot, cancelled)
            },
            (
                RunMachine::Resolving { request, snapshot, hostname },
                RunEvent::Resolved(observation),
            ) => on_resolution(request, snapshot, hostname, observation, cancelled),
            (
                RunMachine::PreparingResolvers { context, hostname, endpoints, preparation },
                RunEvent::PathAnswered(answer),
            ) => {
                if !preparation.is_querying() {
                    return unexpected(cancelled);
                }
                let step = preparation.on_answer(&context.snapshot, answer, cancelled);
                context.on_resolvers_step(hostname, endpoints, step)
            },
            (
                RunMachine::PreparingResolvers { context, hostname, endpoints, preparation },
                RunEvent::NeighborObserved(observed),
            ) => {
                if !preparation.is_reading() {
                    return unexpected(cancelled);
                }
                let step = preparation.on_neighbor(observed);
                context.on_resolvers_step(hostname, endpoints, step)
            },
            (
                RunMachine::DiagnosingResolvers { context },
                RunEvent::ResolversDiagnosed(diagnostics),
            ) => context.on_resolvers(diagnostics, cancelled),
            (
                RunMachine::PreparingTargets { context, targets, preparation },
                RunEvent::PathAnswered(answer),
            ) => {
                if !preparation.is_querying() {
                    return unexpected(cancelled);
                }
                let step = preparation.on_answer(&context.snapshot, answer, cancelled);
                context.on_targets_step(targets, step, cancelled)
            },
            (
                RunMachine::PreparingTargets { context, targets, preparation },
                RunEvent::NeighborObserved(observed),
            ) => {
                if !preparation.is_reading() {
                    return unexpected(cancelled);
                }
                let step = preparation.on_neighbor(observed);
                context.on_targets_step(targets, step, cancelled)
            },
            (RunMachine::DiagnosingTargets { context }, RunEvent::TargetsDiagnosed(targets)) => {
                context.complete(targets, cancelled)
            },
            _ => unexpected(cancelled),
        }
    }
}

fn unexpected(cancelled: bool) -> (result: RunProgress)
    ensures
        result.deep_view() == RunProgressView::Finished(
            stopped(target::unexpected_event(), cancelled),
        ),
{
    RunProgress::Finished(terminal_io_error(target::unexpected_event_error(), cancelled))
}

impl Preparation {
    fn is_querying(&self) -> (result: bool)
        ensures
            result == self.deep_view().querying(),
    {
        self.prepared.len() < self.targets.len() && self.states.len() == 0 && self.identities.len()
            == 0
    }

    fn is_reading(&self) -> (result: bool)
        ensures
            result == self.deep_view().reading(),
    {
        self.prepared.len() == self.targets.len() && self.states.len() < self.identities.len()
    }
}

} // verus!
