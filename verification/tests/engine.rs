use std::cell::{Cell, RefCell};
use std::collections::VecDeque;

use reach::engine::dns::{DnsAction, DnsEvent, DnsProgress};
use reach::engine::observation::{add_tcp_path_comparison, capability_neighbor_state};
use reach::engine::resolver::{
    select_resolver_candidates, PreparedResolver, ResolverMachine, ResolverProgress,
};
use reach::engine::run::{RunAction, RunEvent, RunMachine, RunProgress};
use reach::engine::target::{
    PreparedTarget, TargetAction, TargetEvent, TargetMachine, TargetProgress,
};
use reach::sorting::{stable_sort, Keyed as _};
use reach::{
    AddressFamily, AggregateOutcome, Attempt, AttemptId, AttemptKind, AttemptOutcome,
    AttemptSubject, AttemptTiming, Cancelled, CapabilityReason, CapabilityValue,
    CompletedDiagnostic, Conclusion, DNS_TCP_BUDGET, DNS_UDP_BUDGET, DiagnosticIoError,
    DiagnosticIoErrorKind, DiagnosticResult, DirectDnsOperation, DirectDnsTransportReason,
    DnsAttemptResult, DnsQueryType, Duration, EvidenceFact, ExecutionError, ExecutionErrorKind,
    ExitStatus, Hostname, HostnameResolutionOutcome, IcmpAttemptResult, IcmpEchoSubject,
    IcmpMessageKind, IcmpMessageObservation, IcmpOperation, InitialNetworkSnapshot,
    InitialPathStatus, InterfaceFact, InterfaceId, InterfaceState, IpAddr, IpNet, Ipv4Addr,
    MAX_ACTIVE_RESOLVERS, MAX_ACTIVE_TARGETS, MAX_PATH_HOP_LIMIT, NEXT_HOP_ICMP_BUDGET,
    NameResolutionObservation, NeighborFact, NeighborIdentity, NeighborObservation, NeighborState,
    NonZeroU16, OperationPathContext, PATH_ATTEMPT_BUDGET, ParsedAddress, ParsedRequest,
    PathOperation, PathRelation, PathSelectionFact, PrimaryOutcome, Provenance, ProvenanceSource,
    ResolverAddressSet, ResolverConfiguration, ResolverEndpoint, ResolverTransport, RouteBehavior,
    RouteFact, RoutingPolicyFacts, SnapshotInconsistency, SnapshotInconsistencyScope,
    SystemResolverFailure, SystemResolverFailureKind, SystemResolverObservation,
    SystemResolverResult, TARGET_ICMP_BUDGET, TCP_CONNECT_BUDGET, TargetIp, TcpAttemptResult,
    TcpOperation, analyze_initial_path, parse_request,
};

struct ScriptedIo {
    snapshot: InitialNetworkSnapshot,
    resolver: RefCell<Option<SystemResolverObservation>>,
    current_path: CapabilityValue<OperationPathContext>,
    neighbor_state: CapabilityValue<NeighborFact>,
    neighbor_states: RefCell<VecDeque<NeighborState>>,
    tcp: RefCell<VecDeque<TcpAttemptResult>>,
    tcp_errors: RefCell<VecDeque<DiagnosticIoErrorKind>>,
    icmp: RefCell<VecDeque<IcmpAttemptResult>>,
    icmp_errors: RefCell<VecDeque<DiagnosticIoErrorKind>>,
    path: RefCell<VecDeque<Option<AttemptOutcome>>>,
    udp_a: RefCell<VecDeque<DnsAttemptResult>>,
    udp_aaaa: RefCell<VecDeque<DnsAttemptResult>>,
    tcp_a: RefCell<VecDeque<DnsAttemptResult>>,
    tcp_aaaa: RefCell<VecDeque<DnsAttemptResult>>,
    dns_reasons: RefCell<Vec<DirectDnsTransportReason>>,
    tcp_operations: RefCell<Vec<TcpOperation>>,
    icmp_operations: RefCell<Vec<IcmpOperation>>,
    path_operations: RefCell<Vec<(bool, PathOperation)>>,
    dns_udp_operations: RefCell<Vec<DirectDnsOperation>>,
    dns_tcp_operations: RefCell<Vec<DirectDnsOperation>>,
    snapshot_calls: Cell<usize>,
    tcp_calls: Cell<usize>,
    icmp_calls: Cell<usize>,
    neighbor_calls: Cell<usize>,
    path_calls: Cell<usize>,
    active_tcp: Cell<usize>,
    max_active_tcp: Cell<usize>,
    active_dns: Cell<usize>,
    max_active_dns: Cell<usize>,
    active_started_before_neighbor_pre_state: Cell<bool>,
    cancel_after_resolver: Cell<bool>,
}

impl ScriptedIo {
    fn new(snapshot: InitialNetworkSnapshot) -> Self {
        let target = test_target();
        Self {
            snapshot,
            resolver: RefCell::new(None),
            current_path: CapabilityValue::available(
                OperationPathContext {
                    captured_at: Duration::zero(),
                    target_or_dependency: target.address,
                    family: AddressFamily::Ipv4,
                    egress_interface: None,
                    relation: PathRelation::Local,
                    next_hop: None,
                    preferred_source: None,
                    relation_to_initial_snapshot: None,
                    provenance: provenance(),
                },
                provenance(),
            ),
            neighbor_state: CapabilityValue::unavailable(
                CapabilityReason::QuerySemanticsUnavailable,
                provenance(),
            ),
            neighbor_states: RefCell::new(VecDeque::new()),
            tcp: RefCell::new(VecDeque::new()),
            tcp_errors: RefCell::new(VecDeque::new()),
            icmp: RefCell::new(VecDeque::new()),
            icmp_errors: RefCell::new(VecDeque::new()),
            path: RefCell::new(VecDeque::new()),
            udp_a: RefCell::new(VecDeque::new()),
            udp_aaaa: RefCell::new(VecDeque::new()),
            tcp_a: RefCell::new(VecDeque::new()),
            tcp_aaaa: RefCell::new(VecDeque::new()),
            dns_reasons: RefCell::new(Vec::new()),
            tcp_operations: RefCell::new(Vec::new()),
            icmp_operations: RefCell::new(Vec::new()),
            path_operations: RefCell::new(Vec::new()),
            dns_udp_operations: RefCell::new(Vec::new()),
            dns_tcp_operations: RefCell::new(Vec::new()),
            snapshot_calls: Cell::new(0),
            tcp_calls: Cell::new(0),
            icmp_calls: Cell::new(0),
            neighbor_calls: Cell::new(0),
            path_calls: Cell::new(0),
            active_tcp: Cell::new(0),
            max_active_tcp: Cell::new(0),
            active_dns: Cell::new(0),
            max_active_dns: Cell::new(0),
            active_started_before_neighbor_pre_state: Cell::new(false),
            cancel_after_resolver: Cell::new(false),
        }
    }

    fn with_tcp(self, outcomes: impl IntoIterator<Item = TcpAttemptResult>) -> Self {
        self.tcp.borrow_mut().extend(outcomes);
        self
    }

    fn with_tcp_errors(self, errors: impl IntoIterator<Item = DiagnosticIoErrorKind>) -> Self {
        self.tcp_errors.borrow_mut()
            .extend(errors);
        self
    }

    fn with_icmp(self, outcomes: impl IntoIterator<Item = IcmpAttemptResult>) -> Self {
        self.icmp.borrow_mut().extend(outcomes);
        self
    }

    fn with_icmp_errors(self, errors: impl IntoIterator<Item = DiagnosticIoErrorKind>) -> Self {
        self.icmp_errors.borrow_mut()
            .extend(errors);
        self
    }

    fn with_neighbor_states(self, states: impl IntoIterator<Item = NeighborState>) -> Self {
        self.neighbor_states.borrow_mut()
            .extend(states);
        self
    }

    fn with_path(self, outcomes: impl IntoIterator<Item = Option<AttemptOutcome>>) -> Self {
        self.path.borrow_mut().extend(outcomes);
        self
    }

    fn with_resolver(self, observation: SystemResolverObservation) -> Self {
        *self.resolver.borrow_mut() = Some(observation);
        self
    }

    fn cancelling_after_resolver(self) -> Self {
        self.cancel_after_resolver.set(true);
        self
    }

    fn with_remote_path(mut self) -> Self {
        self.current_path = CapabilityValue::available(
            OperationPathContext {
                captured_at: Duration::zero(),
                target_or_dependency: test_target().address,
                family: AddressFamily::Ipv4,
                egress_interface: Some(InterfaceId::from_index(2)),
                relation: PathRelation::Remote,
                next_hop: Some(Ipv4Addr::new(192, 0, 2, 1).into()),
                preferred_source: None,
                relation_to_initial_snapshot: None,
                provenance: provenance(),
            },
            provenance(),
        );
        let identity = NeighborIdentity {
            family: AddressFamily::Ipv4,
            interface: InterfaceId::from_index(2),
            address: Ipv4Addr::new(192, 0, 2, 1).into(),
        };
        self.neighbor_state = CapabilityValue::available(
            NeighborFact {
                identity,
                state: NeighborState::Usable,
                observed_at: Duration::zero(),
                raw_state: Some("reachable".into()),
                provenance: provenance(),
            },
            provenance(),
        );
        self
    }

    fn with_on_link_path(mut self) -> Self {
        self.current_path = CapabilityValue::available(
            OperationPathContext {
                captured_at: Duration::zero(),
                target_or_dependency: test_target().address,
                family: AddressFamily::Ipv4,
                egress_interface: Some(InterfaceId::from_index(2)),
                relation: PathRelation::OnLink,
                next_hop: None,
                preferred_source: None,
                relation_to_initial_snapshot: None,
                provenance: provenance(),
            },
            provenance(),
        );
        self.neighbor_state = CapabilityValue::available(
            NeighborFact {
                identity: NeighborIdentity {
                    family: AddressFamily::Ipv4,
                    interface: InterfaceId::from_index(2),
                    address: test_target().address,
                },
                state: NeighborState::Usable,
                observed_at: Duration::zero(),
                raw_state: Some("reachable".into()),
                provenance: provenance(),
            },
            provenance(),
        );
        self
    }

    fn with_unavailable_current_path(mut self) -> Self {
        self.current_path = CapabilityValue::unavailable(
            CapabilityReason::QuerySemanticsUnavailable,
            provenance(),
        );
        self
    }

    fn with_unavailable_neighbor(mut self) -> Self {
        self.neighbor_state = CapabilityValue::unavailable(
            CapabilityReason::OrdinaryUserPermissionDenied,
            provenance(),
        );
        self
    }

    fn push_udp(&self, query_type: DnsQueryType, outcomes: &[DnsAttemptResult]) {
        dns_queue(query_type, &self.udp_a, &self.udp_aaaa).borrow_mut()
            .extend(outcomes.iter().cloned());
    }

    fn push_dns_tcp(&self, query_type: DnsQueryType, outcomes: &[DnsAttemptResult]) {
        dns_queue(query_type, &self.tcp_a, &self.tcp_aaaa).borrow_mut()
            .extend(outcomes.iter().cloned());
    }
}

struct CancellationToken(Cell<bool>);

impl CancellationToken {
    fn new() -> Self {
        Self(Cell::new(false))
    }

    fn cancel(&self) {
        self.0.set(true);
    }

    fn is_cancelled(&self) -> bool {
        self.0.get()
    }
}

fn increase(counter: &Cell<usize>) {
    counter.set(counter.get() + 1);
}

impl ScriptedIo {
    fn system_resolve(
        &self,
        cancellation: &CancellationToken,
    ) -> Result<SystemResolverObservation, DiagnosticIoError> {
        let result = self.resolver.borrow_mut().clone().ok_or_else(|| {
            DiagnosticIoError::new(
                DiagnosticIoErrorKind::Internal,
                "missing scripted system resolver result",
            )
        });
        if self.cancel_after_resolver.get() {
            cancellation.cancel();
        }
        result
    }

    fn current_operation_path(&self, target: &TargetIp) -> CapabilityValue<OperationPathContext> {
        let mut result = self.current_path.clone();
        if let CapabilityValue::Available { value, .. } = &mut result {
            value.target_or_dependency = target.address;
            value.family = target.family();
        }
        result
    }

    fn neighbor(&self, identity: &NeighborIdentity) -> CapabilityValue<NeighborFact> {
        increase(&self.neighbor_calls);
        let mut result = self.neighbor_state.clone();
        if let CapabilityValue::Available { value, .. } = &mut result {
            value.identity = identity.clone();
            if let Some(state) = self.neighbor_states.borrow_mut().pop_front() {
                value.state = state;
            }
        }
        result
    }

    fn begin_tcp(&self, operation: &TcpOperation) {
        self.tcp_operations.borrow_mut().push(operation.clone());
        if self.neighbor_calls.get() == 0
            && matches!(self.current_path, CapabilityValue::Available { ref value, .. } if value.relation == PathRelation::Remote)
        {
            self.active_started_before_neighbor_pre_state.set(true);
        }
        increase(&self.tcp_calls);
        increase(&self.active_tcp);
        self.max_active_tcp.set(self.max_active_tcp.get().max(self.active_tcp.get()));
    }

    fn finish_tcp(&self, operation: TcpOperation) -> Result<Attempt, DiagnosticIoError> {
        self.active_tcp.set(self.active_tcp.get() - 1);
        if let Some(kind) = self.tcp_errors.borrow_mut().pop_front() {
            return Err(DiagnosticIoError::new(kind, "scripted TCP execution error"));
        }
        let outcome = self.tcp.borrow_mut().pop_front().ok_or_else(|| {
            DiagnosticIoError::new(DiagnosticIoErrorKind::Internal, "missing scripted TCP result")
        })?;
        Ok(attempt(
            operation.attempt_id,
            AttemptSubject::Target(operation.target),
            AttemptKind::TcpConnect,
            AttemptOutcome::Tcp(outcome),
            operation.budget,
        ))
    }

    fn icmp_echo(&self, operation: IcmpOperation) -> Result<Attempt, DiagnosticIoError> {
        self.icmp_operations.borrow_mut().push(operation.clone());
        increase(&self.icmp_calls);
        if let Some(outcome) = self.icmp.borrow_mut().pop_front() {
            let (subject, kind) = match operation.subject {
                IcmpEchoSubject::Target(target) => {
                    (AttemptSubject::Target(target), AttemptKind::TargetIcmpEcho)
                }
                IcmpEchoSubject::NextHop(identity) => {
                    (AttemptSubject::NextHop(identity), AttemptKind::NextHopIcmpEcho)
                }
            };
            return Ok(attempt(
                operation.attempt_id,
                subject,
                kind,
                AttemptOutcome::Icmp(outcome),
                operation.budget,
            ));
        }
        if let Some(kind) = self.icmp_errors.borrow_mut().pop_front() {
            return Err(DiagnosticIoError::new(kind, "scripted ICMP capability unavailable"));
        }
        Err(DiagnosticIoError::new(
            DiagnosticIoErrorKind::Internal,
            "missing scripted ICMP result",
        ))
    }

    fn path_attempt(&self, operation: PathOperation, tcp: bool) -> CapabilityValue<Attempt> {
        self.path_operations.borrow_mut().push((tcp, operation.clone()));
        increase(&self.path_calls);
        let scripted = self.path.borrow_mut().pop_front();
        let Some(Some(outcome)) = scripted else {
            return CapabilityValue::unavailable(
                CapabilityReason::AttemptCorrelationUnavailable,
                provenance(),
            );
        };
        let kind = if tcp {
            AttemptKind::TcpPath { hop_limit: operation.hop_limit }
        } else {
            AttemptKind::IcmpPath { hop_limit: operation.hop_limit }
        };
        CapabilityValue::available(
            attempt(
                operation.attempt_id,
                AttemptSubject::Target(operation.target),
                kind,
                outcome,
                operation.budget,
            ),
            provenance(),
        )
    }

    fn begin_dns(&self, action: &DnsAction) {
        match action {
            DnsAction::Udp(operation) => {
                self.dns_udp_operations.borrow_mut().push(operation.clone());
            }
            DnsAction::Tcp(operation) => {
                self.dns_tcp_operations.borrow_mut().push(operation.clone());
            }
        }
        increase(&self.active_dns);
        self.max_active_dns.set(self.max_active_dns.get().max(self.active_dns.get()));
    }

    fn finish_dns(&self, action: DnsAction) -> Result<Attempt, DiagnosticIoError> {
        self.active_dns.set(self.active_dns.get() - 1);
        match action {
            DnsAction::Udp(operation) => {
                self.dns_reasons.borrow_mut().push(operation.reason);
                let query_type = operation.query_type;
                dns_attempt(
                    operation,
                    AttemptKind::DnsUdp { query_type },
                    dns_queue(query_type, &self.udp_a, &self.udp_aaaa),
                )
            }
            DnsAction::Tcp(operation) => {
                self.dns_reasons.borrow_mut().push(operation.reason);
                let query_type = operation.query_type;
                dns_attempt(
                    operation,
                    AttemptKind::DnsTcp { query_type },
                    dns_queue(query_type, &self.tcp_a, &self.tcp_aaaa),
                )
            }
        }
    }

    fn begin_target(&self, progress: &TargetProgress) {
        if let TargetProgress::Pending { action: TargetAction::TcpConnect(operation), .. } = progress
        {
            self.begin_tcp(operation);
        }
    }

    /// Completes the pending operation, and every later one that does not have to wait.
    fn finish_target(&self, progress: TargetProgress) -> TargetProgress {
        let mut progress = progress;
        let mut waited = false;
        loop {
            let TargetProgress::Pending { machine, action } = progress else {
                return progress;
            };
            let event = match action {
                TargetAction::TcpConnect(operation) => {
                    if waited {
                        return TargetProgress::Pending {
                            machine,
                            action: TargetAction::TcpConnect(operation),
                        };
                    }
                    match self.finish_tcp(operation) {
                        Ok(attempt) => TargetEvent::Attempted(attempt),
                        Err(error) => TargetEvent::Failed(error),
                    }
                }
                TargetAction::IcmpEcho(operation) => match self.icmp_echo(operation) {
                    Ok(attempt) => TargetEvent::Attempted(attempt),
                    Err(error) => TargetEvent::Failed(error),
                },
                TargetAction::ReadNeighbor(identity) | TargetAction::AwaitNeighbor(identity) => {
                    TargetEvent::NeighborObserved(self.neighbor(&identity))
                }
                TargetAction::TcpPath(operation) => {
                    TargetEvent::PathAttempted(self.path_attempt(operation, true))
                }
                TargetAction::IcmpPath(operation) => {
                    TargetEvent::PathAttempted(self.path_attempt(operation, false))
                }
            };
            progress = machine.advance(event);
            waited = true;
        }
    }

    fn diagnose_targets(&self, targets: Vec<PreparedTarget>, port: Option<NonZeroU16>) -> RunEvent {
        let mut waiting: VecDeque<(usize, PreparedTarget)> = targets.into_iter().enumerate().collect();
        let mut active: Vec<TargetProgress> = Vec::new();
        let mut finished = Vec::new();
        while !waiting.is_empty() || !active.is_empty() {
            while active.len() < MAX_ACTIVE_TARGETS {
                let Some((ordinal, prepared)) = waiting.pop_front() else {
                    break;
                };
                active.push(TargetMachine::start(prepared, port, ordinal));
            }
            for progress in &active {
                self.begin_target(progress);
            }
            active = active.into_iter().map(|progress| self.finish_target(progress)).collect();
            while matches!(
                active.first(),
                Some(TargetProgress::Finished(_) | TargetProgress::Failed(_))
            ) {
                match active.remove(0) {
                    TargetProgress::Finished(diagnostic) => finished.push(diagnostic),
                    TargetProgress::Failed(error) => return RunEvent::Failed(error),
                    TargetProgress::Pending { .. } => unreachable!("a settled target"),
                }
            }
        }
        RunEvent::TargetsDiagnosed(finished)
    }

    fn begin_queries(&self, progress: &DnsProgress) {
        if let DnsProgress::Pending { action, .. } = progress {
            self.begin_dns(action);
        }
    }

    fn finish_queries(&self, progress: DnsProgress) -> DnsProgress {
        match progress {
            DnsProgress::Pending { series, action } => match self.finish_dns(action) {
                Ok(attempt) => series.advance(DnsEvent::Attempted(attempt)),
                Err(error) => series.advance(DnsEvent::Failed(error)),
            },
            settled => settled,
        }
    }

    fn finish_resolver(&self, progress: ResolverProgress) -> ResolverProgress {
        let mut progress = match progress {
            ResolverProgress::Querying { machine, a, aaaa } => {
                machine.join(self.finish_queries(a), self.finish_queries(aaaa))
            }
            other => other,
        };
        loop {
            progress = match progress {
                ResolverProgress::ReadingNeighbor { machine, identity }
                | ResolverProgress::AwaitingNeighbor { machine, identity } => {
                    machine.observe_neighbor(self.neighbor(&identity))
                }
                settled => return settled,
            };
        }
    }

    fn diagnose_resolvers(&self, hostname: &Hostname, resolvers: Vec<PreparedResolver>) -> RunEvent {
        let mut waiting: VecDeque<(usize, PreparedResolver)> =
            resolvers.into_iter().enumerate().collect();
        let mut active: Vec<ResolverProgress> = Vec::new();
        let mut finished = Vec::new();
        while !waiting.is_empty() || !active.is_empty() {
            while active.len() < MAX_ACTIVE_RESOLVERS {
                let Some((ordinal, prepared)) = waiting.pop_front() else {
                    break;
                };
                active.push(ResolverMachine::start(prepared, hostname, ordinal));
            }
            for progress in &active {
                if let ResolverProgress::Querying { a, aaaa, .. } = progress {
                    self.begin_queries(a);
                    self.begin_queries(aaaa);
                }
            }
            active = active.into_iter().map(|progress| self.finish_resolver(progress)).collect();
            while matches!(
                active.first(),
                Some(ResolverProgress::Finished(_) | ResolverProgress::Failed(_))
            ) {
                match active.remove(0) {
                    ResolverProgress::Finished(diagnostic) => finished.push(diagnostic),
                    ResolverProgress::Failed(error) => return RunEvent::Failed(error),
                    _ => unreachable!("a settled resolver"),
                }
            }
        }
        RunEvent::ResolversDiagnosed(finished)
    }

    fn perform(&self, action: RunAction, cancellation: &CancellationToken) -> RunEvent {
        match action {
            RunAction::CaptureSnapshot => {
                increase(&self.snapshot_calls);
                RunEvent::SnapshotCaptured(self.snapshot.clone())
            }
            RunAction::Resolve(_) => match self.system_resolve(cancellation) {
                Ok(observation) => RunEvent::Resolved(observation),
                Err(error) => RunEvent::Failed(error),
            },
            RunAction::QueryPath(target) => {
                RunEvent::PathAnswered(self.current_operation_path(&target))
            }
            RunAction::ReadNeighbor(identity) => {
                RunEvent::NeighborObserved(self.neighbor(&identity))
            }
            RunAction::DiagnoseResolvers { hostname, resolvers } => {
                self.diagnose_resolvers(&hostname, resolvers)
            }
            RunAction::DiagnoseTargets { targets, port } => self.diagnose_targets(targets, port),
        }
    }
}

fn run_diagnostic(
    request: ParsedRequest,
    io: &ScriptedIo,
    cancellation: &CancellationToken,
) -> DiagnosticResult {
    let mut progress = RunMachine::start(request, cancellation.is_cancelled());
    loop {
        match progress {
            RunProgress::Pending { machine, action } => {
                let event = io.perform(action, cancellation);
                progress = machine.advance(event, cancellation.is_cancelled());
            }
            RunProgress::Finished(result) => return result,
        }
    }
}

fn dns_queue<'a>(
    query_type: DnsQueryType,
    a: &'a RefCell<VecDeque<DnsAttemptResult>>,
    aaaa: &'a RefCell<VecDeque<DnsAttemptResult>>,
) -> &'a RefCell<VecDeque<DnsAttemptResult>> {
    match query_type {
        DnsQueryType::A => a,
        DnsQueryType::Aaaa => aaaa,
    }
}

fn dns_attempt(
    operation: DirectDnsOperation,
    kind: AttemptKind,
    queue: &RefCell<VecDeque<DnsAttemptResult>>,
) -> Result<Attempt, DiagnosticIoError> {
    let outcome = queue.borrow_mut()
        .pop_front()
        .ok_or_else(|| {
            DiagnosticIoError::new(
                DiagnosticIoErrorKind::Internal,
                "missing scripted DNS result",
            )
        })?;
    Ok(attempt(
        operation.attempt_id,
        AttemptSubject::Resolver {
            endpoint: operation.resolver,
            query_name: operation.query_name,
        },
        kind,
        AttemptOutcome::Dns(outcome),
        operation.budget,
    ))
}

fn attempt(
    id: AttemptId,
    subject: AttemptSubject,
    kind: AttemptKind,
    outcome: AttemptOutcome,
    budget: Duration,
) -> Attempt {
    Attempt {
        id,
        subject,
        kind,
        timing: AttemptTiming {
            started_at: Duration::zero(),
            deadline_at: budget,
            completed_at: budget,
        },
        outcome,
        provenance: provenance(),
    }
}

fn provenance() -> Provenance {
    Provenance::new(ProvenanceSource::SyntheticTest).at(Duration::zero())
}

fn test_target() -> TargetIp {
    TargetIp::v4(Ipv4Addr::new(203, 0, 113, 10))
}

fn connected() -> TcpAttemptResult {
    TcpAttemptResult::Connected {
        local: CapabilityValue::unavailable(
            CapabilityReason::QuerySemanticsUnavailable,
            provenance(),
        ),
        remote: CapabilityValue::unavailable(
            CapabilityReason::QuerySemanticsUnavailable,
            provenance(),
        ),
    }
}

fn snapshot(route_behavior: Option<RouteBehavior>) -> InitialNetworkSnapshot {
    let route = route_behavior.map(|behavior| RouteFact {
        destination: IpNet::new(Ipv4Addr::unspecified().into(), 0).expect("valid test route"),
        next_hop: Some(Ipv4Addr::new(192, 0, 2, 1).into()),
        egress_interface: Some(InterfaceId::from_index(2)),
        behavior,
        metric: Some(10),
        table_or_compartment: Some(254),
        preferred_source: None,
        multipath_weight: None,
        provenance: provenance(),
    });
    InitialNetworkSnapshot {
        capture_started_at: Duration::zero(),
        capture_completed_at: Duration::zero(),
        interfaces: CapabilityValue::available(
            vec![InterfaceFact {
                id: InterfaceId::from_index(2),
                system_name: "test0".into(),
                display_name: "test0".into(),
                administrative_state: InterfaceState::Up,
                operational_state: InterfaceState::Up,
                is_loopback: false,
                addresses: Vec::new(),
                provenance: provenance(),
            }],
            provenance(),
        ),
        routes_v4: route.map_or_else(
            || {
                CapabilityValue::unavailable(
                    CapabilityReason::QuerySemanticsUnavailable,
                    provenance(),
                )
            },
            |route| CapabilityValue::available(vec![route], provenance()),
        ),
        routes_v6: CapabilityValue::available(Vec::new(), provenance()),
        routing_policy_facts: CapabilityValue::available(
            RoutingPolicyFacts {
                facts: vec![PathSelectionFact {
                    family: AddressFamily::Ipv4,
                    priority: Some(0),
                    table_or_domain: Some(254),
                    description: "synthetic complete policy".into(),
                    provenance: provenance(),
                }],
                static_selection_complete: true,
                limitations: Vec::new(),
            },
            provenance(),
        ),
        resolver_configuration: CapabilityValue::available(
            ResolverConfiguration {
                endpoints: Vec::new(),
                search_domains: Vec::new(),
                non_dns_sources: Vec::new(),
                dns_protocol_candidates_applicable: CapabilityValue::available(
                    true,
                    provenance(),
                ),
                ordering_is_semantic: true,
                limitations: Vec::new(),
                provenance: provenance(),
            },
            provenance(),
        ),
        inconsistencies: Vec::new(),
    }
}

fn with_dns_resolver(mut snapshot: InitialNetworkSnapshot) -> InitialNetworkSnapshot {
    snapshot.resolver_configuration = CapabilityValue::available(
        ResolverConfiguration {
            endpoints: vec![ResolverEndpoint {
                address: Ipv4Addr::new(192, 0, 2, 53).into(),
                port: 53,
                transport: ResolverTransport::Udp,
                interface: Some(InterfaceId::from_index(2)),
                domains: Vec::new(),
                priority: Some(0),
                provenance: provenance(),
            }],
            search_domains: Vec::new(),
            non_dns_sources: Vec::new(),
            dns_protocol_candidates_applicable: CapabilityValue::available(true, provenance()),
            ordering_is_semantic: true,
            limitations: Vec::new(),
            provenance: provenance(),
        },
        provenance(),
    );
    snapshot
}

fn resolver_failure() -> SystemResolverObservation {
    SystemResolverObservation {
        started_at: Duration::zero(),
        completed_at: Duration::from_millis(1),
        name_resolution: observed(SystemResolverResult::Failed(SystemResolverFailure {
            kind: SystemResolverFailureKind::Timeout,
            platform_code: Some(110),
            platform_message: "synthetic timeout".into(),
        })),
        provenance: provenance(),
    }
}

fn definitive_resolver_failure() -> SystemResolverObservation {
    SystemResolverObservation {
        started_at: Duration::zero(),
        completed_at: Duration::from_millis(1),
        name_resolution: observed(SystemResolverResult::Failed(SystemResolverFailure {
            kind: SystemResolverFailureKind::DefinitiveNoName,
            platform_code: Some(1),
            platform_message: "synthetic no name".into(),
        })),
        provenance: provenance(),
    }
}

fn observed(result: SystemResolverResult) -> NameResolutionObservation {
    NameResolutionObservation {
        input_name: "example.com".into(),
        steps: Vec::new(),
        limitations: Vec::new(),
        result,
    }
}

fn dns_response() -> DnsAttemptResult {
    DnsAttemptResult::Response {
        response_code: 0,
        addresses: Vec::new(),
        aliases: Vec::new(),
        truncated: false,
    }
}

fn resolver_success(targets: Vec<TargetIp>) -> SystemResolverObservation {
    SystemResolverObservation {
        started_at: Duration::zero(),
        completed_at: Duration::from_millis(1),
        name_resolution: observed(SystemResolverResult::Succeeded(ResolverAddressSet::from_raw(targets))),
        provenance: provenance(),
    }
}

fn icmp_message(kind: IcmpMessageKind, responder: Ipv4Addr) -> IcmpAttemptResult {
    IcmpAttemptResult::Message {
        kind,
        responder: responder.into(),
        raw_type: Some(1),
        raw_code: Some(0),
        native_status: None,
    }
}

fn completed(result: DiagnosticResult) -> Box<CompletedDiagnostic> {
    match result {
        DiagnosticResult::Completed(completed) => completed,
        other => panic!("expected completed diagnostic, got {other:?}"),
    }
}

#[test]
fn definitive_no_path_suppresses_all_active_target_traffic() {
    let io = ScriptedIo::new(snapshot(Some(RouteBehavior::Blackhole)));
    let result = run_diagnostic(
        parse_request("203.0.113.10", Some("443")).expect("valid request"),
        &io,
        &CancellationToken::new(),
    );
    let completed = completed(result);
    assert_eq!(
        completed.targets[0].conclusion,
        Conclusion::DefinitiveNoPath
    );
    assert!(completed.targets[0].attempts.is_empty());
    assert_eq!(io.tcp_calls.get(), 0);
    assert_eq!(io.icmp_calls.get(), 0);
}

#[test]
fn unknown_initial_path_still_runs_the_real_primary_check() {
    let io = ScriptedIo::new(snapshot(None)).with_tcp([connected()]);
    let completed = completed(
        run_diagnostic(
            parse_request("203.0.113.10", Some("443")).expect("valid request"),
            &io,
            &CancellationToken::new(),
        ),
    );
    assert_eq!(
        completed.targets[0].primary_outcome,
        PrimaryOutcome::Satisfied
    );
    assert_eq!(io.tcp_calls.get(), 1);
}

#[test]
fn unused_path_capability_does_not_pollute_success_key_evidence() {
    let io = ScriptedIo::new(snapshot(Some(RouteBehavior::Unicast)))
        .with_unavailable_current_path()
        .with_tcp([connected()]);
    let completed = completed(
        run_diagnostic(
            parse_request("203.0.113.10", Some("443")).expect("valid request"),
            &io,
            &CancellationToken::new(),
        ),
    );
    let target = &completed.targets[0];
    assert_eq!(target.primary_outcome, PrimaryOutcome::Satisfied);
    assert_eq!(target.key_evidence.len(), 1);
    assert!(matches!(
        target.key_evidence[0].fact,
        EvidenceFact::Attempt(_)
    ));
}

#[test]
fn unavailable_path_becomes_key_only_when_it_limits_failure_diagnosis() {
    let io = ScriptedIo::new(snapshot(Some(RouteBehavior::Unicast)))
        .with_unavailable_current_path()
        .with_icmp([IcmpAttemptResult::Timeout, IcmpAttemptResult::Timeout]);
    let completed = completed(
        run_diagnostic(
            parse_request("203.0.113.10", None).expect("valid request"),
            &io,
            &CancellationToken::new(),
        ),
    );
    let target = &completed.targets[0];
    assert_eq!(target.conclusion, Conclusion::IcmpEchoTimedOut);
    assert_eq!(
        target.diagnostic_conclusions,
        vec![Conclusion::CapabilityLimited]
    );
    assert!(
        target
            .key_evidence
            .iter()
            .any(|item| matches!(item.fact, EvidenceFact::CapabilityUnavailable { .. }))
    );
}

#[test]
fn tcp_retries_only_timeout_and_preserves_retry_success_as_anomaly() {
    let io = ScriptedIo::new(snapshot(Some(RouteBehavior::Unicast)))
        .with_tcp([TcpAttemptResult::Timeout, connected()]);
    let completed = completed(
        run_diagnostic(
            parse_request("203.0.113.10", Some("443")).expect("valid request"),
            &io,
            &CancellationToken::new(),
        ),
    );
    assert_eq!(
        completed.targets[0].primary_outcome,
        PrimaryOutcome::SatisfiedWithAnomaly
    );
    assert_eq!(
        completed.targets[0].conclusion,
        Conclusion::TcpConnectSucceededAfterTimeout
    );
    assert_eq!(
        completed.exit_status(),
        ExitStatus::DiagnosticNonSuccess
    );
    assert_eq!(io.tcp_calls.get(), 2);
    assert_eq!(io.icmp_calls.get(), 0);
}

#[test]
fn explicit_tcp_failure_is_not_retried_or_followed_by_icmp() {
    let io = ScriptedIo::new(snapshot(Some(RouteBehavior::Unicast)))
        .with_tcp([TcpAttemptResult::ConnectionRefused]);
    let completed = completed(
        run_diagnostic(
            parse_request("203.0.113.10", Some("443")).expect("valid request"),
            &io,
            &CancellationToken::new(),
        ),
    );
    assert_eq!(
        completed.targets[0].conclusion,
        Conclusion::TcpConnectionRefused
    );
    assert_eq!(io.tcp_calls.get(), 1);
    assert_eq!(io.icmp_calls.get(), 0);
}

#[test]
fn address_check_retries_timeout_but_not_an_explicit_icmp_result() {
    let timeout_io = ScriptedIo::new(snapshot(Some(RouteBehavior::Unicast)))
        .with_icmp([IcmpAttemptResult::Timeout, IcmpAttemptResult::Timeout]);
    let timed_out = completed(
        run_diagnostic(
            parse_request("203.0.113.10", None).expect("valid request"),
            &timeout_io,
            &CancellationToken::new(),
        ),
    );
    assert_eq!(
        timed_out.targets[0].primary_outcome,
        PrimaryOutcome::Indeterminate
    );
    assert_eq!(timeout_io.icmp_calls.get(), 2);

    let explicit_io = ScriptedIo::new(snapshot(Some(RouteBehavior::Unicast)))
        .with_icmp([IcmpAttemptResult::ExplicitNetworkError { os_code: Some(1) }]);
    let explicit = completed(
        run_diagnostic(
            parse_request("203.0.113.10", None).expect("valid request"),
            &explicit_io,
            &CancellationToken::new(),
        ),
    );
    assert_eq!(
        explicit.targets[0].conclusion,
        Conclusion::IcmpExplicitFailure
    );
    assert_eq!(explicit_io.icmp_calls.get(), 1);
}

#[test]
fn no_port_first_echo_reply_is_a_clean_satisfied_result() {
    let io = ScriptedIo::new(snapshot(Some(RouteBehavior::Unicast))).with_icmp([icmp_message(
        IcmpMessageKind::EchoReply,
        Ipv4Addr::new(203, 0, 113, 10),
    )]);
    let completed = completed(
        run_diagnostic(
            parse_request("203.0.113.10", None).expect("valid request"),
            &io,
            &CancellationToken::new(),
        ),
    );
    assert_eq!(
        completed.targets[0].primary_outcome,
        PrimaryOutcome::Satisfied
    );
    assert_eq!(completed.targets[0].conclusion, Conclusion::IcmpEchoReplied);
    assert_eq!(completed.exit_status(), ExitStatus::Success);
    assert_eq!(io.icmp_calls.get(), 1);
}

#[test]
fn no_port_unclassified_icmp_message_remains_indeterminate() {
    let io = ScriptedIo::new(snapshot(Some(RouteBehavior::Unicast))).with_icmp([icmp_message(
        IcmpMessageKind::Other,
        Ipv4Addr::new(203, 0, 113, 10),
    )]);
    let completed = completed(
        run_diagnostic(
            parse_request("203.0.113.10", None).expect("valid request"),
            &io,
            &CancellationToken::new(),
        ),
    );
    assert_eq!(
        completed.targets[0].primary_outcome,
        PrimaryOutcome::Indeterminate
    );
    assert_eq!(
        completed.targets[0].conclusion,
        Conclusion::IcmpResponseIndeterminate
    );
    assert_eq!(io.icmp_calls.get(), 1);
}

#[test]
fn no_port_echo_reply_from_another_responder_is_not_target_success() {
    let io = ScriptedIo::new(snapshot(Some(RouteBehavior::Unicast))).with_icmp([icmp_message(
        IcmpMessageKind::EchoReply,
        Ipv4Addr::new(198, 51, 100, 7),
    )]);
    let completed = completed(
        run_diagnostic(
            parse_request("203.0.113.10", None).expect("valid request"),
            &io,
            &CancellationToken::new(),
        ),
    );
    assert_eq!(
        completed.targets[0].primary_outcome,
        PrimaryOutcome::Indeterminate
    );
    assert_eq!(
        completed.targets[0].conclusion,
        Conclusion::IcmpResponseIndeterminate
    );
}

#[test]
fn shared_neighbor_pre_state_is_read_once_before_concurrent_target_traffic() {
    let targets = (1..=6)
        .map(|last| TargetIp::v4(Ipv4Addr::new(203, 0, 113, last)))
        .collect::<Vec<_>>();
    let io = ScriptedIo::new(snapshot(Some(RouteBehavior::Unicast)))
        .with_remote_path()
        .with_resolver(resolver_success(targets))
        .with_tcp((0..6).map(|_| connected()));
    let completed = completed(
        run_diagnostic(
            parse_request("example.com", Some("443")).expect("valid request"),
            &io,
            &CancellationToken::new(),
        ),
    );
    assert_eq!(completed.targets.len(), 6);
    assert_eq!(io.neighbor_calls.get(), 1);
    assert!(
        !io.active_started_before_neighbor_pre_state.get()
    );
    assert!(io.max_active_tcp.get() <= MAX_ACTIVE_TARGETS);
    assert_eq!(io.max_active_tcp.get(), MAX_ACTIVE_TARGETS);
}

#[test]
fn large_resolver_results_keep_only_four_target_diagnostics_active() {
    let targets = (0..128)
        .map(|ordinal| {
            let third = u8::try_from(ordinal / 250).expect("bounded test address");
            let fourth = u8::try_from(ordinal % 250 + 1).expect("bounded test address");
            TargetIp::v4(Ipv4Addr::new(198, 51, third, fourth))
        })
        .collect::<Vec<_>>();
    let io = ScriptedIo::new(snapshot(Some(RouteBehavior::Unicast)))
        .with_resolver(resolver_success(targets))
        .with_tcp((0..128).map(|_| connected()));
    let completed = completed(
        run_diagnostic(
            parse_request("example.com", Some("443")).expect("valid request"),
            &io,
            &CancellationToken::new(),
        ),
    );

    assert_eq!(completed.targets.len(), 128);
    assert_eq!(io.tcp_calls.get(), 128);
    assert_eq!(io.max_active_tcp.get(), MAX_ACTIVE_TARGETS);
}

#[test]
fn one_completed_target_never_cancels_the_remaining_formal_targets() {
    let targets = (1..=6)
        .map(|last| TargetIp::v4(Ipv4Addr::new(203, 0, 113, last)))
        .collect::<Vec<_>>();
    let io = ScriptedIo::new(snapshot(Some(RouteBehavior::Unicast)))
        .with_resolver(resolver_success(targets))
        .with_tcp(
            std::iter::once(TcpAttemptResult::ConnectionRefused)
                .chain((0..5).map(|_| connected())),
        );
    let completed = completed(
        run_diagnostic(
            parse_request("example.com", Some("443")).expect("valid request"),
            &io,
            &CancellationToken::new(),
        ),
    );

    assert_eq!(completed.targets.len(), 6);
    assert_eq!(io.tcp_calls.get(), 6);
    assert_eq!(completed.aggregate_outcome, AggregateOutcome::Mixed);
    assert_eq!(
        completed
            .targets
            .iter()
            .filter(|target| target.primary_outcome == PrimaryOutcome::Satisfied)
            .count(),
        5
    );
    assert_eq!(
        completed
            .targets
            .iter()
            .filter(|target| target.primary_outcome == PrimaryOutcome::NotSatisfied)
            .count(),
        1
    );
}

#[test]
fn direct_dns_success_never_forms_a_hostname_target() {
    let io = ScriptedIo::new(with_dns_resolver(snapshot(Some(RouteBehavior::Unicast))))
        .with_resolver(resolver_failure());
    let response = DnsAttemptResult::Response {
        response_code: 0,
        addresses: vec![Ipv4Addr::new(198, 51, 100, 8).into()],
        aliases: vec!["untrusted\nalias.example".into()],
        truncated: false,
    };
    io.push_udp(DnsQueryType::A, std::slice::from_ref(&response));
    io.push_udp(DnsQueryType::Aaaa, &[response]);
    let completed = completed(
        run_diagnostic(
            parse_request("example.com", Some("443")).expect("valid request"),
            &io,
            &CancellationToken::new(),
        ),
    );
    assert!(completed.targets.is_empty());
    assert_eq!(completed.resolver_diagnostics.len(), 1);
    assert_eq!(completed.resolver_diagnostics[0].attempts.len(), 2);
    let summaries = completed
        .key_evidence
        .iter()
        .filter_map(|evidence| match &evidence.fact {
            EvidenceFact::DirectDnsResult(summary) => Some(summary),
            _ => None,
        })
        .collect::<Vec<_>>();
    assert_eq!(summaries.len(), 2);
    assert!(summaries.iter().all(|summary| {
        summary.contains("1 address(es), 1 alias(es)") && !summary.contains("untrusted")
    }));
    assert_eq!(io.tcp_calls.get(), 0);
    assert_eq!(io.icmp_calls.get(), 0);
    assert!(matches!(
        completed.hostname_resolution,
        HostnameResolutionOutcome::NonDefinitiveFailure {
            direct_dns_was_diagnostic_only: true,
            ..
        }
    ));
}

#[test]
fn inconsistent_resolver_snapshot_is_preserved_and_never_guessed_through() {
    let mut initial = with_dns_resolver(snapshot(Some(RouteBehavior::Unicast)));
    initial.inconsistencies.push(SnapshotInconsistency {
        scope: SnapshotInconsistencyScope::ResolverSelection,
        detail: "resolver interface disappeared during capture".into(),
    });
    let io = ScriptedIo::new(initial).with_resolver(resolver_failure());
    let completed = completed(
        run_diagnostic(
            parse_request("example.com", None).expect("valid request"),
            &io,
            &CancellationToken::new(),
        ),
    );
    assert!(completed.resolver_diagnostics.is_empty());
    assert!(
        completed
            .key_evidence
            .iter()
            .any(|evidence| matches!(evidence.fact, EvidenceFact::SnapshotInconsistency(_)))
    );
    assert_eq!(io.max_active_dns.get(), 0);
}

#[test]
fn definitive_negative_and_zero_address_resolution_never_probe_or_succeed() {
    let definitive_io =
        ScriptedIo::new(with_dns_resolver(snapshot(Some(RouteBehavior::Unicast))))
            .with_resolver(definitive_resolver_failure());
    let definitive = completed(
        run_diagnostic(
            parse_request("example.com", None).expect("valid request"),
            &definitive_io,
            &CancellationToken::new(),
        ),
    );
    assert_eq!(
        definitive.conclusion,
        Conclusion::HostnameResolutionDefinitiveNegative
    );
    assert!(definitive.resolver_diagnostics.is_empty());
    assert_eq!(
        definitive.exit_status(),
        ExitStatus::DiagnosticNonSuccess
    );

    let empty_io = ScriptedIo::new(snapshot(Some(RouteBehavior::Unicast)))
        .with_resolver(resolver_success(Vec::new()));
    let empty = completed(
        run_diagnostic(
            parse_request("example.com", None).expect("valid request"),
            &empty_io,
            &CancellationToken::new(),
        ),
    );
    assert_eq!(empty.conclusion, Conclusion::HostnameNoFormalTargets);
    assert!(empty.targets.is_empty());
    assert_eq!(empty.exit_status(), ExitStatus::DiagnosticNonSuccess);
}

#[test]
fn hostname_target_order_is_resolver_order_even_for_mixed_results() {
    let targets = vec![
        TargetIp::v4(Ipv4Addr::new(203, 0, 113, 20)),
        TargetIp::v4(Ipv4Addr::new(203, 0, 113, 10)),
    ];
    let io = ScriptedIo::new(snapshot(Some(RouteBehavior::Unicast)))
        .with_resolver(resolver_success(targets.clone()))
        .with_tcp([connected(), TcpAttemptResult::ConnectionRefused]);
    let result = completed(
        run_diagnostic(
            parse_request("example.com", Some("443")).expect("valid request"),
            &io,
            &CancellationToken::new(),
        ),
    );
    assert_eq!(result.aggregate_outcome, AggregateOutcome::Mixed);
    assert_eq!(result.targets[0].target, targets[0]);
    assert_eq!(result.targets[1].target, targets[1]);
}

#[test]
fn search_domain_uncertainty_is_retained_as_a_query_semantics_limitation() {
    let mut snapshot = with_dns_resolver(snapshot(Some(RouteBehavior::Unicast)));
    let CapabilityValue::Available { value, .. } = &mut snapshot.resolver_configuration else {
        unreachable!("test resolver configuration is available");
    };
    value.search_domains.push("example.test".into());
    let io = ScriptedIo::new(snapshot).with_resolver(resolver_failure());
    io.push_udp(DnsQueryType::A, &[dns_response()]);
    io.push_udp(DnsQueryType::Aaaa, &[dns_response()]);
    let result = completed(
        run_diagnostic(
            parse_request("single-label", None).expect("valid hostname"),
            &io,
            &CancellationToken::new(),
        ),
    );
    assert!(result.evidence.iter().any(|evidence| matches!(
        &evidence.fact,
        EvidenceFact::CapabilityUnavailable { capability, .. }
            if capability == "system resolver actual query-name equivalence"
    )));
}

#[test]
fn unproven_resolver_transport_is_a_limitation_not_a_protocol_substitution() {
    let mut snapshot = with_dns_resolver(snapshot(Some(RouteBehavior::Unicast)));
    let CapabilityValue::Available { value, .. } = &mut snapshot.resolver_configuration else {
        unreachable!("test resolver configuration is available");
    };
    value.endpoints[0].transport = ResolverTransport::Https;
    let io = ScriptedIo::new(snapshot).with_resolver(resolver_failure());
    let result = completed(
        run_diagnostic(
            parse_request("example.com", None).expect("valid hostname"),
            &io,
            &CancellationToken::new(),
        ),
    );
    assert!(result.resolver_diagnostics.is_empty());
    assert_eq!(io.max_active_dns.get(), 0);
    assert!(result.evidence.iter().any(|evidence| matches!(
        &evidence.fact,
        EvidenceFact::CapabilityUnavailable { capability, .. }
            if capability == "resolver transport diagnosis"
    )));
}

#[test]
fn nonsemantic_unsupported_resolver_order_does_not_change_key_evidence() {
    let mut observed = Vec::new();
    for reverse in [false, true] {
        let mut snapshot = with_dns_resolver(snapshot(Some(RouteBehavior::Unicast)));
        let CapabilityValue::Available { value, .. } = &mut snapshot.resolver_configuration
        else {
            unreachable!("test resolver configuration is available");
        };
        let template = value.endpoints[0].clone();
        value.ordering_is_semantic = false;
        value.endpoints = vec![
            ResolverEndpoint {
                address: Ipv4Addr::new(192, 0, 2, 20).into(),
                transport: ResolverTransport::Https,
                priority: None,
                ..template.clone()
            },
            ResolverEndpoint {
                address: Ipv4Addr::new(192, 0, 2, 10).into(),
                transport: ResolverTransport::Https,
                priority: None,
                ..template
            },
        ];
        if reverse {
            value.endpoints.reverse();
        }
        let io = ScriptedIo::new(snapshot).with_resolver(resolver_failure());
        observed.push(
            completed(
                run_diagnostic(
                    parse_request("example.com", None).expect("valid hostname"),
                    &io,
                    &CancellationToken::new(),
                ),
            )
            .key_evidence,
        );
    }

    assert_eq!(observed[0], observed[1]);
}

#[test]
fn resolver_policy_without_a_dns_source_never_triggers_direct_dns() {
    let mut snapshot = with_dns_resolver(snapshot(Some(RouteBehavior::Unicast)));
    let CapabilityValue::Available { value, .. } = &mut snapshot.resolver_configuration else {
        unreachable!("test resolver configuration is available");
    };
    value.dns_protocol_candidates_applicable = CapabilityValue::available(false, provenance());
    let io = ScriptedIo::new(snapshot).with_resolver(resolver_failure());
    let result = completed(
        run_diagnostic(
            parse_request("example.com", None).expect("valid hostname"),
            &io,
            &CancellationToken::new(),
        ),
    );

    assert!(result.resolver_diagnostics.is_empty());
    assert_eq!(io.max_active_dns.get(), 0);
    assert!(result.evidence.iter().any(|evidence| matches!(
        &evidence.fact,
        EvidenceFact::CapabilityUnavailable { capability, .. }
            if capability == "applicable DNS protocol source"
    )));
}

#[test]
fn resolver_candidate_scheduler_limits_active_candidate_work_to_four() {
    let mut snapshot = with_dns_resolver(snapshot(Some(RouteBehavior::Unicast)));
    let CapabilityValue::Available { value, .. } = &mut snapshot.resolver_configuration else {
        unreachable!("test resolver configuration is available");
    };
    let template = value.endpoints[0].clone();
    value.endpoints = (1..=7)
        .map(|last| ResolverEndpoint {
            address: Ipv4Addr::new(192, 0, 2, last).into(),
            ..template.clone()
        })
        .collect();
    let io = ScriptedIo::new(snapshot).with_resolver(resolver_failure());
    for query_type in [DnsQueryType::A, DnsQueryType::Aaaa] {
        io.push_udp(
            query_type,
            &(0..7).map(|_| dns_response()).collect::<Vec<_>>(),
        );
    }
    let result = completed(
        run_diagnostic(
            parse_request("example.com", None).expect("valid hostname"),
            &io,
            &CancellationToken::new(),
        ),
    );
    assert_eq!(result.resolver_diagnostics.len(), 7);
    // Each active candidate owns exactly two parallel A/AAAA queries.
    assert_eq!(
        io.max_active_dns.get(),
        MAX_ACTIVE_RESOLVERS * 2
    );
}

#[test]
fn product_resolver_normalization_preserves_known_per_interface_priority() {
    let interface = InterfaceId {
        index: 7,
        stable_id: Some("resolver-interface".into()),
    };
    let endpoints = vec![
        ResolverEndpoint {
            address: Ipv4Addr::new(192, 0, 2, 20).into(),
            port: 53,
            transport: ResolverTransport::Udp,
            interface: Some(interface.clone()),
            domains: Vec::new(),
            priority: Some(1),
            provenance: provenance(),
        },
        ResolverEndpoint {
            address: Ipv4Addr::new(192, 0, 2, 10).into(),
            port: 53,
            transport: ResolverTransport::Udp,
            interface: Some(interface),
            domains: Vec::new(),
            priority: Some(0),
            provenance: provenance(),
        },
    ];
    let endpoints = stable_sort(endpoints);

    assert_eq!(endpoints[0].priority, Some(0));
    assert_eq!(endpoints[1].priority, Some(1));

    let mut first = endpoints[0].clone();
    first.domains = vec!["B.Example".into(), "a.example".into()];
    let mut second = first.clone();
    second.domains.reverse();
    assert_eq!(first.sort_key(), second.sort_key());
}

#[test]
fn repeated_udp_timeout_enters_bounded_tcp_transport_comparison() {
    let io = ScriptedIo::new(with_dns_resolver(snapshot(Some(RouteBehavior::Unicast))))
        .with_resolver(resolver_failure());
    for query_type in [DnsQueryType::A, DnsQueryType::Aaaa] {
        io.push_udp(
            query_type,
            &[DnsAttemptResult::Timeout, DnsAttemptResult::Timeout],
        );
        io.push_dns_tcp(
            query_type,
            &[DnsAttemptResult::Response {
                response_code: 0,
                addresses: Vec::new(),
                aliases: Vec::new(),
                truncated: false,
            }],
        );
    }
    let completed = completed(
        run_diagnostic(
            parse_request("example.com", None).expect("valid request"),
            &io,
            &CancellationToken::new(),
        ),
    );
    let attempts = &completed.resolver_diagnostics[0].attempts;
    assert_eq!(attempts.len(), 6);
    assert_eq!(
        attempts
            .iter()
            .filter(|attempt| matches!(attempt.kind, AttemptKind::DnsUdp { .. }))
            .count(),
        4
    );
    assert_eq!(
        attempts
            .iter()
            .filter(|attempt| matches!(attempt.kind, AttemptKind::DnsTcp { .. }))
            .count(),
        2
    );
    assert_eq!(
        io.dns_reasons.borrow_mut()
            .iter()
            .filter(|reason| { **reason == DirectDnsTransportReason::UdpTimeoutComparison })
            .count(),
        2
    );
}

#[test]
fn udp_truncation_immediately_enters_tcp_for_only_that_question() {
    let io = ScriptedIo::new(with_dns_resolver(snapshot(Some(RouteBehavior::Unicast))))
        .with_resolver(resolver_failure());
    io.push_udp(
        DnsQueryType::A,
        &[DnsAttemptResult::Response {
            response_code: 0,
            addresses: Vec::new(),
            aliases: Vec::new(),
            truncated: true,
        }],
    );
    io.push_dns_tcp(
        DnsQueryType::A,
        &[DnsAttemptResult::Response {
            response_code: 0,
            addresses: Vec::new(),
            aliases: Vec::new(),
            truncated: false,
        }],
    );
    io.push_udp(
        DnsQueryType::Aaaa,
        &[DnsAttemptResult::Response {
            response_code: 0,
            addresses: Vec::new(),
            aliases: Vec::new(),
            truncated: false,
        }],
    );
    let completed = completed(
        run_diagnostic(
            parse_request("example.com", None).expect("valid request"),
            &io,
            &CancellationToken::new(),
        ),
    );
    let attempts = &completed.resolver_diagnostics[0].attempts;
    assert_eq!(attempts.len(), 3);
    assert_eq!(
        attempts
            .iter()
            .filter(|attempt| matches!(attempt.kind, AttemptKind::DnsTcp { .. }))
            .count(),
        1
    );
    assert!(
        io.dns_reasons.borrow_mut()
            .contains(&DirectDnsTransportReason::UdpTruncationCompletion)
    );
}

#[test]
fn explicit_target_icmp_result_after_tcp_timeouts_stops_before_neighbor_followup() {
    let io = ScriptedIo::new(snapshot(Some(RouteBehavior::Unicast)))
        .with_remote_path()
        .with_tcp([TcpAttemptResult::Timeout, TcpAttemptResult::Timeout])
        .with_icmp([icmp_message(
            IcmpMessageKind::DestinationUnreachable,
            Ipv4Addr::new(192, 0, 2, 1),
        )]);
    let completed = completed(
        run_diagnostic(
            parse_request("203.0.113.10", Some("443")).expect("valid request"),
            &io,
            &CancellationToken::new(),
        ),
    );
    assert_eq!(
        completed.targets[0].conclusion,
        Conclusion::TcpTimedOutWithExplicitIcmpResult
    );
    assert_eq!(io.neighbor_calls.get(), 1);
    assert_eq!(io.path_calls.get(), 0);
}

#[test]
fn neighbor_terminal_failure_and_unsettled_resolution_are_distinct() {
    let terminal_io = ScriptedIo::new(snapshot(Some(RouteBehavior::Unicast)))
        .with_remote_path()
        .with_neighbor_states([NeighborState::Usable, NeighborState::TerminalFailure])
        .with_icmp([IcmpAttemptResult::Timeout, IcmpAttemptResult::Timeout]);
    let terminal = completed(
        run_diagnostic(
            parse_request("203.0.113.10", None).expect("valid request"),
            &terminal_io,
            &CancellationToken::new(),
        ),
    );
    assert_eq!(
        terminal.targets[0].conclusion,
        Conclusion::NeighborResolutionFailed
    );
    assert!(terminal.targets[0].key_evidence.iter().any(|evidence| {
        matches!(
            evidence.fact,
            EvidenceFact::NeighborTransition {
                before: NeighborObservation::Observed(NeighborState::Usable),
                after: NeighborState::TerminalFailure,
            }
        )
    }));

    let resolving_io = ScriptedIo::new(snapshot(Some(RouteBehavior::Unicast)))
        .with_remote_path()
        .with_neighbor_states([
            NeighborState::Usable,
            NeighborState::Resolving,
            NeighborState::Resolving,
        ])
        .with_icmp([IcmpAttemptResult::Timeout, IcmpAttemptResult::Timeout]);
    let resolving = completed(
        run_diagnostic(
            parse_request("203.0.113.10", None).expect("valid request"),
            &resolving_io,
            &CancellationToken::new(),
        ),
    );
    assert_eq!(
        resolving.targets[0].conclusion,
        Conclusion::NeighborResolutionIndeterminate
    );
    assert_eq!(
        resolving.targets[0].primary_outcome,
        PrimaryOutcome::Indeterminate
    );
    assert_eq!(resolving_io.neighbor_calls.get(), 3);

    let unknown_io = ScriptedIo::new(snapshot(Some(RouteBehavior::Unicast)))
        .with_remote_path()
        .with_neighbor_states([NeighborState::Usable, NeighborState::Unknown])
        .with_icmp([IcmpAttemptResult::Timeout, IcmpAttemptResult::Timeout]);
    let unknown = completed(
        run_diagnostic(
            parse_request("203.0.113.10", None).expect("valid request"),
            &unknown_io,
            &CancellationToken::new(),
        ),
    );
    assert_eq!(unknown.targets[0].conclusion, Conclusion::IcmpEchoTimedOut);
    assert_eq!(
        unknown.targets[0].diagnostic_conclusions,
        vec![Conclusion::NeighborResolutionIndeterminate]
    );
    assert!(
        unknown.targets[0]
            .key_evidence
            .iter()
            .any(|evidence| matches!(
                evidence.fact,
                EvidenceFact::NeighborTransition {
                    after: NeighborState::Unknown,
                    ..
                }
            ))
    );
}

#[test]
fn unavailable_neighbor_read_is_key_evidence_only_after_primary_failure() {
    let io = ScriptedIo::new(snapshot(Some(RouteBehavior::Unicast)))
        .with_remote_path()
        .with_unavailable_neighbor()
        .with_tcp([TcpAttemptResult::Timeout, TcpAttemptResult::Timeout])
        .with_icmp([IcmpAttemptResult::Timeout, IcmpAttemptResult::Timeout]);
    let completed = completed(
        run_diagnostic(
            parse_request("203.0.113.10", Some("443")).expect("valid request"),
            &io,
            &CancellationToken::new(),
        ),
    );
    assert_eq!(
        completed.targets[0].conclusion,
        Conclusion::TcpConnectTimedOut
    );
    assert_eq!(
        completed.targets[0].diagnostic_conclusions,
        vec![Conclusion::CapabilityLimited]
    );
    assert!(
        completed.targets[0]
            .key_evidence
            .iter()
            .any(|evidence| matches!(
                evidence.fact,
                EvidenceFact::CapabilityUnavailable {
                    ref capability,
                    reason: CapabilityReason::OrdinaryUserPermissionDenied,
                } if capability == "post-failure Neighbor observation"
            ))
    );
}

#[test]
fn next_hop_timeout_never_unlocks_path_traffic() {
    let io = ScriptedIo::new(snapshot(Some(RouteBehavior::Unicast)))
        .with_remote_path()
        .with_neighbor_states([NeighborState::Usable, NeighborState::Usable])
        .with_icmp([
            IcmpAttemptResult::Timeout,
            IcmpAttemptResult::Timeout,
            IcmpAttemptResult::Timeout,
            IcmpAttemptResult::Timeout,
        ]);
    let completed = completed(
        run_diagnostic(
            parse_request("203.0.113.10", None).expect("valid request"),
            &io,
            &CancellationToken::new(),
        ),
    );
    assert_eq!(
        completed.targets[0].conclusion,
        Conclusion::IcmpEchoTimedOut
    );
    assert!(completed.targets[0].diagnostic_conclusions.is_empty());
    assert_eq!(io.path_calls.get(), 0);
}

#[test]
fn an_icmp_message_from_another_address_does_not_claim_the_next_hop_responded() {
    let io = ScriptedIo::new(snapshot(Some(RouteBehavior::Unicast)))
        .with_remote_path()
        .with_neighbor_states([NeighborState::Usable, NeighborState::Usable])
        .with_icmp([
            IcmpAttemptResult::Timeout,
            IcmpAttemptResult::Timeout,
            icmp_message(IcmpMessageKind::EchoReply, Ipv4Addr::new(198, 51, 100, 7)),
        ])
        .with_path([Some(AttemptOutcome::Icmp(icmp_message(
            IcmpMessageKind::TimeExceeded,
            Ipv4Addr::new(198, 51, 100, 8),
        )))]);
    let completed = completed(
        run_diagnostic(
            parse_request("203.0.113.10", None).expect("valid request"),
            &io,
            &CancellationToken::new(),
        ),
    );
    assert_eq!(
        completed.targets[0].conclusion,
        Conclusion::IcmpEchoTimedOut
    );
    assert!(completed.targets[0].diagnostic_conclusions.is_empty());
    assert_eq!(io.path_calls.get(), 0);
}

#[test]
fn first_hop_response_unlocks_only_the_matching_path_capability() {
    let io = ScriptedIo::new(snapshot(Some(RouteBehavior::Unicast)))
        .with_remote_path()
        .with_neighbor_states([NeighborState::Usable, NeighborState::Usable])
        .with_tcp([TcpAttemptResult::Timeout, TcpAttemptResult::Timeout])
        .with_icmp([
            IcmpAttemptResult::Timeout,
            IcmpAttemptResult::Timeout,
            icmp_message(IcmpMessageKind::EchoReply, Ipv4Addr::new(192, 0, 2, 1)),
        ]);
    let completed = completed(
        run_diagnostic(
            parse_request("203.0.113.10", Some("443")).expect("valid request"),
            &io,
            &CancellationToken::new(),
        ),
    );
    assert_eq!(
        completed.targets[0].conclusion,
        Conclusion::TcpConnectTimedOut
    );
    assert_eq!(
        completed.targets[0].diagnostic_conclusions,
        vec![Conclusion::FirstHopResponded, Conclusion::CapabilityLimited]
    );
    assert_eq!(io.path_calls.get(), 1);
}

#[test]
fn path_attempts_retain_the_hard_hop_and_attempt_limits() {
    let path_timeouts = (0..usize::from(MAX_PATH_HOP_LIMIT) * 2)
        .map(|_| Some(AttemptOutcome::Tcp(TcpAttemptResult::Timeout)));
    let io = ScriptedIo::new(snapshot(Some(RouteBehavior::Unicast)))
        .with_remote_path()
        .with_neighbor_states([NeighborState::Usable, NeighborState::Usable])
        .with_tcp([TcpAttemptResult::Timeout, TcpAttemptResult::Timeout])
        .with_icmp([
            IcmpAttemptResult::Timeout,
            IcmpAttemptResult::Timeout,
            icmp_message(IcmpMessageKind::EchoReply, Ipv4Addr::new(192, 0, 2, 1)),
        ])
        .with_path(path_timeouts);
    let completed = completed(
        run_diagnostic(
            parse_request("203.0.113.10", Some("443")).expect("valid request"),
            &io,
            &CancellationToken::new(),
        ),
    );
    assert_eq!(
        completed.targets[0].diagnostic_conclusions,
        vec![
            Conclusion::FirstHopResponded,
            Conclusion::PathLimitReachedWithoutEndpointEvidence
        ]
    );
    assert_eq!(
        io.path_calls.get(),
        usize::from(MAX_PATH_HOP_LIMIT) * 2
    );
    assert_eq!(
        completed.targets[0].primary_outcome,
        PrimaryOutcome::NotSatisfied
    );
    assert_eq!(
        completed.targets[0]
            .key_evidence
            .iter()
            .filter(|evidence| matches!(
                evidence.fact,
                EvidenceFact::Attempt(id)
                    if completed.targets[0]
                        .attempts
                        .iter()
                        .any(|attempt| attempt.id == id
                            && matches!(attempt.kind, AttemptKind::TcpPath { .. }))
            ))
            .count(),
        1,
        "the full path history is retained, but default key evidence contains only the final path boundary"
    );
}

#[test]
fn path_time_exceeded_advances_one_hop_and_retains_each_observation() {
    let io = ScriptedIo::new(snapshot(Some(RouteBehavior::Unicast)))
        .with_remote_path()
        .with_neighbor_states([NeighborState::Usable, NeighborState::Usable])
        .with_tcp([TcpAttemptResult::Timeout, TcpAttemptResult::Timeout])
        .with_icmp([
            IcmpAttemptResult::Timeout,
            IcmpAttemptResult::Timeout,
            icmp_message(IcmpMessageKind::EchoReply, Ipv4Addr::new(192, 0, 2, 1)),
        ])
        .with_path([
            Some(AttemptOutcome::Icmp(icmp_message(
                IcmpMessageKind::TimeExceeded,
                Ipv4Addr::new(192, 0, 2, 1),
            ))),
            Some(AttemptOutcome::Tcp(connected())),
        ]);
    let completed = completed(
        run_diagnostic(
            parse_request("203.0.113.10", Some("443")).expect("valid request"),
            &io,
            &CancellationToken::new(),
        ),
    );
    let path_attempts = completed.targets[0]
        .attempts
        .iter()
        .filter_map(|attempt| match attempt.kind {
            AttemptKind::TcpPath { hop_limit } => Some(hop_limit),
            _ => None,
        })
        .collect::<Vec<_>>();
    assert_eq!(path_attempts, vec![1, 2]);
    assert_eq!(
        completed.targets[0].diagnostic_conclusions,
        vec![
            Conclusion::FirstHopResponded,
            Conclusion::PathEndpointResponded
        ]
    );
}

#[test]
fn multiple_same_attempt_path_responders_are_preserved_without_path_interpretation() {
    let first_responder = Ipv4Addr::new(198, 51, 100, 1);
    let second_responder = Ipv4Addr::new(198, 51, 100, 2);
    let io = ScriptedIo::new(snapshot(Some(RouteBehavior::Unicast)))
        .with_remote_path()
        .with_neighbor_states([NeighborState::Usable, NeighborState::Usable])
        .with_tcp([TcpAttemptResult::Timeout, TcpAttemptResult::Timeout])
        .with_icmp([
            IcmpAttemptResult::Timeout,
            IcmpAttemptResult::Timeout,
            icmp_message(IcmpMessageKind::EchoReply, Ipv4Addr::new(192, 0, 2, 1)),
        ])
        .with_path([
            Some(AttemptOutcome::Icmp(IcmpAttemptResult::Messages(vec![
                IcmpMessageObservation {
                    kind: IcmpMessageKind::TimeExceeded,
                    responder: first_responder.into(),
                    raw_type: Some(11),
                    raw_code: Some(0),
                },
                IcmpMessageObservation {
                    kind: IcmpMessageKind::TimeExceeded,
                    responder: second_responder.into(),
                    raw_type: Some(11),
                    raw_code: Some(0),
                },
            ]))),
            Some(AttemptOutcome::Tcp(connected())),
        ]);
    let completed = completed(
        run_diagnostic(
            parse_request("203.0.113.10", Some("443")).expect("valid request"),
            &io,
            &CancellationToken::new(),
        ),
    );

    assert_eq!(
        completed.targets[0].diagnostic_conclusions,
        vec![
            Conclusion::FirstHopResponded,
            Conclusion::MultiplePathRespondersObserved,
            Conclusion::PathEndpointResponded,
        ]
    );
    assert_eq!(
        completed.targets[0].primary_outcome,
        PrimaryOutcome::NotSatisfied
    );
    assert_eq!(
        completed.targets[0].conclusion,
        Conclusion::TcpConnectTimedOut
    );
    assert_eq!(io.path_calls.get(), 2);
    assert!(completed.targets[0].attempts.iter().any(|attempt| {
        matches!(
            &attempt.outcome,
            AttemptOutcome::Icmp(IcmpAttemptResult::Messages(messages))
                if messages.iter().map(|message| message.responder).collect::<Vec<_>>()
                    == vec![
                        IpAddr::V4(first_responder),
                        IpAddr::V4(second_responder),
                    ]
        )
    }));
    assert!(completed.targets[0].key_evidence.iter().any(|evidence| {
        matches!(
            evidence.fact,
            EvidenceFact::Attempt(id)
                if completed.targets[0].attempts.iter().any(|attempt| {
                    attempt.id == id
                        && matches!(attempt.outcome, AttemptOutcome::Icmp(IcmpAttemptResult::Messages(_)))
                })
        )
    }));
}

#[test]
fn unknown_correlated_path_response_is_indeterminate_not_a_hard_termination() {
    let io = ScriptedIo::new(snapshot(Some(RouteBehavior::Unicast)))
        .with_remote_path()
        .with_neighbor_states([NeighborState::Usable, NeighborState::Usable])
        .with_tcp([TcpAttemptResult::Timeout, TcpAttemptResult::Timeout])
        .with_icmp([
            IcmpAttemptResult::Timeout,
            IcmpAttemptResult::Timeout,
            icmp_message(IcmpMessageKind::EchoReply, Ipv4Addr::new(192, 0, 2, 1)),
        ])
        .with_path([Some(AttemptOutcome::Icmp(icmp_message(
            IcmpMessageKind::Other,
            Ipv4Addr::new(198, 51, 100, 3),
        )))]);
    let completed = completed(
        run_diagnostic(
            parse_request("203.0.113.10", Some("443")).expect("valid request"),
            &io,
            &CancellationToken::new(),
        ),
    );

    assert_eq!(
        completed.targets[0].diagnostic_conclusions,
        vec![
            Conclusion::FirstHopResponded,
            Conclusion::PathResponseIndeterminate,
        ]
    );
    assert!(
        !completed.targets[0]
            .diagnostic_conclusions
            .contains(&Conclusion::PathExplicitlyTerminated)
    );
    assert_eq!(io.path_calls.get(), 1);
}

#[test]
fn no_port_timeout_chain_uses_icmp_path_without_inventing_a_tcp_port() {
    let io = ScriptedIo::new(snapshot(Some(RouteBehavior::Unicast)))
        .with_remote_path()
        .with_neighbor_states([NeighborState::Usable, NeighborState::Usable])
        .with_icmp([
            IcmpAttemptResult::Timeout,
            IcmpAttemptResult::Timeout,
            icmp_message(IcmpMessageKind::EchoReply, Ipv4Addr::new(192, 0, 2, 1)),
        ])
        .with_path([
            Some(AttemptOutcome::Icmp(icmp_message(
                IcmpMessageKind::TimeExceeded,
                Ipv4Addr::new(192, 0, 2, 1),
            ))),
            Some(AttemptOutcome::Icmp(icmp_message(
                IcmpMessageKind::EchoReply,
                Ipv4Addr::new(203, 0, 113, 10),
            ))),
        ]);
    let completed = completed(
        run_diagnostic(
            parse_request("203.0.113.10", None).expect("valid request"),
            &io,
            &CancellationToken::new(),
        ),
    );

    assert_eq!(
        completed.targets[0].primary_outcome,
        PrimaryOutcome::Indeterminate
    );
    assert_eq!(
        completed.targets[0].conclusion,
        Conclusion::IcmpEchoTimedOut
    );
    assert_eq!(
        completed.targets[0].diagnostic_conclusions,
        vec![
            Conclusion::FirstHopResponded,
            Conclusion::PathEndpointResponded
        ]
    );
    assert_eq!(io.tcp_calls.get(), 0);
    assert_eq!(
        completed.targets[0]
            .attempts
            .iter()
            .filter_map(|attempt| match attempt.kind {
                AttemptKind::IcmpPath { hop_limit } => Some(hop_limit),
                _ => None,
            })
            .collect::<Vec<_>>(),
        vec![1, 2]
    );
}

#[test]
fn on_link_timeout_stops_without_next_hop_or_path_traffic() {
    let io = ScriptedIo::new(snapshot(Some(RouteBehavior::Unicast)))
        .with_on_link_path()
        .with_neighbor_states([NeighborState::Usable, NeighborState::Usable])
        .with_icmp([IcmpAttemptResult::Timeout, IcmpAttemptResult::Timeout]);
    let completed = completed(
        run_diagnostic(
            parse_request("203.0.113.10", None).expect("valid request"),
            &io,
            &CancellationToken::new(),
        ),
    );
    assert_eq!(
        completed.targets[0].conclusion,
        Conclusion::IcmpEchoTimedOut
    );
    assert_eq!(io.icmp_calls.get(), 2);
    assert_eq!(io.path_calls.get(), 0);
}

#[test]
fn later_path_endpoint_response_does_not_rewrite_the_failed_primary_check() {
    let io = ScriptedIo::new(snapshot(Some(RouteBehavior::Unicast)))
        .with_remote_path()
        .with_neighbor_states([NeighborState::Usable, NeighborState::Usable])
        .with_tcp([TcpAttemptResult::Timeout, TcpAttemptResult::Timeout])
        .with_icmp([
            IcmpAttemptResult::Timeout,
            IcmpAttemptResult::Timeout,
            icmp_message(IcmpMessageKind::EchoReply, Ipv4Addr::new(192, 0, 2, 1)),
        ])
        .with_path([Some(AttemptOutcome::Tcp(connected()))]);
    let completed = completed(
        run_diagnostic(
            parse_request("203.0.113.10", Some("443")).expect("valid request"),
            &io,
            &CancellationToken::new(),
        ),
    );
    assert_eq!(
        completed.targets[0].primary_outcome,
        PrimaryOutcome::NotSatisfied
    );
    assert_eq!(
        completed.targets[0].conclusion,
        Conclusion::TcpConnectTimedOut
    );
    assert_eq!(
        completed.targets[0].diagnostic_conclusions,
        vec![
            Conclusion::FirstHopResponded,
            Conclusion::PathEndpointResponded
        ]
    );
}

#[test]
fn correlated_path_hard_error_terminates_without_advancing_the_hop() {
    let io = ScriptedIo::new(snapshot(Some(RouteBehavior::Unicast)))
        .with_remote_path()
        .with_neighbor_states([NeighborState::Usable, NeighborState::Usable])
        .with_tcp([TcpAttemptResult::Timeout, TcpAttemptResult::Timeout])
        .with_icmp([
            IcmpAttemptResult::Timeout,
            IcmpAttemptResult::Timeout,
            icmp_message(IcmpMessageKind::EchoReply, Ipv4Addr::new(192, 0, 2, 1)),
        ])
        .with_path([Some(AttemptOutcome::Icmp(icmp_message(
            IcmpMessageKind::DestinationUnreachable,
            Ipv4Addr::new(192, 0, 2, 1),
        )))]);
    let completed = completed(
        run_diagnostic(
            parse_request("203.0.113.10", Some("443")).expect("valid request"),
            &io,
            &CancellationToken::new(),
        ),
    );
    assert_eq!(
        completed.targets[0].diagnostic_conclusions,
        vec![
            Conclusion::FirstHopResponded,
            Conclusion::PathExplicitlyTerminated
        ]
    );
    assert_eq!(io.path_calls.get(), 1);
}

#[test]
fn no_port_retry_reply_is_an_anomaly_not_a_clean_success() {
    let io = ScriptedIo::new(snapshot(Some(RouteBehavior::Unicast))).with_icmp([
        IcmpAttemptResult::Timeout,
        icmp_message(IcmpMessageKind::EchoReply, Ipv4Addr::new(203, 0, 113, 10)),
    ]);
    let completed = completed(
        run_diagnostic(
            parse_request("203.0.113.10", None).expect("valid request"),
            &io,
            &CancellationToken::new(),
        ),
    );
    assert_eq!(
        completed.targets[0].primary_outcome,
        PrimaryOutcome::SatisfiedWithAnomaly
    );
    assert_eq!(
        completed.exit_status(),
        ExitStatus::DiagnosticNonSuccess
    );
}

#[test]
fn socket_network_error_is_cross_checked_against_the_initial_path() {
    let io = ScriptedIo::new(snapshot(Some(RouteBehavior::Unicast)))
        .with_tcp([TcpAttemptResult::NoRoute]);
    let completed = completed(
        run_diagnostic(
            parse_request("203.0.113.10", Some("443")).expect("valid request"),
            &io,
            &CancellationToken::new(),
        ),
    );
    assert!(
        completed.targets[0]
            .evidence
            .iter()
            .any(|evidence| matches!(evidence.fact, EvidenceFact::SocketPathComparison(_)))
    );
}

#[test]
fn socket_no_route_comparison_preserves_consistent_and_conflicting_facts() {
    let target = test_target();
    let mut consistent =
        analyze_initial_path(&snapshot(Some(RouteBehavior::Blackhole)), &target);
    assert_eq!(consistent.status, InitialPathStatus::DefinitiveNoPath);
    let mut evidence = Vec::new();
    add_tcp_path_comparison(
        &TcpAttemptResult::NoRoute,
        &consistent,
        &mut evidence,
        1,
    );
    assert_eq!(
        evidence[0].fact,
        EvidenceFact::SocketPathComparison(
            "the socket network-path error agrees with the initial no-path snapshot".into()
        )
    );

    consistent.status = InitialPathStatus::UsablePath;
    let mut evidence = Vec::new();
    add_tcp_path_comparison(
        &TcpAttemptResult::NoRoute,
        &consistent,
        &mut evidence,
        2,
    );
    assert_eq!(
        evidence[0].fact,
        EvidenceFact::SocketPathComparison(
            "the socket returned a network-path error despite a usable initial snapshot path"
                .into()
        )
    );
}

#[test]
fn scoped_ipv6_binding_failure_is_an_execution_error_before_active_io() {
    let io = ScriptedIo::new(snapshot(Some(RouteBehavior::Unicast)));
    let result = run_diagnostic(
        parse_request("fe80::1%999", None).expect("valid scoped IPv6 syntax"),
        &io,
        &CancellationToken::new(),
    );
    assert!(matches!(
        result,
        DiagnosticResult::ExecutionError(ExecutionError {
            kind: ExecutionErrorKind::ScopedIpv6BindingFailed,
            ..
        })
    ));
    assert_eq!(io.tcp_calls.get(), 0);
    assert_eq!(io.icmp_calls.get(), 0);
}

#[test]
fn dns_dependency_keeps_neighbor_pre_and_post_facts_without_recursive_probes() {
    let io = ScriptedIo::new(with_dns_resolver(snapshot(Some(RouteBehavior::Unicast))))
        .with_remote_path()
        .with_neighbor_states([NeighborState::Usable, NeighborState::TerminalFailure])
        .with_resolver(resolver_failure());
    for query_type in [DnsQueryType::A, DnsQueryType::Aaaa] {
        io.push_udp(
            query_type,
            &[DnsAttemptResult::Timeout, DnsAttemptResult::Timeout],
        );
        io.push_dns_tcp(
            query_type,
            &[DnsAttemptResult::Timeout, DnsAttemptResult::Timeout],
        );
    }
    let completed = completed(
        run_diagnostic(
            parse_request("example.com", None).expect("valid request"),
            &io,
            &CancellationToken::new(),
        ),
    );
    let facts = &completed.resolver_diagnostics[0].network_facts;
    assert_eq!(
        facts
            .neighbor_pre_state
            .as_ref()
            .and_then(capability_neighbor_state),
        Some(NeighborState::Usable)
    );
    assert_eq!(
        facts
            .neighbor_post_state
            .as_ref()
            .and_then(capability_neighbor_state),
        Some(NeighborState::TerminalFailure)
    );
    assert_eq!(io.icmp_calls.get(), 0);
    assert_eq!(io.path_calls.get(), 0);
}

#[test]
fn resolver_root_scope_is_more_specific_than_an_unscoped_candidate() {
    let parsed = parse_request("example.com", None).expect("valid hostname");
    let ParsedAddress::Hostname(hostname) = parsed.address else {
        panic!("expected hostname");
    };
    let mut configuration = match with_dns_resolver(snapshot(Some(RouteBehavior::Unicast)))
        .resolver_configuration
    {
        CapabilityValue::Available { value, .. } => value,
        _ => unreachable!("test resolver configuration is available"),
    };
    let mut root = configuration.endpoints[0].clone();
    root.address = Ipv4Addr::new(192, 0, 2, 54).into();
    root.domains = vec!["~.".into()];
    configuration.endpoints.push(root.clone());
    let (selected, unsupported) = select_resolver_candidates(&hostname, &configuration);
    assert!(unsupported.is_empty());
    assert_eq!(selected, vec![root]);
}

#[test]
fn pre_cancelled_run_has_top_priority_and_does_not_capture_a_snapshot() {
    let io = ScriptedIo::new(snapshot(Some(RouteBehavior::Unicast)));
    let cancellation = CancellationToken::new();
    cancellation.cancel();
    let result = run_diagnostic(
        parse_request("203.0.113.10", None).expect("valid request"),
        &io,
        &cancellation,
    );
    assert!(matches!(result, DiagnosticResult::Cancelled(_)));
    assert_eq!(io.snapshot_calls.get(), 0);
}

#[test]
fn cancellation_after_the_last_required_branch_still_outranks_completion() {
    let io = ScriptedIo::new(snapshot(Some(RouteBehavior::Unicast)))
        .with_resolver(definitive_resolver_failure())
        .cancelling_after_resolver();
    let result = run_diagnostic(
        parse_request("example.com", None).expect("valid request"),
        &io,
        &CancellationToken::new(),
    );
    assert!(matches!(result, DiagnosticResult::Cancelled(_)));
}

#[test]
fn resource_exhaustion_is_an_execution_error_not_a_network_result() {
    let io = ScriptedIo::new(snapshot(Some(RouteBehavior::Unicast)))
        .with_tcp([TcpAttemptResult::ResourceExhausted]);
    let result = run_diagnostic(
        parse_request("203.0.113.10", Some("443")).expect("valid request"),
        &io,
        &CancellationToken::new(),
    );
    assert!(matches!(
        result,
        DiagnosticResult::ExecutionError(ExecutionError {
            kind: ExecutionErrorKind::ResourceExhausted,
            ..
        })
    ));
}

#[test]
fn wrong_path_attempt_outcome_is_an_execution_error() {
    let io = ScriptedIo::new(snapshot(Some(RouteBehavior::Unicast)))
        .with_remote_path()
        .with_tcp([TcpAttemptResult::Timeout, TcpAttemptResult::Timeout])
        .with_icmp([
            IcmpAttemptResult::Timeout,
            IcmpAttemptResult::Timeout,
            icmp_message(IcmpMessageKind::EchoReply, Ipv4Addr::new(192, 0, 2, 1)),
        ])
        .with_path([Some(AttemptOutcome::Dns(dns_response()))]);
    let result = run_diagnostic(
        parse_request("203.0.113.10", Some("443")).expect("valid request"),
        &io,
        &CancellationToken::new(),
    );
    assert!(matches!(
        result,
        DiagnosticResult::ExecutionError(ExecutionError {
            kind: ExecutionErrorKind::InternalFailure,
            ..
        })
    ));
}

#[test]
fn one_required_branch_error_cannot_be_hidden_by_another_target_success() {
    let io = ScriptedIo::new(snapshot(Some(RouteBehavior::Unicast)))
        .with_resolver(resolver_success(vec![
            TargetIp::v4(Ipv4Addr::new(203, 0, 113, 1)),
            TargetIp::v4(Ipv4Addr::new(203, 0, 113, 2)),
        ]))
        .with_tcp([connected()])
        .with_tcp_errors([DiagnosticIoErrorKind::Internal]);
    let result = run_diagnostic(
        parse_request("example.com", Some("443")).expect("valid request"),
        &io,
        &CancellationToken::new(),
    );
    assert!(matches!(
        result,
        DiagnosticResult::ExecutionError(ExecutionError {
            kind: ExecutionErrorKind::InternalFailure,
            ..
        })
    ));
}

#[test]
fn cancelled_io_never_wraps_partial_work_as_completed() {
    let io = ScriptedIo::new(snapshot(Some(RouteBehavior::Unicast)))
        .with_tcp_errors([DiagnosticIoErrorKind::Cancelled]);
    let result = run_diagnostic(
        parse_request("203.0.113.10", Some("443")).expect("valid request"),
        &io,
        &CancellationToken::new(),
    );
    assert!(matches!(result, DiagnosticResult::Cancelled(_)));
}

#[test]
fn target_icmp_is_optional_for_port_diagnosis_but_required_without_a_port() {
    let port_io = ScriptedIo::new(snapshot(Some(RouteBehavior::Unicast)))
        .with_tcp([TcpAttemptResult::Timeout, TcpAttemptResult::Timeout])
        .with_icmp_errors([DiagnosticIoErrorKind::RequiredCapabilityUnavailable]);
    let port_result = completed(
        run_diagnostic(
            parse_request("203.0.113.10", Some("443")).expect("valid request"),
            &port_io,
            &CancellationToken::new(),
        ),
    );
    assert_eq!(
        port_result.targets[0].conclusion,
        Conclusion::TcpConnectTimedOut
    );
    assert_eq!(
        port_result.targets[0].diagnostic_conclusions,
        vec![Conclusion::CapabilityLimited]
    );

    let address_io = ScriptedIo::new(snapshot(Some(RouteBehavior::Unicast)))
        .with_icmp_errors([DiagnosticIoErrorKind::RequiredCapabilityUnavailable]);
    let address_result = run_diagnostic(
        parse_request("203.0.113.10", None).expect("valid request"),
        &address_io,
        &CancellationToken::new(),
    );
    assert!(matches!(
        address_result,
        DiagnosticResult::ExecutionError(ExecutionError {
            kind: ExecutionErrorKind::RequiredCapabilityUnavailable,
            ..
        })
    ));
}

#[test]
fn missing_next_hop_icmp_only_limits_depth() {
    let io = ScriptedIo::new(snapshot(Some(RouteBehavior::Unicast)))
        .with_remote_path()
        .with_neighbor_states([NeighborState::Usable, NeighborState::Usable])
        .with_icmp([IcmpAttemptResult::Timeout, IcmpAttemptResult::Timeout])
        .with_icmp_errors([DiagnosticIoErrorKind::RequiredCapabilityUnavailable]);
    let result = completed(
        run_diagnostic(
            parse_request("203.0.113.10", None).expect("valid request"),
            &io,
            &CancellationToken::new(),
        ),
    );
    assert_eq!(
        result.targets[0].primary_outcome,
        PrimaryOutcome::Indeterminate
    );
    assert_eq!(
        result.targets[0].diagnostic_conclusions,
        vec![Conclusion::CapabilityLimited]
    );
    assert_eq!(io.path_calls.get(), 0);
}

#[test]
fn every_state_machine_operation_receives_the_exact_fixed_product_budget() {
    let port_io = ScriptedIo::new(snapshot(Some(RouteBehavior::Unicast)))
        .with_remote_path()
        .with_tcp([TcpAttemptResult::Timeout, TcpAttemptResult::Timeout])
        .with_icmp([
            IcmpAttemptResult::Timeout,
            IcmpAttemptResult::Timeout,
            icmp_message(IcmpMessageKind::EchoReply, Ipv4Addr::new(192, 0, 2, 1)),
        ])
        .with_path([None]);
    let _ = completed(
        run_diagnostic(
            parse_request("203.0.113.10", Some("443")).expect("valid request"),
            &port_io,
            &CancellationToken::new(),
        ),
    );
    {
        let tcp_operations = port_io
            .tcp_operations.borrow_mut();
        assert_eq!(tcp_operations.len(), 2);
        assert!(
            tcp_operations.iter().all(
                |operation| operation.budget == Duration::from_millis(TCP_CONNECT_BUDGET) && operation.port == 443
            )
        );
        let icmp_operations = port_io
            .icmp_operations.borrow_mut();
        assert_eq!(icmp_operations.len(), 3);
        assert!(icmp_operations[..2].iter().all(|operation| {
            operation.budget == Duration::from_millis(TARGET_ICMP_BUDGET)
                && matches!(operation.subject, IcmpEchoSubject::Target(_))
        }));
        assert_eq!(icmp_operations[2].budget, Duration::from_millis(NEXT_HOP_ICMP_BUDGET));
        assert!(matches!(
            icmp_operations[2].subject,
            IcmpEchoSubject::NextHop(_)
        ));
        let path_operations = port_io
            .path_operations.borrow_mut();
        assert_eq!(path_operations.len(), 1);
        assert!(path_operations[0].0);
        assert_eq!(path_operations[0].1.hop_limit, 1);
        assert_eq!(path_operations[0].1.budget, Duration::from_millis(PATH_ATTEMPT_BUDGET));
    }

    let address_io = ScriptedIo::new(snapshot(Some(RouteBehavior::Unicast)))
        .with_remote_path()
        .with_icmp([
            IcmpAttemptResult::Timeout,
            IcmpAttemptResult::Timeout,
            icmp_message(IcmpMessageKind::EchoReply, Ipv4Addr::new(192, 0, 2, 1)),
        ])
        .with_path([None]);
    let _ = completed(
        run_diagnostic(
            parse_request("203.0.113.10", None).expect("valid request"),
            &address_io,
            &CancellationToken::new(),
        ),
    );
    {
        let address_path_operations = address_io
            .path_operations.borrow_mut();
        assert_eq!(address_path_operations.len(), 1);
        assert!(!address_path_operations[0].0);
        assert_eq!(address_path_operations[0].1.hop_limit, 1);
        assert_eq!(address_path_operations[0].1.budget, Duration::from_millis(PATH_ATTEMPT_BUDGET));
    }

    let dns_io = ScriptedIo::new(with_dns_resolver(snapshot(Some(RouteBehavior::Unicast))))
        .with_resolver(resolver_failure());
    dns_io.push_udp(
        DnsQueryType::A,
        &[DnsAttemptResult::Timeout, DnsAttemptResult::Timeout],
    );
    dns_io.push_udp(
        DnsQueryType::Aaaa,
        &[DnsAttemptResult::Timeout, DnsAttemptResult::Timeout],
    );
    dns_io.push_dns_tcp(DnsQueryType::A, &[dns_response()]);
    dns_io.push_dns_tcp(DnsQueryType::Aaaa, &[dns_response()]);
    let _ = completed(
        run_diagnostic(
            parse_request("example.com", None).expect("valid request"),
            &dns_io,
            &CancellationToken::new(),
        ),
    );
    let udp_operations = dns_io
        .dns_udp_operations.borrow_mut();
    assert_eq!(udp_operations.len(), 4);
    assert!(
        udp_operations
            .iter()
            .all(|operation| operation.budget == Duration::from_millis(DNS_UDP_BUDGET))
    );
    let tcp_dns_operations = dns_io
        .dns_tcp_operations.borrow_mut();
    assert_eq!(tcp_dns_operations.len(), 2);
    assert!(
        tcp_dns_operations
            .iter()
            .all(|operation| operation.budget == Duration::from_millis(DNS_TCP_BUDGET))
    );
}

#[test]
fn targets_and_resolvers_never_share_an_attempt_identifier() {
    let targets = (1..=6)
        .map(|last| TargetIp::v4(Ipv4Addr::new(203, 0, 113, last)))
        .collect::<Vec<_>>();
    let io = ScriptedIo::new(snapshot(Some(RouteBehavior::Unicast)))
        .with_resolver(resolver_success(targets))
        .with_tcp((0..12).map(|_| TcpAttemptResult::Timeout))
        .with_icmp((0..12).map(|_| IcmpAttemptResult::Timeout));
    let completed = completed(run_diagnostic(
        parse_request("example.com", Some("443")).expect("valid request"),
        &io,
        &CancellationToken::new(),
    ));
    let mut ids = completed
        .targets
        .iter()
        .flat_map(|target| target.attempts.iter().map(|attempt| attempt.id.0))
        .collect::<Vec<_>>();
    assert_eq!(ids.len(), 24);
    ids.sort_unstable();
    ids.dedup();
    assert_eq!(ids.len(), 24);
}

#[test]
fn every_operation_error_ends_the_run_with_its_own_status() {
    for (kind, code) in [
        (DiagnosticIoErrorKind::Cancelled, 130),
        (DiagnosticIoErrorKind::RequiredCapabilityUnavailable, 2),
        (DiagnosticIoErrorKind::ResourceExhausted, 2),
        (DiagnosticIoErrorKind::Internal, 2),
    ] {
        let io = ScriptedIo::new(snapshot(Some(RouteBehavior::Unicast))).with_tcp_errors([kind]);
        let result = run_diagnostic(
            parse_request("203.0.113.10", Some("443")).expect("valid request"),
            &io,
            &CancellationToken::new(),
        );
        assert_eq!(result.exit_status().code(), code);
        if let DiagnosticResult::ExecutionError(error) = result {
            assert_eq!(error.safe_message, "scripted TCP execution error");
            assert_eq!(
                error.kind,
                match kind {
                    DiagnosticIoErrorKind::RequiredCapabilityUnavailable => {
                        ExecutionErrorKind::RequiredCapabilityUnavailable
                    }
                    DiagnosticIoErrorKind::ResourceExhausted => {
                        ExecutionErrorKind::ResourceExhausted
                    }
                    _ => ExecutionErrorKind::InternalFailure,
                }
            );
        }
    }
}

#[test]
fn an_answer_to_another_question_is_an_internal_failure() {
    let request = parse_request("203.0.113.10", None).expect("valid request");
    let RunProgress::Pending { machine, action } = RunMachine::start(request, false) else {
        panic!("a run starts with an operation");
    };
    assert_eq!(action, RunAction::CaptureSnapshot);
    let RunProgress::Finished(result) =
        machine.advance(RunEvent::TargetsDiagnosed(Vec::new()), false)
    else {
        panic!("a wrong answer ends the run");
    };
    assert_eq!(result.exit_status().code(), 2);
    assert!(matches!(
        result,
        DiagnosticResult::ExecutionError(ExecutionError {
            kind: ExecutionErrorKind::InternalFailure,
            ..
        })
    ));
}

#[test]
fn an_interruption_after_any_operation_ends_the_run() {
    for operations in 0..4 {
        let io = ScriptedIo::new(snapshot(Some(RouteBehavior::Unicast)))
            .with_remote_path()
            .with_tcp([connected()]);
        let cancellation = CancellationToken::new();
        let request = parse_request("203.0.113.10", Some("443")).expect("valid request");
        let mut progress = RunMachine::start(request, false);
        let mut performed = 0;
        let result = loop {
            match progress {
                RunProgress::Pending { machine, action } => {
                    let event = io.perform(action, &cancellation);
                    progress = machine.advance(event, performed >= operations);
                    performed += 1;
                }
                RunProgress::Finished(result) => break result,
            }
        };
        assert!(matches!(result, DiagnosticResult::Cancelled(_)));
    }
}
