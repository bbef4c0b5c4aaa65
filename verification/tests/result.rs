use reach::{
    analyze_initial_path, parse_request, select_key_evidence, AggregateOutcome, AttemptId, Cancelled,
    CapabilityReason, CapabilityValue, CompletedDiagnostic, Conclusion, DiagnosticResult, Duration,
    Evidence, EvidenceFact, EvidenceId, EvidenceRole, EvidenceSubject, ExecutionError,
    ExecutionErrorKind, ExitStatus, HostnameResolutionOutcome, InitialNetworkSnapshot,
    InterfaceFact, Ipv4Addr, ParsedAddress, ParsedRequest, PrimaryOutcome, Provenance,
    ProvenanceSource, ResolverAddressSet, ResolverConfiguration, RouteFact, RoutingPolicyFacts,
    TargetDiagnostic, TargetIp, TargetNetworkFacts,
};

fn target(outcome: PrimaryOutcome, ordinal: usize) -> TargetDiagnostic {
    let target = TargetIp::v4(Ipv4Addr::new(192, 0, 2, ordinal as u8 + 1));
    let snapshot = snapshot();
    let provenance = provenance();
    TargetDiagnostic::new(
        target.clone(),
        Some(ordinal),
        outcome,
        match outcome {
            PrimaryOutcome::Satisfied => Conclusion::TcpConnectSucceeded,
            PrimaryOutcome::SatisfiedWithAnomaly => Conclusion::TcpConnectSucceededAfterTimeout,
            PrimaryOutcome::NotSatisfied => Conclusion::TcpConnectTimedOut,
            PrimaryOutcome::Indeterminate => Conclusion::IcmpResponseIndeterminate,
        },
        TargetNetworkFacts {
            initial_path: analyze_initial_path(&snapshot, &target),
            current_path: CapabilityValue::unavailable(
                CapabilityReason::QuerySemanticsUnavailable,
                provenance,
            ),
            neighbor_pre_state: None,
            neighbor_post_state: None,
        },
        Vec::new(),
        vec![Evidence {
            id: EvidenceId(100 + ordinal as u64),
            subject: EvidenceSubject::Target(target),
            role: EvidenceRole::PrimaryDecision,
            fact: EvidenceFact::Attempt(AttemptId(100 + ordinal as u64)),
        }],
    )
}

fn provenance() -> Provenance {
    Provenance::new(ProvenanceSource::SyntheticTest).at(Duration::zero())
}

fn snapshot() -> InitialNetworkSnapshot {
    let provenance = provenance();
    InitialNetworkSnapshot {
        capture_started_at: Duration::zero(),
        capture_completed_at: Duration::zero(),
        interfaces: CapabilityValue::<Vec<InterfaceFact>>::unavailable(
            CapabilityReason::UnsupportedEnvironment,
            provenance.clone(),
        ),
        routes_v4: CapabilityValue::<Vec<RouteFact>>::unavailable(
            CapabilityReason::UnsupportedEnvironment,
            provenance.clone(),
        ),
        routes_v6: CapabilityValue::<Vec<RouteFact>>::unavailable(
            CapabilityReason::UnsupportedEnvironment,
            provenance.clone(),
        ),
        routing_policy_facts: CapabilityValue::<RoutingPolicyFacts>::unavailable(
            CapabilityReason::UnsupportedEnvironment,
            provenance.clone(),
        ),
        resolver_configuration: CapabilityValue::<ResolverConfiguration>::unavailable(
            CapabilityReason::UnsupportedEnvironment,
            provenance,
        ),
        inconsistencies: Vec::new(),
    }
}

fn completed(
    hostname_resolution: HostnameResolutionOutcome,
    targets: Vec<TargetDiagnostic>,
) -> CompletedDiagnostic {
    CompletedDiagnostic::new(
        hostname_request(),
        snapshot(),
        None,
        hostname_resolution,
        targets,
        Vec::new(),
        Vec::new(),
    )
}

fn hostname_request() -> ParsedRequest {
    let request = parse_request("example.com", Some("443")).expect("valid request");
    assert!(matches!(request.address, ParsedAddress::Hostname(_)));
    request
}

fn successful_resolution(count: usize) -> HostnameResolutionOutcome {
    let addresses = (0..count)
        .map(|ordinal| TargetIp::v4(Ipv4Addr::new(192, 0, 2, ordinal as u8 + 1)))
        .collect();
    HostnameResolutionOutcome::Succeeded(ResolverAddressSet::from_raw(addresses))
}

#[test]
fn only_all_clean_targets_return_zero() {
    let completed = completed(
        successful_resolution(2),
        vec![
            target(PrimaryOutcome::Satisfied, 0),
            target(PrimaryOutcome::Satisfied, 1),
        ],
    );
    assert_eq!(completed.aggregate_outcome, AggregateOutcome::AllSatisfied);
    assert_eq!(completed.exit_status(), ExitStatus::Success);
}

#[test]
fn retry_success_is_not_clean_success() {
    let completed = completed(
        successful_resolution(1),
        vec![target(PrimaryOutcome::SatisfiedWithAnomaly, 0)],
    );
    assert_eq!(
        completed.aggregate_outcome,
        AggregateOutcome::SatisfiedWithAnomaly
    );
    assert_eq!(completed.exit_status(), ExitStatus::DiagnosticNonSuccess);
}

#[test]
fn mixed_target_results_are_preserved() {
    let completed = completed(
        successful_resolution(2),
        vec![
            target(PrimaryOutcome::NotSatisfied, 1),
            target(PrimaryOutcome::Satisfied, 0),
        ],
    );
    assert_eq!(completed.aggregate_outcome, AggregateOutcome::Mixed);
    assert_eq!(completed.targets[0].resolver_ordinal, Some(0));
    assert_eq!(completed.targets[1].resolver_ordinal, Some(1));
    assert_eq!(completed.exit_status(), ExitStatus::DiagnosticNonSuccess);
}

#[test]
fn hostname_aggregate_selects_representatives_without_erasing_per_target_evidence() {
    let targets = (0..8)
        .map(|ordinal| target(PrimaryOutcome::Satisfied, ordinal))
        .collect::<Vec<_>>();
    let completed = completed(successful_resolution(8), targets);

    assert!(
        completed
            .targets
            .iter()
            .all(|target| target.key_evidence.len() == 1)
    );
    assert_eq!(
        completed
            .key_evidence
            .iter()
            .filter(|evidence| matches!(evidence.subject, EvidenceSubject::Target(_)))
            .count(),
        1
    );
    assert_eq!(completed.evidence.len(), 8);
}

#[test]
fn empty_formal_target_set_never_uses_vacuous_success() {
    let completed = completed(
        HostnameResolutionOutcome::SucceededWithoutUsableAddress,
        Vec::new(),
    );
    assert_eq!(
        completed.aggregate_outcome,
        AggregateOutcome::NoFormalTargets
    );
    assert_eq!(completed.exit_status(), ExitStatus::DiagnosticNonSuccess);
}

#[test]
fn key_evidence_selection_is_role_then_semantic_id() {
    let evidence = vec![
        Evidence {
            id: EvidenceId(8),
            subject: EvidenceSubject::Run,
            role: EvidenceRole::BoundaryNarrowing,
            fact: EvidenceFact::InitialPath("usable".into()),
        },
        Evidence {
            id: EvidenceId(9),
            subject: EvidenceSubject::Run,
            role: EvidenceRole::Context,
            fact: EvidenceFact::CurrentPath("unchanged".into()),
        },
        Evidence {
            id: EvidenceId(3),
            subject: EvidenceSubject::Run,
            role: EvidenceRole::PrimaryDecision,
            fact: EvidenceFact::Attempt(AttemptId(1)),
        },
        Evidence {
            id: EvidenceId(2),
            subject: EvidenceSubject::Run,
            role: EvidenceRole::AnomalyHistory,
            fact: EvidenceFact::Attempt(AttemptId(0)),
        },
    ];

    let selected = select_key_evidence(&evidence);
    assert_eq!(
        selected.iter().map(|item| item.id).collect::<Vec<_>>(),
        vec![EvidenceId(3), EvidenceId(2), EvidenceId(8)]
    );
}

#[test]
fn cancellation_and_execution_error_outrank_completed_results() {
    let cancelled = DiagnosticResult::Cancelled(Cancelled {
        safe_message: "interrupted".into(),
    });
    let error = DiagnosticResult::ExecutionError(ExecutionError {
        kind: ExecutionErrorKind::InternalFailure,
        safe_message: "internal failure".into(),
        partial_evidence: Vec::new(),
    });
    assert_eq!(cancelled.exit_status(), ExitStatus::Cancelled);
    assert_eq!(error.exit_status(), ExitStatus::ExecutionError);
}

#[test]
fn selecting_key_evidence_again_changes_nothing() {
    let item = |id: u64, role: EvidenceRole| Evidence {
        id: EvidenceId(id),
        subject: EvidenceSubject::Run,
        role,
        fact: EvidenceFact::Attempt(AttemptId(id)),
    };
    let evidence = [
        item(5, EvidenceRole::BoundaryNarrowing),
        item(4, EvidenceRole::Context),
        item(7, EvidenceRole::PrimaryDecision),
        item(2, EvidenceRole::PrimaryDecision),
    ];
    let selected = select_key_evidence(&evidence);
    assert_eq!(
        selected.iter().map(|item| item.id).collect::<Vec<_>>(),
        vec![EvidenceId(2), EvidenceId(7), EvidenceId(5)]
    );
    assert_eq!(select_key_evidence(&selected), selected);
}
