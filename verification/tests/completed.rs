use reach::presentation::completed::{
    attempt_evidence_summary, diagnostic_note, evidence_summary, friendly_attempt_outcome,
    local_attempt_ordinal, neighbor_observation_label, render,
};
use reach::presentation::name_resolution::dns_attempt_response_label;
use reach::presentation::Theme;
use reach::{
    Attempt, AttemptId, AttemptKind, AttemptOutcome, AttemptSubject, AttemptTiming,
    CapabilityReason, CapabilityValue, CompletedDiagnostic, Conclusion, DnsAttemptResult,
    DnsExchangeObservation, DnsExchangeOutcome, DnsExchangePurpose, DnsExchangeTransport,
    DnsQueryType, DnsResponseCode, Duration, Evidence, EvidenceFact, EvidenceId, EvidenceRole,
    EvidenceSubject, Hostname, HostnameResolutionOutcome, IcmpAttemptResult, IcmpMessageKind,
    IcmpNativeStatus, InitialNetworkSnapshot, InterfaceFact, IpEndpoint, Ipv4Addr,
    NameResolutionEvidence, NameResolutionEvidenceOutcome, NameResolutionObservation,
    NameResolutionSource, NameResolutionStep, NameResolutionStepOutcome, NeighborObservation,
    NeighborState, PrimaryOutcome, Provenance, ProvenanceSource, ResolverAddressSet,
    ResolverConfiguration, ResolverDependencyDiagnostic, ResolverEndpoint, ResolverTransport,
    RouteFact, SnapshotInconsistency, SocketAddr, SystemResolverFailure, SystemResolverFailureKind,
    SystemResolverObservation, SystemResolverResult, TargetDiagnostic, TargetIp,
    TargetNetworkFacts, TcpAttemptResult, analyze_initial_path, parse_request,
};
use unicode_width::UnicodeWidthStr as _;

#[test]
fn timeout_and_icmp_reply_uses_only_numbered_key_evidence() {
    let completed = timeout_then_icmp_result();
    let output = render(&completed, Theme::plain());

    assert!(output.contains("Two TCP connection attempts to 192.0.2.20:8443 timed out"));
    assert!(output.contains("That IP address replied to ICMP Echo"));
    assert!(output.contains("TCP connect #1: No result before the 5 s deadline"));
    assert!(output.contains("TCP connect #2: No result before the 5 s deadline"));
    assert!(output.contains("ICMP Echo: Reply from 192.0.2.20"));
    assert!(output.contains("This does not prove that the port is closed"));
    for forbidden in [
        "TECHNICAL DETAILS",
        "NETWORK ATTEMPTS",
        "PATH AND NEIGHBOR FACTS",
        "raw-state=",
        "Interface identity",
        "System DNS",
        "send this entire report",
    ] {
        assert!(
            !output.contains(forbidden),
            "unexpected {forbidden:?}\n{output}"
        );
    }
}

#[test]
fn attempt_numbers_are_local_to_one_logical_operation() {
    let mut attempts = vec![
        attempt(
            1,
            AttemptKind::TcpConnect,
            AttemptOutcome::Tcp(TcpAttemptResult::Timeout),
            Duration::from_secs(5),
            Duration::from_secs(5),
        ),
        attempt(
            2,
            AttemptKind::TcpConnect,
            AttemptOutcome::Tcp(TcpAttemptResult::Timeout),
            Duration::from_secs(5),
            Duration::from_secs(5),
        ),
        attempt(
            3,
            AttemptKind::TargetIcmpEcho,
            AttemptOutcome::Icmp(IcmpAttemptResult::Timeout),
            Duration::from_secs(3),
            Duration::from_secs(3),
        ),
    ];
    assert_eq!(local_attempt_ordinal(&attempts, 0), Some(1));
    assert_eq!(local_attempt_ordinal(&attempts, 1), Some(2));
    assert_eq!(local_attempt_ordinal(&attempts, 2), None);

    attempts.push(attempt(
        4,
        AttemptKind::TargetIcmpEcho,
        AttemptOutcome::Icmp(IcmpAttemptResult::Timeout),
        Duration::from_secs(3),
        Duration::from_secs(3),
    ));
    assert_eq!(local_attempt_ordinal(&attempts, 2), Some(1));
    assert_eq!(local_attempt_ordinal(&attempts, 3), Some(2));
}

#[test]
fn clean_success_stops_after_the_minimum_explanation() {
    let completed = clean_icmp_success();
    let output = render(&completed, Theme::plain());

    assert!(output.starts_with("✓ ADDRESS RESPONDED\n"));
    assert!(output.contains("This does not test a TCP port, website"));
    assert!(!output.contains("EVIDENCE"));
    assert!(!output.contains("TECHNICAL DETAILS"));
    assert!(!output.contains("0 ms"));
    assert!(!output.contains('\u{1b}'));
}

#[test]
fn name_resolution_section_explains_a_no_formal_target_failure() {
    let snapshot = synthetic_snapshot();
    let exchanges = vec![
        formal_exchange(
            DnsQueryType::A,
            DnsResponseCode::NxDomain,
            "missing.example.",
            Duration::from_millis(12),
        ),
        formal_exchange(
            DnsQueryType::Aaaa,
            DnsResponseCode::NxDomain,
            "missing.example.",
            Duration::from_millis(11),
        ),
    ];
    let completed = CompletedDiagnostic::new(
        parse_request("missing.example", None).expect("valid request"),
        snapshot.clone(),
        Some(resolver_observation(
            "missing.example",
            vec![NameResolutionStep {
                source: NameResolutionSource::Dns,
                query_names: vec!["missing.example".into()],
                dns_exchanges: exchanges,
                outcome: NameResolutionStepOutcome::NotFound,
                provenance: provenance(),
            }],
            Vec::new(),
            SystemResolverResult::Failed(SystemResolverFailure {
                kind: SystemResolverFailureKind::NoUsableAddress,
                platform_code: None,
                platform_message: "no usable address".into(),
            }),
        )),
        HostnameResolutionOutcome::NegativeWithoutUsableAddress {
            platform_code: None,
        },
        Vec::new(),
        Vec::new(),
        vec![
            Evidence {
                id: EvidenceId(1),
                subject: EvidenceSubject::Hostname,
                role: EvidenceRole::PrimaryDecision,
                fact: EvidenceFact::NameResolution(NameResolutionEvidence {
                    outcome: NameResolutionEvidenceOutcome::NegativeWithoutUsableAddress,
                }),
            },
            Evidence {
                id: EvidenceId(2),
                subject: EvidenceSubject::Hostname,
                role: EvidenceRole::CapabilityLimitation,
                fact: EvidenceFact::CapabilityUnavailable {
                    capability: "resolver transport diagnosis".into(),
                    reason: CapabilityReason::QuerySemanticsUnavailable,
                },
            },
        ],
    );
    let output = render(&completed, Theme::plain());

    assert!(output.starts_with("× NO USABLE IP ADDRESS\n"));
    assert!(output.contains("Requested test     ICMP Echo"));
    assert!(output.contains("Result             Not started"));
    assert!(output.contains("NAME RESOLUTION"));
    assert!(output.contains("Source             DNS"));
    assert!(output.contains("DNS server         192.0.2.53:53"));
    assert!(output.contains("Query              missing.example"));
    assert!(output.contains("A                  NXDOMAIN, 12 ms"));
    assert!(output.contains("AAAA               NXDOMAIN, 11 ms"));
    assert!(output.contains("The hostname did not resolve to an IP address"));
    assert!(output.contains("No ICMP or TCP check was started"));
    assert!(output.contains("Check that the hostname is correct"));
    assert!(output.contains("Check this computer's name-resolution/DNS configuration"));
    assert!(!output.contains("Any direct DNS evidence"));
    assert!(!output.contains("DNS DIAGNOSTIC"));
    assert!(output.contains("EVIDENCE"));
    assert!(!output.contains("Name resolution: returned no usable IPv4 or IPv6 address"));
    assert!(output.contains("resolver transport diagnosis unavailable"));
    assert!(!output.contains('\u{1b}'));
}

#[test]
fn diagnostic_dns_section_is_labeled_and_conditional() {
    let snapshot = synthetic_snapshot();
    let completed = CompletedDiagnostic::new(
        parse_request("missing.example", None).expect("valid request"),
        snapshot.clone(),
        Some(resolver_observation(
            "missing.example",
            vec![NameResolutionStep {
                source: NameResolutionSource::SystemResolverOpaque,
                query_names: Vec::new(),
                dns_exchanges: Vec::new(),
                outcome: NameResolutionStepOutcome::NotFound,
                provenance: provenance(),
            }],
            vec!["the exact formal DNS server identity selected by the platform system resolver is not exposed by the selected ordinary-user API".into()],
            SystemResolverResult::Failed(SystemResolverFailure {
                kind: SystemResolverFailureKind::NoUsableAddress,
                platform_code: None,
                platform_message: "no usable address".into(),
            }),
        )),
        HostnameResolutionOutcome::NegativeWithoutUsableAddress { platform_code: None },
        Vec::new(),
        resolver_diagnostics(snapshot),
        vec![Evidence {
            id: EvidenceId(1),
            subject: EvidenceSubject::Hostname,
            role: EvidenceRole::PrimaryDecision,
            fact: EvidenceFact::NameResolution(NameResolutionEvidence {
                outcome: NameResolutionEvidenceOutcome::NegativeWithoutUsableAddress,
            }),
        }],
    );
    let output = render(&completed, Theme::plain());

    assert!(output.contains("Formal DNS server  Not exposed by this platform"));
    assert!(output.contains("DNS DIAGNOSTIC"));
    assert!(output.contains("Server             192.0.2.53:53"));
    assert!(output.contains("Query              missing.example"));
    assert!(output.contains("A                  NXDOMAIN"));
    assert!(output.contains("AAAA               SERVFAIL"));
    let flattened = output.split_whitespace().collect::<Vec<_>>().join(" ");
    assert!(flattened.contains(
        "Any direct DNS evidence above is failure diagnosis only and was not used as a destination address"
    ));
    assert!(!output.contains("EVIDENCE"));
}

#[test]
fn search_expansion_is_displayed_only_when_the_query_name_differs() {
    let snapshot = synthetic_snapshot();
    let exchanges = vec![
        formal_exchange(
            DnsQueryType::A,
            DnsResponseCode::NxDomain,
            "admin.corp.example.",
            Duration::zero(),
        ),
        formal_exchange(
            DnsQueryType::A,
            DnsResponseCode::NxDomain,
            "admin.",
            Duration::zero(),
        ),
        formal_exchange(
            DnsQueryType::Aaaa,
            DnsResponseCode::NxDomain,
            "admin.corp.example.",
            Duration::zero(),
        ),
        formal_exchange(
            DnsQueryType::Aaaa,
            DnsResponseCode::NxDomain,
            "admin.",
            Duration::zero(),
        ),
    ];
    let completed = CompletedDiagnostic::new(
        parse_request("admin", None).expect("valid request"),
        snapshot.clone(),
        Some(resolver_observation(
            "admin",
            vec![NameResolutionStep {
                source: NameResolutionSource::Dns,
                query_names: vec!["admin.corp.example".into(), "admin".into()],
                dns_exchanges: exchanges,
                outcome: NameResolutionStepOutcome::NotFound,
                provenance: provenance(),
            }],
            Vec::new(),
            SystemResolverResult::Failed(SystemResolverFailure {
                kind: SystemResolverFailureKind::NoUsableAddress,
                platform_code: None,
                platform_message: "no usable address".into(),
            }),
        )),
        HostnameResolutionOutcome::NegativeWithoutUsableAddress {
            platform_code: None,
        },
        Vec::new(),
        Vec::new(),
        Vec::new(),
    );
    let output = render(&completed, Theme::plain());

    assert!(output.contains("Input              admin"));
    assert!(output.contains("Query              admin.corp.example, admin"));
}

#[test]
fn hostname_dns_success_shows_the_actual_dns_server_compactly() {
    let snapshot = synthetic_snapshot();
    let target_ip = TargetIp::v4(Ipv4Addr::new(192, 0, 2, 20));
    let completed = CompletedDiagnostic::new(
        parse_request("example.com", None).expect("valid request"),
        snapshot.clone(),
        Some(resolver_observation(
            "example.com",
            vec![NameResolutionStep {
                source: NameResolutionSource::Dns,
                query_names: vec!["example.com".into()],
                dns_exchanges: vec![formal_exchange(
                    DnsQueryType::A,
                    DnsResponseCode::NoError,
                    "example.com.",
                    Duration::from_millis(8),
                )],
                outcome: NameResolutionStepOutcome::Found,
                provenance: provenance(),
            }],
            Vec::new(),
            SystemResolverResult::Succeeded(
                ResolverAddressSet::from_raw(vec![target_ip.clone()]),
            ),
        )),
        HostnameResolutionOutcome::Succeeded(ResolverAddressSet::from_raw(vec![
            target_ip.clone(),
        ])),
        vec![result_only_target(
            &snapshot,
            target_ip,
            0,
            PrimaryOutcome::Satisfied,
            Conclusion::IcmpEchoReplied,
        )],
        Vec::new(),
        Vec::new(),
    );
    let output = render(&completed, Theme::plain());

    assert!(output.contains("Name resolution    1 address returned, 1 unique address checked"));
    assert!(output.contains("DNS server         192.0.2.53:53"));
    assert!(!output.contains("NAME RESOLUTION"));
    assert!(!output.contains("EVIDENCE"));
}

#[test]
fn hosts_success_uses_name_source_without_a_dns_server_claim() {
    let snapshot = synthetic_snapshot();
    let target_ip = TargetIp::v4(Ipv4Addr::new(192, 0, 2, 20));
    let completed = CompletedDiagnostic::new(
        parse_request("app.internal", None).expect("valid request"),
        snapshot.clone(),
        Some(resolver_observation(
            "app.internal",
            vec![NameResolutionStep {
                source: NameResolutionSource::Hosts,
                query_names: Vec::new(),
                dns_exchanges: Vec::new(),
                outcome: NameResolutionStepOutcome::Found,
                provenance: provenance(),
            }],
            Vec::new(),
            SystemResolverResult::Succeeded(
                ResolverAddressSet::from_raw(vec![target_ip.clone()]),
            ),
        )),
        HostnameResolutionOutcome::Succeeded(ResolverAddressSet::from_raw(vec![
            target_ip.clone(),
        ])),
        vec![result_only_target(
            &snapshot,
            target_ip,
            0,
            PrimaryOutcome::Satisfied,
            Conclusion::IcmpEchoReplied,
        )],
        Vec::new(),
        Vec::new(),
    );
    let output = render(&completed, Theme::plain());

    assert!(output.contains("Name source        hosts"));
    assert!(!output.contains("DNS server"));
}

#[test]
fn dns_response_codes_render_symbolically_and_unknown_codes_stay_numbered() {
    assert_eq!(
        dns_attempt_response_label(
            DnsResponseCode::NxDomain,
            &vec![],
            &vec![],
            false,
            DnsQueryType::A
        ),
        "NXDOMAIN"
    );
    assert_eq!(
        dns_attempt_response_label(
            DnsResponseCode::ServFail,
            &vec![],
            &vec![],
            false,
            DnsQueryType::Aaaa
        ),
        "SERVFAIL"
    );
    assert_eq!(
        dns_attempt_response_label(
            DnsResponseCode::Refused,
            &vec![],
            &vec![],
            false,
            DnsQueryType::A
        ),
        "REFUSED"
    );
    assert_eq!(
        dns_attempt_response_label(
            DnsResponseCode::NoError,
            &vec![],
            &vec![],
            false,
            DnsQueryType::A
        ),
        "No A address returned"
    );
    assert_eq!(
        dns_attempt_response_label(
            DnsResponseCode::NoError,
            &vec![],
            &vec![],
            false,
            DnsQueryType::Aaaa
        ),
        "No AAAA address returned"
    );
    assert_eq!(
        dns_attempt_response_label(
            DnsResponseCode::NoError,
            &vec![],
            &vec![],
            true,
            DnsQueryType::A
        ),
        "Response truncated"
    );
    assert_eq!(
        dns_attempt_response_label(
            DnsResponseCode::Other(12),
            &vec![],
            &vec![],
            false,
            DnsQueryType::A
        ),
        "DNS response code 12"
    );
    assert_eq!(
        dns_attempt_response_label(
            DnsResponseCode::NoError,
            &vec![Ipv4Addr::new(192, 0, 2, 1).into()],
            &vec![],
            false,
            DnsQueryType::A
        ),
        "192.0.2.1"
    );
    assert_eq!(
        dns_attempt_response_label(
            DnsResponseCode::NoError,
            &vec![Ipv4Addr::new(192, 0, 2, 1).into()],
            &vec!["cdn.example".to_owned()],
            false,
            DnsQueryType::A
        ),
        "192.0.2.1 (alias: cdn.example)"
    );
}

fn resolver_observation(
    input_name: &str,
    steps: Vec<NameResolutionStep>,
    limitations: Vec<String>,
    result: SystemResolverResult,
) -> SystemResolverObservation {
    SystemResolverObservation {
        started_at: Duration::zero(),
        completed_at: Duration::from_millis(1),
        name_resolution: NameResolutionObservation {
            input_name: input_name.into(),
            steps,
            limitations,
            result,
        },
        provenance: provenance(),
    }
}

fn formal_exchange(
    query_type: DnsQueryType,
    response_code: DnsResponseCode,
    query_name: &str,
    duration: Duration,
) -> DnsExchangeObservation {
    let started_at = Duration::zero();
    DnsExchangeObservation {
        purpose: DnsExchangePurpose::FormalResolution,
        endpoint: IpEndpoint {
            address: Ipv4Addr::new(192, 0, 2, 53).into(),
            port: 53,
            scope_id: None,
        },
        transport: DnsExchangeTransport::Udp,
        query_name: query_name.into(),
        query_type,
        outcome: DnsExchangeOutcome::Response {
            response_code,
            addresses: Vec::new(),
            aliases: Vec::new(),
            truncated: false,
        },
        timing: AttemptTiming {
            started_at,
            deadline_at: Duration::from_secs(1),
            completed_at: sum(started_at, duration),
        },
        provenance: provenance(),
    }
}

fn resolver_diagnostics(
    snapshot: InitialNetworkSnapshot,
) -> Vec<ResolverDependencyDiagnostic> {
    let endpoint = ResolverEndpoint {
        address: Ipv4Addr::new(192, 0, 2, 53).into(),
        port: 53,
        transport: ResolverTransport::Udp,
        interface: None,
        domains: Vec::new(),
        priority: Some(0),
        provenance: provenance(),
    };
    let target = TargetIp::v4(Ipv4Addr::new(192, 0, 2, 53));
    let attempts = vec![
        dns_attempt(
            1,
            DnsQueryType::A,
            DnsAttemptResult::Response {
                response_code: 3,
                addresses: Vec::new(),
                aliases: Vec::new(),
                truncated: false,
            },
        ),
        dns_attempt(
            2,
            DnsQueryType::Aaaa,
            DnsAttemptResult::Response {
                response_code: 2,
                addresses: Vec::new(),
                aliases: Vec::new(),
                truncated: false,
            },
        ),
    ];
    vec![ResolverDependencyDiagnostic::new(
        endpoint,
        TargetNetworkFacts {
            initial_path: analyze_initial_path(&snapshot, &target),
            current_path: CapabilityValue::unavailable(
                CapabilityReason::QuerySemanticsUnavailable,
                provenance(),
            ),
            neighbor_pre_state: None,
            neighbor_post_state: None,
        },
        attempts,
        Vec::new(),
    )]
}

fn dns_attempt(id: u64, query_type: DnsQueryType, outcome: DnsAttemptResult) -> Attempt {
    Attempt {
        id: AttemptId(id),
        subject: AttemptSubject::Resolver {
            endpoint: SocketAddr::new(Ipv4Addr::new(192, 0, 2, 53).into(), 53),
            query_name: "missing.example".into(),
        },
        kind: AttemptKind::DnsUdp { query_type },
        timing: AttemptTiming {
            started_at: Duration::zero(),
            deadline_at: Duration::from_secs(2),
            completed_at: Duration::from_millis(12),
        },
        outcome: AttemptOutcome::Dns(outcome),
        provenance: provenance(),
    }
}

#[test]
fn name_resolution_is_never_called_system_dns() {
    let completed = timeout_then_icmp_result();
    let output = render(&completed, Theme::plain());
    assert!(output.contains("Name resolution"));
    assert!(!output.to_ascii_lowercase().contains("system dns"));

    let negative = CompletedDiagnostic::new(
        parse_request("missing.invalid", None).expect("valid request"),
        synthetic_snapshot(),
        Some(SystemResolverObservation {
            started_at: Duration::zero(),
            completed_at: Duration::from_millis(1),
            name_resolution: NameResolutionObservation {
                input_name: "missing.invalid".into(),
                steps: vec![NameResolutionStep {
                    source: NameResolutionSource::SystemResolverOpaque,
                    query_names: Vec::new(),
                    dns_exchanges: Vec::new(),
                    outcome: NameResolutionStepOutcome::NotFound,
                    provenance: provenance(),
                }],
                limitations: vec![
                    "the exact formal DNS server identity selected by the platform system resolver is not exposed by the selected ordinary-user API"
                        .into(),
                ],
                result: SystemResolverResult::Failed(SystemResolverFailure {
                    kind: SystemResolverFailureKind::NoUsableAddress,
                    platform_code: Some(11_001),
                    platform_message: "synthetic negative".into(),
                }),
            },
            provenance: provenance(),
        }),
        HostnameResolutionOutcome::NegativeWithoutUsableAddress {
            platform_code: Some(11_001),
        },
        Vec::new(),
        Vec::new(),
        vec![Evidence {
            id: EvidenceId(1),
            subject: EvidenceSubject::Hostname,
            role: EvidenceRole::PrimaryDecision,
            fact: EvidenceFact::NameResolution(NameResolutionEvidence {
                outcome: NameResolutionEvidenceOutcome::NegativeWithoutUsableAddress,
            }),
        }],
    );
    let output = render(&negative, Theme::plain());
    assert!(output.starts_with("× NO USABLE IP ADDRESS\n"));
    assert!(output.contains("System name resolution"));
    assert!(output.contains("NAME RESOLUTION"));
    assert!(output.contains("Requested test"));
    assert!(output.contains("Not started"));
    assert!(output.contains("Not exposed by this platform"));
    assert!(output.contains("The hostname did not resolve to an IP address"));
    assert!(output.contains("No ICMP or TCP check was started"));
    assert!(!output.contains("does not exist"));
    assert!(!output.contains("Any direct DNS evidence"));
    assert!(!output.to_ascii_lowercase().contains("system dns"));
}

#[test]
fn extra_context_attempts_never_leak_into_default_output() {
    let mut completed = timeout_then_icmp_result();
    let target = &mut completed.targets[0];
    target.attempts.push(attempt(
        99,
        AttemptKind::NextHopIcmpEcho,
        AttemptOutcome::Icmp(IcmpAttemptResult::ExplicitNetworkError {
            os_code: Some(9_999),
        }),
        Duration::from_secs(1),
        Duration::from_millis(2),
    ));
    target.evidence.push(Evidence {
        id: EvidenceId(99),
        subject: EvidenceSubject::Target(target.target.clone()),
        role: EvidenceRole::Context,
        fact: EvidenceFact::Attempt(AttemptId(99)),
    });

    let output = render(&completed, Theme::plain());
    assert!(!output.contains("9999"));
    assert!(!output.contains("Next-hop"));
}

#[test]
fn windows_native_status_cannot_appear_as_an_icmp_wire_code() {
    let outcome = AttemptOutcome::Icmp(IcmpAttemptResult::Message {
        kind: IcmpMessageKind::EchoReply,
        responder: Ipv4Addr::localhost().into(),
        raw_type: None,
        raw_code: None,
        native_status: Some(IcmpNativeStatus::WindowsIpHelper(0)),
    });
    let test_attempt = Attempt {
        id: AttemptId(1),
        subject: AttemptSubject::Target(TargetIp::v4(Ipv4Addr::localhost())),
        kind: AttemptKind::TargetIcmpEcho,
        timing: AttemptTiming {
            started_at: Duration::zero(),
            deadline_at: Duration::from_secs(2),
            completed_at: Duration::zero(),
        },
        outcome,
        provenance: provenance(),
    };
    let rendered = friendly_attempt_outcome(&test_attempt);
    assert_eq!(rendered, "Reply from 127.0.0.1");
    assert!(!rendered.contains("raw"));
    assert!(!rendered.contains("status"));
}

#[test]
fn zero_duration_is_described_as_clock_resolution_not_a_latency_claim() {
    let attempt = attempt(
        1,
        AttemptKind::TargetIcmpEcho,
        AttemptOutcome::Icmp(IcmpAttemptResult::ExplicitNetworkError { os_code: None }),
        Duration::from_secs(2),
        Duration::zero(),
    );
    let rendered = attempt_evidence_summary(&attempt, Some(1));
    assert!(rendered.contains("same observable clock reading"));
    assert!(!rendered.contains("0 ms"));
    assert!(!rendered.contains("<1"));
}

#[test]
fn deadline_wording_does_not_report_scheduler_tail_as_budget() {
    let attempt = attempt(
        1,
        AttemptKind::TcpConnect,
        AttemptOutcome::Tcp(TcpAttemptResult::Timeout),
        Duration::from_secs(5),
        Duration::from_millis(5_016),
    );
    let rendered = attempt_evidence_summary(&attempt, Some(1));
    assert_eq!(
        rendered,
        "TCP connect #1: No result before the 5 s deadline."
    );
    assert!(!rendered.contains("5s 16ms"));
    assert!(!rendered.contains("/ 5s"));
}

#[test]
fn neighbor_observation_states_are_not_conflated() {
    assert_eq!(
        neighbor_observation_label(NeighborObservation::NotSampled),
        "not sampled"
    );
    assert_eq!(
        neighbor_observation_label(NeighborObservation::Observed(NeighborState::Absent)),
        "absent (no matching entry)"
    );
    assert_eq!(
        neighbor_observation_label(NeighborObservation::Unknown),
        "unknown"
    );
    assert_eq!(
        neighbor_observation_label(NeighborObservation::Unavailable),
        "unavailable"
    );
}

#[test]
fn snapshot_inconsistency_never_claims_temporal_change() {
    let evidence = Evidence {
        id: EvidenceId(1),
        subject: EvidenceSubject::Run,
        role: EvidenceRole::CapabilityLimitation,
        fact: EvidenceFact::SnapshotInconsistency("route refers to missing interface".into()),
    };
    let rendered = evidence_summary(&timeout_then_icmp_result(), &evidence);
    assert!(rendered.starts_with("Snapshot cross-check found an inconsistency"));
    assert!(!rendered.contains("changed"));
    assert!(!rendered.contains("stable"));
}

#[test]
fn one_address_uses_singular_pronouns() {
    let output = render(&timeout_then_icmp_result(), Theme::plain());
    assert!(output.contains("That IP address"));
    assert!(!output.contains("all 1 IP address"));
    assert!(!output.contains("The same IP addresses"));
}

#[test]
fn layouts_from_twenty_to_three_hundred_columns_do_not_overflow() {
    let completed = timeout_then_icmp_result();
    for width in [20_u16, 40, 59, 60, 80, 120, 140, 300] {
        let output = render(&completed, Theme::plain_with_width(width));
        for line in output.lines() {
            assert!(
                line.width() <= usize::from(width),
                "width {width}, rendered {} columns: {line:?}\n{output}",
                line.width()
            );
        }
        assert!(output.contains("192.0.2.20:8443"));
        assert!(output.contains("EVIDENCE"));
    }
}

#[test]
fn mixed_addresses_remain_separate() {
    let snapshot = synthetic_snapshot();
    let first = TargetIp::v4(Ipv4Addr::new(192, 0, 2, 1));
    let second = TargetIp::v4(Ipv4Addr::new(192, 0, 2, 2));
    let completed = CompletedDiagnostic::new(
        parse_request("example.com", Some("443")).expect("valid request"),
        snapshot.clone(),
        None,
        HostnameResolutionOutcome::Succeeded(ResolverAddressSet::from_raw(vec![
            first.clone(),
            second.clone(),
        ])),
        vec![
            result_only_target(
                &snapshot,
                first,
                0,
                PrimaryOutcome::Satisfied,
                Conclusion::TcpConnectSucceeded,
            ),
            result_only_target(
                &snapshot,
                second,
                1,
                PrimaryOutcome::NotSatisfied,
                Conclusion::TcpConnectionRefused,
            ),
        ],
        Vec::new(),
        Vec::new(),
    );
    let output = render(&completed, Theme::plain());
    assert!(output.starts_with("! RESULTS DIFFER BETWEEN IP ADDRESSES\n"));
    assert!(output.contains("192.0.2.1:443"));
    assert!(output.contains("192.0.2.2:443"));
    assert!(output.contains("Keep every address and result"));
}

#[test]
fn retry_success_remains_a_warning_not_a_clean_pass() {
    let snapshot = synthetic_snapshot();
    let target_ip = TargetIp::v4(Ipv4Addr::new(192, 0, 2, 3));
    let completed = CompletedDiagnostic::new(
        parse_request("192.0.2.3", Some("443")).expect("valid request"),
        snapshot.clone(),
        None,
        HostnameResolutionOutcome::NotRequested,
        vec![result_only_target(
            &snapshot,
            target_ip,
            0,
            PrimaryOutcome::SatisfiedWithAnomaly,
            Conclusion::TcpConnectSucceededAfterTimeout,
        )],
        Vec::new(),
        Vec::new(),
    );
    let output = render(&completed, Theme::plain());
    assert!(output.starts_with("! REACHABLE, BUT A RETRY WAS NEEDED\n"));
    assert!(output.contains("later success does not erase the first timeout"));
}

#[test]
fn icmp_silence_does_not_claim_that_the_destination_is_down() {
    let snapshot = synthetic_snapshot();
    let target_ip = TargetIp::v4(Ipv4Addr::new(192, 0, 2, 4));
    let completed = CompletedDiagnostic::new(
        parse_request("192.0.2.4", None).expect("valid request"),
        snapshot.clone(),
        None,
        HostnameResolutionOutcome::NotRequested,
        vec![result_only_target(
            &snapshot,
            target_ip,
            0,
            PrimaryOutcome::Indeterminate,
            Conclusion::IcmpEchoTimedOut,
        )],
        Vec::new(),
        Vec::new(),
    );
    let output = render(&completed, Theme::plain());
    let flattened = output.split_whitespace().collect::<Vec<_>>().join(" ");
    assert!(output.starts_with("× NO ICMP REPLY WAS CONFIRMED\n"));
    assert!(flattened.contains("does not prove that the destination is down"));
    assert!(output.contains("? INCONCLUSIVE"));
}

#[test]
fn every_conclusion_has_a_plain_language_label() {
    let conclusions = [
        Conclusion::TcpConnectSucceeded,
        Conclusion::TcpConnectSucceededAfterTimeout,
        Conclusion::TcpConnectionRefused,
        Conclusion::TcpExplicitFailure,
        Conclusion::TcpConnectTimedOut,
        Conclusion::TcpTimedOutButTargetIcmpResponded,
        Conclusion::TcpTimedOutWithExplicitIcmpResult,
        Conclusion::IcmpEchoReplied,
        Conclusion::IcmpEchoRepliedAfterTimeout,
        Conclusion::IcmpExplicitFailure,
        Conclusion::IcmpEchoTimedOut,
        Conclusion::IcmpResponseIndeterminate,
        Conclusion::DefinitiveNoPath,
        Conclusion::NeighborResolutionFailed,
        Conclusion::NeighborResolutionIndeterminate,
        Conclusion::FirstHopResponded,
        Conclusion::MultiplePathRespondersObserved,
        Conclusion::PathEndpointResponded,
        Conclusion::PathExplicitlyTerminated,
        Conclusion::PathResponseIndeterminate,
        Conclusion::PathLimitReachedWithoutEndpointEvidence,
        Conclusion::HostnameResolved,
        Conclusion::HostnameNoFormalTargets,
        Conclusion::HostnameResolutionNoUsableAddress,
        Conclusion::HostnameResolutionIndeterminate,
        Conclusion::AllTargetsSatisfied,
        Conclusion::TargetsSatisfiedWithAnomaly,
        Conclusion::TargetResultsMixed,
        Conclusion::NoTargetCleanlySatisfied,
        Conclusion::CapabilityLimited,
    ];
    for conclusion in conclusions {
        let label = diagnostic_note(conclusion);
        assert!(!label.is_empty());
        assert!(!label.contains("formal"));
        assert!(!label.contains("CapabilityValue"));
        assert!(!label.contains("System DNS"));
    }
}

fn timeout_then_icmp_result() -> CompletedDiagnostic {
    let snapshot = synthetic_snapshot();
    let target_ip = TargetIp::v4(Ipv4Addr::new(192, 0, 2, 20));
    let target = TargetDiagnostic::new(
        target_ip.clone(),
        Some(0),
        PrimaryOutcome::NotSatisfied,
        Conclusion::TcpTimedOutButTargetIcmpResponded,
        TargetNetworkFacts {
            initial_path: analyze_initial_path(&snapshot, &target_ip),
            current_path: CapabilityValue::unavailable(
                CapabilityReason::QuerySemanticsUnavailable,
                provenance(),
            ),
            neighbor_pre_state: None,
            neighbor_post_state: None,
        },
        vec![
            attempt(
                1,
                AttemptKind::TcpConnect,
                AttemptOutcome::Tcp(TcpAttemptResult::Timeout),
                Duration::from_secs(5),
                Duration::from_millis(5_016),
            ),
            attempt(
                2,
                AttemptKind::TcpConnect,
                AttemptOutcome::Tcp(TcpAttemptResult::Timeout),
                Duration::from_secs(5),
                Duration::from_secs(5),
            ),
            attempt(
                3,
                AttemptKind::TargetIcmpEcho,
                AttemptOutcome::Icmp(IcmpAttemptResult::Message {
                    kind: IcmpMessageKind::EchoReply,
                    responder: target_ip.address,
                    raw_type: None,
                    raw_code: None,
                    native_status: Some(IcmpNativeStatus::WindowsIpHelper(0)),
                }),
                Duration::from_secs(2),
                Duration::from_millis(15),
            ),
        ],
        vec![
            attempt_evidence(1, &target_ip, EvidenceRole::AnomalyHistory),
            attempt_evidence(2, &target_ip, EvidenceRole::PrimaryDecision),
            attempt_evidence(3, &target_ip, EvidenceRole::BoundaryNarrowing),
        ],
    );
    CompletedDiagnostic::new(
        parse_request("example.com", Some("8443")).expect("valid request"),
        snapshot,
        None,
        HostnameResolutionOutcome::Succeeded(ResolverAddressSet::from_raw(vec![
            target_ip,
        ])),
        vec![target],
        Vec::new(),
        Vec::new(),
    )
}

fn clean_icmp_success() -> CompletedDiagnostic {
    let snapshot = synthetic_snapshot();
    let target_ip = TargetIp::v4(Ipv4Addr::localhost());
    let target = TargetDiagnostic::new(
        target_ip.clone(),
        Some(0),
        PrimaryOutcome::Satisfied,
        Conclusion::IcmpEchoReplied,
        TargetNetworkFacts {
            initial_path: analyze_initial_path(&snapshot, &target_ip),
            current_path: CapabilityValue::unavailable(
                CapabilityReason::QuerySemanticsUnavailable,
                provenance(),
            ),
            neighbor_pre_state: None,
            neighbor_post_state: None,
        },
        vec![attempt(
            1,
            AttemptKind::TargetIcmpEcho,
            AttemptOutcome::Icmp(IcmpAttemptResult::Message {
                kind: IcmpMessageKind::EchoReply,
                responder: target_ip.address,
                raw_type: Some(0),
                raw_code: Some(0),
                native_status: None,
            }),
            Duration::from_secs(2),
            Duration::zero(),
        )],
        vec![attempt_evidence(
            1,
            &target_ip,
            EvidenceRole::PrimaryDecision,
        )],
    );
    CompletedDiagnostic::new(
        parse_request("127.0.0.1", None).expect("valid request"),
        snapshot,
        None,
        HostnameResolutionOutcome::NotRequested,
        vec![target],
        Vec::new(),
        Vec::new(),
    )
}

fn attempt(
    id: u64,
    kind: AttemptKind,
    outcome: AttemptOutcome,
    budget: Duration,
    recorded_duration: Duration,
) -> Attempt {
    let started_at = Duration::from_secs(id);
    Attempt {
        id: AttemptId(id),
        subject: AttemptSubject::Target(TargetIp::v4(Ipv4Addr::new(192, 0, 2, 20))),
        kind,
        timing: AttemptTiming {
            started_at,
            deadline_at: sum(started_at, budget),
            completed_at: sum(started_at, recorded_duration),
        },
        outcome,
        provenance: provenance(),
    }
}

fn attempt_evidence(id: u64, target: &TargetIp, role: EvidenceRole) -> Evidence {
    Evidence {
        id: EvidenceId(id),
        subject: EvidenceSubject::Target(target.clone()),
        role,
        fact: EvidenceFact::Attempt(AttemptId(id)),
    }
}

fn result_only_target(
    snapshot: &InitialNetworkSnapshot,
    target: TargetIp,
    ordinal: usize,
    outcome: PrimaryOutcome,
    conclusion: Conclusion,
) -> TargetDiagnostic {
    TargetDiagnostic::new(
        target.clone(),
        Some(ordinal),
        outcome,
        conclusion,
        TargetNetworkFacts {
            initial_path: analyze_initial_path(snapshot, &target),
            current_path: CapabilityValue::unavailable(
                CapabilityReason::QuerySemanticsUnavailable,
                provenance(),
            ),
            neighbor_pre_state: None,
            neighbor_post_state: None,
        },
        Vec::new(),
        Vec::new(),
    )
}

fn provenance() -> Provenance {
    Provenance::new(ProvenanceSource::SyntheticTest).at(Duration::zero())
}

fn synthetic_snapshot() -> InitialNetworkSnapshot {
    let provenance = provenance();
    InitialNetworkSnapshot {
        capture_started_at: Duration::zero(),
        capture_completed_at: Duration::from_millis(2),
        interfaces: CapabilityValue::<Vec<InterfaceFact>>::unavailable(
            CapabilityReason::UnsupportedEnvironment,
            provenance.clone(),
        ),
        routes_v4: CapabilityValue::<Vec<RouteFact>>::unavailable(
            CapabilityReason::UnsupportedEnvironment,
            provenance.clone(),
        ),
        routes_v6: CapabilityValue::<Vec<RouteFact>>::unavailable(
            CapabilityReason::UnsupportedEnvironment,
            provenance.clone(),
        ),
        routing_policy_facts: CapabilityValue::unavailable(
            CapabilityReason::UnsupportedEnvironment,
            provenance.clone(),
        ),
        resolver_configuration: CapabilityValue::<ResolverConfiguration>::unavailable(
            CapabilityReason::UnsupportedEnvironment,
            provenance,
        ),
        inconsistencies: Vec::new(),
    }
}

fn sum(first: Duration, second: Duration) -> Duration {
    Duration::from_nanos((first.as_nanos() + second.as_nanos()) as u64)
}

#[test]
fn negative_answers_have_notes_of_their_own() {
    let definitive = diagnostic_note(Conclusion::HostnameResolutionDefinitiveNegative);
    let unusable = diagnostic_note(Conclusion::HostnameResolutionNoUsableAddress);
    assert_eq!(definitive, "System name resolution returned a definitive negative answer");
    assert_eq!(unusable, "System name resolution returned no usable IPv4 or IPv6 address");
}
