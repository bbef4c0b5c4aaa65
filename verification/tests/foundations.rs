use reach::net::PrefixLenError;
use reach::sorting::{stable_sort, Keyed};
use reach::text::{split_lines, trimmed_end};
use reach::{
    form_literal_target, parse_request, AttemptTiming, CapabilityReason, CapabilityValue, Duration,
    Evidence,
    EvidenceFact, EvidenceId, EvidenceRole, EvidenceSubject, InputError, InterfaceFact, IpAddr,
    IpNet, Ipv4Addr, Ipv6Addr, Provenance, ProvenanceSource, ScopeBindingError, SocketAddr,
};

fn evidence(id: u64, role: EvidenceRole, note: &str) -> Evidence {
    Evidence {
        id: EvidenceId(id),
        subject: EvidenceSubject::Run,
        role,
        fact: EvidenceFact::InitialPath(note.to_owned()),
    }
}

#[test]
fn sorting_keeps_the_order_of_items_with_one_key() {
    let items = vec![
        evidence(2, EvidenceRole::PrimaryDecision, "later"),
        evidence(1, EvidenceRole::PrimaryDecision, "first"),
        evidence(1, EvidenceRole::PrimaryDecision, "second"),
    ];
    let sorted = stable_sort(items);
    let notes = sorted.iter().map(|item| item.fact.clone()).collect::<Vec<_>>();
    assert_eq!(
        notes,
        vec![
            EvidenceFact::InitialPath("first".to_owned()),
            EvidenceFact::InitialPath("second".to_owned()),
            EvidenceFact::InitialPath("later".to_owned()),
        ]
    );
}

#[test]
fn sorted_keys_do_not_depend_on_the_order_of_the_items() {
    let forward = vec![
        evidence(3, EvidenceRole::Context, "a"),
        evidence(2, EvidenceRole::AnomalyHistory, "b"),
        evidence(9, EvidenceRole::PrimaryDecision, "c"),
    ];
    let mut backward = forward.clone();
    backward.reverse();
    let keys = |items: Vec<Evidence>| {
        stable_sort(items).iter().map(Keyed::sort_key).collect::<Vec<_>>()
    };
    assert_eq!(keys(forward), keys(backward));
}

#[test]
fn addresses_read_and_write_their_usual_forms() {
    for shown in ["0.0.0.0", "192.0.2.10", "255.255.255.255"] {
        assert_eq!(Ipv4Addr::parse(shown).expect("valid address").to_text(), shown);
    }
    for rejected in ["", "1.2.3", "1.2.3.4.5", "01.2.3.4", "256.0.0.1", "1.2.3.4 ", "a.b.c.d"] {
        assert_eq!(Ipv4Addr::parse(rejected), None, "{rejected:?}");
    }
    for (given, shown) in [
        ("::", "::"),
        ("::1", "::1"),
        ("FE80:0:0:0:0:0:0:1", "fe80::1"),
        ("2001:db8:0:1:0:0:0:1", "2001:db8:0:1::1"),
        ("1:0:0:2:0:0:3:4", "1::2:0:0:3:4"),
        ("::ffff:192.0.2.1", "::ffff:192.0.2.1"),
        ("1:2:3:4:5:6:7:8", "1:2:3:4:5:6:7:8"),
        ("1:2:3:4:5:6:7::", "1:2:3:4:5:6:7:0"),
    ] {
        assert_eq!(Ipv6Addr::parse(given).expect("valid address").to_text(), shown);
    }
    for rejected in ["", ":", ":::", "1::2::3", "12345::", "1:2:3:4:5:6:7", "1:2:3:4:5:6:7:8:9", "g::"] {
        assert_eq!(Ipv6Addr::parse(rejected), None, "{rejected:?}");
    }
}

#[test]
fn a_socket_address_has_brackets_round_an_ipv6_address() {
    let v4 = SocketAddr::new(Ipv4Addr::new(192, 0, 2, 53).into(), 53);
    assert_eq!(v4.to_text(), "192.0.2.53:53");
    let v6 = SocketAddr::new(Ipv6Addr::localhost().into(), 53);
    assert_eq!(v6.to_text(), "[::1]:53");
    let scoped = SocketAddr {
        address: Ipv6Addr::new(0xfe80, 0, 0, 0, 0, 0, 0, 1).into(),
        port: 53,
        scope_id: 7,
    };
    assert_eq!(scoped.to_text(), "[fe80::1%7]:53");
}

#[test]
fn a_block_holds_the_addresses_that_share_its_prefix() {
    let block = IpNet::new(Ipv4Addr::new(203, 0, 113, 7).into(), 24).expect("valid block");
    assert!(block.contains(&Ipv4Addr::new(203, 0, 113, 200).into()));
    assert!(!block.contains(&Ipv4Addr::new(203, 0, 112, 7).into()));
    assert!(!block.contains(&IpAddr::from(Ipv6Addr::localhost())));
    let everything = IpNet::new(Ipv4Addr::unspecified().into(), 0).expect("valid block");
    assert!(everything.contains(&Ipv4Addr::new(255, 255, 255, 255).into()));
    let host = IpNet::new(Ipv6Addr::localhost().into(), 128).expect("valid block");
    assert!(host.contains(&Ipv6Addr::localhost().into()));
    assert!(!host.contains(&Ipv6Addr::unspecified().into()));
    let link_local = IpNet::new(Ipv6Addr::new(0xfe80, 0, 0, 0, 0, 0, 0, 0).into(), 10)
        .expect("valid block");
    assert!(link_local.contains(&Ipv6Addr::new(0xfebf, 1, 2, 3, 4, 5, 6, 7).into()));
    assert!(!link_local.contains(&Ipv6Addr::new(0xfec0, 0, 0, 0, 0, 0, 0, 0).into()));
    assert_eq!(IpNet::new(Ipv4Addr::localhost().into(), 33), Err(PrefixLenError));
    assert_eq!(IpNet::new(Ipv6Addr::localhost().into(), 129), Err(PrefixLenError));
}

#[test]
fn a_scope_without_an_interface_is_not_found() {
    let interfaces: CapabilityValue<Vec<InterfaceFact>> = CapabilityValue::available(
        Vec::new(),
        Provenance::new(ProvenanceSource::SyntheticTest),
    );
    let request = parse_request("fe80::1%7", None).expect("valid request");
    assert_eq!(
        form_literal_target(&request.address, &interfaces),
        Err(ScopeBindingError::InterfaceNotFound)
    );
    assert_eq!(
        ScopeBindingError::InterfaceNotFound.message(),
        "the IPv6 scope does not identify an interface in the initial snapshot"
    );
    assert_eq!(InputError::PortOutOfRange.message(), "port must be in the range 1..=65535");
}

#[test]
fn a_reason_is_named_with_its_text_in_quotes() {
    let reason = CapabilityReason::Other("a \"b\"\n".to_owned());
    assert_eq!(reason.debug_text(), format!("{reason:?}"));
    assert_eq!(reason.debug_text(), "Other(\"a \\\"b\\\"\\n\")");
    for plain in [
        CapabilityReason::NotExposedByOperatingSystem,
        CapabilityReason::OrdinaryUserPermissionDenied,
        CapabilityReason::SnapshotInconsistent,
        CapabilityReason::QuerySemanticsUnavailable,
        CapabilityReason::AttemptCorrelationUnavailable,
        CapabilityReason::UnsupportedEnvironment,
    ] {
        assert_eq!(plain.debug_text(), format!("{plain:?}"));
    }
}

#[test]
fn provenance_and_values_keep_what_they_are_given() {
    let provenance = Provenance::new(ProvenanceSource::TcpSocket)
        .at(Duration::from_millis(3))
        .with_detail("kept");
    assert_eq!(provenance.source, ProvenanceSource::TcpSocket);
    assert_eq!(provenance.observed_at, Some(Duration::from_millis(3)));
    assert_eq!(provenance.detail.as_deref(), Some("kept"));
    let known = CapabilityValue::available(7_u16, provenance.clone());
    assert!(known.is_available());
    assert_eq!(known.provenance(), &provenance);
    let unknown: CapabilityValue<u16> =
        CapabilityValue::unknown(CapabilityReason::UnsupportedEnvironment, provenance.clone());
    assert!(!unknown.is_available());
    assert!(matches!(known.as_ref(), CapabilityValue::Available { value: 7, .. }));
}

#[test]
fn lines_end_at_line_feeds_and_drop_carriage_returns_before_them() {
    for sample in ["", "a", "a\n", "a\r\nb", "\n\n", "a\r", "a\n\rb\r\n", "x\n\ny"] {
        assert_eq!(split_lines(sample), sample.lines().collect::<Vec<_>>(), "{sample:?}");
    }
    assert_eq!(trimmed_end("a.b..", '.'), "a.b");
}

#[test]
fn durations_subtract_down_to_nothing() {
    let long = Duration::from_secs(2);
    let short = Duration::from_millis(1_500);
    assert_eq!(long.saturating_sub(short), Duration::from_millis(500));
    assert!(short.saturating_sub(long).is_zero());
    assert!(short.is_before(long));
    assert_eq!(Duration::from_micros(7).as_nanos(), 7_000);
}

#[test]
fn an_attempt_lasts_from_its_start_to_its_completion_and_never_less_than_nothing() {
    let timing = |started: u64, completed: u64| AttemptTiming {
        started_at: Duration::from_millis(started),
        deadline_at: Duration::from_millis(5_000),
        completed_at: Duration::from_millis(completed),
    };
    assert_eq!(timing(40, 65).duration(), Duration::from_millis(25));
    assert_eq!(timing(65, 40).duration(), Duration::zero());
}
