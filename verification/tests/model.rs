use reach::{
    stable_deduplicate_targets, AttemptTiming, DnsResponseCode, Duration, InterfaceId, Ipv4Addr,
    Ipv6Addr, ResolverAddressSet, TargetIp,
};

#[test]
fn stable_dedup_keeps_raw_facts_and_first_occurrence_order() {
    let first = TargetIp::v4(Ipv4Addr::new(192, 0, 2, 1));
    let second = TargetIp::v6(Ipv6Addr::localhost(), None);
    let raw = vec![first.clone(), second.clone(), first.clone()];
    let set = ResolverAddressSet::from_raw(raw.clone());

    assert_eq!(set.raw_addresses, raw);
    assert_eq!(set.formal_targets.len(), 2);
    assert_eq!(set.formal_targets[0].target, first);
    assert_eq!(set.formal_targets[0].resolver_ordinal, Some(0));
    assert_eq!(set.formal_targets[1].target, second);
    assert_eq!(set.formal_targets[1].resolver_ordinal, Some(1));
}

#[test]
fn scoped_and_unscoped_ipv6_are_different_target_identities() {
    let address = Ipv6Addr::new(0xfe80, 0, 0, 0, 0, 0, 0, 1);
    let raw = vec![
        TargetIp::v6(address, Some(InterfaceId::from_index(2))),
        TargetIp::v6(address, Some(InterfaceId::from_index(3))),
        TargetIp::v6(address, Some(InterfaceId::from_index(2))),
    ];

    let unique = stable_deduplicate_targets(&raw);
    assert_eq!(unique.len(), 2);
    assert_eq!(unique[0].resolver_ordinal, Some(0));
    assert_eq!(unique[1].resolver_ordinal, Some(1));
}

#[test]
fn exact_deadline_boundary_is_not_classified_as_within_the_attempt() {
    let at_boundary = AttemptTiming {
        started_at: Duration::zero(),
        deadline_at: Duration::from_secs(1),
        completed_at: Duration::from_secs(1),
    };
    let before_boundary = AttemptTiming {
        completed_at: Duration::from_millis(999),
        ..at_boundary
    };

    assert!(!at_boundary.completed_within_deadline());
    assert!(before_boundary.completed_within_deadline());
}

#[test]
fn stable_target_dedup_is_idempotent_and_keeps_first_occurrence() {
    for raw in [vec![], vec![7], vec![1, 1, 1], vec![3, 1, 3, 2, 1], vec![9, 8, 9, 8, 7]] {
        let targets: Vec<TargetIp> = raw
            .iter()
            .map(|value| TargetIp::v4(Ipv4Addr::new(192, 0, 2, *value)))
            .collect();
        let first = stable_deduplicate_targets(&targets);
        let once: Vec<TargetIp> = first.iter().map(|item| item.target.clone()).collect();
        let twice = stable_deduplicate_targets(&once);
        assert_eq!(
            twice.iter().map(|item| &item.target).collect::<Vec<_>>(),
            first.iter().map(|item| &item.target).collect::<Vec<_>>(),
        );
        for item in &first {
            assert_eq!(
                targets.iter().position(|target| target == &item.target),
                item.resolver_ordinal,
            );
        }
    }
}

#[test]
fn response_codes_survive_the_way_to_a_number_and_back() {
    for number in [0, 1, 2, 3, 4, 5, 6, 16, 4095, 65_535] {
        assert_eq!(DnsResponseCode::from(number).number(), number);
    }
    assert_eq!(DnsResponseCode::from(3), DnsResponseCode::NxDomain);
    assert_eq!(DnsResponseCode::from(23), DnsResponseCode::Other(23));
}
