use reach::{
    Duration, DNS_TCP_BUDGET, DNS_UDP_BUDGET, MAX_ACTIVE_RESOLVERS, MAX_ACTIVE_TARGETS,
    MAX_PATH_HOP_LIMIT, NEIGHBOR_CONVERGENCE_BUDGET, NEIGHBOR_POLL_INTERVAL, NEXT_HOP_ICMP_BUDGET,
    PATH_ATTEMPT_BUDGET, TARGET_ICMP_BUDGET, TCP_CONNECT_BUDGET,
};

#[test]
fn fixed_product_policy_matches_version_contract() {
    assert_eq!(MAX_ACTIVE_TARGETS, 4);
    assert_eq!(MAX_ACTIVE_RESOLVERS, 4);
    assert_eq!(Duration::from_millis(TCP_CONNECT_BUDGET), Duration::from_secs(5));
    assert_eq!(Duration::from_millis(TARGET_ICMP_BUDGET), Duration::from_secs(2));
    assert_eq!(Duration::from_millis(NEXT_HOP_ICMP_BUDGET), Duration::from_secs(1));
    assert_eq!(Duration::from_millis(NEIGHBOR_CONVERGENCE_BUDGET), Duration::from_secs(2));
    assert_eq!(Duration::from_millis(NEIGHBOR_POLL_INTERVAL), Duration::from_millis(200));
    assert_eq!(Duration::from_millis(PATH_ATTEMPT_BUDGET), Duration::from_secs(1));
    assert_eq!(MAX_PATH_HOP_LIMIT, 30);
    assert_eq!(Duration::from_millis(DNS_UDP_BUDGET), Duration::from_secs(2));
    assert_eq!(Duration::from_millis(DNS_TCP_BUDGET), Duration::from_secs(5));
}
