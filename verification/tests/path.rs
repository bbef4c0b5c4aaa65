use reach::{
    analyze_initial_path, neighbor_dependency_for_path, reconcile_current_operation_path,
    AddressFamily, CapabilityReason, CapabilityValue, Duration, InitialNetworkSnapshot,
    InitialPathStatus, InterfaceFact, InterfaceId, InterfaceState, IpAddr, IpNet, Ipv4Addr,
    NeighborDependency, OperationPathContext, PathRelation, PathSelectionFact, Provenance,
    ProvenanceSource, ResolverConfiguration, RouteBehavior, RouteFact, RoutingPolicyFacts,
    SnapshotInconsistency, SnapshotInconsistencyScope, TargetIp,
};

fn provenance() -> Provenance {
    Provenance::new(ProvenanceSource::SyntheticTest).at(Duration::zero())
}

fn interface(state: InterfaceState) -> InterfaceFact {
    InterfaceFact {
        id: InterfaceId::from_index(2),
        system_name: "test0".into(),
        display_name: "test0".into(),
        administrative_state: state,
        operational_state: state,
        is_loopback: false,
        addresses: Vec::new(),
        provenance: provenance(),
    }
}

fn route(behavior: RouteBehavior) -> RouteFact {
    RouteFact {
        destination: IpNet::new(Ipv4Addr::unspecified().into(), 0).unwrap(),
        next_hop: Some(Ipv4Addr::new(192, 0, 2, 1).into()),
        egress_interface: Some(InterfaceId::from_index(2)),
        behavior,
        metric: Some(10),
        table_or_compartment: Some(254),
        preferred_source: None,
        multipath_weight: None,
        provenance: provenance(),
    }
}

fn snapshot(routes: CapabilityValue<Vec<RouteFact>>) -> InitialNetworkSnapshot {
    InitialNetworkSnapshot {
        capture_started_at: Duration::zero(),
        capture_completed_at: Duration::zero(),
        interfaces: CapabilityValue::available(
            vec![interface(InterfaceState::Up)],
            provenance(),
        ),
        routes_v4: routes,
        routes_v6: CapabilityValue::available(Vec::new(), provenance()),
        routing_policy_facts: CapabilityValue::available(
            RoutingPolicyFacts {
                facts: vec![PathSelectionFact {
                    family: AddressFamily::Ipv4,
                    priority: Some(0),
                    table_or_domain: Some(254),
                    description: "synthetic complete policy".into(),
                    provenance: provenance(),
                }],
                static_selection_complete: true,
                limitations: Vec::new(),
            },
            provenance(),
        ),
        resolver_configuration: CapabilityValue::available(
            ResolverConfiguration {
                endpoints: Vec::new(),
                search_domains: Vec::new(),
                non_dns_sources: Vec::new(),
                dns_protocol_candidates_applicable: CapabilityValue::available(
                    true,
                    provenance(),
                ),
                ordering_is_semantic: true,
                limitations: Vec::new(),
                provenance: provenance(),
            },
            provenance(),
        ),
        inconsistencies: Vec::new(),
    }
}

fn target() -> TargetIp {
    TargetIp::v4(Ipv4Addr::new(203, 0, 113, 10))
}

#[test]
fn complete_unambiguous_route_is_usable() {
    let result = analyze_initial_path(
        &snapshot(CapabilityValue::available(
            vec![route(RouteBehavior::Unicast)],
            provenance(),
        )),
        &target(),
    );
    assert_eq!(result.status, InitialPathStatus::UsablePath);
    assert_eq!(result.relation, PathRelation::Remote);
}

#[test]
fn explicit_blocking_route_is_definitive_no_path() {
    let result = analyze_initial_path(
        &snapshot(CapabilityValue::available(
            vec![route(RouteBehavior::Blackhole)],
            provenance(),
        )),
        &target(),
    );
    assert_eq!(result.status, InitialPathStatus::DefinitiveNoPath);
}

#[test]
fn unavailable_route_snapshot_cannot_suppress_real_probe() {
    let result = analyze_initial_path(
        &snapshot(CapabilityValue::unavailable(
            CapabilityReason::QuerySemanticsUnavailable,
            provenance(),
        )),
        &target(),
    );
    assert_eq!(result.status, InitialPathStatus::UnknownPath);
}

#[test]
fn enumerable_but_incompletely_modeled_policy_cannot_suppress_the_real_probe() {
    let mut snapshot = snapshot(CapabilityValue::available(
        vec![route(RouteBehavior::Blackhole)],
        provenance(),
    ));
    let CapabilityValue::Available { value, .. } = &mut snapshot.routing_policy_facts else {
        unreachable!("synthetic policy is available")
    };
    value.static_selection_complete = false;
    value
        .limitations
        .push("a selector is not modeled structurally".into());

    let result = analyze_initial_path(&snapshot, &target());
    assert_eq!(result.status, InitialPathStatus::UnknownPath);
    assert!(
        result
            .limitations
            .iter()
            .any(|item| item.contains("selector is not modeled"))
    );
}

#[test]
fn inconsistency_downgrades_even_an_explicit_blocking_route() {
    let mut snapshot = snapshot(CapabilityValue::available(
        vec![route(RouteBehavior::Blackhole)],
        provenance(),
    ));
    snapshot.inconsistencies.push(SnapshotInconsistency {
        scope: SnapshotInconsistencyScope::PathSelection,
        detail: "route changed during capture".into(),
    });
    let result = analyze_initial_path(&snapshot, &target());
    assert_eq!(result.status, InitialPathStatus::UnknownPath);
}

#[test]
fn unrelated_resolver_inconsistency_does_not_change_target_path_analysis() {
    let mut snapshot = snapshot(CapabilityValue::available(
        vec![route(RouteBehavior::Blackhole)],
        provenance(),
    ));
    snapshot.inconsistencies.push(SnapshotInconsistency {
        scope: SnapshotInconsistencyScope::ResolverSelection,
        detail: "resolver binding changed during capture".into(),
    });
    let result = analyze_initial_path(&snapshot, &target());
    assert_eq!(result.status, InitialPathStatus::DefinitiveNoPath);
}

#[test]
fn conflicting_equal_routes_are_unknown() {
    let result = analyze_initial_path(
        &snapshot(CapabilityValue::available(
            vec![
                route(RouteBehavior::Unicast),
                route(RouteBehavior::Blackhole),
            ],
            provenance(),
        )),
        &target(),
    );
    assert_eq!(result.status, InitialPathStatus::UnknownPath);
}

#[test]
fn non_forwarding_or_unknown_route_types_never_become_usable_paths() {
    for behavior in [
        RouteBehavior::Throw,
        RouteBehavior::Broadcast,
        RouteBehavior::Multicast,
        RouteBehavior::Unknown,
    ] {
        let analysis = analyze_initial_path(
            &snapshot(CapabilityValue::available(
                vec![route(behavior)],
                provenance(),
            )),
            &target(),
        );
        assert_eq!(analysis.status, InitialPathStatus::UnknownPath);
    }
}

#[test]
fn nonsemantic_route_enumeration_order_does_not_change_analysis() {
    let default = route(RouteBehavior::Unicast);
    let mut specific = default.clone();
    specific.destination = IpNet::new(Ipv4Addr::new(203, 0, 113, 0).into(), 24).expect("valid test route");
    specific.metric = Some(20);

    let forward = analyze_initial_path(
        &snapshot(CapabilityValue::available(
            vec![default.clone(), specific.clone()],
            provenance(),
        )),
        &target(),
    );
    let reverse = analyze_initial_path(
        &snapshot(CapabilityValue::available(
            vec![specific, default],
            provenance(),
        )),
        &target(),
    );
    assert_eq!(forward, reverse);
}

#[test]
fn current_path_change_binds_neighbor_to_current_dependency() {
    let initial = analyze_initial_path(
        &snapshot(CapabilityValue::available(
            vec![route(RouteBehavior::Unicast)],
            provenance(),
        )),
        &target(),
    );
    let current = OperationPathContext {
        captured_at: Duration::from_secs(1),
        target_or_dependency: target().address,
        family: AddressFamily::Ipv4,
        egress_interface: Some(InterfaceId::from_index(3)),
        relation: PathRelation::Remote,
        next_hop: Some(Ipv4Addr::new(198, 51, 100, 1).into()),
        preferred_source: None,
        relation_to_initial_snapshot: None,
        provenance: provenance(),
    };
    let interfaces = CapabilityValue::available(
        vec![
            interface(InterfaceState::Up),
            InterfaceFact {
                id: InterfaceId {
                    index: 3,
                    stable_id: Some("replacement-safe-id".into()),
                },
                system_name: "test1".into(),
                display_name: "test1".into(),
                administrative_state: InterfaceState::Up,
                operational_state: InterfaceState::Up,
                is_loopback: false,
                addresses: Vec::new(),
                provenance: provenance(),
            },
        ],
        provenance(),
    );
    let current = reconcile_current_operation_path(current, &initial, &interfaces);
    let NeighborDependency::Known(neighbor) = neighbor_dependency_for_path(&current) else {
        panic!("current remote path should identify its next-hop Neighbor");
    };
    assert_eq!(neighbor.interface.index, 3);
    assert_eq!(
        neighbor.interface.stable_id.as_deref(),
        Some("replacement-safe-id")
    );
    assert_eq!(neighbor.address, IpAddr::from(Ipv4Addr::new(198, 51, 100, 1)));
    assert_eq!(
        current.relation_to_initial_snapshot.as_deref(),
        Some("current kernel dependency differs from initial snapshot")
    );
}
