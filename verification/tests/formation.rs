use reach::{
    bind_diagnostic_request, form_literal_target, parse_request, BoundAddressInput, CapabilityReason,
    CapabilityValue, Duration, InterfaceAddress, InterfaceFact, InterfaceId, InterfaceState, IpNet,
    Ipv6Addr, NonZeroU16, Provenance, ProvenanceSource, ScopeBindingError,
};

fn interface(index: u32, system_name: &str, display_name: &str) -> InterfaceFact {
    let provenance = Provenance::new(ProvenanceSource::SyntheticTest).at(Duration::zero());
    InterfaceFact {
        id: InterfaceId {
            index,
            stable_id: Some(format!("stable-{index}")),
        },
        system_name: system_name.into(),
        display_name: display_name.into(),
        administrative_state: InterfaceState::Up,
        operational_state: InterfaceState::Up,
        is_loopback: false,
        addresses: vec![InterfaceAddress {
            network: IpNet::new(Ipv6Addr::localhost().into(), 128).unwrap(),
            scope_id: Some(index),
            provenance: provenance.clone(),
        }],
        provenance,
    }
}

fn snapshot(interfaces: Vec<InterfaceFact>) -> CapabilityValue<Vec<InterfaceFact>> {
    CapabilityValue::available(interfaces, Provenance::new(ProvenanceSource::SyntheticTest))
}

#[test]
fn binds_numeric_scope_to_snapshot_identity() {
    let request = parse_request("fe80::1%7", None).unwrap();
    let target = form_literal_target(
        &request.address,
        &snapshot(vec![interface(7, "eth0", "Ethernet")]),
    )
    .unwrap()
    .unwrap();
    assert_eq!(
        target.target.scope.unwrap().stable_id.as_deref(),
        Some("stable-7")
    );
}

#[test]
fn binds_system_or_display_name_only_when_unique() {
    let request = parse_request("fe80::1%Ethernet", None).unwrap();
    let target = form_literal_target(
        &request.address,
        &snapshot(vec![interface(7, "eth0", "Ethernet")]),
    )
    .unwrap()
    .unwrap();
    assert_eq!(target.target.scope.unwrap().index, 7);

    let ambiguous = snapshot(vec![
        interface(7, "eth0", "Ethernet"),
        interface(8, "eth1", "Ethernet"),
    ]);
    assert_eq!(
        form_literal_target(&request.address, &ambiguous),
        Err(ScopeBindingError::AmbiguousInterface)
    );
}

#[test]
fn refuses_to_guess_when_interface_facts_are_missing() {
    let request = parse_request("fe80::1%7", None).unwrap();
    let unavailable = CapabilityValue::unavailable(
        CapabilityReason::UnsupportedEnvironment,
        Provenance::new(ProvenanceSource::SyntheticTest),
    );
    assert_eq!(
        form_literal_target(&request.address, &unavailable),
        Err(ScopeBindingError::InterfacesUnavailable)
    );
}

#[test]
fn bound_request_keeps_hostname_without_inventing_a_target() {
    let parsed = parse_request("example.com", Some("443")).unwrap();
    let request = bind_diagnostic_request(&parsed, &snapshot(Vec::new())).unwrap();
    assert!(matches!(request.address, BoundAddressInput::Hostname(_)));
    assert_eq!(request.port.map(NonZeroU16::get), Some(443));
}
