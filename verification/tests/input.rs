use reach::input::parse_port;
use reach::{parse_request, InputError, NonZeroU16, ParsedAddress, ScopeSyntax};

#[test]
fn parses_port_strictly() {
    assert_eq!(parse_port("1").map(NonZeroU16::get), Ok(1));
    assert_eq!(parse_port("65535").map(NonZeroU16::get), Ok(65_535));
    assert_eq!(parse_port("00080").map(NonZeroU16::get), Ok(80));
    assert_eq!(parse_port("0"), Err(InputError::PortOutOfRange));
    assert_eq!(parse_port("65536"), Err(InputError::PortOutOfRange));
    assert_eq!(parse_port("+80"), Err(InputError::InvalidPortSyntax));
    assert_eq!(parse_port(" 80"), Err(InputError::InvalidPortSyntax));
}

#[test]
fn parses_scoped_ipv6_without_binding_it() {
    let parsed = parse_request("fe80::1%12", None).expect("valid scoped IPv6");
    assert!(matches!(
        parsed.address,
        ParsedAddress::Ipv6 {
            scope: Some(ScopeSyntax::InterfaceIndex(index)),
            ..
        } if index.get() == 12
    ));

    let parsed = parse_request("fe80::1%Ethernet 2", None).expect("valid interface name");
    assert!(matches!(
        parsed.address,
        ParsedAddress::Ipv6 {
            scope: Some(ScopeSyntax::InterfaceName(name)),
            ..
        } if name == "Ethernet 2"
    ));
}

#[test]
fn hostname_contract_corpus_is_versioned_in_tests() {
    let accepted = [
        "localhost",
        "example.com",
        "EXAMPLE.COM.",
        "xn--bcher-kva.example",
        "bücher.example",
        "123.example",
        "999.999.999.999",
    ];
    for value in accepted {
        assert!(
            parse_request(value, None).is_ok(),
            "expected acceptance: {value}"
        );
    }

    let rejected = [
        "",
        ".",
        "example..com",
        "-example.com",
        "example-.com",
        "_service.example",
        "https://example.com",
        "user@example.com",
        "example.com/path",
        "example.com:443",
        "[::1]",
        "example.com\nforged",
    ];
    for value in rejected {
        assert!(
            parse_request(value, None).is_err(),
            "expected rejection: {value:?}"
        );
    }
}

#[test]
fn invalid_input_does_not_require_a_platform_dependency() {
    assert_eq!(
        parse_request("example.com", Some("not-a-port")),
        Err(InputError::InvalidPortSyntax)
    );
}

#[test]
fn untrusted_arguments_never_escape_the_input_result_model() {
    let untrusted = [
        "", " ", "%", "%%", "::%", "fe80::1%", "fe80::1%%", "1.2.3.4%1", "\u{0}", "\u{7f}",
        "\u{202e}x", "xn--", "xn--\u{fc}", "a.b.c.", "..", "1.2.3", "1.2.3.4.5", "::ffff:1.2.3.4",
        "1:2:3:4:5:6:7:8:9", "\u{1f600}.example", "\u{ad}", "\u{3002}",
    ];
    for address in untrusted {
        let _ = parse_request(address, None);
        for port in untrusted {
            let _ = parse_request(address, Some(port));
        }
    }
}

#[test]
fn every_input_error_has_an_input_that_gives_it() {
    assert_eq!(parse_request("", None), Err(InputError::EmptyAddress));
    assert_eq!(parse_request("a_b", None), Err(InputError::InvalidAddress));
    assert_eq!(parse_request("fe80::1%0", None), Err(InputError::InvalidIpv6Scope));
    assert_eq!(parse_request("192.0.2.1%1", None), Err(InputError::InvalidIpv6Scope));
    assert_eq!(parse_request("example.com", Some("")), Err(InputError::InvalidPortSyntax));
    assert_eq!(parse_request("example.com", Some("65536")), Err(InputError::PortOutOfRange));
}

#[test]
fn a_hostname_keeps_its_spelling_beside_its_ascii_form() {
    let parsed = parse_request("B\u{fc}cher.Example.", None).expect("valid hostname");
    let ParsedAddress::Hostname(hostname) = parsed.address else {
        panic!("a name is no address");
    };
    assert_eq!(hostname.original(), "B\u{fc}cher.Example.");
    assert_eq!(hostname.ascii(), "xn--bcher-kva.example.");
}

#[test]
fn literal_addresses_are_not_hostnames() {
    let parsed = parse_request("192.0.2.10", Some("22")).expect("valid address");
    assert!(matches!(parsed.address, ParsedAddress::Ipv4(address) if address.to_text() == "192.0.2.10"));
    assert_eq!(parsed.port.map(NonZeroU16::get), Some(22));
    let parsed = parse_request("2001:DB8:0:0:0:0:0:1", None).expect("valid address");
    assert!(matches!(
        parsed.address,
        ParsedAddress::Ipv6 { address, scope: None } if address.to_text() == "2001:db8::1"
    ));
}
