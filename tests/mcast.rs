use mcast::{
    listen_step, parse_interface, parse_ipv4, plan_socket, talk_step, ConfigError, Either,
    IpAddress, Ipv4Address, Ipv6Address, ListenAction, ListenEvent, Membership, SocketAddress,
    SocketPlan, TalkAction, TalkEvent, RECV_BUFFER_LEN,
};

fn v4(a: u8, b: u8, c: u8, d: u8) -> IpAddress {
    IpAddress::V4(Ipv4Address(a, b, c, d))
}

fn v6(first: u8, last: u8) -> Ipv6Address {
    let mut octets = [0u8; 16];
    octets[0] = first;
    octets[15] = last;
    Ipv6Address { octets }
}

#[test]
fn interface_index_from_integer_text() {
    assert_eq!(parse_interface("0"), Ok(Either::Left(0)));
    assert_eq!(parse_interface("42"), Ok(Either::Left(42)));
    assert_eq!(parse_interface("007"), Ok(Either::Left(7)));
    assert_eq!(parse_interface("+5"), Ok(Either::Left(5)));
    assert_eq!(parse_interface("4294967295"), Ok(Either::Left(u32::MAX)));
}

#[test]
fn interface_address_from_dotted_quad() {
    assert_eq!(
        parse_interface("192.168.1.10"),
        Ok(Either::Right(Ipv4Address(192, 168, 1, 10)))
    );
    assert_eq!(parse_interface("0.0.0.0"), Ok(Either::Right(Ipv4Address(0, 0, 0, 0))));
    assert_eq!(
        parse_interface("255.255.255.255"),
        Ok(Either::Right(Ipv4Address(255, 255, 255, 255)))
    );
}

#[test]
fn interface_text_of_neither_kind_is_refused() {
    for s in [
        "", "eth0", " 1", "1 ", "-1", "+", "4294967296", "1.2.3", "1.2.3.4.5", "256.1.1.1",
        "01.2.3.4", "1.2.3.04", "1..2.3", "1.2.3.4.", ".1.2.3.4", "1.2.3.1000", "a.b.c.d",
    ] {
        assert_eq!(parse_interface(s), Err(ConfigError::InvalidInterface), "{:?}", s);
    }
}

#[test]
fn dotted_quad_parsing() {
    assert_eq!(parse_ipv4("239.1.1.1"), Some(Ipv4Address(239, 1, 1, 1)));
    assert_eq!(parse_ipv4("10.0.100.9"), Some(Ipv4Address(10, 0, 100, 9)));
    assert_eq!(parse_ipv4("300.0.0.1"), None);
    assert_eq!(parse_ipv4("00.0.0.1"), None);
    assert_eq!(parse_ipv4("7"), None);
}

#[test]
fn multicast_blocks() {
    assert!(v4(224, 0, 0, 0).is_multicast());
    assert!(v4(239, 255, 255, 255).is_multicast());
    assert!(!v4(223, 255, 255, 255).is_multicast());
    assert!(!v4(240, 0, 0, 0).is_multicast());
    assert!(IpAddress::V6(v6(0xff, 1)).is_multicast());
    assert!(!IpAddress::V6(v6(0xfe, 1)).is_multicast());
    assert!(!IpAddress::V6(v6(0, 1)).is_multicast());
}

#[test]
fn non_multicast_group_is_refused() {
    for ip in [v4(0, 0, 0, 0), v4(192, 168, 0, 1), v4(127, 0, 0, 1), IpAddress::V6(v6(0, 1))] {
        let group = SocketAddress { ip, port: 5000 };
        assert_eq!(
            plan_socket(group, Either::Right(Ipv4Address(0, 0, 0, 0))),
            Err(ConfigError::NotMulticast)
        );
        assert_eq!(plan_socket(group, Either::Left(0)), Err(ConfigError::NotMulticast));
    }
}

#[test]
fn ipv4_group_binds_to_group_address() {
    let group = SocketAddress { ip: v4(239, 1, 1, 1), port: 12345 };
    let iface = parse_interface("0.0.0.0").unwrap();
    assert_eq!(
        plan_socket(group, iface),
        Ok(SocketPlan {
            bind: group,
            membership: Membership::V4 {
                group_v4: Ipv4Address(239, 1, 1, 1),
                interface_address: Ipv4Address(0, 0, 0, 0),
            },
        })
    );
}

#[test]
fn ipv4_group_with_interface_index_is_refused() {
    let group = SocketAddress { ip: v4(239, 1, 1, 1), port: 12345 };
    let iface = parse_interface("0").unwrap();
    assert_eq!(plan_socket(group, iface), Err(ConfigError::MismatchedInterface));
}

#[test]
fn ipv6_group_with_interface_address_is_refused() {
    let group = SocketAddress { ip: IpAddress::V6(v6(0xff, 1)), port: 5000 };
    let iface = parse_interface("192.168.1.10").unwrap();
    assert_eq!(plan_socket(group, iface), Err(ConfigError::MismatchedInterface));
}

#[test]
fn ipv6_group_joins_by_index() {
    let group = SocketAddress { ip: IpAddress::V6(v6(0xff, 1)), port: 5000 };
    assert_eq!(
        plan_socket(group, Either::Left(3)),
        Ok(SocketPlan {
            bind: group,
            membership: Membership::V6 { group_v6: v6(0xff, 1), interface_index: 3 },
        })
    );
}

#[test]
fn listen_reports_until_receive_fails() {
    assert_eq!(listen_step(ListenEvent::Received(5)), ListenAction::Report(5));
    assert_eq!(
        listen_step(ListenEvent::Received(RECV_BUFFER_LEN)),
        ListenAction::Report(1024)
    );
    assert_eq!(listen_step(ListenEvent::ReceiveFailed), ListenAction::Exit);
}

#[test]
fn talk_sends_lines_and_exits_at_end_of_input() {
    match talk_step(TalkEvent::Line(String::from("hello"))) {
        TalkAction::Send(payload) => assert_eq!(payload.as_bytes(), b"hello"),
        other => panic!("unexpected {:?}", other),
    }
    match talk_step(TalkEvent::Line(String::new())) {
        TalkAction::Send(payload) => assert!(payload.is_empty()),
        other => panic!("unexpected {:?}", other),
    }
    assert!(matches!(talk_step(TalkEvent::EndOfInput), TalkAction::Exit));
    assert!(matches!(talk_step(TalkEvent::ReadFailed), TalkAction::Abort));
    assert!(matches!(talk_step(TalkEvent::SendFailed), TalkAction::Abort));
}
