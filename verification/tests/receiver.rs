use wol_relay::recursion_prevention::is_our_ip;
use wol_relay::wol_message::{build_magic_packet, parse_wol_message};
use wol_relay::{
    plan_relay, receive_step, DatagramDecision, IpAddress, MacAddress, SocketAddress,
    WolReceiverConfig,
};

const LOOPBACK_V4: IpAddress = IpAddress::V4(0x7F00_0001);
const LOOPBACK_V6: IpAddress = IpAddress::V6(1);
const OTHER_V4: IpAddress = IpAddress::V4(0xC0A8_0105);

fn sample_mac() -> MacAddress {
    MacAddress::new([0xAA, 0xBB, 0xCC, 0xDD, 0xEE, 0xFF])
}

#[test]
fn config_defaults_to_wildcard_port_nine() {
    let config = WolReceiverConfig::new();
    assert_eq!(config.addr.ip, IpAddress::V4(0));
    assert_eq!(config.addr.port, 9);
    assert_eq!(WolReceiverConfig::default(), config);
}

#[test]
fn config_builders_override_ip_and_port() {
    let config = WolReceiverConfig::new()
        .with_ip(LOOPBACK_V4)
        .with_port(9999);
    assert_eq!(config.addr.ip, LOOPBACK_V4);
    assert_eq!(config.addr.port, 9999);
    let config = WolReceiverConfig::new().with_port(7);
    assert_eq!(config.addr.ip, IpAddress::V4(0));
    assert_eq!(config.addr.port, 7);
}

#[test]
fn wildcard_of_family_matches_the_family() {
    assert_eq!(LOOPBACK_V4.wildcard_of_family(), IpAddress::V4(0));
    assert_eq!(LOOPBACK_V6.wildcard_of_family(), IpAddress::V6(0));
}

#[test]
fn a_probe_reporting_the_source_ip_is_ours() {
    let source = SocketAddress { ip: LOOPBACK_V4, port: 40000 };
    let local = SocketAddress { ip: LOOPBACK_V4, port: 54321 };
    assert!(is_our_ip(&source, &Some(local)));
}

#[test]
fn a_probe_reporting_another_ip_is_not_ours() {
    let source = SocketAddress { ip: OTHER_V4, port: 40000 };
    let local = SocketAddress { ip: LOOPBACK_V4, port: 54321 };
    assert!(!is_our_ip(&source, &Some(local)));
}

#[test]
fn a_failed_probe_is_not_ours() {
    let source = SocketAddress { ip: OTHER_V4, port: 40000 };
    assert!(!is_our_ip(&source, &None));
}

#[test]
fn a_magic_packet_from_another_host_is_accepted() {
    // A wake request sent to 127.0.0.1:9999 from a host whose probe
    // reports a different local address: the stream yields its target.
    let payload = build_magic_packet(&sample_mac(), None);
    let source = SocketAddress { ip: OTHER_V4, port: 9998 };
    let probed = Some(SocketAddress { ip: LOOPBACK_V4, port: 50000 });
    let decision = receive_step(&payload, &source, &probed);
    assert_eq!(decision, DatagramDecision::Accept(sample_mac()));
}

#[test]
fn noise_from_another_host_is_ignored() {
    // The same setup fed a 50-byte all-zero buffer yields nothing.
    let payload = vec![0u8; 50];
    let source = SocketAddress { ip: OTHER_V4, port: 9998 };
    let probed = Some(SocketAddress { ip: LOOPBACK_V4, port: 50000 });
    let decision = receive_step(&payload, &source, &probed);
    assert_eq!(decision, DatagramDecision::DiscardMalformed);
}

#[test]
fn a_self_originated_packet_is_filtered() {
    // A valid magic packet whose source address is this host's own is
    // dropped, while the identical payload from elsewhere is accepted.
    let payload = build_magic_packet(&sample_mac(), None);
    let source = SocketAddress { ip: LOOPBACK_V4, port: 9998 };
    let probed = Some(SocketAddress { ip: LOOPBACK_V4, port: 50000 });
    let decision = receive_step(&payload, &source, &probed);
    assert_eq!(decision, DatagramDecision::DiscardRecursion);

    let other_source = SocketAddress { ip: OTHER_V4, port: 9998 };
    let decision = receive_step(&payload, &other_source, &probed);
    assert_eq!(decision, DatagramDecision::Accept(sample_mac()));
}

#[test]
fn relay_fans_out_to_every_resolved_address() {
    // A name resolving to both an IPv4 and an IPv6 address gets one send
    // per resolved address for a single relayed target.
    let resolved = vec![
        SocketAddress { ip: LOOPBACK_V4, port: 10009 },
        SocketAddress { ip: LOOPBACK_V6, port: 10009 },
    ];
    let plan = plan_relay(&sample_mac(), &resolved, None);
    assert_eq!(plan.len(), 2);
    for (packet, destination) in plan.iter().zip(resolved.iter()) {
        assert_eq!(packet.destination, *destination);
        assert_eq!(packet.payload.len(), 102);
        assert_eq!(parse_wol_message(&packet.payload), Some(sample_mac()));
    }
}

#[test]
fn relay_carries_the_secure_on_secret() {
    let resolved = vec![SocketAddress { ip: LOOPBACK_V4, port: 9 }];
    let secret = vec![1, 2, 3, 4, 5, 6];
    let plan = plan_relay(&sample_mac(), &resolved, Some(&secret));
    assert_eq!(plan.len(), 1);
    assert_eq!(plan[0].payload.len(), 108);
    assert_eq!(&plan[0].payload[102..], &secret[..]);
    assert_eq!(parse_wol_message(&plan[0].payload), Some(sample_mac()));
}

#[test]
fn relay_of_no_resolved_address_sends_nothing() {
    let plan = plan_relay(&sample_mac(), &Vec::new(), None);
    assert!(plan.is_empty());
}
