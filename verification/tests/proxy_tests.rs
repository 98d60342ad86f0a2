use dnsnet_core::codec::build_ipv4_packet_with_udp_payload;
use dnsnet_core::codec::GenericIpPacket;
use dnsnet_core::codec::IpHeader;
use dnsnet_core::controller::VpnController;
use dnsnet_core::proxy::eval_socket_error;
use dnsnet_core::proxy::DnsPacketProxy;
use dnsnet_core::proxy::DnsRequestAction;
use dnsnet_core::rules::LoadedHost;
use dnsnet_core::rules::NativeHost;
use dnsnet_core::rules::NativeHostState;
use dnsnet_core::VpnError;
use dnsnet_core::VpnStatus;
use simple_dns::Name;
use simple_dns::Packet;
use simple_dns::PacketFlag;
use simple_dns::Question;
use simple_dns::CLASS;
use simple_dns::QCLASS;
use simple_dns::QTYPE;
use simple_dns::TYPE;

const CLIENT: [u8; 4] = [192, 168, 0, 5];
// last byte 2 selects the first upstream server
const VIRTUAL_DNS: [u8; 4] = [10, 1, 1, 2];
const UPSTREAM: [u8; 4] = [9, 9, 9, 9];

fn query_bytes(name: &str, id: u16) -> Vec<u8> {
    let mut packet = Packet::new_query(id);
    packet.questions.push(Question::new(
        Name::new_unchecked(name),
        QTYPE::TYPE(TYPE::A),
        QCLASS::CLASS(CLASS::IN),
        false,
    ));
    packet.build_bytes_vec().expect("query encodes")
}

fn proxy_blocking_ads() -> DnsPacketProxy {
    let mut proxy = DnsPacketProxy::new();
    proxy
        .initialize(
            &VpnController::new(-1),
            vec![LoadedHost {
                host: NativeHost {
                    title: String::from("ads"),
                    data: String::from("ads.example.com"),
                    state: NativeHostState::DENY,
                },
                lines: None,
            }],
            vec![],
            vec![UPSTREAM.to_vec()],
        )
        .expect("not cancelled");
    proxy
}

fn tunnel_packet(name: &str, id: u16) -> Vec<u8> {
    let dns = query_bytes(name, id);
    build_ipv4_packet_with_udp_payload(
        &CLIENT.to_vec(),
        5355,
        &VIRTUAL_DNS.to_vec(),
        53,
        64,
        7,
        &dns,
    )
    .expect("fits")
}

#[test]
fn blocked_query_gets_synthesized_response_and_no_forward() {
    let proxy = proxy_blocking_ads();
    let packet = tunnel_packet("ads.example.com", 0x1111);
    match proxy.handle_dns_request(&packet) {
        DnsRequestAction::Block { query_name, response_packet } => {
            assert_eq!(query_name, "ads.example.com");
            let response = response_packet.expect("response framed");
            let parsed = GenericIpPacket::from_ip_packet(&response).expect("parses");
            match parsed.header {
                IpHeader::V4 { source, destination, .. } => {
                    assert_eq!(source, VIRTUAL_DNS.to_vec());
                    assert_eq!(destination, CLIENT.to_vec());
                }
                IpHeader::V6 { .. } => panic!("wrong version"),
            }
            let udp = parsed.udp.expect("udp");
            assert_eq!(udp.source_port, 53);
            assert_eq!(udp.destination_port, 5355);
            let reply = Packet::parse(&udp.payload).expect("reply decodes");
            assert_eq!(reply.id(), 0x1111);
            assert!(reply.has_flags(PacketFlag::RESPONSE));
            assert_eq!(reply.additional_records.len(), 1);
        }
        _ => panic!("expected a block decision"),
    }
}

#[test]
fn allowed_query_gets_exactly_one_forward_plan() {
    let proxy = proxy_blocking_ads();
    let dns = query_bytes("safe.example.com", 0x2222);
    let packet = build_ipv4_packet_with_udp_payload(
        &CLIENT.to_vec(),
        5355,
        &VIRTUAL_DNS.to_vec(),
        53,
        64,
        7,
        &dns,
    )
    .expect("fits");
    match proxy.handle_dns_request(&packet) {
        DnsRequestAction::Allow { query_name, forward } => {
            assert_eq!(query_name, "safe.example.com");
            let plan = forward.expect("forwardable");
            assert_eq!(plan.destination, UPSTREAM.to_vec());
            assert_eq!(plan.destination_port, 53);
            assert_eq!(plan.dns_payload, dns);
        }
        _ => panic!("expected an allow decision"),
    }
}

#[test]
fn unmapped_upstream_index_drops() {
    let proxy = proxy_blocking_ads();
    let dns = query_bytes("safe.example.com", 1);
    // last byte 9 asks for the eighth server; only one is configured
    let packet = build_ipv4_packet_with_udp_payload(
        &CLIENT.to_vec(),
        5355,
        &vec![10, 1, 1, 9],
        53,
        64,
        7,
        &dns,
    )
    .expect("fits");
    assert!(matches!(proxy.handle_dns_request(&packet), DnsRequestAction::Drop));
}

#[test]
fn non_dns_payload_drops() {
    let proxy = proxy_blocking_ads();
    let packet = build_ipv4_packet_with_udp_payload(
        &CLIENT.to_vec(),
        5355,
        &VIRTUAL_DNS.to_vec(),
        53,
        64,
        7,
        &vec![1, 2, 3],
    )
    .expect("fits");
    assert!(matches!(proxy.handle_dns_request(&packet), DnsRequestAction::Drop));
    assert!(matches!(proxy.handle_dns_request(&[]), DnsRequestAction::Drop));
}

#[test]
fn no_upstreams_means_passthrough_addressing() {
    let mut proxy = DnsPacketProxy::new();
    proxy
        .initialize(&VpnController::new(-1), vec![], vec![], vec![])
        .expect("not cancelled");
    let dns = query_bytes("safe.example.com", 5);
    let packet = build_ipv4_packet_with_udp_payload(
        &CLIENT.to_vec(),
        5355,
        &vec![8, 8, 4, 4],
        53,
        64,
        7,
        &dns,
    )
    .expect("fits");
    match proxy.handle_dns_request(&packet) {
        DnsRequestAction::Allow { forward, .. } => {
            let plan = forward.expect("forwardable");
            assert_eq!(plan.destination, vec![8, 8, 4, 4]);
        }
        _ => panic!("expected an allow decision"),
    }
}

#[test]
fn translate_rejects_low_index() {
    let proxy = proxy_blocking_ads();
    assert_eq!(proxy.translate_destination_address(&vec![10, 1, 1, 1]), None);
    assert_eq!(proxy.translate_destination_address(&vec![10, 1, 1, 0]), None);
    assert_eq!(
        proxy.translate_destination_address(&vec![10, 1, 1, 2]),
        Some(UPSTREAM.to_vec())
    );
}

#[test]
fn handle_dns_response_rebuilds_the_reply() {
    let proxy = proxy_blocking_ads();
    let request = tunnel_packet("safe.example.com", 9);
    let payload = vec![0xAB, 0xCD];
    let reply = proxy.handle_dns_response(&request, &payload).expect("framable");
    let parsed = GenericIpPacket::from_ip_packet(&reply).expect("parses");
    let udp = parsed.udp.expect("udp");
    assert_eq!(udp.payload, payload);
    assert!(proxy.handle_dns_response(&[], &payload).is_none());
}

#[test]
fn socket_error_classification() {
    assert!(!eval_socket_error(101)); // network unreachable: transient
    assert!(!eval_socket_error(1)); // permission denied: transient
    assert!(eval_socket_error(111)); // anything else is reported
}

#[test]
fn status_ordinals_match_the_host_enumeration() {
    assert_eq!(VpnStatus::Starting.ordinal(), 0);
    assert_eq!(VpnStatus::Running.ordinal(), 1);
    assert_eq!(VpnStatus::Stopping.ordinal(), 2);
    assert_eq!(VpnStatus::WaitingForNetwork.ordinal(), 3);
    assert_eq!(VpnStatus::Reconnecting.ordinal(), 4);
    assert_eq!(VpnStatus::ReconnectingNetworkError.ordinal(), 5);
    assert_eq!(VpnStatus::Stopped.ordinal(), 6);
}

#[test]
fn error_messages_are_stable() {
    assert_eq!(
        VpnError::Timeout.message(),
        String::from("Watchdog timed out")
    );
    assert_eq!(
        VpnError::TunnelReadFailure.message(),
        String::from("Failed to read from the tunnel file descriptor")
    );
}

#[test]
fn controller_carries_flag_and_descriptor() {
    let c = VpnController::new(42);
    assert_eq!(c.event_fd(), 42);
    assert!(!c.get_should_stop());
    c.stop();
    assert!(c.get_should_stop());
    c.stop();
    assert!(c.get_should_stop());
}

#[test]
fn epoch_clocks_tick() {
    assert!(dnsnet_core::timeofday::get_epoch().as_secs() > 0);
    assert!(dnsnet_core::timeofday::get_epoch_millis() > 0);
    assert!(dnsnet_core::timeofday::get_epoch_nanos() > 0);
}

#[test]
fn uppercase_query_is_normalized_before_lookup() {
    let proxy = proxy_blocking_ads();
    let packet = tunnel_packet("ADS.Example.COM", 0x3333);
    match proxy.handle_dns_request(&packet) {
        DnsRequestAction::Block { query_name, .. } => {
            assert_eq!(query_name, "ads.example.com");
        }
        _ => panic!("expected a block decision"),
    }
}
