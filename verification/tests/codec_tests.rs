use dnsnet_core::codec::build_ipv4_packet_with_udp_payload;
use dnsnet_core::codec::build_ipv6_packet_with_udp_payload;
use dnsnet_core::codec::build_response_packet;
use dnsnet_core::codec::GenericIpPacket;
use dnsnet_core::codec::IpHeader;
use etherparse::PacketBuilder;
use etherparse::SlicedPacket;
use etherparse::NetSlice;
use etherparse::TransportSlice;

const A4: [u8; 4] = [10, 0, 0, 1];
const B4: [u8; 4] = [8, 8, 8, 8];
const A6: [u8; 16] = [0xfd, 0, 0, 0, 0, 0, 0, 0, 0, 0, 0, 0, 0, 0, 0, 1];
const B6: [u8; 16] = [0x20, 1, 0x48, 0x60, 0x48, 0x60, 0, 0, 0, 0, 0, 0, 0, 0, 0x88, 0x88];

#[test]
fn ipv4_build_matches_reference_encoder() {
    let payload = vec![1u8, 2, 3, 4, 5];
    let ours = build_ipv4_packet_with_udp_payload(&A4.to_vec(), 1, &B4.to_vec(), 2, 64, 0, &payload)
        .expect("fits");
    let mut reference = Vec::<u8>::new();
    PacketBuilder::ipv4(A4, B4, 64)
        .udp(1, 2)
        .write(&mut reference, &payload)
        .expect("reference encoder");
    assert_eq!(ours, reference);
}

#[test]
fn ipv6_build_matches_reference_encoder() {
    let payload = vec![9u8, 8, 7];
    let ours =
        build_ipv6_packet_with_udp_payload(&A6.to_vec(), 1000, &B6.to_vec(), 53, 0, 0, 64, &payload)
            .expect("fits");
    let mut reference = Vec::<u8>::new();
    PacketBuilder::ipv6(A6, B6, 64)
        .udp(1000, 53)
        .write(&mut reference, &payload)
        .expect("reference encoder");
    assert_eq!(ours, reference);
}

#[test]
fn ipv4_response_swaps_addressing() {
    let request =
        build_ipv4_packet_with_udp_payload(&A4.to_vec(), 1, &B4.to_vec(), 2, 64, 77, &vec![0xAA])
            .expect("fits");
    let reply_payload = vec![0xBB, 0xCC];
    let response = build_response_packet(&request, &reply_payload).expect("framable");
    let parsed = GenericIpPacket::from_ip_packet(&response).expect("parses");
    match parsed.header {
        IpHeader::V4 { source, destination, time_to_live, identification } => {
            assert_eq!(source, B4.to_vec());
            assert_eq!(destination, A4.to_vec());
            assert_eq!(time_to_live, 64);
            assert_eq!(identification, 77);
        }
        IpHeader::V6 { .. } => panic!("wrong version"),
    }
    let udp = parsed.udp.expect("udp");
    assert_eq!(udp.source_port, 2);
    assert_eq!(udp.destination_port, 1);
    assert_eq!(udp.payload, reply_payload);
}

#[test]
fn ipv6_response_swaps_addressing() {
    let request = build_ipv6_packet_with_udp_payload(
        &A6.to_vec(),
        5353,
        &B6.to_vec(),
        53,
        3,
        0x12345,
        61,
        &vec![1, 2],
    )
    .expect("fits");
    let reply_payload = vec![7u8; 40];
    let response = build_response_packet(&request, &reply_payload).expect("framable");
    let parsed = GenericIpPacket::from_ip_packet(&response).expect("parses");
    match parsed.header {
        IpHeader::V6 { source, destination, traffic_class, flow_label, hop_limit } => {
            assert_eq!(source, B6.to_vec());
            assert_eq!(destination, A6.to_vec());
            assert_eq!(traffic_class, 3);
            assert_eq!(flow_label, 0x12345);
            assert_eq!(hop_limit, 61);
        }
        IpHeader::V4 { .. } => panic!("wrong version"),
    }
    let udp = parsed.udp.expect("udp");
    assert_eq!(udp.source_port, 53);
    assert_eq!(udp.destination_port, 5353);
    assert_eq!(udp.payload, reply_payload);
}

#[test]
fn response_parses_with_reference_decoder() {
    let request =
        build_ipv4_packet_with_udp_payload(&A4.to_vec(), 1, &B4.to_vec(), 2, 64, 0, &vec![0xAA])
            .expect("fits");
    let response = build_response_packet(&request, &vec![0xDD, 0xEE]).expect("framable");
    let sliced = SlicedPacket::from_ip(&response).expect("reference decoder accepts");
    match sliced.net {
        Some(NetSlice::Ipv4(v4)) => {
            assert_eq!(v4.header().source(), B4);
            assert_eq!(v4.header().destination(), A4);
        }
        _ => panic!("not ipv4"),
    }
    match sliced.transport {
        Some(TransportSlice::Udp(udp)) => {
            assert_eq!(udp.source_port(), 2);
            assert_eq!(udp.destination_port(), 1);
            assert_eq!(udp.payload(), &[0xDD, 0xEE]);
        }
        _ => panic!("not udp"),
    }
}

#[test]
fn parses_reference_encoded_packet() {
    let payload = vec![0x11u8, 0x22, 0x33];
    let mut wire = Vec::<u8>::new();
    PacketBuilder::ipv4(A4, B4, 17)
        .udp(4000, 53)
        .write(&mut wire, &payload)
        .expect("reference encoder");
    let parsed = GenericIpPacket::from_ip_packet(&wire).expect("parses");
    assert_eq!(parsed.get_destination_address(), Some(B4.to_vec()));
    match parsed.header {
        IpHeader::V4 { source, destination, time_to_live, .. } => {
            assert_eq!(source, A4.to_vec());
            assert_eq!(destination, B4.to_vec());
            assert_eq!(time_to_live, 17);
        }
        IpHeader::V6 { .. } => panic!("wrong version"),
    }
    let udp = parsed.udp.expect("udp");
    assert_eq!(udp.source_port, 4000);
    assert_eq!(udp.destination_port, 53);
    assert_eq!(udp.payload, payload);
}

#[test]
fn rejects_malformed_input() {
    assert!(GenericIpPacket::from_ip_packet(&[]).is_none());
    assert!(GenericIpPacket::from_ip_packet(&[0x45]).is_none());
    // version nibble neither 4 nor 6
    assert!(GenericIpPacket::from_ip_packet(&[0x55; 40]).is_none());
    // claims a 200-byte total length with 28 bytes of data
    let mut short = build_ipv4_packet_with_udp_payload(
        &A4.to_vec(),
        1,
        &B4.to_vec(),
        2,
        64,
        0,
        &vec![],
    )
    .expect("fits");
    short[2] = 0;
    short[3] = 200;
    assert!(GenericIpPacket::from_ip_packet(&short).is_none());
}

#[test]
fn oversized_payload_is_refused() {
    let big = vec![0u8; 65508];
    assert!(
        build_ipv4_packet_with_udp_payload(&A4.to_vec(), 1, &B4.to_vec(), 2, 64, 0, &big).is_none()
    );
    let big6 = vec![0u8; 65528];
    assert!(
        build_ipv6_packet_with_udp_payload(&A6.to_vec(), 1, &B6.to_vec(), 2, 0, 0, 64, &big6)
            .is_none()
    );
}

#[test]
fn non_udp_packet_has_no_datagram() {
    // a minimal TCP/IPv4 packet built by the reference encoder
    let mut wire = Vec::<u8>::new();
    PacketBuilder::ipv4(A4, B4, 64)
        .tcp(100, 200, 5, 1000)
        .write(&mut wire, &[])
        .expect("reference encoder");
    let parsed = GenericIpPacket::from_ip_packet(&wire).expect("ip parses");
    assert!(parsed.udp.is_none());
    assert!(build_response_packet(&wire, &[1, 2]).is_none());
}

#[test]
fn parses_reference_encoded_ipv6_packet() {
    let payload = vec![0x44u8, 0x55];
    let mut wire = Vec::<u8>::new();
    PacketBuilder::ipv6(A6, B6, 33)
        .udp(1234, 53)
        .write(&mut wire, &payload)
        .expect("reference encoder");
    let parsed = GenericIpPacket::from_ip_packet(&wire).expect("parses");
    assert_eq!(parsed.get_destination_address(), Some(B6.to_vec()));
    match parsed.header {
        IpHeader::V6 { source, destination, hop_limit, .. } => {
            assert_eq!(source, A6.to_vec());
            assert_eq!(destination, B6.to_vec());
            assert_eq!(hop_limit, 33);
        }
        IpHeader::V4 { .. } => panic!("wrong version"),
    }
    let udp = parsed.udp.expect("udp");
    assert_eq!(udp.source_port, 1234);
    assert_eq!(udp.destination_port, 53);
    assert_eq!(udp.payload, payload);
}
