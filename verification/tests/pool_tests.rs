use dnsnet_core::pool::WaitingOnSocketPacket;
use dnsnet_core::pool::WospList;
use socket2::Domain;
use socket2::Protocol;
use socket2::Socket;
use socket2::Type;

fn udp_socket() -> Socket {
    Socket::new(Domain::IPV4, Type::DGRAM, Some(Protocol::UDP)).expect("socket")
}

#[test]
fn age_is_whole_seconds_and_clamped() {
    let w = WaitingOnSocketPacket::new(udp_socket(), vec![1], 5000);
    assert_eq!(w.age_seconds(16_000), 11);
    assert_eq!(w.age_seconds(5_500), 0);
    // a clock that moved backwards reads as no age
    assert_eq!(w.age_seconds(0), 0);
}

#[test]
fn add_assigns_increasing_keys() {
    let mut pool = WospList::new();
    let k0 = pool.add(WaitingOnSocketPacket::new(udp_socket(), vec![0], 1000), 1000);
    let k1 = pool.add(WaitingOnSocketPacket::new(udp_socket(), vec![1], 1001), 1001);
    let k2 = pool.add(WaitingOnSocketPacket::new(udp_socket(), vec![2], 1002), 1002);
    assert!(k0 < k1 && k1 < k2);
    assert_eq!(pool.len(), 3);
}

#[test]
fn stale_entries_are_purged_on_admission() {
    let mut pool = WospList::new();
    pool.add(WaitingOnSocketPacket::new(udp_socket(), vec![0], 0), 0);
    pool.add(WaitingOnSocketPacket::new(udp_socket(), vec![1], 1_000), 1_000);
    assert_eq!(pool.len(), 2);
    // twenty seconds later both early entries have aged out
    let k = pool.add(
        WaitingOnSocketPacket::new(udp_socket(), vec![2], 21_000),
        21_000,
    );
    assert_eq!(pool.len(), 1);
    let taken = pool.take_by_key(k).expect("the fresh entry is resident");
    assert_eq!(taken.packet, vec![2]);
    assert_eq!(pool.len(), 0);
}

#[test]
fn take_by_key_removes_exactly_the_match() {
    let mut pool = WospList::new();
    let k0 = pool.add(WaitingOnSocketPacket::new(udp_socket(), vec![10], 500), 500);
    let k1 = pool.add(WaitingOnSocketPacket::new(udp_socket(), vec![11], 501), 501);
    let taken = pool.take_by_key(k0).expect("present");
    assert_eq!(taken.packet, vec![10]);
    assert_eq!(taken.key, k0);
    assert_eq!(pool.len(), 1);
    assert!(pool.take_by_key(k0).is_none());
    assert!(pool.take_by_key(9999).is_none());
    assert!(pool.take_by_key(k1).is_some());
}

#[test]
fn oldest_leaves_first_under_pressure() {
    let mut pool = WospList::new();
    // a small burst; the capacity bound itself is proved, this checks order
    let first = pool.add(WaitingOnSocketPacket::new(udp_socket(), vec![0], 100), 100);
    for i in 1..10u8 {
        pool.add(
            WaitingOnSocketPacket::new(udp_socket(), vec![i], 100 + i as u128),
            100 + i as u128,
        );
    }
    // age the first ones out
    pool.add(
        WaitingOnSocketPacket::new(udp_socket(), vec![99], 12_000),
        12_000,
    );
    assert!(pool.take_by_key(first).is_none());
}
