use sushi::endpoint::{Endpoint, Ipv4Endpoint, Ipv6Endpoint};
use sushi::registry::PeerRegistry;
use sushi::relay::relay_step;

fn addr(ip: u32, port: u16) -> Ipv4Endpoint {
    Ipv4Endpoint { ip, port }
}

fn v6(port: u16) -> Endpoint {
    Endpoint::V6(Ipv6Endpoint { ip_hi: 0xfe80, ip_lo: 0x1, port })
}

#[test]
fn registry_insert_is_deduplicated() {
    let mut reg = PeerRegistry::new();
    let a = addr(0x0a000001, 5000);
    assert!(!reg.contains(a));
    reg.insert_if_absent(a);
    assert!(reg.contains(a));
    assert_eq!(reg.len(), 1);
    reg.insert_if_absent(a);
    reg.insert_if_absent(a);
    assert_eq!(reg.len(), 1);
}

#[test]
fn repeated_datagrams_from_one_peer_register_it_once() {
    let mut reg = PeerRegistry::new();
    let a = Endpoint::V4(addr(0x0a000001, 5000));
    for _ in 0..5 {
        relay_step(&mut reg, a);
    }
    assert_eq!(reg.len(), 1);
    assert!(reg.contains(addr(0x0a000001, 5000)));
}

#[test]
fn same_ip_with_different_port_is_a_different_peer() {
    let mut reg = PeerRegistry::new();
    relay_step(&mut reg, Endpoint::V4(addr(0x0a000001, 5000)));
    relay_step(&mut reg, Endpoint::V4(addr(0x0a000001, 5001)));
    assert_eq!(reg.len(), 2);
}

#[test]
fn sender_is_excluded_from_its_own_forward_set() {
    let mut reg = PeerRegistry::new();
    let a = addr(1, 10);
    let b = addr(2, 20);
    let c = addr(3, 30);
    reg.insert_if_absent(a);
    reg.insert_if_absent(b);
    reg.insert_if_absent(c);
    let fwd = relay_step(&mut reg, Endpoint::V4(b));
    assert_eq!(fwd, vec![a, c]);
}

#[test]
fn non_ipv4_sender_is_neither_registered_nor_forwarded() {
    let mut reg = PeerRegistry::new();
    reg.insert_if_absent(addr(1, 10));
    let fwd = relay_step(&mut reg, v6(4242));
    assert!(fwd.is_empty());
    assert_eq!(reg.len(), 1);
}

#[test]
fn snapshot_excluding_keeps_insertion_order() {
    let mut reg = PeerRegistry::new();
    let a = addr(9, 1);
    let b = addr(8, 2);
    let c = addr(7, 3);
    reg.insert_if_absent(a);
    reg.insert_if_absent(b);
    reg.insert_if_absent(c);
    let all = reg.snapshot_excluding(addr(0xffffffff, 65535));
    assert_eq!(all, vec![a, b, c]);
}

#[test]
fn two_peers_scenario_matches_the_expected_fan_out() {
    // Peers A and B each send one datagram to the relay, in that order.
    let mut reg = PeerRegistry::new();
    let a = addr(0x0a000001, 4000);
    let b = addr(0x0a000002, 4001);

    // A's datagram: B is not yet registered, so nobody receives it.
    let fwd_a = relay_step(&mut reg, Endpoint::V4(a));
    assert!(fwd_a.is_empty());

    // B's datagram is forwarded to A alone.
    let fwd_b = relay_step(&mut reg, Endpoint::V4(b));
    assert_eq!(fwd_b, vec![a]);

    // Final registry is [A, B], in insertion order.
    assert_eq!(reg.len(), 2);
    let all = reg.snapshot_excluding(addr(0xffffffff, 65535));
    assert_eq!(all, vec![a, b]);
}
