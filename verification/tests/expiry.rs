use rustsocks::endpoint::{Endpoint, PeerKey};
use rustsocks::udp_relay::receive::{ReturnPath, UdpReceiveManager};
use rustsocks::udp_relay::send::Notice;
use rustsocks::utils::expiry_map::{ExpiryMap, NANOS_PER_SEC};

fn key(n: u8) -> PeerKey {
    Endpoint::v4(10, 0, 0, n, 53).key()
}

const SEC: u128 = NANOS_PER_SEC;

#[test]
fn insert_then_get() {
    let mut map = ExpiryMap::new(300);
    assert_eq!(map.get_mut_at(&key(1), 0), None);
    map.insert_at(key(1), 11, 5);
    map.insert_at(key(2), 22, 6);
    assert_eq!(map.get_mut_at(&key(1), 7), Some(11));
    assert_eq!(map.get_mut_at(&key(2), 7), Some(22));
    assert_eq!(map.get_mut_at(&key(3), 7), None);
    map.insert_at(key(1), 12, 8);
    assert_eq!(map.get_mut_at(&key(1), 9), Some(12));
}

#[test]
fn remove_takes_one_entry_out() {
    let mut map = ExpiryMap::new(300);
    map.insert_at(key(1), 11, 0);
    map.insert_at(key(2), 22, 0);
    map.remove(&key(1));
    map.remove(&key(3));
    assert_eq!(map.get_mut_at(&key(1), 1), None);
    assert_eq!(map.get_mut_at(&key(2), 1), Some(22));
}

#[test]
fn entry_expires_only_past_the_expiry_time() {
    let mut map = ExpiryMap::new(300);
    map.insert_at(key(1), 11, 10 * SEC);
    assert!(map.cleanup_expired_at(310 * SEC).is_empty());
    assert_eq!(map.cleanup_expired_at(310 * SEC + 1), vec![(key(1), 11)]);
    assert_eq!(map.get_mut_at(&key(1), 311 * SEC), None);
    assert!(map.cleanup_expired_at(1000 * SEC).is_empty());
}

#[test]
fn cleanup_before_the_last_use_drops_nothing() {
    let mut map = ExpiryMap::new(1);
    map.insert_at(key(1), 11, 100 * SEC);
    assert!(map.cleanup_expired_at(0).is_empty());
    assert_eq!(map.get_mut_at(&key(1), 100 * SEC), Some(11));
}

#[test]
fn use_puts_expiry_off() {
    let mut map = ExpiryMap::new(300);
    map.insert_at(key(1), 11, 0);
    map.insert_at(key(2), 22, 0);
    assert_eq!(map.get_mut_at(&key(1), 200 * SEC), Some(11));
    let mut dropped = map.cleanup_expired_at(301 * SEC);
    dropped.sort();
    assert_eq!(dropped, vec![(key(2), 22)]);
    assert_eq!(map.get_mut_at(&key(1), 301 * SEC), Some(11));
}

#[test]
fn cleanup_drops_every_idle_entry() {
    let mut map = ExpiryMap::new(300);
    for n in 0..50u8 {
        map.insert_at(key(n), n as usize, (n as u128) * SEC);
    }
    let mut dropped = map.cleanup_expired_at(325 * SEC);
    dropped.sort();
    let expected: Vec<(PeerKey, usize)> = (0..25u8).map(|n| (key(n), n as usize)).collect();
    assert_eq!(dropped, expected);
    for n in 0..50u8 {
        let found = map.get_mut_at(&key(n), 325 * SEC);
        assert_eq!(found, if n < 25 { None } else { Some(n as usize) });
    }
}

#[test]
fn idle_entry_goes_at_the_second_tick_after_its_last_use() {
    let period = 300 * SEC;
    let last_use = 450 * SEC;
    let mut map = ExpiryMap::new(300);
    map.insert_at(key(1), 11, last_use);
    assert!(map.cleanup_expired_at(2 * period).is_empty());
    let tick = (last_use / period + 2) * period;
    assert_eq!(tick, 900 * SEC);
    assert!(last_use + period < tick && tick <= last_use + 2 * period);
    assert_eq!(map.cleanup_expired_at(tick), vec![(key(1), 11)]);
}

#[test]
fn clock_runs_forward() {
    let mut map = ExpiryMap::new(300);
    let a = map.now();
    map.insert(key(1), 11);
    let b = map.now();
    assert!(a <= b);
    assert_eq!(map.get_mut(&key(1)), Some(11));
    assert_eq!(map.get_mut(&key(2)), None);
    assert!(map.cleanup_expired().is_empty());
    assert_eq!(map.get_mut(&key(1)), Some(11));
    assert!(map.cleanup_expired_at(map.now() + 301 * SEC).len() == 1);
}

#[test]
fn return_socket_is_bound_once_per_remote() {
    let remote = Endpoint::v4(8, 8, 8, 8, 53);
    let other = Endpoint::v4(1, 1, 1, 1, 53);
    let mut manager = UdpReceiveManager::create();
    assert_eq!(manager.send_to(remote), ReturnPath::Bind { remote_addr: remote });
    assert_eq!(manager.send_to(remote), ReturnPath::Bind { remote_addr: remote });
    assert_eq!(manager.bound(remote), Some(0));
    assert_eq!(manager.send_to(remote), ReturnPath::Reuse { socket: 0 });
    assert_eq!(manager.send_to(other), ReturnPath::Bind { remote_addr: other });
    assert_eq!(manager.bound(other), Some(1));
    assert_eq!(manager.send_to(other), ReturnPath::Reuse { socket: 1 });
    assert_eq!(manager.send_to(remote), ReturnPath::Reuse { socket: 0 });
    assert!(manager.cleanup_expired().is_empty());
    assert_eq!(manager.send_to(remote), ReturnPath::Reuse { socket: 0 });
}

#[test]
fn short_send_back_is_a_warning() {
    assert_eq!(UdpReceiveManager::sent(4, 4), Notice::Quiet);
    assert_eq!(UdpReceiveManager::sent(5, 4), Notice::Quiet);
    assert_eq!(UdpReceiveManager::sent(3, 4), Notice::Mismatch { sent: 3, expected: 4 });
}
