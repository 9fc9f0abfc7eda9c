use bytes::Bytes;
use rustsocks::endpoint::Endpoint;
use rustsocks::udp_relay::manager::{Relayed, Spawned, UdpNatManager};
use rustsocks::udp_relay::queue::TrySend;
use rustsocks::udp_relay::send::{
    forward_result, DispatchAction, DispatchEvent, Dispatcher, ForwardError, OutboundSocketKind,
    UdpSendWorker,
};
use rustsocks::udp_relay::{
    handle_recv_result, packet_of, run, DriverEvent, DriverStep, Received, DEFAULT_TIMEOUT_SECS,
    DEFAULT_UDP_EXPIRY_SECS, MAXIMUM_UDP_PAYLOAD_SIZE, UDP_ASSOCIATION_SEND_CHANNEL_SIZE,
};
use std::time::{Duration, Instant};
use tokio::sync::mpsc::error::TryRecvError;

fn peer() -> Endpoint {
    Endpoint::v4(10, 0, 0, 5, 55555)
}

fn other_peer() -> Endpoint {
    Endpoint::v4(10, 0, 0, 6, 40000)
}

fn dns() -> Endpoint {
    Endpoint::v4(8, 8, 8, 8, 53)
}

fn wait_for(span: Duration) {
    let start = Instant::now();
    while start.elapsed() < span {
        std::hint::spin_loop();
    }
}

fn spawned(r: Relayed) -> Spawned {
    match r.spawned {
        Some(s) => s,
        None => panic!("no worker was made"),
    }
}

#[test]
fn relay_constants() {
    assert_eq!(DEFAULT_UDP_EXPIRY_SECS, 300);
    assert_eq!(DEFAULT_TIMEOUT_SECS, 300);
    assert_eq!(MAXIMUM_UDP_PAYLOAD_SIZE, 65536);
    assert_eq!(UDP_ASSOCIATION_SEND_CHANNEL_SIZE, 1024);
}

#[test]
fn forward_results() {
    assert_eq!(forward_result(TrySend::Sent), Ok(()));
    assert_eq!(forward_result(TrySend::Full), Err(ForwardError::Full));
    assert_eq!(forward_result(TrySend::Closed), Err(ForwardError::Closed));
}

#[test]
fn worker_queue_takes_packets_in_order() {
    let (worker, mut receiver) = UdpSendWorker::new();
    assert!(matches!(receiver.try_recv(), Err(TryRecvError::Empty)));
    assert_eq!(worker.send_to(dns(), Bytes::from_static(b"one")), Ok(()));
    assert_eq!(worker.send_to(peer(), Bytes::from_static(b"two")), Ok(()));
    assert_eq!(receiver.try_recv().unwrap(), (dns(), Bytes::from_static(b"one")));
    assert_eq!(receiver.try_recv().unwrap(), (peer(), Bytes::from_static(b"two")));
    assert!(matches!(receiver.try_recv(), Err(TryRecvError::Empty)));
}

#[test]
fn worker_queue_is_bounded() {
    let (worker, mut receiver) = UdpSendWorker::new();
    for n in 0..1024u32 {
        assert_eq!(worker.send_to(dns(), Bytes::copy_from_slice(&n.to_be_bytes())), Ok(()));
    }
    assert_eq!(worker.send_to(dns(), Bytes::from_static(b"late")), Err(ForwardError::Full));
    assert_eq!(receiver.try_recv().unwrap().1, Bytes::copy_from_slice(&0u32.to_be_bytes()));
    assert_eq!(worker.send_to(dns(), Bytes::from_static(b"next")), Ok(()));
    assert_eq!(worker.send_to(dns(), Bytes::from_static(b"late")), Err(ForwardError::Full));
}

#[test]
fn worker_queue_without_reader_is_closed() {
    let (worker, receiver) = UdpSendWorker::new();
    drop(receiver);
    assert_eq!(worker.send_to(dns(), Bytes::from_static(b"ping")), Err(ForwardError::Closed));
}

#[test]
fn dropping_the_worker_closes_the_queue() {
    let (worker, mut receiver) = UdpSendWorker::new();
    assert_eq!(worker.send_to(dns(), Bytes::from_static(b"ping")), Ok(()));
    drop(worker);
    assert_eq!(receiver.try_recv().unwrap().1, Bytes::from_static(b"ping"));
    assert!(matches!(receiver.try_recv(), Err(TryRecvError::Disconnected)));
}

#[test]
fn first_packet_of_a_peer_makes_its_worker() {
    let (mut manager, _signals) = UdpNatManager::new(OutboundSocketKind::Direct);
    assert_eq!(manager.proxy_type(), OutboundSocketKind::Direct);
    let r = manager.send_to(peer(), dns(), Bytes::from_static(b"ping"));
    assert_eq!(r.peer, peer());
    assert_eq!(r.target, dns());
    assert_eq!(r.worker, Some(0));
    assert_eq!(r.outcome, Ok(()));
    assert!(r.evicted.is_empty());
    let mut s = spawned(r);
    assert_eq!(s.peer, peer());
    assert_eq!(s.worker, 0);
    assert_eq!(s.kind, OutboundSocketKind::Direct);
    assert_eq!(s.receiver.try_recv().unwrap(), (dns(), Bytes::from_static(b"ping")));
    assert!(matches!(s.receiver.try_recv(), Err(TryRecvError::Empty)));
}

#[test]
fn next_packets_go_to_the_same_worker() {
    let (mut manager, _signals) = UdpNatManager::new(OutboundSocketKind::Direct);
    let mut s = spawned(manager.send_to(peer(), dns(), Bytes::from_static(b"ping")));
    for _ in 0..3 {
        let r = manager.send_to(peer(), dns(), Bytes::from_static(b"more"));
        assert_eq!(r.worker, Some(0));
        assert_eq!(r.outcome, Ok(()));
        assert!(r.spawned.is_none());
        assert!(r.evicted.is_empty());
    }
    assert_eq!(s.receiver.try_recv().unwrap().1, Bytes::from_static(b"ping"));
    for _ in 0..3 {
        assert_eq!(s.receiver.try_recv().unwrap().1, Bytes::from_static(b"more"));
    }
    assert!(matches!(s.receiver.try_recv(), Err(TryRecvError::Empty)));
}

#[test]
fn every_peer_has_its_own_worker() {
    let (mut manager, _signals) = UdpNatManager::new(OutboundSocketKind::Proxy(dns()));
    let mut a = spawned(manager.send_to(peer(), dns(), Bytes::from_static(b"a")));
    let mut b = spawned(manager.send_to(other_peer(), dns(), Bytes::from_static(b"b")));
    let v6 = Endpoint::v6(0x0a00_0005, 55555, 0, 0);
    let mut c = spawned(manager.send_to(v6, dns(), Bytes::from_static(b"c")));
    assert_eq!((a.worker, b.worker, c.worker), (0, 1, 2));
    assert_eq!(c.kind, OutboundSocketKind::Proxy(dns()));
    assert_eq!(manager.send_to(other_peer(), peer(), Bytes::from_static(b"b2")).worker, Some(1));
    assert_eq!(manager.send_to(peer(), dns(), Bytes::from_static(b"a2")).worker, Some(0));
    assert_eq!(manager.send_to(v6, dns(), Bytes::from_static(b"c2")).worker, Some(2));
    assert_eq!(a.receiver.try_recv().unwrap(), (dns(), Bytes::from_static(b"a")));
    assert_eq!(a.receiver.try_recv().unwrap(), (dns(), Bytes::from_static(b"a2")));
    assert_eq!(b.receiver.try_recv().unwrap(), (dns(), Bytes::from_static(b"b")));
    assert_eq!(b.receiver.try_recv().unwrap(), (peer(), Bytes::from_static(b"b2")));
    assert_eq!(c.receiver.try_recv().unwrap(), (dns(), Bytes::from_static(b"c")));
    assert_eq!(c.receiver.try_recv().unwrap(), (dns(), Bytes::from_static(b"c2")));
}

#[test]
fn packet_past_the_queue_bound_is_dropped() {
    let (mut manager, _signals) = UdpNatManager::new(OutboundSocketKind::Direct);
    let mut s = spawned(manager.send_to(peer(), dns(), Bytes::copy_from_slice(&1u32.to_be_bytes())));
    for n in 2..=1024u32 {
        let r = manager.send_to(peer(), dns(), Bytes::copy_from_slice(&n.to_be_bytes()));
        assert_eq!(r.outcome, Ok(()));
    }
    let r = manager.send_to(peer(), dns(), Bytes::copy_from_slice(&1025u32.to_be_bytes()));
    assert_eq!(r.outcome, Err(ForwardError::Full));
    assert_eq!(r.worker, Some(0));
    assert!(r.spawned.is_none());
    assert!(r.evicted.is_empty());
    for n in 1..=1024u32 {
        assert_eq!(s.receiver.try_recv().unwrap().1, Bytes::copy_from_slice(&n.to_be_bytes()));
    }
    assert!(matches!(s.receiver.try_recv(), Err(TryRecvError::Empty)));
    let r = manager.send_to(peer(), dns(), Bytes::from_static(b"again"));
    assert_eq!(r.outcome, Ok(()));
    assert_eq!(r.worker, Some(0));
    assert!(r.spawned.is_none());
}

#[test]
fn packet_for_a_dispatcher_that_has_gone_is_dropped() {
    let (mut manager, _signals) = UdpNatManager::new(OutboundSocketKind::Direct);
    let s = spawned(manager.send_to(peer(), dns(), Bytes::from_static(b"ping")));
    drop(s);
    let r = manager.send_to(peer(), dns(), Bytes::from_static(b"ping"));
    assert_eq!(r.outcome, Err(ForwardError::Closed));
    assert_eq!(r.worker, Some(0));
    assert!(r.spawned.is_none());
}

#[test]
fn keep_alive_makes_no_entry() {
    let (mut manager, _signals) = UdpNatManager::new(OutboundSocketKind::Direct);
    assert!(manager.keep_alive(&peer()).is_empty());
    let r = manager.send_to(peer(), dns(), Bytes::new());
    assert_eq!(r.worker, Some(0));
    assert!(r.spawned.is_some());
    assert!(manager.keep_alive(&peer()).is_empty());
    assert!(manager.keep_alive(&other_peer()).is_empty());
    assert_eq!(manager.send_to(other_peer(), dns(), Bytes::new()).worker, Some(1));
}

#[test]
fn cleanup_keeps_what_is_in_use() {
    let (mut manager, _signals) = UdpNatManager::new(OutboundSocketKind::Direct);
    let _a = spawned(manager.send_to(peer(), dns(), Bytes::new()));
    let _b = spawned(manager.send_to(other_peer(), dns(), Bytes::new()));
    assert!(manager.cleanup_expired().is_empty());
    let r = manager.send_to(peer(), dns(), Bytes::new());
    assert_eq!((r.worker, r.outcome, r.spawned.is_none()), (Some(0), Ok(()), true));
    let r = manager.send_to(other_peer(), dns(), Bytes::new());
    assert_eq!((r.worker, r.outcome, r.spawned.is_none()), (Some(1), Ok(()), true));
}

#[test]
fn idle_peer_is_evicted_and_its_dispatcher_ends() {
    let (mut manager, _signals) = UdpNatManager::with_expiry(OutboundSocketKind::Direct, 1);
    let mut s = spawned(manager.send_to(peer(), dns(), Bytes::from_static(b"ping")));
    assert_eq!(s.receiver.try_recv().unwrap().1, Bytes::from_static(b"ping"));
    assert!(matches!(s.receiver.try_recv(), Err(TryRecvError::Empty)));
    wait_for(Duration::from_millis(1300));
    assert_eq!(manager.cleanup_expired(), vec![0]);
    assert!(matches!(s.receiver.try_recv(), Err(TryRecvError::Disconnected)));
    assert!(manager.cleanup_expired().is_empty());
    let r = manager.send_to(peer(), dns(), Bytes::from_static(b"ping"));
    assert!(r.evicted.is_empty());
    assert_eq!(r.worker, Some(1));
    assert_eq!(spawned(r).worker, 1);
}

#[test]
fn idle_peers_leave_in_order_of_last_use() {
    let (mut manager, _signals) = UdpNatManager::with_expiry(OutboundSocketKind::Direct, 1);
    let mut a = spawned(manager.send_to(peer(), dns(), Bytes::new()));
    let mut b = spawned(manager.send_to(other_peer(), dns(), Bytes::new()));
    assert_eq!(manager.send_to(peer(), dns(), Bytes::new()).worker, Some(0));
    wait_for(Duration::from_millis(1300));
    let third = Endpoint::v4(10, 0, 0, 7, 1);
    let r = manager.send_to(third, dns(), Bytes::new());
    assert_eq!(r.evicted, vec![1, 0]);
    assert_eq!(r.worker, Some(2));
    assert!(r.spawned.is_some());
    while a.receiver.try_recv().is_ok() {}
    while b.receiver.try_recv().is_ok() {}
    assert!(matches!(a.receiver.try_recv(), Err(TryRecvError::Disconnected)));
    assert!(matches!(b.receiver.try_recv(), Err(TryRecvError::Disconnected)));
}

#[test]
fn keep_alive_keeps_the_entry_warm() {
    let (mut manager, _signals) = UdpNatManager::with_expiry(OutboundSocketKind::Direct, 2);
    let mut a = spawned(manager.send_to(peer(), dns(), Bytes::new()));
    let mut b = spawned(manager.send_to(other_peer(), dns(), Bytes::new()));
    for _ in 0..6 {
        wait_for(Duration::from_millis(500));
        assert!(manager.keep_alive(&peer()).iter().all(|w| *w == 1));
    }
    let r = manager.send_to(peer(), dns(), Bytes::new());
    assert_eq!(r.worker, Some(0));
    assert!(r.spawned.is_none());
    assert!(a.receiver.try_recv().is_ok());
    assert!(a.receiver.try_recv().is_ok());
    assert!(matches!(a.receiver.try_recv(), Err(TryRecvError::Empty)));
    assert!(b.receiver.try_recv().is_ok());
    assert!(matches!(b.receiver.try_recv(), Err(TryRecvError::Disconnected)));
    let r = manager.send_to(other_peer(), dns(), Bytes::new());
    assert_eq!(r.worker, Some(2));
    assert!(r.spawned.is_some());
}

#[test]
fn expired_entry_found_by_its_own_packet_is_replaced() {
    let (mut manager, _signals) = UdpNatManager::with_expiry(OutboundSocketKind::Direct, 1);
    let mut old = spawned(manager.send_to(peer(), dns(), Bytes::from_static(b"old")));
    wait_for(Duration::from_millis(1300));
    let r = manager.send_to(peer(), dns(), Bytes::from_static(b"new"));
    assert_eq!(r.evicted, vec![0]);
    assert_eq!(r.worker, Some(1));
    assert_eq!(r.outcome, Ok(()));
    let mut new = spawned(r);
    assert_eq!(new.worker, 1);
    assert_eq!(old.receiver.try_recv().unwrap().1, Bytes::from_static(b"old"));
    assert!(matches!(old.receiver.try_recv(), Err(TryRecvError::Disconnected)));
    assert_eq!(new.receiver.try_recv().unwrap().1, Bytes::from_static(b"new"));
}

#[test]
fn empty_datagram_is_ignored() {
    let (mut manager, _signals) = UdpNatManager::new(OutboundSocketKind::Direct);
    let buf = [0u8; 16];
    let out = handle_recv_result::<()>(Ok((0, peer(), dns())), &buf, &mut manager);
    assert!(matches!(out, Received::Empty));
    let r = manager.send_to(peer(), dns(), Bytes::new());
    assert_eq!(r.worker, Some(0));
    assert!(r.spawned.is_some());
}

#[test]
fn failed_receive_is_handed_back() {
    let (mut manager, _signals) = UdpNatManager::new(OutboundSocketKind::Direct);
    let buf = [0u8; 16];
    let out = handle_recv_result(Err("unreachable host"), &buf, &mut manager);
    assert!(matches!(out, Received::Failed("unreachable host")));
    let r = manager.send_to(peer(), dns(), Bytes::new());
    assert_eq!(r.worker, Some(0));
    assert!(r.spawned.is_some());
}

#[test]
fn received_bytes_are_copied_out_of_the_buffer() {
    let (mut manager, _signals) = UdpNatManager::new(OutboundSocketKind::Direct);
    let mut buf = [0u8; 16];
    buf[..4].copy_from_slice(b"ping");
    let out = handle_recv_result::<()>(Ok((4, peer(), dns())), &buf, &mut manager);
    buf[..4].copy_from_slice(b"XXXX");
    match out {
        Received::Relay(r) => {
            assert_eq!(r.peer, peer());
            assert_eq!(r.target, dns());
            assert_eq!(r.outcome, Ok(()));
            let mut s = spawned(r);
            assert_eq!(s.receiver.try_recv().unwrap(), (dns(), Bytes::from_static(b"ping")));
        }
        _ => panic!("the datagram was not relayed"),
    }
}

#[test]
fn datagrams_of_one_peer_are_relayed_one_by_one_in_order() {
    let (mut manager, _signals) = UdpNatManager::new(OutboundSocketKind::Direct);
    let mut s = spawned(manager.send_to(peer(), dns(), Bytes::new()));
    assert!(s.receiver.try_recv().is_ok());
    for n in 1..=5usize {
        let buf = vec![n as u8; 8];
        let target = Endpoint::v4(8, 8, 8, 8, n as u16);
        match handle_recv_result::<()>(Ok((n, peer(), target)), &buf, &mut manager) {
            Received::Relay(r) => {
                assert_eq!(r.worker, Some(0));
                assert_eq!(r.outcome, Ok(()));
                assert!(r.spawned.is_none());
            }
            _ => panic!("the datagram was not relayed"),
        }
    }
    for n in 1..=5usize {
        let (target, data) = s.receiver.try_recv().unwrap();
        assert_eq!(target, Endpoint::v4(8, 8, 8, 8, n as u16));
        assert_eq!(data.to_vec(), vec![n as u8; n]);
    }
    assert!(matches!(s.receiver.try_recv(), Err(TryRecvError::Empty)));
}

#[test]
fn full_buffer_is_relayed_whole() {
    let (mut manager, _signals) = UdpNatManager::new(OutboundSocketKind::Direct);
    let buf = vec![9u8; MAXIMUM_UDP_PAYLOAD_SIZE];
    match handle_recv_result::<()>(Ok((buf.len(), peer(), dns())), &buf, &mut manager) {
        Received::Relay(r) => {
            let mut s = spawned(r);
            assert_eq!(s.receiver.try_recv().unwrap().1.len(), 65536);
        }
        _ => panic!("the datagram was not relayed"),
    }
}

#[test]
fn driver_turns() {
    let (mut manager, _signals) = UdpNatManager::with_expiry(OutboundSocketKind::Direct, 2);
    let buf = *b"ping-and-more";
    let mut s = match run::<()>(&mut manager, &buf, DriverEvent::Received(Ok((4, peer(), dns())))) {
        DriverStep::Received(Received::Relay(r)) => {
            assert_eq!(r.worker, Some(0));
            spawned(r)
        }
        _ => panic!("the datagram was not relayed"),
    };
    assert_eq!(s.receiver.try_recv().unwrap(), (dns(), Bytes::from_static(b"ping")));
    match run::<()>(&mut manager, &buf, DriverEvent::KeepAlive(peer())) {
        DriverStep::Evicted(evicted) => assert!(evicted.is_empty()),
        _ => panic!("a keep-alive relays nothing"),
    }
    match run::<()>(&mut manager, &buf, DriverEvent::Received(Ok((0, peer(), dns())))) {
        DriverStep::Received(Received::Empty) => {}
        _ => panic!("an empty datagram is ignored"),
    }
    match run(&mut manager, &buf, DriverEvent::Received(Err(5))) {
        DriverStep::Received(Received::Failed(5)) => {}
        _ => panic!("a failed receive is handed back"),
    }
    assert!(matches!(s.receiver.try_recv(), Err(TryRecvError::Empty)));
    wait_for(Duration::from_millis(2300));
    match run::<()>(&mut manager, &buf, DriverEvent::CleanupTick) {
        DriverStep::Evicted(evicted) => assert_eq!(evicted, vec![0]),
        _ => panic!("a cleanup relays nothing"),
    }
    assert!(matches!(s.receiver.try_recv(), Err(TryRecvError::Disconnected)));
}

#[test]
fn keep_alive_signal_reaches_the_table() {
    let (mut manager, mut signals) = UdpNatManager::new(OutboundSocketKind::Direct);
    let s = spawned(manager.send_to(peer(), dns(), Bytes::from_static(b"ping")));
    let mut d = Dispatcher::new(s.peer);
    d.dispatch_packet(DispatchEvent::ServerPacket { remote: dns(), len: 4 });
    assert_eq!(d.dispatch_packet(DispatchEvent::Tick), DispatchAction::KeepAlive { peer: peer() });
    assert!(matches!(signals.try_recv(), Err(TryRecvError::Empty)));
    assert!(d.send_keep_alive(&s.keep_alive_sender));
    assert!(!d.checker.is_armed());
    assert_eq!(signals.try_recv().unwrap(), peer());
    assert!(matches!(signals.try_recv(), Err(TryRecvError::Empty)));
    assert!(manager.keep_alive(&peer()).is_empty());
}

#[test]
fn keep_alive_signal_that_finds_no_room_is_due_again() {
    let (mut manager, mut signals) = UdpNatManager::new(OutboundSocketKind::Direct);
    let s = spawned(manager.send_to(peer(), dns(), Bytes::from_static(b"ping")));
    let mut d = Dispatcher::new(s.peer);
    for _ in 0..1024 {
        assert!(d.send_keep_alive(&s.keep_alive_sender));
        assert!(!d.checker.is_armed());
    }
    assert!(!d.send_keep_alive(&s.keep_alive_sender));
    assert!(d.checker.is_armed());
    assert_eq!(d.dispatch_packet(DispatchEvent::Tick), DispatchAction::KeepAlive { peer: peer() });
    assert_eq!(signals.try_recv().unwrap(), peer());
    assert!(d.send_keep_alive(&s.keep_alive_sender));
    assert!(!d.checker.is_armed());
}

#[test]
fn keep_alive_signal_without_table_is_due_again() {
    let (mut manager, signals) = UdpNatManager::new(OutboundSocketKind::Direct);
    let s = spawned(manager.send_to(peer(), dns(), Bytes::from_static(b"ping")));
    drop(signals);
    let mut d = Dispatcher::new(s.peer);
    assert!(!d.send_keep_alive(&s.keep_alive_sender));
    assert!(d.checker.is_armed());
}

#[test]
fn packet_is_the_received_part_of_the_buffer() {
    let buf = *b"ping-and-more";
    assert_eq!(&packet_of(&buf, 4)[..], b"ping");
    assert_eq!(&packet_of(&buf, 13)[..], b"ping-and-more");
    assert!(packet_of(&buf, 0).is_empty());
}
