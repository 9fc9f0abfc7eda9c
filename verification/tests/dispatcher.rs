use rustsocks::endpoint::Endpoint;
use rustsocks::udp_relay::checker::Checker;
use rustsocks::udp_relay::send::{
    Direct, DispatchAction, DispatchEvent, Dispatcher, Notice, OutboundSocketKind, Proxy,
    SendOutcome, KEEP_ALIVE_PERIOD_SECS,
};

fn peer() -> Endpoint {
    Endpoint::v4(10, 0, 0, 5, 55555)
}

fn dns() -> Endpoint {
    Endpoint::v4(8, 8, 8, 8, 53)
}

#[test]
fn checker_waits_only_when_armed() {
    let mut checker = Checker::new(1);
    assert_eq!(checker.period_secs, 1);
    assert!(!checker.is_armed());
    assert!(!checker.wait());
    checker.activate();
    assert!(checker.is_armed());
    checker.activate();
    assert!(checker.is_armed());
    assert!(checker.wait());
    assert!(!checker.is_armed());
    assert!(!checker.wait());
    assert_eq!(checker.period_secs, 1);
}

#[test]
fn socket_kinds() {
    assert_eq!(Direct.kind(), OutboundSocketKind::Direct);
    let relay = Endpoint::v4(127, 0, 0, 1, 20170);
    assert_eq!(Proxy(relay).kind(), OutboundSocketKind::Proxy(relay));
}

#[test]
fn new_dispatcher_has_no_socket() {
    let d = Dispatcher::new(peer());
    assert_eq!(d.peer_addr, peer());
    assert!(!d.client_to_server);
    assert!(!d.stopped);
    assert_eq!(d.checker, Checker { period_secs: 1, need_check: false });
    assert_eq!(KEEP_ALIVE_PERIOD_SECS, 1);
}

#[test]
fn first_client_packet_binds_the_socket() {
    let mut d = Dispatcher::new(peer());
    let action = d.dispatch_packet(DispatchEvent::ClientPacket { target: dns(), len: 4 });
    assert_eq!(
        action,
        DispatchAction::SendToServer {
            bind: Some(Endpoint::V4 { addr: 0, port: 0 }),
            target: dns(),
            len: 4
        }
    );
    assert_eq!(d.send_client_packets(4, SendOutcome::Sent(4)), Notice::Quiet);
    assert!(d.client_to_server);
    let action = d.dispatch_packet(DispatchEvent::ClientPacket { target: dns(), len: 9 });
    assert_eq!(action, DispatchAction::SendToServer { bind: None, target: dns(), len: 9 });
}

#[test]
fn send_outcomes() {
    let mut d = Dispatcher::new(peer());
    assert_eq!(d.send_client_packets(4, SendOutcome::BindFailed), Notice::Failed);
    assert!(!d.client_to_server);
    assert_eq!(d.send_client_packets(4, SendOutcome::SendFailed), Notice::Failed);
    assert!(d.client_to_server);
    assert_eq!(
        d.send_client_packets(4, SendOutcome::Sent(3)),
        Notice::Mismatch { sent: 3, expected: 4 }
    );
    assert_eq!(
        d.send_client_packets(4, SendOutcome::Sent(5)),
        Notice::Mismatch { sent: 5, expected: 4 }
    );
    assert_eq!(d.send_server_packets(4, Some(4)), Notice::Quiet);
    assert_eq!(d.send_server_packets(4, Some(0)), Notice::Mismatch { sent: 0, expected: 4 });
    assert_eq!(d.send_server_packets(4, None), Notice::Failed);
}

#[test]
fn server_packet_goes_to_the_peer_wearing_the_remote_address() {
    let mut d = Dispatcher::new(peer());
    d.send_client_packets(4, SendOutcome::Sent(4));
    let action = d.dispatch_packet(DispatchEvent::ServerPacket { remote: dns(), len: 4 });
    assert_eq!(action, DispatchAction::SendToClient { src: dns(), dst: peer(), len: 4 });
    assert!(d.checker.is_armed());
    assert!(d.client_to_server);
}

#[test]
fn failed_receive_resets_the_socket_and_goes_on() {
    let mut d = Dispatcher::new(peer());
    d.send_client_packets(4, SendOutcome::Sent(4));
    assert_eq!(d.dispatch_packet(DispatchEvent::ServerFailed), DispatchAction::ResetSocket);
    assert!(!d.client_to_server);
    assert!(!d.stopped);
    let action = d.dispatch_packet(DispatchEvent::ClientPacket { target: dns(), len: 1 });
    assert_eq!(
        action,
        DispatchAction::SendToServer {
            bind: Some(Endpoint::V4 { addr: 0, port: 0 }),
            target: dns(),
            len: 1
        }
    );
}

#[test]
fn keep_alive_follows_server_traffic() {
    let mut d = Dispatcher::new(peer());
    assert_eq!(d.dispatch_packet(DispatchEvent::Tick), DispatchAction::Idle);
    d.dispatch_packet(DispatchEvent::ServerPacket { remote: dns(), len: 4 });
    assert_eq!(d.dispatch_packet(DispatchEvent::Tick), DispatchAction::KeepAlive { peer: peer() });
    assert!(!d.checker.is_armed());
    d.keep_alive_sent(true);
    assert!(!d.checker.is_armed());
    assert_eq!(d.dispatch_packet(DispatchEvent::Tick), DispatchAction::Idle);
}

#[test]
fn keep_alive_that_was_not_taken_is_tried_again() {
    let mut d = Dispatcher::new(peer());
    d.dispatch_packet(DispatchEvent::ServerPacket { remote: dns(), len: 4 });
    assert_eq!(d.dispatch_packet(DispatchEvent::Tick), DispatchAction::KeepAlive { peer: peer() });
    d.keep_alive_sent(false);
    assert!(d.checker.is_armed());
    assert_eq!(d.dispatch_packet(DispatchEvent::Tick), DispatchAction::KeepAlive { peer: peer() });
}

#[test]
fn closed_queue_stops_the_dispatcher() {
    let mut d = Dispatcher::new(peer());
    d.dispatch_packet(DispatchEvent::ServerPacket { remote: dns(), len: 4 });
    assert_eq!(d.dispatch_packet(DispatchEvent::QueueClosed), DispatchAction::Stop);
    assert!(d.stopped);
    let before = d;
    for event in [
        DispatchEvent::ClientPacket { target: dns(), len: 4 },
        DispatchEvent::ServerPacket { remote: dns(), len: 4 },
        DispatchEvent::ServerFailed,
        DispatchEvent::Tick,
        DispatchEvent::QueueClosed,
    ] {
        assert_eq!(d.dispatch_packet(event), DispatchAction::Stop);
        assert_eq!(d, before);
    }
}

#[test]
fn outbound_sends_keep_the_order_of_the_queue() {
    let mut d = Dispatcher::new(peer());
    let a = Endpoint::v4(1, 1, 1, 1, 53);
    let b = Endpoint::v4(9, 9, 9, 9, 53);
    let events = [
        DispatchEvent::ClientPacket { target: a, len: 1 },
        DispatchEvent::ServerPacket { remote: a, len: 10 },
        DispatchEvent::ClientPacket { target: b, len: 2 },
        DispatchEvent::Tick,
        DispatchEvent::ServerFailed,
        DispatchEvent::ClientPacket { target: a, len: 3 },
        DispatchEvent::QueueClosed,
        DispatchEvent::ClientPacket { target: b, len: 4 },
    ];
    let mut sends = Vec::new();
    for event in events {
        if let DispatchAction::SendToServer { target, len, .. } = d.dispatch_packet(event) {
            sends.push((target, len));
        }
    }
    assert_eq!(sends, vec![(a, 1), (b, 2), (a, 3)]);
}
