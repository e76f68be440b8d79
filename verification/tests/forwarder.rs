use gtp_gateway::address::{Endpoint, IpAddress};
use gtp_gateway::forwarder::{
    Action, Destination, DownlinkDispatcher, GatewayEvent, LoopInput, LoopState, UplinkForwarder,
};
use gtp_gateway::gtp_v1::{decode, encode, LengthPolicy};
use gtp_gateway::registry::{TunnelEntry, TunnelRegistry};

fn local(port: u16) -> Endpoint {
    Endpoint { ip: IpAddress::V4(0x7F00_0001), port }
}

fn tunnel(teid: u32, listen: u16, target: u16) -> TunnelEntry {
    TunnelEntry {
        teid,
        uplink_listen_address: local(listen),
        downlink_target_address: local(target),
    }
}

fn dispatcher(entries: &[TunnelEntry], policy: LengthPolicy) -> DownlinkDispatcher {
    DownlinkDispatcher { listen: local(2152), registry: TunnelRegistry::build(entries), policy }
}

#[test]
fn uplink_encapsulates_a_datagram_for_the_peer() {
    let forwarder = UplinkForwarder { tunnel: tunnel(1, 9000, 9100) };
    let datagram = b"0123456789".to_vec();
    let (state, action) = forwarder.step(LoopState::Running, LoopInput::Datagram(datagram));
    assert_eq!(state, LoopState::Running);
    match action {
        Action::Forward { to, datagram } => {
            assert_eq!(to, Destination::GtpPeer);
            assert_eq!(datagram.len(), 18);
            assert_eq!(&datagram[..8], &[0x30, 0xFF, 0x00, 0x0A, 0x00, 0x00, 0x00, 0x01]);
            assert_eq!(&datagram[8..], b"0123456789");
        }
        other => panic!("expected a packet for the peer, got {:?}", other),
    }
}

#[test]
fn uplink_encapsulates_an_empty_datagram() {
    let forwarder = UplinkForwarder { tunnel: tunnel(0x0A0B_0C0D, 9000, 9100) };
    let (state, action) = forwarder.step(LoopState::Running, LoopInput::Datagram(Vec::new()));
    assert_eq!(state, LoopState::Running);
    assert_eq!(
        action,
        Action::Forward {
            to: Destination::GtpPeer,
            datagram: vec![0x30, 0xFF, 0x00, 0x00, 0x0A, 0x0B, 0x0C, 0x0D],
        }
    );
}

#[test]
fn downlink_delivers_the_payload_to_the_tunnel_target() {
    let dispatcher = dispatcher(&[tunnel(1, 9000, 9100)], LengthPolicy::TrustDatagram);
    let packet = vec![0x30, 0xFF, 0x00, 0x03, 0x00, 0x00, 0x00, 0x01, b'a', b'b', b'c'];
    let (state, action) = dispatcher.step(LoopState::Running, LoopInput::Datagram(packet));
    assert_eq!(state, LoopState::Running);
    assert_eq!(
        action,
        Action::Forward { to: Destination::Local(local(9100)), datagram: b"abc".to_vec() }
    );
}

#[test]
fn downlink_drops_a_packet_of_an_unknown_tunnel() {
    let dispatcher = dispatcher(&[tunnel(1, 9000, 9100)], LengthPolicy::TrustDatagram);
    let packet = vec![0x30, 0xFF, 0x00, 0x03, 0x00, 0x00, 0x00, 0x63, b'a', b'b', b'c'];
    let (state, action) = dispatcher.step(LoopState::Running, LoopInput::Datagram(packet));
    assert_eq!(state, LoopState::Running);
    assert_eq!(action, Action::Report(GatewayEvent::UnknownTeid { teid: 99 }));
}

#[test]
fn downlink_with_an_empty_registry_drops_everything() {
    let dispatcher = dispatcher(&[], LengthPolicy::TrustDatagram);
    for teid in [0u32, 1, 99, u32::MAX] {
        let (state, action) =
            dispatcher.step(LoopState::Running, LoopInput::Datagram(encode(b"x", teid)));
        assert_eq!(state, LoopState::Running);
        assert_eq!(action, Action::Report(GatewayEvent::UnknownTeid { teid }));
    }
}

#[test]
fn downlink_drops_a_datagram_shorter_than_the_header() {
    let dispatcher = dispatcher(&[tunnel(1, 9000, 9100)], LengthPolicy::TrustDatagram);
    for len in 0..8 {
        let short = vec![0x30, 0xFF, 0x00, 0x00, 0x00, 0x00, 0x00][..len].to_vec();
        let (state, action) = dispatcher.step(LoopState::Running, LoopInput::Datagram(short));
        assert_eq!(state, LoopState::Running);
        assert_eq!(action, Action::Report(GatewayEvent::MalformedPacket));
    }
}

#[test]
fn downlink_delivers_an_empty_payload() {
    let dispatcher = dispatcher(&[tunnel(1, 9000, 9100)], LengthPolicy::TrustDatagram);
    let bare = vec![0x30, 0xFF, 0x00, 0x00, 0x00, 0x00, 0x00, 0x01];
    let (_, action) = dispatcher.step(LoopState::Running, LoopInput::Datagram(bare));
    assert_eq!(action, Action::Forward { to: Destination::Local(local(9100)), datagram: vec![] });
}

#[test]
fn downlink_follows_the_later_of_two_colliding_tunnels() {
    let entries = [tunnel(1, 9000, 9100), tunnel(1, 9001, 9200)];
    let dispatcher = dispatcher(&entries, LengthPolicy::TrustDatagram);
    let (_, action) = dispatcher.step(LoopState::Running, LoopInput::Datagram(encode(b"abc", 1)));
    assert_eq!(
        action,
        Action::Forward { to: Destination::Local(local(9200)), datagram: b"abc".to_vec() }
    );
}

#[test]
fn downlink_trusting_the_datagram_ignores_the_length_field() {
    let dispatcher = dispatcher(&[tunnel(1, 9000, 9100)], LengthPolicy::TrustDatagram);
    let packet = vec![0x30, 0xFF, 0x12, 0x34, 0x00, 0x00, 0x00, 0x01, b'a', b'b', b'c'];
    let (_, action) = dispatcher.step(LoopState::Running, LoopInput::Datagram(packet));
    assert_eq!(
        action,
        Action::Forward { to: Destination::Local(local(9100)), datagram: b"abc".to_vec() }
    );
}

#[test]
fn strict_downlink_drops_a_packet_with_a_wrong_length_field() {
    let dispatcher = dispatcher(&[tunnel(1, 9000, 9100)], LengthPolicy::RequireMatch);
    let wrong = vec![0x30, 0xFF, 0x12, 0x34, 0x00, 0x00, 0x00, 0x01, b'a', b'b', b'c'];
    let (state, action) = dispatcher.step(LoopState::Running, LoopInput::Datagram(wrong));
    assert_eq!(state, LoopState::Running);
    assert_eq!(action, Action::Report(GatewayEvent::MalformedPacket));
    let right = vec![0x30, 0xFF, 0x00, 0x03, 0x00, 0x00, 0x00, 0x01, b'a', b'b', b'c'];
    let (_, action) = dispatcher.step(LoopState::Running, LoopInput::Datagram(right));
    assert_eq!(
        action,
        Action::Forward { to: Destination::Local(local(9100)), datagram: b"abc".to_vec() }
    );
}

#[test]
fn bound_socket_is_reported_as_started() {
    let forwarder = UplinkForwarder { tunnel: tunnel(4, 9000, 9100) };
    assert_eq!(
        forwarder.step(LoopState::Running, LoopInput::Bound),
        (
            LoopState::Running,
            Action::Report(GatewayEvent::TunnelStarted { teid: 4, listen: local(9000) })
        )
    );
    let dispatcher = dispatcher(&[tunnel(4, 9000, 9100)], LengthPolicy::TrustDatagram);
    assert_eq!(
        dispatcher.step(LoopState::Running, LoopInput::Bound),
        (
            LoopState::Running,
            Action::Report(GatewayEvent::DispatcherStarted { listen: local(2152) })
        )
    );
}

#[test]
fn bind_failure_terminates_the_loop() {
    let forwarder = UplinkForwarder { tunnel: tunnel(4, 9000, 9100) };
    assert_eq!(
        forwarder.step(LoopState::Running, LoopInput::BindFailed),
        (LoopState::Terminated, Action::Halt)
    );
    let dispatcher = dispatcher(&[tunnel(4, 9000, 9100)], LengthPolicy::TrustDatagram);
    assert_eq!(
        dispatcher.step(LoopState::Running, LoopInput::BindFailed),
        (LoopState::Terminated, Action::Halt)
    );
}

#[test]
fn terminated_loop_stays_terminated() {
    let forwarder = UplinkForwarder { tunnel: tunnel(4, 9000, 9100) };
    let dispatcher = dispatcher(&[tunnel(4, 9000, 9100)], LengthPolicy::TrustDatagram);
    let inputs = || {
        vec![
            LoopInput::BindFailed,
            LoopInput::Bound,
            LoopInput::Datagram(encode(b"abc", 4)),
            LoopInput::ReceiveFailed,
            LoopInput::SendFailed(String::from("unreachable")),
        ]
    };
    for input in inputs() {
        assert_eq!(
            forwarder.step(LoopState::Terminated, input),
            (LoopState::Terminated, Action::Halt)
        );
    }
    for input in inputs() {
        assert_eq!(
            dispatcher.step(LoopState::Terminated, input),
            (LoopState::Terminated, Action::Halt)
        );
    }
}

#[test]
fn receive_failure_is_reported_and_the_loop_goes_on() {
    let forwarder = UplinkForwarder { tunnel: tunnel(4, 9000, 9100) };
    assert_eq!(
        forwarder.step(LoopState::Running, LoopInput::ReceiveFailed),
        (LoopState::Running, Action::Report(GatewayEvent::ReceiveFailed))
    );
    let dispatcher = dispatcher(&[tunnel(4, 9000, 9100)], LengthPolicy::TrustDatagram);
    assert_eq!(
        dispatcher.step(LoopState::Running, LoopInput::ReceiveFailed),
        (LoopState::Running, Action::Report(GatewayEvent::ReceiveFailed))
    );
}

#[test]
fn send_failure_is_reported_with_its_reason_and_the_loop_goes_on() {
    let reason = String::from("connection refused");
    let forwarder = UplinkForwarder { tunnel: tunnel(4, 9000, 9100) };
    assert_eq!(
        forwarder.step(LoopState::Running, LoopInput::SendFailed(reason.clone())),
        (LoopState::Running, Action::Report(GatewayEvent::SendFailed { reason: reason.clone() }))
    );
    let dispatcher = dispatcher(&[tunnel(4, 9000, 9100)], LengthPolicy::TrustDatagram);
    assert_eq!(
        dispatcher.step(LoopState::Running, LoopInput::SendFailed(reason.clone())),
        (LoopState::Running, Action::Report(GatewayEvent::SendFailed { reason }))
    );
}

#[test]
fn relayed_datagram_comes_back_unchanged() {
    let entry = tunnel(0x00C0_FFEE, 9000, 9100);
    let forwarder = UplinkForwarder { tunnel: entry };
    for policy in [LengthPolicy::TrustDatagram, LengthPolicy::RequireMatch] {
        let dispatcher = dispatcher(&[tunnel(1, 9001, 9101), entry], policy);
        let payload: Vec<u8> = (0..1500u32).map(|i| (i % 251) as u8).collect();
        let (_, up) = forwarder.step(LoopState::Running, LoopInput::Datagram(payload.clone()));
        let relayed = match up {
            Action::Forward { to: Destination::GtpPeer, datagram } => datagram,
            other => panic!("expected a packet for the peer, got {:?}", other),
        };
        let (_, down) = dispatcher.step(LoopState::Running, LoopInput::Datagram(relayed));
        assert_eq!(
            down,
            Action::Forward { to: Destination::Local(local(9100)), datagram: payload }
        );
    }
}

#[test]
fn interleaved_forwarders_keep_their_own_teid() {
    let forwarders: Vec<UplinkForwarder> = (0..8u32)
        .map(|n| UplinkForwarder { tunnel: tunnel(1000 + n, 9000 + n as u16, 9100 + n as u16) })
        .collect();
    let mut states = vec![LoopState::Running; forwarders.len()];
    let mut sent: Vec<(usize, u32, Vec<u8>)> = Vec::new();
    for round in 0..1000u32 {
        for (n, forwarder) in forwarders.iter().enumerate() {
            let datagram = vec![n as u8, (round % 256) as u8, (round / 256) as u8];
            let (next, action) = forwarder.step(states[n], LoopInput::Datagram(datagram));
            states[n] = next;
            match action {
                Action::Forward { to: Destination::GtpPeer, datagram } => {
                    sent.push((n, round, datagram));
                }
                other => panic!("expected a packet for the peer, got {:?}", other),
            }
        }
    }
    assert_eq!(sent.len(), 8 * 1000);
    for (n, round, packet) in sent {
        let expected = vec![n as u8, (round % 256) as u8, (round / 256) as u8];
        assert_eq!(decode(&packet), Ok((1000 + n as u32, expected)));
    }
    assert!(states.iter().all(|state| *state == LoopState::Running));
}
