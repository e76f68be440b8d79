//! The decisions of the forwarding loops.
//!
//! A loop blocks on its sockets; what it decides does not. Each loop hands
//! what it observed to `step`, together with its state, and performs the
//! action that comes back. One [`UplinkForwarder`] runs for each tunnel, and
//! a single [`DownlinkDispatcher`] decapsulates for all of them.

use crate::address::Endpoint;
use crate::gtp_v1::{
    decode_with, decoded, lemma_decode_encode_roundtrip, GtpError, GtpPacket, GtpV1, LengthPolicy,
};
use crate::registry::{TunnelEntry, TunnelRegistry};
use vstd::prelude::*;

verus! {

/// Size of the buffer that a loop receives into. The transport cuts a longer
/// datagram down to this size, and the loop goes on with what was captured.
pub const RECEIVE_BUFFER_LEN: usize = 2000;

/// The state of a forwarding loop.
#[derive(Clone, Copy, Debug, PartialEq, Eq, Structural)]
pub enum LoopState {
    /// The loop serves datagrams.
    Running,
    /// The loop could not start and serves nothing any more.
    Terminated,
}

/// What a forwarding loop observed on its sockets.
#[derive(Debug, PartialEq, Eq)]
pub enum LoopInput {
    /// The receive socket could not be bound.
    BindFailed,
    /// The receive socket is bound.
    Bound,
    /// A datagram arrived on the receive socket.
    Datagram(Vec<u8>),
    /// Receiving failed for the moment.
    ReceiveFailed,
    /// The datagram of the last `Forward` action could not be sent, for the
    /// reason given.
    SendFailed(String),
}

/// An event that a forwarding loop reports.
#[derive(Debug, PartialEq, Eq)]
pub enum GatewayEvent {
    /// The uplink forwarder of tunnel `teid` listens on `listen`.
    TunnelStarted { teid: u32, listen: Endpoint },
    /// The downlink dispatcher listens on `listen`.
    DispatcherStarted { listen: Endpoint },
    /// A datagram for a tunnel that the registry does not know was dropped.
    UnknownTeid { teid: u32 },
    /// A datagram that is no packet was dropped.
    MalformedPacket,
    /// A datagram could not be sent and was dropped.
    SendFailed { reason: String },
    /// Receiving failed for the moment.
    ReceiveFailed,
}

/// Where a datagram is sent.
#[derive(Clone, Copy, Debug, PartialEq, Eq, Structural)]
pub enum Destination {
    /// The GTP-U peer, over the shared downlink socket.
    GtpPeer,
    /// A local endpoint.
    Local(Endpoint),
}

/// What a forwarding loop does next.
#[derive(Debug, PartialEq, Eq)]
pub enum Action {
    /// Send `datagram` to `to`, then receive again.
    Forward { to: Destination, datagram: Vec<u8> },
    /// Report the event, then receive again.
    Report(GatewayEvent),
    /// Stop: the gateway cannot be served.
    Halt,
}

/// A reported event as a mathematical value.
pub enum GatewayEventModel {
    TunnelStarted { teid: u32, listen: Endpoint },
    DispatcherStarted { listen: Endpoint },
    UnknownTeid { teid: u32 },
    MalformedPacket,
    SendFailed { reason: Seq<char> },
    ReceiveFailed,
}

/// An action as a mathematical value.
pub enum ActionModel {
    Forward { to: Destination, datagram: Seq<u8> },
    Report(GatewayEventModel),
    Halt,
}

impl View for GatewayEvent {
    type V = GatewayEventModel;

    open spec fn view(&self) -> GatewayEventModel {
        match *self {
            GatewayEvent::TunnelStarted { teid, listen } => GatewayEventModel::TunnelStarted {
                teid,
                listen,
            },
            GatewayEvent::DispatcherStarted { listen } => GatewayEventModel::DispatcherStarted {
                listen,
            },
            GatewayEvent::UnknownTeid { teid } => GatewayEventModel::UnknownTeid { teid },
            GatewayEvent::MalformedPacket => GatewayEventModel::MalformedPacket,
            GatewayEvent::SendFailed { reason } => GatewayEventModel::SendFailed {
                reason: reason@,
            },
            GatewayEvent::ReceiveFailed => GatewayEventModel::ReceiveFailed,
        }
    }
}

impl View for Action {
    type V = ActionModel;

    open spec fn view(&self) -> ActionModel {
        match *self {
            Action::Forward { to, datagram } => ActionModel::Forward { to, datagram: datagram@ },
            Action::Report(event) => ActionModel::Report(event@),
            Action::Halt => ActionModel::Halt,
        }
    }
}

impl ActionModel {
    /// The datagrams that the action sends, each with its destination.
    pub open spec fn sends(self) -> Seq<(Destination, Seq<u8>)> {
        match self {
            ActionModel::Forward { to, datagram } => seq![(to, datagram)],
            _ => Seq::empty(),
        }
    }

    /// The events that the action reports.
    pub open spec fn reports(self) -> Seq<GatewayEventModel> {
        match self {
            ActionModel::Report(event) => seq![event],
            _ => Seq::empty(),
        }
    }
}

/// The state that follows: a loop that runs goes on running whatever it
/// observes, but for a bind failure; a terminated loop stays terminated.
pub open spec fn next_state(state: LoopState, input: LoopInput) -> LoopState {
    if state is Terminated || input is BindFailed {
        LoopState::Terminated
    } else {
        LoopState::Running
    }
}

/// The loop that encapsulates the local traffic of one tunnel.
#[derive(Clone, Copy, Debug, PartialEq, Eq)]
pub struct UplinkForwarder {
    pub tunnel: TunnelEntry,
}

impl UplinkForwarder {
    /// What the forwarder does about `input` in `state`.
    pub open spec fn response(self, state: LoopState, input: LoopInput) -> ActionModel {
        if state is Terminated {
            ActionModel::Halt
        } else {
            match input {
                LoopInput::BindFailed => ActionModel::Halt,
                LoopInput::Bound => ActionModel::Report(
                    GatewayEventModel::TunnelStarted {
                        teid: self.tunnel.teid,
                        listen: self.tunnel.uplink_listen_address,
                    },
                ),
                LoopInput::Datagram(payload) => ActionModel::Forward {
                    to: Destination::GtpPeer,
                    datagram: (GtpPacket { teid: self.tunnel.teid, payload: payload@ }).wire(),
                },
                LoopInput::ReceiveFailed => ActionModel::Report(GatewayEventModel::ReceiveFailed),
                LoopInput::SendFailed(reason) => ActionModel::Report(
                    GatewayEventModel::SendFailed { reason: reason@ },
                ),
            }
        }
    }

    /// Decides what to do about `input`: a datagram is encapsulated with the
    /// tunnel's identifier and sent to the peer; a failure to send or to
    /// receive is reported and the loop goes on; a bind failure ends it.
    pub fn step(&self, state: LoopState, input: LoopInput) -> (out: (LoopState, Action))
        ensures
            out.0 == next_state(state, input),
            out.1@ == self.response(state, input),
    {
        match state {
            LoopState::Terminated => (LoopState::Terminated, Action::Halt),
            LoopState::Running => match input {
                LoopInput::BindFailed => (LoopState::Terminated, Action::Halt),
                LoopInput::Bound => (
                    LoopState::Running,
                    Action::Report(
                        GatewayEvent::TunnelStarted {
                            teid: self.tunnel.teid,
                            listen: self.tunnel.uplink_listen_address,
                        },
                    ),
                ),
                LoopInput::Datagram(payload) => {
                    let mut packet: GtpV1 = GtpV1::init(payload, self.tunnel.teid);
                    let datagram: Vec<u8> = packet.serialize();
                    (LoopState::Running, Action::Forward { to: Destination::GtpPeer, datagram })
                },
                LoopInput::ReceiveFailed => (
                    LoopState::Running,
                    Action::Report(GatewayEvent::ReceiveFailed),
                ),
                LoopInput::SendFailed(reason) => (
                    LoopState::Running,
                    Action::Report(GatewayEvent::SendFailed { reason }),
                ),
            },
        }
    }
}

/// The loop that decapsulates the traffic of the peer and delivers it to the
/// downlink target of its tunnel.
pub struct DownlinkDispatcher {
    pub listen: Endpoint,
    pub registry: TunnelRegistry,
    pub policy: LengthPolicy,
}

impl DownlinkDispatcher {
    /// What the dispatcher does about `input` in `state`.
    pub open spec fn response(self, state: LoopState, input: LoopInput) -> ActionModel {
        if state is Terminated {
            ActionModel::Halt
        } else {
            match input {
                LoopInput::BindFailed => ActionModel::Halt,
                LoopInput::Bound => ActionModel::Report(
                    GatewayEventModel::DispatcherStarted { listen: self.listen },
                ),
                LoopInput::Datagram(bytes) => match decoded(bytes@, self.policy) {
                    Err(_) => ActionModel::Report(GatewayEventModel::MalformedPacket),
                    Ok(packet) => match self.registry@.get(packet.teid) {
                        None => ActionModel::Report(
                            GatewayEventModel::UnknownTeid { teid: packet.teid },
                        ),
                        Some(target) => ActionModel::Forward {
                            to: Destination::Local(target),
                            datagram: packet.payload,
                        },
                    },
                },
                LoopInput::ReceiveFailed => ActionModel::Report(GatewayEventModel::ReceiveFailed),
                LoopInput::SendFailed(reason) => ActionModel::Report(
                    GatewayEventModel::SendFailed { reason: reason@ },
                ),
            }
        }
    }

    /// Decides what to do about `input`: a datagram is decapsulated and its
    /// payload sent to the downlink target of its tunnel; a datagram that is
    /// no packet, or whose tunnel the registry does not know, is dropped and
    /// reported; a failure to send or to receive is reported and the loop
    /// goes on; a bind failure ends it.
    pub fn step(&self, state: LoopState, input: LoopInput) -> (out: (LoopState, Action))
        ensures
            out.0 == next_state(state, input),
            out.1@ == self.response(state, input),
    {
        match state {
            LoopState::Terminated => (LoopState::Terminated, Action::Halt),
            LoopState::Running => match input {
                LoopInput::BindFailed => (LoopState::Terminated, Action::Halt),
                LoopInput::Bound => (
                    LoopState::Running,
                    Action::Report(GatewayEvent::DispatcherStarted { listen: self.listen }),
                ),
                LoopInput::Datagram(bytes) => {
                    let action: Action = match decode_with(bytes.as_slice(), self.policy) {
                        Err(_) => Action::Report(GatewayEvent::MalformedPacket),
                        Ok((teid, payload)) => match self.registry.lookup(teid) {
                            None => Action::Report(GatewayEvent::UnknownTeid { teid }),
                            Some(target) => Action::Forward {
                                to: Destination::Local(target),
                                datagram: payload,
                            },
                        },
                    };
                    (LoopState::Running, action)
                },
                LoopInput::ReceiveFailed => (
                    LoopState::Running,
                    Action::Report(GatewayEvent::ReceiveFailed),
                ),
                LoopInput::SendFailed(reason) => (
                    LoopState::Running,
                    Action::Report(GatewayEvent::SendFailed { reason }),
                ),
            },
        }
    }
}

/// A loop ends only where it could not bind its receive socket: whatever
/// else a running loop observes, a failure to send or to receive included,
/// it goes on running. A terminated loop never runs again.
pub proof fn lemma_only_bind_failure_terminates(state: LoopState, input: LoopInput)
    ensures
        next_state(state, input) is Terminated <==> state is Terminated || input is BindFailed,
        state is Running && !(input is BindFailed) ==> next_state(state, input) is Running,
{
}

/// A terminated loop neither sends nor reports, whatever it is handed.
pub proof fn lemma_terminated_loop_is_silent(
    forwarder: UplinkForwarder,
    dispatcher: DownlinkDispatcher,
    input: LoopInput,
)
    ensures
        forwarder.response(LoopState::Terminated, input) == ActionModel::Halt,
        dispatcher.response(LoopState::Terminated, input) == ActionModel::Halt,
        ActionModel::Halt.sends().len() == 0,
        ActionModel::Halt.reports().len() == 0,
{
}

/// For each datagram that it receives, a running uplink forwarder sends one
/// packet to the peer and reports nothing. The packet carries the
/// forwarder's own tunnel identifier and the datagram as its payload.
pub proof fn lemma_uplink_packet_carries_own_teid(forwarder: UplinkForwarder, payload: Vec<u8>)
    ensures
        ({
            let action = forwarder.response(LoopState::Running, LoopInput::Datagram(payload));
            &&& action.reports().len() == 0
            &&& action.sends().len() == 1
            &&& action.sends()[0].0 == Destination::GtpPeer
            &&& GtpPacket::parse(action.sends()[0].1) == Some(
                GtpPacket { teid: forwarder.tunnel.teid, payload: payload@ },
            )
        }),
{
    lemma_decode_encode_roundtrip(payload@, forwarder.tunnel.teid, LengthPolicy::TrustDatagram);
}

/// A packet whose tunnel the registry does not know is dropped: the running
/// dispatcher sends nothing and reports one event, which names the tunnel
/// identifier.
pub proof fn lemma_unknown_teid_is_dropped(
    dispatcher: DownlinkDispatcher,
    bytes: Vec<u8>,
    packet: GtpPacket,
)
    requires
        decoded(bytes@, dispatcher.policy) == Ok::<GtpPacket, GtpError>(packet),
        !dispatcher.registry@.contains_key(packet.teid),
    ensures
        ({
            let action = dispatcher.response(LoopState::Running, LoopInput::Datagram(bytes));
            &&& action.sends().len() == 0
            &&& action.reports() == seq![GatewayEventModel::UnknownTeid { teid: packet.teid }]
        }),
{
}

/// A datagram that is no packet is dropped: the running dispatcher sends
/// nothing and reports one event.
pub proof fn lemma_malformed_packet_is_dropped(dispatcher: DownlinkDispatcher, bytes: Vec<u8>)
    requires
        decoded(bytes@, dispatcher.policy) is Err,
    ensures
        ({
            let action = dispatcher.response(LoopState::Running, LoopInput::Datagram(bytes));
            &&& action.sends().len() == 0
            &&& action.reports() == seq![GatewayEventModel::MalformedPacket]
        }),
{
}

/// A packet whose tunnel the registry knows is delivered: the running
/// dispatcher reports nothing and sends one datagram, the payload unchanged,
/// to the downlink target of the tunnel.
pub proof fn lemma_known_teid_is_delivered(
    dispatcher: DownlinkDispatcher,
    bytes: Vec<u8>,
    packet: GtpPacket,
)
    requires
        decoded(bytes@, dispatcher.policy) == Ok::<GtpPacket, GtpError>(packet),
        dispatcher.registry@.contains_key(packet.teid),
    ensures
        ({
            let action = dispatcher.response(LoopState::Running, LoopInput::Datagram(bytes));
            &&& action.reports().len() == 0
            &&& action.sends() == seq![
                (Destination::Local(dispatcher.registry@[packet.teid]), packet.payload),
            ]
        }),
{
}

/// What the uplink forwarder of a tunnel makes of a datagram, a dispatcher
/// that knows the tunnel turns back into that datagram and sends to the
/// tunnel's downlink target. Where the dispatcher holds packets to their
/// length field, this is so for datagrams of at most 65535 octets.
pub proof fn lemma_relay_gives_payload_back(
    forwarder: UplinkForwarder,
    dispatcher: DownlinkDispatcher,
    payload: Vec<u8>,
    relayed: Vec<u8>,
)
    requires
        forwarder.response(LoopState::Running, LoopInput::Datagram(payload)).sends() == seq![
            (Destination::GtpPeer, relayed@),
        ],
        dispatcher.registry@.contains_key(forwarder.tunnel.teid),
        dispatcher.policy is RequireMatch ==> payload@.len() <= 0xFFFF,
    ensures
        dispatcher.response(LoopState::Running, LoopInput::Datagram(relayed)) == (
        ActionModel::Forward {
            to: Destination::Local(dispatcher.registry@[forwarder.tunnel.teid]),
            datagram: payload@,
        }),
{
    lemma_decode_encode_roundtrip(payload@, forwarder.tunnel.teid, dispatcher.policy);
    let sent = forwarder.response(LoopState::Running, LoopInput::Datagram(payload)).sends();
    assert(sent[0].1 == relayed@);
}

} // verus!
