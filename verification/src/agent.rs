//! The two peer agents' choreography, as state machines.
//!
//! Each agent runs a UDP task (registration keepalive and signaling inbox)
//! and a TCP task (the punch choreography). The decisions of both live
//! here: a step function takes the current state and one event and returns
//! the next state and the action to perform. The caller does the waiting,
//! connecting and sending the actions prescribe, and feeds the outcome back
//! in as the next event.

use vstd::prelude::*;

use crate::addr::SockAddr;
use crate::hybrid::{spec_decode, Message, MsgV};

verus! {

/// What the UDP task does with one datagram from the server.
#[derive(Clone, Copy, Debug, PartialEq, Eq, Structural)]
pub enum UdpInboxAction {
    /// A registration acknowledgment arrived: fire the one-shot
    /// "registered" signal toward the TCP task.
    NotifyRegistered,
    /// The server pushed the active peer's observed TCP address: hand it
    /// to the TCP task through the single-slot channel.
    DeliverPeerAddress(SockAddr),
    /// Anything else: log and drop.
    Ignore,
}

/// The UDP inbox decision on a decoded message.
pub open spec fn spec_udp_inbox_step(m: MsgV) -> UdpInboxAction {
    match m {
        MsgV::RegisterResponse(_) => UdpInboxAction::NotifyRegistered,
        MsgV::PunchS2B(a) => UdpInboxAction::DeliverPeerAddress(a),
        _ => UdpInboxAction::Ignore,
    }
}

/// Dispatches one decoded datagram from the server.
pub fn udp_inbox_step(msg: &Message) -> (r: UdpInboxAction)
    ensures
        r == spec_udp_inbox_step(msg@),
{
    match msg {
        Message::register_response(_) => UdpInboxAction::NotifyRegistered,
        Message::punchS2B(a) => UdpInboxAction::DeliverPeerAddress(*a),
        _ => UdpInboxAction::Ignore,
    }
}

/// Dispatches the raw bytes of one datagram from the server: malformed
/// bytes are dropped.
pub fn udp_inbox_bytes(data: &[u8]) -> (r: UdpInboxAction)
    ensures
        match spec_decode(data@) {
            Some(m) => r == spec_udp_inbox_step(m),
            None => r == UdpInboxAction::Ignore,
        },
{
    match Message::decode(data) {
        Ok(msg) => udp_inbox_step(&msg),
        Err(_) => UdpInboxAction::Ignore,
    }
}

/// The server's relay answer carried by a signaling message, if it is one.
pub fn relay_of(msg: &Message) -> (r: Option<Option<SockAddr>>)
    ensures
        match msg@ {
            MsgV::PunchS2A(oa) => r == Some(oa),
            _ => r is None,
        },
{
    match msg {
        Message::punchS2A(oa) => Some(*oa),
        _ => None,
    }
}

/// Why an active punch cycle ends without a connection.
#[derive(Clone, Copy, Debug, PartialEq, Eq, Structural)]
pub enum AbortReason {
    /// The server answered that the target id never registered.
    PeerUnregistered,
    /// The bounded wait for the server's relay elapsed.
    Timeout,
}

/// The active (dialing) agent's TCP-task state.
#[derive(Clone, Copy, Debug, PartialEq, Eq, Structural)]
pub enum ActiveState {
    /// Waiting for the UDP task's one-shot "registered" signal.
    AwaitingRegistration,
    /// Registered; waiting for the external trigger to begin punching.
    AwaitingTrigger,
    /// Dialing the server's signaling endpoint, retrying forever.
    ConnectingToServer,
    /// Punch request sent on the signaling connection made from `local`;
    /// waiting, bounded, for the server's relay.
    AwaitingRelay { local: SockAddr },
    /// Relay received: repeatedly dialing `peer` from the same `local`
    /// address the signaling connection used.
    Punching { local: SockAddr, peer: SockAddr },
    /// Connected: the post-connection exchange is running.
    Exchanging { local: SockAddr, peer: SockAddr },
    /// This punch cycle is over without a connection.
    Failed(AbortReason),
}

/// What happened, fed to the active agent's step function.
#[derive(Clone, Copy, Debug, PartialEq, Eq, Structural)]
pub enum ActiveEvent {
    /// The UDP task's registration signal fired.
    Registered,
    /// The external trigger to begin punching fired.
    Triggered,
    /// The signaling connection is up; it was dialed from `local`.
    ServerConnected { local: SockAddr },
    /// The server's relay arrived: the target's observed TCP address, or
    /// nothing if the target never registered.
    RelayReceived(Option<SockAddr>),
    /// A connect attempt failed.
    ConnectFailed,
    /// A bounded wait elapsed.
    TimedOut,
    /// A connect attempt succeeded.
    ConnectSucceeded,
    /// The post-connection exchange ended, for any reason.
    ExchangeEnded,
}

/// What the active agent's caller must do next.
#[derive(Clone, Copy, Debug, PartialEq, Eq, Structural)]
pub enum ActiveAction {
    /// Suspend until the external trigger fires.
    WaitForTrigger,
    /// Dial the server's signaling endpoint from a fresh local port.
    DialServer,
    /// Send the punch request for the target id on the signaling
    /// connection, then wait, bounded, for the relay.
    SendPunchRequest,
    /// Close the signaling connection and dial `peer` from `local` with a
    /// short timeout.
    AttemptConnect { local: SockAddr, peer: SockAddr },
    /// Hand the fresh connection to the post-connection exchange.
    StartExchange { local: SockAddr, peer: SockAddr },
    /// Give this punch cycle up and surface the reason.
    Abort(AbortReason),
    /// Nothing: the event does not concern the current state.
    Ignore,
}

/// The active agent's transition function.
pub open spec fn spec_active_step(s: ActiveState, ev: ActiveEvent) -> (ActiveState, ActiveAction) {
    match (s, ev) {
        (ActiveState::AwaitingRegistration, ActiveEvent::Registered) => (
            ActiveState::AwaitingTrigger,
            ActiveAction::WaitForTrigger,
        ),
        (ActiveState::AwaitingTrigger, ActiveEvent::Triggered) => (
            ActiveState::ConnectingToServer,
            ActiveAction::DialServer,
        ),
        (ActiveState::ConnectingToServer, ActiveEvent::ServerConnected { local }) => (
            ActiveState::AwaitingRelay { local },
            ActiveAction::SendPunchRequest,
        ),
        (ActiveState::ConnectingToServer, ActiveEvent::ConnectFailed) => (
            ActiveState::ConnectingToServer,
            ActiveAction::DialServer,
        ),
        (ActiveState::ConnectingToServer, ActiveEvent::TimedOut) => (
            ActiveState::ConnectingToServer,
            ActiveAction::DialServer,
        ),
        (ActiveState::AwaitingRelay { local }, ActiveEvent::RelayReceived(oa)) => match oa {
            Some(peer) => (
                ActiveState::Punching { local, peer },
                ActiveAction::AttemptConnect { local, peer },
            ),
            None => (
                ActiveState::Failed(AbortReason::PeerUnregistered),
                ActiveAction::Abort(AbortReason::PeerUnregistered),
            ),
        },
        (ActiveState::AwaitingRelay { local }, ActiveEvent::TimedOut) => (
            ActiveState::Failed(AbortReason::Timeout),
            ActiveAction::Abort(AbortReason::Timeout),
        ),
        (ActiveState::Punching { local, peer }, ActiveEvent::ConnectSucceeded) => (
            ActiveState::Exchanging { local, peer },
            ActiveAction::StartExchange { local, peer },
        ),
        (ActiveState::Punching { local, peer }, ActiveEvent::ConnectFailed) => (
            ActiveState::Punching { local, peer },
            ActiveAction::AttemptConnect { local, peer },
        ),
        (ActiveState::Punching { local, peer }, ActiveEvent::TimedOut) => (
            ActiveState::Punching { local, peer },
            ActiveAction::AttemptConnect { local, peer },
        ),
        (ActiveState::Exchanging { local, peer }, ActiveEvent::ExchangeEnded) => (
            ActiveState::Punching { local, peer },
            ActiveAction::AttemptConnect { local, peer },
        ),
        _ => (s, ActiveAction::Ignore),
    }
}

/// Runs one step of the active agent.
pub fn active_step(s: ActiveState, ev: ActiveEvent) -> (r: (ActiveState, ActiveAction))
    ensures
        r == spec_active_step(s, ev),
{
    match (s, ev) {
        (ActiveState::AwaitingRegistration, ActiveEvent::Registered) => (
            ActiveState::AwaitingTrigger,
            ActiveAction::WaitForTrigger,
        ),
        (ActiveState::AwaitingTrigger, ActiveEvent::Triggered) => (
            ActiveState::ConnectingToServer,
            ActiveAction::DialServer,
        ),
        (ActiveState::ConnectingToServer, ActiveEvent::ServerConnected { local }) => (
            ActiveState::AwaitingRelay { local },
            ActiveAction::SendPunchRequest,
        ),
        (ActiveState::ConnectingToServer, ActiveEvent::ConnectFailed) => (
            ActiveState::ConnectingToServer,
            ActiveAction::DialServer,
        ),
        (ActiveState::ConnectingToServer, ActiveEvent::TimedOut) => (
            ActiveState::ConnectingToServer,
            ActiveAction::DialServer,
        ),
        (ActiveState::AwaitingRelay { local }, ActiveEvent::RelayReceived(oa)) => match oa {
            Some(peer) => (
                ActiveState::Punching { local, peer },
                ActiveAction::AttemptConnect { local, peer },
            ),
            None => (
                ActiveState::Failed(AbortReason::PeerUnregistered),
                ActiveAction::Abort(AbortReason::PeerUnregistered),
            ),
        },
        (ActiveState::AwaitingRelay { local: _ }, ActiveEvent::TimedOut) => (
            ActiveState::Failed(AbortReason::Timeout),
            ActiveAction::Abort(AbortReason::Timeout),
        ),
        (ActiveState::Punching { local, peer }, ActiveEvent::ConnectSucceeded) => (
            ActiveState::Exchanging { local, peer },
            ActiveAction::StartExchange { local, peer },
        ),
        (ActiveState::Punching { local, peer }, ActiveEvent::ConnectFailed) => (
            ActiveState::Punching { local, peer },
            ActiveAction::AttemptConnect { local, peer },
        ),
        (ActiveState::Punching { local, peer }, ActiveEvent::TimedOut) => (
            ActiveState::Punching { local, peer },
            ActiveAction::AttemptConnect { local, peer },
        ),
        (ActiveState::Exchanging { local, peer }, ActiveEvent::ExchangeEnded) => (
            ActiveState::Punching { local, peer },
            ActiveAction::AttemptConnect { local, peer },
        ),
        _ => (s, ActiveAction::Ignore),
    }
}

/// The passive (listening) agent's TCP-task state.
#[derive(Clone, Copy, Debug, PartialEq, Eq, Structural)]
pub enum PassiveState {
    /// Waiting for the UDP task's one-shot "registered" signal.
    AwaitingRegistration,
    /// Waiting for the server to push the active peer's observed address.
    AwaitingPeerAddress,
    /// Dialing the server, retrying forever, to learn a local address.
    ConnectingToServer { peer: SockAddr },
    /// Priming connect toward the peer from the just-learned `local`
    /// address, expected to fail, made only to open the NAT mapping.
    Priming { local: SockAddr, peer: SockAddr },
    /// Sending the readiness acknowledgment on the signaling connection.
    SendingAck { local: SockAddr, peer: SockAddr },
    /// Listening on `local` for one inbound connection from `expected`.
    Listening { local: SockAddr, expected: SockAddr },
    /// Accepted: the post-connection exchange is running.
    Exchanging { local: SockAddr, peer: SockAddr, address_matched: bool },
    /// The one accepted session ended.
    Done,
}

/// What happened, fed to the passive agent's step function.
#[derive(Clone, Copy, Debug, PartialEq, Eq, Structural)]
pub enum PassiveEvent {
    /// The UDP task's registration signal fired.
    Registered,
    /// The UDP task delivered the active peer's observed TCP address.
    PeerAddressReceived(SockAddr),
    /// The signaling connection is up; it was dialed from `local`.
    ServerConnected { local: SockAddr },
    /// A connect attempt failed.
    ConnectFailed,
    /// A bounded wait elapsed.
    TimedOut,
    /// The priming connect finished — success and failure count alike.
    PrimingFinished,
    /// The readiness acknowledgment went out.
    AckSent,
    /// The listener accepted one inbound connection from `remote`.
    Accepted { remote: SockAddr },
    /// The post-connection exchange ended, for any reason.
    ExchangeEnded,
}

/// What the passive agent's caller must do next.
#[derive(Clone, Copy, Debug, PartialEq, Eq, Structural)]
pub enum PassiveAction {
    /// Suspend until the peer's address arrives from the UDP task.
    WaitForPeerAddress,
    /// Dial the server's signaling endpoint from a fresh local port.
    DialServer,
    /// Dial `peer` from `local` with a short timeout, for the NAT mapping
    /// only; the outcome does not matter.
    AttemptPrimingConnect { local: SockAddr, peer: SockAddr },
    /// Send the readiness acknowledgment on the signaling connection,
    /// then close it.
    SendPunchAck,
    /// Bind a reusable listener on `local` and accept one connection;
    /// this wait may block indefinitely.
    ListenOn { local: SockAddr },
    /// Hand the accepted connection to the post-connection exchange.
    /// A mismatched address is logged, nothing more.
    StartExchange { local: SockAddr, peer: SockAddr, address_matched: bool },
    /// Nothing is left to do.
    Stop,
    /// Nothing: the event does not concern the current state.
    Ignore,
}

/// The passive agent's transition function.
pub open spec fn spec_passive_step(s: PassiveState, ev: PassiveEvent) -> (
    PassiveState,
    PassiveAction,
) {
    match (s, ev) {
        (PassiveState::AwaitingRegistration, PassiveEvent::Registered) => (
            PassiveState::AwaitingPeerAddress,
            PassiveAction::WaitForPeerAddress,
        ),
        (PassiveState::AwaitingPeerAddress, PassiveEvent::PeerAddressReceived(peer)) => (
            PassiveState::ConnectingToServer { peer },
            PassiveAction::DialServer,
        ),
        (PassiveState::ConnectingToServer { peer }, PassiveEvent::ConnectFailed) => (
            PassiveState::ConnectingToServer { peer },
            PassiveAction::DialServer,
        ),
        (PassiveState::ConnectingToServer { peer }, PassiveEvent::TimedOut) => (
            PassiveState::ConnectingToServer { peer },
            PassiveAction::DialServer,
        ),
        (PassiveState::ConnectingToServer { peer }, PassiveEvent::ServerConnected { local }) => (
            PassiveState::Priming { local, peer },
            PassiveAction::AttemptPrimingConnect { local, peer },
        ),
        (PassiveState::Priming { local, peer }, PassiveEvent::PrimingFinished) => (
            PassiveState::SendingAck { local, peer },
            PassiveAction::SendPunchAck,
        ),
        (PassiveState::SendingAck { local, peer }, PassiveEvent::AckSent) => (
            PassiveState::Listening { local, expected: peer },
            PassiveAction::ListenOn { local },
        ),
        (PassiveState::Listening { local, expected }, PassiveEvent::Accepted { remote }) => (
            PassiveState::Exchanging {
                local,
                peer: remote,
                address_matched: remote == expected,
            },
            PassiveAction::StartExchange {
                local,
                peer: remote,
                address_matched: remote == expected,
            },
        ),
        (PassiveState::Exchanging { local, peer, address_matched }, PassiveEvent::ExchangeEnded)
            => (PassiveState::Done, PassiveAction::Stop),
        _ => (s, PassiveAction::Ignore),
    }
}

/// Runs one step of the passive agent.
pub fn passive_step(s: PassiveState, ev: PassiveEvent) -> (r: (PassiveState, PassiveAction))
    ensures
        r == spec_passive_step(s, ev),
{
    match (s, ev) {
        (PassiveState::AwaitingRegistration, PassiveEvent::Registered) => (
            PassiveState::AwaitingPeerAddress,
            PassiveAction::WaitForPeerAddress,
        ),
        (PassiveState::AwaitingPeerAddress, PassiveEvent::PeerAddressReceived(peer)) => (
            PassiveState::ConnectingToServer { peer },
            PassiveAction::DialServer,
        ),
        (PassiveState::ConnectingToServer { peer }, PassiveEvent::ConnectFailed) => (
            PassiveState::ConnectingToServer { peer },
            PassiveAction::DialServer,
        ),
        (PassiveState::ConnectingToServer { peer }, PassiveEvent::TimedOut) => (
            PassiveState::ConnectingToServer { peer },
            PassiveAction::DialServer,
        ),
        (PassiveState::ConnectingToServer { peer }, PassiveEvent::ServerConnected { local }) => (
            PassiveState::Priming { local, peer },
            PassiveAction::AttemptPrimingConnect { local, peer },
        ),
        (PassiveState::Priming { local, peer }, PassiveEvent::PrimingFinished) => (
            PassiveState::SendingAck { local, peer },
            PassiveAction::SendPunchAck,
        ),
        (PassiveState::SendingAck { local, peer }, PassiveEvent::AckSent) => (
            PassiveState::Listening { local, expected: peer },
            PassiveAction::ListenOn { local },
        ),
        (PassiveState::Listening { local, expected }, PassiveEvent::Accepted { remote }) => {
            let matched: bool = remote == expected;
            (
                PassiveState::Exchanging { local, peer: remote, address_matched: matched },
                PassiveAction::StartExchange { local, peer: remote, address_matched: matched },
            )
        },
        (
            PassiveState::Exchanging { local: _, peer: _, address_matched: _ },
            PassiveEvent::ExchangeEnded,
        ) => (PassiveState::Done, PassiveAction::Stop),
        _ => (s, PassiveAction::Ignore),
    }
}

/// Law: the connect-retry loop never gives up. From the punching state a
/// failed or timed-out attempt retries the identical attempt, no event
/// makes the cycle fail, and when the exchange ends the loop resumes; so
/// once a matching listener is up, attempts continue until one succeeds.
pub proof fn lemma_punching_never_gives_up(local: SockAddr, peer: SockAddr, ev: ActiveEvent)
    ensures
        !(spec_active_step(ActiveState::Punching { local, peer }, ev).0 is Failed),
        (ev == ActiveEvent::ConnectFailed || ev == ActiveEvent::TimedOut)
            ==> spec_active_step(ActiveState::Punching { local, peer }, ev) == (
            ActiveState::Punching { local, peer },
            ActiveAction::AttemptConnect { local, peer },
        ),
        spec_active_step(ActiveState::Exchanging { local, peer }, ActiveEvent::ExchangeEnded)
            == (
            ActiveState::Punching { local, peer },
            ActiveAction::AttemptConnect { local, peer },
        ),
{
}

/// Law: a mismatched accepted address does not abort the session. Whatever
/// address the listener accepts, the passive agent starts the exchange
/// with it; the mismatch is only marked for logging.
pub proof fn lemma_accept_mismatch_not_fatal(local: SockAddr, expected: SockAddr, remote: SockAddr)
    ensures
        spec_passive_step(
            PassiveState::Listening { local, expected },
            PassiveEvent::Accepted { remote },
        ) == (
            PassiveState::Exchanging {
                local,
                peer: remote,
                address_matched: remote == expected,
            },
            PassiveAction::StartExchange {
                local,
                peer: remote,
                address_matched: remote == expected,
            },
        ),
{
}

} // verus!
