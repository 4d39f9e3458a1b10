//! The relay between a session and its raw socket: what to wait for and what
//! to do, one event at a time.
use vstd::prelude::*;

verus! {

/// What the relay is doing.
#[derive(Debug, Clone, Copy, PartialEq, Eq, Structural)]
pub enum RelayState {
    /// Waiting for a packet from either side.
    Waiting,
    /// Holding a packet that the socket has not taken yet.
    Sending,
    /// At its end.
    Stopped,
}

/// What happened.
#[derive(Debug, Clone, Copy, PartialEq, Eq, Structural)]
pub enum RelayEvent {
    /// The session handed over a packet.
    PacketToSend,
    /// The session is gone.
    SessionClosed,
    /// The socket took the packet.
    Sent,
    /// The socket was not ready after all.
    NotReady,
    /// The socket delivered a packet of so many bytes.
    Received(usize),
    /// The session took the received packet.
    Delivered,
    /// The session takes no more packets.
    DeliveryFailed,
    /// The socket, or waiting for it, failed.
    SocketFailed,
}

/// What to do.
#[derive(Debug, Clone, Copy, PartialEq, Eq, Structural)]
pub enum RelayAction {
    /// Wait for a packet from either side.
    WaitForPacket,
    /// Wait until the socket can be written, and try to send.
    TrySend,
    /// Hand the first so many bytes of the buffer to the session.
    Deliver(usize),
    /// Leave.
    Stop,
}

/// The state and the action that follow an event.
pub open spec fn relay_next(state: RelayState, event: RelayEvent) -> (RelayState, RelayAction) {
    match (state, event) {
        (RelayState::Stopped, _) => (RelayState::Stopped, RelayAction::Stop),
        (_, RelayEvent::SocketFailed) => (RelayState::Stopped, RelayAction::Stop),
        (RelayState::Waiting, RelayEvent::PacketToSend) => (
            RelayState::Sending,
            RelayAction::TrySend,
        ),
        (RelayState::Waiting, RelayEvent::SessionClosed) => (RelayState::Stopped, RelayAction::Stop),
        (RelayState::Waiting, RelayEvent::Received(len)) => (
            RelayState::Waiting,
            RelayAction::Deliver(len),
        ),
        (RelayState::Waiting, RelayEvent::DeliveryFailed) => (
            RelayState::Stopped,
            RelayAction::Stop,
        ),
        (RelayState::Sending, RelayEvent::Sent) => (
            RelayState::Waiting,
            RelayAction::WaitForPacket,
        ),
        (RelayState::Sending, _) => (RelayState::Sending, RelayAction::TrySend),
        (RelayState::Waiting, _) => (RelayState::Waiting, RelayAction::WaitForPacket),
    }
}

pub fn relay_step(state: RelayState, event: RelayEvent) -> (r: (RelayState, RelayAction))
    ensures
        r == relay_next(state, event),
{
    match (state, event) {
        (RelayState::Stopped, _) => (RelayState::Stopped, RelayAction::Stop),
        (_, RelayEvent::SocketFailed) => (RelayState::Stopped, RelayAction::Stop),
        (RelayState::Waiting, RelayEvent::PacketToSend) => (
            RelayState::Sending,
            RelayAction::TrySend,
        ),
        (RelayState::Waiting, RelayEvent::SessionClosed) => (RelayState::Stopped, RelayAction::Stop),
        (RelayState::Waiting, RelayEvent::Received(len)) => (
            RelayState::Waiting,
            RelayAction::Deliver(len),
        ),
        (RelayState::Waiting, RelayEvent::DeliveryFailed) => (
            RelayState::Stopped,
            RelayAction::Stop,
        ),
        (RelayState::Sending, RelayEvent::Sent) => (
            RelayState::Waiting,
            RelayAction::WaitForPacket,
        ),
        (RelayState::Sending, _) => (RelayState::Sending, RelayAction::TrySend),
        (RelayState::Waiting, _) => (RelayState::Waiting, RelayAction::WaitForPacket),
    }
}

/// The state after a sequence of events.
pub open spec fn relay_run(state: RelayState, events: Seq<RelayEvent>) -> RelayState
    decreases events.len(),
{
    if events.len() == 0 {
        state
    } else {
        relay_next(relay_run(state, events.drop_last()), events.last()).0
    }
}

/// A relay that has stopped stays stopped.
pub proof fn law_stopped_for_good(events: Seq<RelayEvent>)
    ensures
        relay_run(RelayState::Stopped, events) is Stopped,
    decreases events.len(),
{
    if events.len() > 0 {
        law_stopped_for_good(events.drop_last());
    }
}

/// A packet that the session handed over is tried until the socket takes it
/// or fails: nothing else makes the relay drop it.
pub proof fn law_packet_is_kept(event: RelayEvent)
    ensures
        relay_next(RelayState::Sending, event).0 is Sending <==> event != RelayEvent::Sent && event
            != RelayEvent::SocketFailed,
{
}

/// What follows each event. A waiting relay sends what the session hands over
/// and delivers what comes in, whole; it ends with the session, with a failed
/// delivery and with the socket. A sending one tries until the packet is taken
/// or the socket fails.
pub proof fn law_relay_steps(event: RelayEvent)
    ensures
        ({
            let (state, action) = relay_next(RelayState::Waiting, event);
            match event {
                RelayEvent::PacketToSend => state == RelayState::Sending && action
                    == RelayAction::TrySend,
                RelayEvent::Received(len) => state == RelayState::Waiting && action
                    == RelayAction::Deliver(len),
                RelayEvent::SessionClosed => state == RelayState::Stopped && action
                    == RelayAction::Stop,
                RelayEvent::DeliveryFailed => state == RelayState::Stopped && action
                    == RelayAction::Stop,
                RelayEvent::SocketFailed => state == RelayState::Stopped && action
                    == RelayAction::Stop,
                _ => state == RelayState::Waiting && action == RelayAction::WaitForPacket,
            }
        }),
        ({
            let (state, action) = relay_next(RelayState::Sending, event);
            match event {
                RelayEvent::Sent => state == RelayState::Waiting && action
                    == RelayAction::WaitForPacket,
                RelayEvent::SocketFailed => state == RelayState::Stopped && action
                    == RelayAction::Stop,
                _ => state == RelayState::Sending && action == RelayAction::TrySend,
            }
        }),
        relay_next(RelayState::Stopped, event) == (RelayState::Stopped, RelayAction::Stop),
{
}

} // verus!
