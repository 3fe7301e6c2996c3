//! Kinds of timers a connection asks its user to run.
use vstd::prelude::*;

verus! {

/// The timers of the MQTT keep-alive mechanism.
#[derive(Debug, Clone, Copy, PartialEq, Eq, Structural)]
pub enum TimerKind {
    /// When it fires, a client sends PINGREQ to keep the connection alive.
    PingreqSend,
    /// When it fires, a server has not heard from the client within the keep-alive
    /// time.
    PingreqRecv,
    /// When it fires, a client has not received the PINGRESP it waits for.
    PingrespRecv,
}

} // verus!
