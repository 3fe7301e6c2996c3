//! Options fixed when a connection is created.
use vstd::prelude::*;

verus! {

/// The largest packet the protocol allows: 1 byte of fixed header, 4 bytes of
/// remaining length and 268,435,455 bytes of body.
pub const MQTT_PACKET_SIZE_NO_LIMIT: u32 = 1 + 4 + 268435455;

/// Options fixed at connection construction time.
///
/// They describe local capabilities that hold from the first received byte and do
/// not change while the connection lives.
#[derive(Debug, Clone, Copy, PartialEq, Eq, Structural)]
#[non_exhaustive]
pub struct ConnectionOptions {
    /// The largest packet this connection accepts on receive; a packet whose total
    /// size exceeds it is rejected once its remaining length is decoded.
    pub maximum_packet_size_recv: u32,
}

impl Default for ConnectionOptions {
    /// No limit beyond the protocol's own.
    fn default() -> (r: Self)
        ensures
            r.maximum_packet_size_recv == MQTT_PACKET_SIZE_NO_LIMIT,
    {
        Self { maximum_packet_size_recv: MQTT_PACKET_SIZE_NO_LIMIT }
    }
}

/// The receive limit that a requested `size` gives: `0` means no limit, and larger
/// values than the protocol's own limit are clamped to it.
pub open spec fn effective_size_limit(size: u32) -> u32 {
    if size == 0 || size > MQTT_PACKET_SIZE_NO_LIMIT {
        MQTT_PACKET_SIZE_NO_LIMIT
    } else {
        size
    }
}

impl ConnectionOptions {
    /// The default options.
    pub fn new() -> (r: Self)
        ensures
            r.maximum_packet_size_recv == MQTT_PACKET_SIZE_NO_LIMIT,
    {
        Self::default()
    }

    /// Sets the largest packet accepted on receive. Values above
    /// `MQTT_PACKET_SIZE_NO_LIMIT` are clamped to it; `0` means no limit.
    pub fn maximum_packet_size_recv(self, size: u32) -> (r: Self)
        ensures
            r.maximum_packet_size_recv == effective_size_limit(size),
    {
        let mut s = self;
        s.maximum_packet_size_recv = if size == 0 {
            MQTT_PACKET_SIZE_NO_LIMIT
        } else if size < MQTT_PACKET_SIZE_NO_LIMIT {
            size
        } else {
            MQTT_PACKET_SIZE_NO_LIMIT
        };
        s
    }
}

/// The receive limit: the protocol's maximum of 268,435,460 bytes (1 header byte,
/// 4 length bytes, 268,435,455 body bytes) when no limit or a larger one is asked
/// for, the requested size otherwise; it never exceeds the protocol's maximum.
pub proof fn lemma_effective_size_limit(size: u32)
    ensures
        MQTT_PACKET_SIZE_NO_LIMIT == 268435460,
        1 <= size <= 268435460 ==> effective_size_limit(size) == size,
        size == 0 || size > 268435460 ==> effective_size_limit(size) == 268435460,
        1 <= effective_size_limit(size) <= 268435460,
{
}

} // verus!
