//! The responses that complete stored packets.
use vstd::prelude::*;

verus! {

/// The packet that completes a stored PUBLISH or PUBREL and lets it be dropped
/// from the store.
#[derive(Debug, Clone, Copy, PartialEq, Eq, Hash, Structural)]
pub enum ResponsePacket {
    /// A v3.1.1 PUBACK, for a QoS 1 PUBLISH.
    V3_1_1Puback,
    /// A v3.1.1 PUBREC, for a QoS 2 PUBLISH.
    V3_1_1Pubrec,
    /// A v3.1.1 PUBCOMP, for a PUBREL.
    V3_1_1Pubcomp,
    /// A v5.0 PUBACK, for a QoS 1 PUBLISH.
    V5_0Puback,
    /// A v5.0 PUBREC, for a QoS 2 PUBLISH.
    V5_0Pubrec,
    /// A v5.0 PUBCOMP, for a PUBREL.
    V5_0Pubcomp,
}

} // verus!
