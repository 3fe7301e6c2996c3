//! Packet types classified at compile time by constant flags.
use vstd::prelude::*;

verus! {

/// Compile-time classification of a packet type: which packet it is and which
/// protocol version it belongs to. A concrete packet type sets one packet flag and
/// one version flag.
pub trait PacketKind {
    /// `true` for a CONNECT packet.
    const IS_CONNECT: bool = false;
    /// `true` for a CONNACK packet.
    const IS_CONNACK: bool = false;
    /// `true` for a PUBLISH packet.
    const IS_PUBLISH: bool = false;
    /// `true` for a PUBACK packet.
    const IS_PUBACK: bool = false;
    /// `true` for a PUBREC packet.
    const IS_PUBREC: bool = false;
    /// `true` for a PUBREL packet.
    const IS_PUBREL: bool = false;
    /// `true` for a PUBCOMP packet.
    const IS_PUBCOMP: bool = false;
    /// `true` for a SUBSCRIBE packet.
    const IS_SUBSCRIBE: bool = false;
    /// `true` for a SUBACK packet.
    const IS_SUBACK: bool = false;
    /// `true` for an UNSUBSCRIBE packet.
    const IS_UNSUBSCRIBE: bool = false;
    /// `true` for an UNSUBACK packet.
    const IS_UNSUBACK: bool = false;
    /// `true` for a PINGREQ packet.
    const IS_PINGREQ: bool = false;
    /// `true` for a PINGRESP packet.
    const IS_PINGRESP: bool = false;
    /// `true` for a DISCONNECT packet.
    const IS_DISCONNECT: bool = false;
    /// `true` for an AUTH packet (v5.0 only).
    const IS_AUTH: bool = false;
    /// `true` for an MQTT v3.1.1 packet.
    const IS_V3_1_1: bool = false;
    /// `true` for an MQTT v5.0 packet.
    const IS_V5_0: bool = false;
}

/// A reference has the flags of the type it refers to.
impl<T: PacketKind> PacketKind for &T {
    const IS_CONNECT: bool = T::IS_CONNECT;
    const IS_CONNACK: bool = T::IS_CONNACK;
    const IS_PUBLISH: bool = T::IS_PUBLISH;
    const IS_PUBACK: bool = T::IS_PUBACK;
    const IS_PUBREC: bool = T::IS_PUBREC;
    const IS_PUBREL: bool = T::IS_PUBREL;
    const IS_PUBCOMP: bool = T::IS_PUBCOMP;
    const IS_SUBSCRIBE: bool = T::IS_SUBSCRIBE;
    const IS_SUBACK: bool = T::IS_SUBACK;
    const IS_UNSUBSCRIBE: bool = T::IS_UNSUBSCRIBE;
    const IS_UNSUBACK: bool = T::IS_UNSUBACK;
    const IS_PINGREQ: bool = T::IS_PINGREQ;
    const IS_PINGRESP: bool = T::IS_PINGRESP;
    const IS_DISCONNECT: bool = T::IS_DISCONNECT;
    const IS_AUTH: bool = T::IS_AUTH;
    const IS_V3_1_1: bool = T::IS_V3_1_1;
    const IS_V5_0: bool = T::IS_V5_0;
}

} // verus!
