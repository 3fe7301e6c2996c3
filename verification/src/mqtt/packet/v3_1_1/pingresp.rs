//! MQTT v3.1.1 Pingresp packet.
use crate::mqtt::connection::sendable_version::SendableVersion;
use crate::mqtt::connection::version::Version;
use crate::mqtt::packet::packet_type::{FixedHeader, PacketType};
use crate::mqtt::packet::variable_byte_integer::{lemma_vbi_encode, vbi_encode, VariableByteInteger};
use crate::mqtt::result_code::MqttError;
use crate::mqtt::packet::kind::PacketKind;
use vstd::prelude::*;

verus! {

/// The Pingresp packet answering a PINGREQ. It has no body.
#[derive(PartialEq, Eq, Debug)]
pub struct Pingresp {
    fixed_header: u8,
    remaining_length: VariableByteInteger,
}

impl Pingresp {
    #[verifier::type_invariant]
    spec fn inv(&self) -> bool {
        &&& self.fixed_header == 0xd0
        &&& self.remaining_length.wf()
        &&& self.remaining_length.value() == 0
    }

    /// The whole packet on the wire.
    pub closed spec fn wire(&self) -> Seq<u8> {
        seq![self.fixed_header] + self.remaining_length.bytes()
    }

    /// The packet.
    pub fn new() -> (r: Self)
        ensures
            r.wire() == seq![0xd0u8, 0u8],
    {
        proof {
            lemma_vbi_encode(0);
            assert(vbi_encode(0) =~= seq![0u8]);
        }
        let r = Self {
            fixed_header: FixedHeader::Pingresp.as_u8(),
            remaining_length: VariableByteInteger::from_value(0),
        };
        proof {
            assert(r.wire() =~= seq![0xd0u8, 0u8]);
        }
        r
    }

    /// A builder (there is nothing to set).
    pub fn builder() -> (r: PingrespBuilder) {
        PingrespBuilder {  }
    }

    /// The packet type (PINGRESP).
    pub fn packet_type() -> (r: PacketType)
        ensures
            r == PacketType::Pingresp,
    {
        PacketType::Pingresp
    }

    /// The size of the whole packet (always 2).
    pub fn size(&self) -> (r: usize)
        ensures
            r == self.wire().len(),
            r == 2,
    {
        proof {
            use_type_invariant(self);
            lemma_vbi_encode(0);
        }
        1 + self.remaining_length.size() + self.remaining_length.to_u32() as usize
    }

    /// The whole packet as one buffer.
    pub fn to_continuous_buffer(&self) -> (r: Vec<u8>)
        ensures
            r@ == self.wire(),
            r@ == seq![0xd0u8, 0u8],
    {
        proof {
            use_type_invariant(self);
            lemma_vbi_encode(0);
            assert(vbi_encode(0) =~= seq![0u8]);
        }
        let mut buf = Vec::new();
        buf.push(self.fixed_header);
        buf.push(self.remaining_length.as_bytes()[0]);
        proof {
            assert(buf@ =~= self.wire());
        }
        buf
    }

    /// Parses the (empty) body of a PINGRESP packet; nothing is consumed and it
    /// never fails.
    pub fn parse(_data: &[u8]) -> (r: Result<(Self, usize), MqttError>)
        ensures
            r matches Ok((p, n)) && n == 0,
    {
        Ok((Self::new(), 0))
    }
}

impl Clone for Pingresp {
    fn clone(&self) -> (r: Self)
        ensures
            r.wire() == self.wire(),
    {
        proof {
            use_type_invariant(self);
            self.remaining_length.lemma_wf();
            lemma_vbi_encode(0);
            assert(vbi_encode(0) =~= seq![0u8]);
            assert(self.wire() =~= seq![0xd0u8, 0u8]);
        }
        Self::new()
    }
}

/// Builder of [`Pingresp`] packets.
#[derive(Debug)]
pub struct PingrespBuilder {}

impl PingrespBuilder {
    /// Builds the packet; never fails.
    pub fn build(self) -> (r: Result<Pingresp, MqttError>)
        ensures
            r matches Ok(p) && p.wire() == seq![0xd0u8, 0u8],
    {
        Ok(Pingresp::new())
    }
}

impl PacketKind for Pingresp {
    const IS_CONNECT: bool = false;
    const IS_CONNACK: bool = false;
    const IS_PUBLISH: bool = false;
    const IS_PUBACK: bool = false;
    const IS_PUBREC: bool = false;
    const IS_PUBREL: bool = false;
    const IS_PUBCOMP: bool = false;
    const IS_SUBSCRIBE: bool = false;
    const IS_SUBACK: bool = false;
    const IS_UNSUBSCRIBE: bool = false;
    const IS_UNSUBACK: bool = false;
    const IS_PINGREQ: bool = false;
    const IS_PINGRESP: bool = true;
    const IS_DISCONNECT: bool = false;
    const IS_AUTH: bool = false;
    const IS_V3_1_1: bool = true;
    const IS_V5_0: bool = false;
}

impl SendableVersion for Pingresp {
    open spec fn spec_version() -> Version {
        Version::V3_1_1
    }

    proof fn lemma_version_follows_kind() {
    }

    fn check(version: &Version) -> (r: bool) {
        *version == Version::V3_1_1
    }
}

} // verus!
