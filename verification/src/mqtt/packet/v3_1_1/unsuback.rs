//! MQTT v3.1.1 UNSUBACK packet.
use crate::mqtt::common::bytes::extend_bytes;
use crate::mqtt::connection::sendable_version::SendableVersion;
use crate::mqtt::connection::version::Version;
use crate::mqtt::packet::packet_id::{
    all_zero, be_bytes, be_value, lemma_be_roundtrip, lemma_be_value_roundtrip,
    lemma_be_value_zero, leading_bytes_zero, IsPacketId,
};
use crate::mqtt::packet::packet_type::{FixedHeader, PacketType};
use crate::mqtt::packet::variable_byte_integer::{vbi_encode, VariableByteInteger};
use crate::mqtt::result_code::MqttError;
use core::marker::PhantomData;
use crate::mqtt::packet::kind::PacketKind;
use vstd::prelude::*;

verus! {

/// The UNSUBACK packet acknowledging an UNSUBSCRIBE. Its body is the packet
/// identifier.
#[derive(PartialEq, Eq, Debug)]
pub struct GenericUnsuback<PacketIdType: IsPacketId> {
    fixed_header: u8,
    remaining_length: VariableByteInteger,
    packet_id_buf: Vec<u8>,
    marker: PhantomData<PacketIdType>,
}

/// The UNSUBACK packet with standard 16-bit packet identifiers.
pub type Unsuback = GenericUnsuback<u16>;

impl<PacketIdType: IsPacketId> GenericUnsuback<PacketIdType> {
    #[verifier::type_invariant]
    spec fn inv(&self) -> bool {
        &&& self.fixed_header == 0xb0
        &&& self.remaining_length.wf()
        &&& self.remaining_length.value() == PacketIdType::id_width()
        &&& self.packet_id_buf@.len() == PacketIdType::id_width()
        &&& !all_zero(self.packet_id_buf@)
    }

    /// The packet identifier.
    pub closed spec fn spec_packet_id(&self) -> nat {
        be_value(self.packet_id_buf@)
    }

    /// The body: the packet identifier.
    pub closed spec fn body(&self) -> Seq<u8> {
        self.packet_id_buf@
    }

    /// The remaining length the fixed header announces.
    pub closed spec fn announced_length(&self) -> nat {
        self.remaining_length.value()
    }

    /// The whole packet on the wire.
    pub closed spec fn wire(&self) -> Seq<u8> {
        seq![self.fixed_header] + self.remaining_length.bytes() + self.body()
    }

    /// A builder with nothing set.
    pub fn builder() -> (r: GenericUnsubackBuilder<PacketIdType>)
        ensures
            r.spec_packet_id() is None,
    {
        GenericUnsubackBuilder { packet_id_buf: None, marker: PhantomData }
    }

    /// The packet type (UNSUBACK).
    pub fn packet_type() -> (r: PacketType)
        ensures
            r == PacketType::Unsuback,
    {
        PacketType::Unsuback
    }

    /// The packet identifier.
    pub fn packet_id(&self) -> (r: PacketIdType)
        ensures
            r.id_value() == self.spec_packet_id(),
    {
        proof {
            use_type_invariant(self);
        }
        let r = PacketIdType::from_buffer(self.packet_id_buf.as_slice());
        proof {
            assert(self.packet_id_buf@.subrange(0, PacketIdType::id_width() as int)
                =~= self.packet_id_buf@);
        }
        r
    }

    /// The size of the whole packet: one byte of type, the remaining-length bytes
    /// and the packet identifier.
    pub fn size(&self) -> (r: usize)
        ensures
            r == self.wire().len(),
            r == 1 + vbi_encode(PacketIdType::id_width()).len() + PacketIdType::id_width(),
    {
        proof {
            use_type_invariant(self);
            self.remaining_length.lemma_wf();
        }
        1 + self.remaining_length.size() + self.remaining_length.to_u32() as usize
    }

    /// The whole packet as one buffer: the fixed header, the remaining length (the
    /// width of a packet identifier) and the identifier, big-endian.
    ///
    /// Parsing its body gives the packet back: [`Self::parse`] accepts the body,
    /// takes all of it and reads the same identifier.
    pub fn to_continuous_buffer(&self) -> (r: Vec<u8>)
        ensures
            r@ == self.wire(),
            self.body() == be_bytes(self.spec_packet_id(), PacketIdType::id_width()),
            r@ == seq![0xb0u8] + vbi_encode(PacketIdType::id_width()) + self.body(),
            self.announced_length() == PacketIdType::id_width(),
            Self::parse_accepts(self.body()),
            be_value(self.body()) == self.spec_packet_id(),
    {
        proof {
            use_type_invariant(self);
            self.remaining_length.lemma_wf();
            lemma_be_value_roundtrip(self.packet_id_buf@);
            let w = PacketIdType::id_width() as int;
            assert(self.body().subrange(0, w) =~= self.body());
        }
        let mut buf = Vec::new();
        buf.push(self.fixed_header);
        extend_bytes(&mut buf, self.remaining_length.as_bytes());
        extend_bytes(&mut buf, self.packet_id_buf.as_slice());
        proof {
            assert(buf@ =~= self.wire());
        }
        buf
    }

    /// Whether [`Self::parse`] accepts `data`: a packet identifier that is not zero.
    pub open spec fn parse_accepts(data: Seq<u8>) -> bool {
        let w = PacketIdType::id_width() as int;
        &&& data.len() >= w
        &&& !all_zero(data.subrange(0, w))
    }

    /// [`Self::parse`] accepts exactly a non-zero packet identifier.
    pub proof fn lemma_parse_accepts(data: Seq<u8>)
        ensures
            Self::parse_accepts(data) <==> (data.len() >= PacketIdType::id_width() && be_value(
                data.subrange(0, PacketIdType::id_width() as int),
            ) != 0),
    {
        if data.len() >= PacketIdType::id_width() {
            lemma_be_value_zero(data.subrange(0, PacketIdType::id_width() as int));
        }
    }

    /// Parses the body of an UNSUBACK packet: the packet identifier.
    ///
    /// Fails with `MalformedPacket` when the identifier is missing or zero. Further
    /// bytes are left alone.
    pub fn parse(data: &[u8]) -> (r: Result<(Self, usize), MqttError>)
        ensures
            r is Ok <==> Self::parse_accepts(data@),
            r matches Ok((p, n)) ==> {
                &&& n == PacketIdType::id_width()
                &&& p.body() == data@.subrange(0, n as int)
                &&& p.spec_packet_id() == be_value(data@.subrange(0, n as int))
                &&& p.announced_length() == n
            },
            r matches Err(e) ==> e == MqttError::MalformedPacket,
    {
        let buffer_size = PacketIdType::width();
        proof {
            PacketIdType::lemma_width();
        }
        if data.len() < buffer_size {
            return Err(MqttError::MalformedPacket);
        }
        if leading_bytes_zero(data, buffer_size) {
            return Err(MqttError::MalformedPacket);
        }
        let packet_id = PacketIdType::from_buffer(data);
        let packet_id_buf = packet_id.to_buffer();
        proof {
            lemma_be_value_roundtrip(data@.subrange(0, buffer_size as int));
        }
        let p = GenericUnsuback {
            fixed_header: FixedHeader::Unsuback.as_u8(),
            remaining_length: VariableByteInteger::from_value(buffer_size as u32),
            packet_id_buf,
            marker: PhantomData,
        };
        Ok((p, buffer_size))
    }
}

impl<PacketIdType: IsPacketId> Clone for GenericUnsuback<PacketIdType> {
    fn clone(&self) -> (r: Self)
        ensures
            r.body() == self.body(),
            r.wire() == self.wire(),
    {
        proof {
            use_type_invariant(self);
        }
        let mut packet_id_buf = Vec::new();
        extend_bytes(&mut packet_id_buf, self.packet_id_buf.as_slice());
        GenericUnsuback {
            fixed_header: self.fixed_header,
            remaining_length: self.remaining_length.clone(),
            packet_id_buf,
            marker: PhantomData,
        }
    }
}

/// Builder of [`GenericUnsuback`] packets.
#[derive(Debug)]
pub struct GenericUnsubackBuilder<PacketIdType: IsPacketId> {
    packet_id_buf: Option<Vec<u8>>,
    marker: PhantomData<PacketIdType>,
}

impl<PacketIdType: IsPacketId> GenericUnsubackBuilder<PacketIdType> {
    #[verifier::type_invariant]
    spec fn inv(&self) -> bool {
        self.packet_id_buf matches Some(b) ==> b@.len() == PacketIdType::id_width()
    }

    /// The packet identifier, once set.
    pub closed spec fn spec_packet_id(&self) -> Option<nat> {
        match self.packet_id_buf {
            Some(b) => Some(be_value(b@)),
            None => None,
        }
    }

    /// Sets the packet identifier.
    pub fn packet_id(self, id: PacketIdType) -> (r: Self)
        ensures
            r.spec_packet_id() == Some(id.id_value()),
    {
        proof {
            PacketIdType::lemma_id_facts(id, id);
            lemma_be_roundtrip(id.id_value(), PacketIdType::id_width());
        }
        GenericUnsubackBuilder { packet_id_buf: Some(id.to_buffer()), marker: PhantomData }
    }

    /// The packet identifier must be set and not zero.
    fn validate(&self) -> (r: Result<(), MqttError>)
        ensures
            r is Ok <==> (self.spec_packet_id() matches Some(id) && id != 0),
            r matches Err(e) ==> e == MqttError::MalformedPacket,
    {
        match &self.packet_id_buf {
            None => Err(MqttError::MalformedPacket),
            Some(buf) => {
                let zero = leading_bytes_zero(buf.as_slice(), buf.len());
                proof {
                    assert(buf@.subrange(0, buf@.len() as int) =~= buf@);
                    lemma_be_value_zero(buf@);
                }
                if zero {
                    Err(MqttError::MalformedPacket)
                } else {
                    Ok(())
                }
            },
        }
    }

    /// Builds the packet; fails with `MalformedPacket` unless a non-zero packet
    /// identifier was set. The remaining length is the width of the identifier.
    pub fn build(self) -> (r: Result<GenericUnsuback<PacketIdType>, MqttError>)
        ensures
            r is Ok <==> (self.spec_packet_id() matches Some(id) && id != 0),
            r matches Ok(p) ==> {
                &&& self.spec_packet_id() == Some(p.spec_packet_id())
                &&& p.announced_length() == PacketIdType::id_width()
            },
            r matches Err(e) ==> e == MqttError::MalformedPacket,
    {
        proof {
            use_type_invariant(&self);
            PacketIdType::lemma_width();
        }
        self.validate()?;
        let packet_id_buf = match self.packet_id_buf {
            Some(b) => b,
            None => Vec::new(),
        };
        proof {
            lemma_be_value_zero(packet_id_buf@);
        }
        Ok(GenericUnsuback {
            fixed_header: FixedHeader::Unsuback.as_u8(),
            remaining_length: VariableByteInteger::from_value(PacketIdType::width() as u32),
            packet_id_buf,
            marker: PhantomData,
        })
    }
}

impl<PacketIdType: IsPacketId> PacketKind for GenericUnsuback<PacketIdType> {
    const IS_CONNECT: bool = false;
    const IS_CONNACK: bool = false;
    const IS_PUBLISH: bool = false;
    const IS_PUBACK: bool = false;
    const IS_PUBREC: bool = false;
    const IS_PUBREL: bool = false;
    const IS_PUBCOMP: bool = false;
    const IS_SUBSCRIBE: bool = false;
    const IS_SUBACK: bool = false;
    const IS_UNSUBSCRIBE: bool = false;
    const IS_UNSUBACK: bool = true;
    const IS_PINGREQ: bool = false;
    const IS_PINGRESP: bool = false;
    const IS_DISCONNECT: bool = false;
    const IS_AUTH: bool = false;
    const IS_V3_1_1: bool = true;
    const IS_V5_0: bool = false;
}

impl<PacketIdType: IsPacketId> SendableVersion for GenericUnsuback<PacketIdType> {
    open spec fn spec_version() -> Version {
        Version::V3_1_1
    }

    proof fn lemma_version_follows_kind() {
    }

    fn check(version: &Version) -> (r: bool) {
        *version == Version::V3_1_1
    }
}

} // verus!
