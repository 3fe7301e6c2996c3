//! MQTT v3.1.1 Puback packet.
use crate::mqtt::common::bytes::{copy_range, extend_bytes};
use crate::mqtt::connection::sendable_version::SendableVersion;
use crate::mqtt::connection::version::Version;
use crate::mqtt::packet::packet_id::{
    all_zero, be_bytes, be_value, lemma_be_roundtrip, lemma_be_value_roundtrip, lemma_be_value_zero, leading_bytes_zero,
    IsPacketId,
};
use crate::mqtt::packet::packet_type::{FixedHeader, PacketType};
use crate::mqtt::packet::variable_byte_integer::{vbi_encode, VariableByteInteger};
use crate::mqtt::result_code::{is_publish_ack_code, MqttError, PubackReasonCode};
use core::marker::PhantomData;
use crate::mqtt::packet::kind::PacketKind;
use vstd::prelude::*;

verus! {

/// The bytes of an optional one-byte field.
pub open spec fn optional_byte(o: Option<u8>) -> Seq<u8> {
    match o {
        Some(b) => seq![b],
        None => Seq::empty(),
    }
}

/// The Puback packet acknowledging a QoS 1 PUBLISH.
///
/// Its body is the packet identifier, optionally followed by a reason code byte.
#[derive(PartialEq, Eq, Debug)]
pub struct GenericPuback<PacketIdType: IsPacketId> {
    fixed_header: u8,
    remaining_length: VariableByteInteger,
    packet_id_buf: Vec<u8>,
    reason_code_buf: Option<u8>,
    marker: PhantomData<PacketIdType>,
}

/// The Puback packet with standard 16-bit packet identifiers.
pub type Puback = GenericPuback<u16>;

impl<PacketIdType: IsPacketId> GenericPuback<PacketIdType> {
    #[verifier::type_invariant]
    spec fn inv(&self) -> bool {
        &&& self.fixed_header == 0x40
        &&& self.remaining_length.wf()
        &&& self.remaining_length.value() == self.body().len()
        &&& self.packet_id_buf@.len() == PacketIdType::id_width()
        &&& !all_zero(self.packet_id_buf@)
        &&& self.reason_code_buf matches Some(c) ==> is_publish_ack_code(c)
    }

    /// The packet identifier.
    pub closed spec fn spec_packet_id(&self) -> nat {
        be_value(self.packet_id_buf@)
    }

    /// The reason code byte, when present.
    pub closed spec fn spec_reason_code(&self) -> Option<u8> {
        self.reason_code_buf
    }

    /// The body: packet identifier and optional reason code.
    pub closed spec fn body(&self) -> Seq<u8> {
        self.packet_id_buf@ + optional_byte(self.reason_code_buf)
    }

    /// The whole packet on the wire.
    pub closed spec fn wire(&self) -> Seq<u8> {
        seq![self.fixed_header] + self.remaining_length.bytes() + self.body()
    }

    /// Whether [`Self::parse`] accepts `data`.
    pub open spec fn parse_accepts(data: Seq<u8>) -> bool {
        let w = PacketIdType::id_width() as int;
        &&& data.len() >= w
        &&& !all_zero(data.subrange(0, w))
        &&& data.len() > w ==> is_publish_ack_code(data[w])
    }

    /// [`Self::parse`] accepts exactly a non-zero packet identifier, optionally
    /// followed by the wire value of one of the reason codes.
    pub proof fn lemma_parse_accepts(data: Seq<u8>)
        ensures
            Self::parse_accepts(data) <==> {
                let w = PacketIdType::id_width() as int;
                &&& data.len() >= w
                &&& be_value(data.subrange(0, w)) != 0
                &&& data.len() > w ==> exists|c: PubackReasonCode| #[trigger] c.spec_code() == data[w]
            },
    {
        let w = PacketIdType::id_width() as int;
        if data.len() >= w {
            lemma_be_value_zero(data.subrange(0, w));
        }
        if data.len() > w {
            let b = data[w];
            if exists|c: PubackReasonCode| #[trigger] c.spec_code() == b {
                let c = choose|c: PubackReasonCode| #[trigger] c.spec_code() == b;
                match c {
                    PubackReasonCode::Success => {},
                    PubackReasonCode::NoMatchingSubscribers => {},
                    PubackReasonCode::UnspecifiedError => {},
                    PubackReasonCode::ImplementationSpecificError => {},
                    PubackReasonCode::NotAuthorized => {},
                    PubackReasonCode::TopicNameInvalid => {},
                    PubackReasonCode::PacketIdentifierInUse => {},
                    PubackReasonCode::QuotaExceeded => {},
                    PubackReasonCode::PayloadFormatInvalid => {},
                }
            }
            if Self::parse_accepts(data) {
                if b == 0x00 {
                    assert(PubackReasonCode::Success.spec_code() == b);
                } else if b == 0x10 {
                    assert(PubackReasonCode::NoMatchingSubscribers.spec_code() == b);
                } else if b == 0x80 {
                    assert(PubackReasonCode::UnspecifiedError.spec_code() == b);
                } else if b == 0x83 {
                    assert(PubackReasonCode::ImplementationSpecificError.spec_code() == b);
                } else if b == 0x87 {
                    assert(PubackReasonCode::NotAuthorized.spec_code() == b);
                } else if b == 0x90 {
                    assert(PubackReasonCode::TopicNameInvalid.spec_code() == b);
                } else if b == 0x91 {
                    assert(PubackReasonCode::PacketIdentifierInUse.spec_code() == b);
                } else if b == 0x97 {
                    assert(PubackReasonCode::QuotaExceeded.spec_code() == b);
                } else if b == 0x99 {
                    assert(PubackReasonCode::PayloadFormatInvalid.spec_code() == b);
                }
            }
        }
    }

    /// The reason code [`Self::parse`] reads from `data`: the byte after the
    /// packet identifier, when there is one.
    pub open spec fn parsed_reason_code(data: Seq<u8>) -> Option<u8> {
        let w = PacketIdType::id_width() as int;
        if data.len() > w {
            Some(data[w])
        } else {
            None
        }
    }

    /// The number of bytes [`Self::parse`] takes from `data`.
    pub open spec fn parse_len(data: Seq<u8>) -> nat {
        let w = PacketIdType::id_width();
        if data.len() > w {
            w + 1
        } else {
            w
        }
    }

    /// A builder with nothing set.
    pub fn builder() -> (r: GenericPubackBuilder<PacketIdType>)
        ensures
            r.spec_packet_id() is None,
            r.spec_reason_code() is None,
    {
        GenericPubackBuilder { packet_id_buf: None, reason_code_buf: None, marker: PhantomData }
    }

    /// The packet type (PUBACK).
    pub fn packet_type() -> (r: PacketType)
        ensures
            r == PacketType::Puback,
    {
        PacketType::Puback
    }

    /// The packet identifier.
    pub fn packet_id(&self) -> (r: PacketIdType)
        ensures
            r.id_value() == self.spec_packet_id(),
    {
        proof {
            use_type_invariant(self);
        }
        let r = PacketIdType::from_buffer(self.packet_id_buf.as_slice());
        proof {
            assert(self.packet_id_buf@.subrange(0, PacketIdType::id_width() as int) =~= self.packet_id_buf@);
        }
        r
    }

    /// The reason code, when present.
    pub fn reason_code(&self) -> (r: Option<PubackReasonCode>)
        ensures
            r is Some <==> self.spec_reason_code() is Some,
            r matches Some(c) ==> self.spec_reason_code() == Some(c.spec_code()),
    {
        proof {
            use_type_invariant(self);
        }
        match self.reason_code_buf {
            Some(b) => PubackReasonCode::try_from_u8(b),
            None => None,
        }
    }

    /// The size of the whole packet.
    pub fn size(&self) -> (r: usize)
        ensures
            r == self.wire().len(),
    {
        proof {
            use_type_invariant(self);
            crate::mqtt::packet::variable_byte_integer::lemma_vbi_encode(self.body().len());
        }
        1 + self.remaining_length.size() + self.remaining_length.to_u32() as usize
    }

    /// The whole packet as one buffer.
    ///
    /// Parsing its body gives the packet back: [`Self::parse`] accepts the body and
    /// takes all of it.
    pub fn to_continuous_buffer(&self) -> (r: Vec<u8>)
        ensures
            r@ == self.wire(),
            r@ == seq![0x40u8] + vbi_encode(self.body().len()) + self.body(),
            self.body() == be_bytes(self.spec_packet_id(), PacketIdType::id_width())
                + optional_byte(self.spec_reason_code()),
            Self::parse_accepts(self.body()),
            Self::parse_len(self.body()) == self.body().len(),
            be_value(self.body().subrange(0, PacketIdType::id_width() as int))
                == self.spec_packet_id(),
            Self::parsed_reason_code(self.body()) == self.spec_reason_code(),
    {
        proof {
            use_type_invariant(self);
            lemma_be_value_roundtrip(self.packet_id_buf@);
            let w = PacketIdType::id_width() as int;
            assert(self.body().subrange(0, w) =~= self.packet_id_buf@);
        }
        let mut buf = Vec::new();
        buf.push(self.fixed_header);
        extend_bytes(&mut buf, self.remaining_length.as_bytes());
        extend_bytes(&mut buf, self.packet_id_buf.as_slice());
        match self.reason_code_buf {
            Some(b) => {
                buf.push(b);
            },
            None => {},
        }
        proof {
            assert(buf@ =~= self.wire());
        }
        buf
    }

    /// Parses the body of a PUBACK packet: the packet identifier and, when more
    /// bytes follow, a reason code.
    ///
    /// Fails with `MalformedPacket` when the identifier is missing or zero, or the
    /// reason code is unknown. Bytes after the reason code are left alone.
    pub fn parse(data: &[u8]) -> (r: Result<(Self, usize), MqttError>)
        ensures
            r is Ok <==> Self::parse_accepts(data@),
            r matches Ok((p, n)) ==> {
                &&& n == Self::parse_len(data@)
                &&& p.body() == data@.subrange(0, n as int)
                &&& p.spec_packet_id() == be_value(
                    data@.subrange(0, PacketIdType::id_width() as int),
                )
                &&& p.spec_reason_code() == Self::parsed_reason_code(data@)
            },
            r matches Err(e) ==> e == MqttError::MalformedPacket,
    {
        let buffer_size = PacketIdType::width();
        proof {
            PacketIdType::lemma_width();
        }
        if data.len() < buffer_size {
            return Err(MqttError::MalformedPacket);
        }
        if leading_bytes_zero(data, buffer_size) {
            return Err(MqttError::MalformedPacket);
        }
        let packet_id_buf = copy_range(data, 0, buffer_size);
        let reason_code_buf = if buffer_size < data.len() {
            let rc = data[buffer_size];
            if PubackReasonCode::try_from_u8(rc).is_none() {
                return Err(MqttError::MalformedPacket);
            }
            Some(rc)
        } else {
            None
        };
        let remaining_size = if reason_code_buf.is_some() {
            buffer_size + 1
        } else {
            buffer_size
        };
        let p = GenericPuback {
            fixed_header: FixedHeader::Puback.as_u8(),
            remaining_length: VariableByteInteger::from_value(remaining_size as u32),
            packet_id_buf,
            reason_code_buf,
            marker: PhantomData,
        };
        proof {
            assert(p.body() =~= data@.subrange(0, remaining_size as int));
        }
        Ok((p, remaining_size))
    }
}

impl<PacketIdType: IsPacketId> Clone for GenericPuback<PacketIdType> {
    fn clone(&self) -> (r: Self)
        ensures
            r.body() == self.body(),
            r.wire() == self.wire(),
    {
        proof {
            use_type_invariant(self);
        }
        let mut packet_id_buf = Vec::new();
        extend_bytes(&mut packet_id_buf, self.packet_id_buf.as_slice());
        GenericPuback {
            fixed_header: self.fixed_header,
            remaining_length: self.remaining_length.clone(),
            packet_id_buf,
            reason_code_buf: self.reason_code_buf,
            marker: PhantomData,
        }
    }
}

/// Builder of [`GenericPuback`] packets.
#[derive(Debug)]
pub struct GenericPubackBuilder<PacketIdType: IsPacketId> {
    packet_id_buf: Option<Vec<u8>>,
    reason_code_buf: Option<Option<u8>>,
    marker: PhantomData<PacketIdType>,
}

impl<PacketIdType: IsPacketId> GenericPubackBuilder<PacketIdType> {
    #[verifier::type_invariant]
    spec fn inv(&self) -> bool {
        &&& self.packet_id_buf matches Some(b) ==> b@.len() == PacketIdType::id_width()
        &&& self.reason_code_buf matches Some(Some(c)) ==> is_publish_ack_code(c)
    }

    /// The packet identifier, once set.
    pub closed spec fn spec_packet_id(&self) -> Option<nat> {
        match self.packet_id_buf {
            Some(b) => Some(be_value(b@)),
            None => None,
        }
    }

    /// The reason code byte, once set.
    pub closed spec fn spec_reason_code(&self) -> Option<u8> {
        match self.reason_code_buf {
            Some(Some(c)) => Some(c),
            _ => None,
        }
    }

    /// Sets the packet identifier.
    pub fn packet_id(self, id: PacketIdType) -> (r: Self)
        ensures
            r.spec_packet_id() == Some(id.id_value()),
            r.spec_reason_code() == self.spec_reason_code(),
    {
        proof {
            use_type_invariant(&self);
            PacketIdType::lemma_id_facts(id, id);
            lemma_be_roundtrip(id.id_value(), PacketIdType::id_width());
        }
        GenericPubackBuilder {
            packet_id_buf: Some(id.to_buffer()),
            reason_code_buf: self.reason_code_buf,
            marker: PhantomData,
        }
    }

    /// Sets the reason code.
    pub fn reason_code(self, rc: PubackReasonCode) -> (r: Self)
        ensures
            r.spec_reason_code() == Some(rc.spec_code()),
            r.spec_packet_id() == self.spec_packet_id(),
    {
        proof {
            use_type_invariant(&self);
        }
        GenericPubackBuilder {
            packet_id_buf: self.packet_id_buf,
            reason_code_buf: Some(Some(rc.to_u8())),
            marker: PhantomData,
        }
    }

    /// The packet identifier must be set and not zero.
    fn validate(&self) -> (r: Result<(), MqttError>)
        ensures
            r is Ok <==> (self.spec_packet_id() matches Some(id) && id != 0),
            r matches Err(e) ==> e == MqttError::MalformedPacket,
    {
        match &self.packet_id_buf {
            None => Err(MqttError::MalformedPacket),
            Some(buf) => {
                let zero = leading_bytes_zero(buf.as_slice(), buf.len());
                proof {
                    assert(buf@.subrange(0, buf@.len() as int) =~= buf@);
                    lemma_be_value_zero(buf@);
                }
                if zero {
                    Err(MqttError::MalformedPacket)
                } else {
                    Ok(())
                }
            },
        }
    }

    /// Builds the packet; fails with `MalformedPacket` unless a non-zero packet
    /// identifier was set.
    pub fn build(self) -> (r: Result<GenericPuback<PacketIdType>, MqttError>)
        ensures
            r is Ok <==> (self.spec_packet_id() matches Some(id) && id != 0),
            r matches Ok(p) ==> {
                &&& self.spec_packet_id() == Some(p.spec_packet_id())
                &&& p.spec_reason_code() == self.spec_reason_code()
            },
            r matches Err(e) ==> e == MqttError::MalformedPacket,
    {
        proof {
            use_type_invariant(&self);
        }
        self.validate()?;
        let packet_id_buf = match self.packet_id_buf {
            Some(b) => b,
            None => Vec::new(),
        };
        let reason_code_buf = match self.reason_code_buf {
            Some(Some(c)) => Some(c),
            _ => None,
        };
        proof {
            PacketIdType::lemma_width();
            lemma_be_value_zero(packet_id_buf@);
        }
        let mut remaining = PacketIdType::width();
        if reason_code_buf.is_some() {
            remaining = remaining + 1;
        }
        let p = GenericPuback {
            fixed_header: FixedHeader::Puback.as_u8(),
            remaining_length: VariableByteInteger::from_value(remaining as u32),
            packet_id_buf,
            reason_code_buf,
            marker: PhantomData,
        };
        Ok(p)
    }
}

impl<PacketIdType: IsPacketId> PacketKind for GenericPuback<PacketIdType> {
    const IS_CONNECT: bool = false;
    const IS_CONNACK: bool = false;
    const IS_PUBLISH: bool = false;
    const IS_PUBACK: bool = true;
    const IS_PUBREC: bool = false;
    const IS_PUBREL: bool = false;
    const IS_PUBCOMP: bool = false;
    const IS_SUBSCRIBE: bool = false;
    const IS_SUBACK: bool = false;
    const IS_UNSUBSCRIBE: bool = false;
    const IS_UNSUBACK: bool = false;
    const IS_PINGREQ: bool = false;
    const IS_PINGRESP: bool = false;
    const IS_DISCONNECT: bool = false;
    const IS_AUTH: bool = false;
    const IS_V3_1_1: bool = true;
    const IS_V5_0: bool = false;
}

impl<PacketIdType: IsPacketId> SendableVersion for GenericPuback<PacketIdType> {
    open spec fn spec_version() -> Version {
        Version::V3_1_1
    }

    proof fn lemma_version_follows_kind() {
    }

    fn check(version: &Version) -> (r: bool) {
        *version == Version::V3_1_1
    }
}

} // verus!
