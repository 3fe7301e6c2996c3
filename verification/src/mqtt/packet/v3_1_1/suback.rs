//! MQTT v3.1.1 SUBACK packet.
use crate::mqtt::common::bytes::extend_bytes;
use crate::mqtt::connection::sendable_version::SendableVersion;
use crate::mqtt::connection::version::Version;
use crate::mqtt::packet::packet_id::{
    all_zero, be_bytes, be_value, lemma_be_roundtrip, lemma_be_value_roundtrip,
    lemma_be_value_zero, leading_bytes_zero, IsPacketId,
};
use crate::mqtt::packet::packet_type::{FixedHeader, PacketType};
use crate::mqtt::packet::variable_byte_integer::{vbi_encode, VariableByteInteger, VBI_MAX};
use crate::mqtt::result_code::{MqttError, SubackReturnCode};
use core::marker::PhantomData;
use crate::mqtt::packet::kind::PacketKind;
use vstd::prelude::*;

verus! {

/// Every byte of `s` is a SUBACK return code.
pub open spec fn all_suback_codes(s: Seq<u8>) -> bool {
    forall|i: int| 0 <= i < s.len() ==> SubackReturnCode::is_code(#[trigger] s[i])
}

/// The SUBACK packet answering a SUBSCRIBE: the packet identifier followed by one
/// return code per subscription.
#[derive(PartialEq, Eq, Debug)]
pub struct GenericSuback<PacketIdType: IsPacketId> {
    fixed_header: u8,
    remaining_length: VariableByteInteger,
    packet_id_buf: Vec<u8>,
    return_codes_buf: Vec<u8>,
    marker: PhantomData<PacketIdType>,
}

/// The SUBACK packet with standard 16-bit packet identifiers.
pub type Suback = GenericSuback<u16>;

impl<PacketIdType: IsPacketId> GenericSuback<PacketIdType> {
    #[verifier::type_invariant]
    spec fn inv(&self) -> bool {
        &&& self.fixed_header == 0x90
        &&& self.remaining_length.wf()
        &&& self.remaining_length.value() == self.body().len()
        &&& self.packet_id_buf@.len() == PacketIdType::id_width()
        &&& !all_zero(self.packet_id_buf@)
        &&& self.return_codes_buf@.len() > 0
        &&& all_suback_codes(self.return_codes_buf@)
    }

    /// The packet identifier.
    pub closed spec fn spec_packet_id(&self) -> nat {
        be_value(self.packet_id_buf@)
    }

    /// The return code bytes.
    pub closed spec fn spec_return_codes(&self) -> Seq<u8> {
        self.return_codes_buf@
    }

    /// The body: packet identifier and return codes.
    pub closed spec fn body(&self) -> Seq<u8> {
        self.packet_id_buf@ + self.return_codes_buf@
    }

    /// The whole packet on the wire.
    pub closed spec fn wire(&self) -> Seq<u8> {
        seq![self.fixed_header] + self.remaining_length.bytes() + self.body()
    }

    /// Whether [`Self::parse`] accepts `data`.
    pub open spec fn parse_accepts(data: Seq<u8>) -> bool {
        let w = PacketIdType::id_width() as int;
        &&& data.len() > w
        &&& !all_zero(data.subrange(0, w))
        &&& all_suback_codes(data.subrange(w, data.len() as int))
    }

    /// [`Self::parse`] accepts exactly a non-zero packet identifier followed by one
    /// or more bytes, each the wire value of a SUBACK return code.
    pub proof fn lemma_parse_accepts(data: Seq<u8>)
        ensures
            Self::parse_accepts(data) <==> {
                let w = PacketIdType::id_width() as int;
                &&& data.len() > w
                &&& be_value(data.subrange(0, w)) != 0
                &&& forall|i: int| w <= i < data.len() ==> SubackReturnCode::is_code(#[trigger] data[i])
            },
    {
        let w = PacketIdType::id_width() as int;
        if data.len() >= w {
            lemma_be_value_zero(data.subrange(0, w));
        }
        let codes = data.subrange(w, data.len() as int);
        if data.len() > w {
            if all_suback_codes(codes) {
                assert forall|i: int| w <= i < data.len() implies SubackReturnCode::is_code(
                    #[trigger] data[i],
                ) by {
                    assert(codes[i - w] == data[i]);
                }
            }
            if forall|i: int| w <= i < data.len() ==> SubackReturnCode::is_code(#[trigger] data[i]) {
                assert forall|j: int| 0 <= j < codes.len() implies SubackReturnCode::is_code(
                    #[trigger] codes[j],
                ) by {
                    assert(codes[j] == data[j + w]);
                }
            }
        }
    }

    /// A builder with nothing set.
    pub fn builder() -> (r: GenericSubackBuilder<PacketIdType>)
        ensures
            r.spec_packet_id() is None,
            r.spec_return_codes() is None,
    {
        GenericSubackBuilder { packet_id_buf: None, return_codes_buf: None, marker: PhantomData }
    }

    /// The packet type (SUBACK).
    pub fn packet_type() -> (r: PacketType)
        ensures
            r == PacketType::Suback,
    {
        PacketType::Suback
    }

    /// The packet identifier.
    pub fn packet_id(&self) -> (r: PacketIdType)
        ensures
            r.id_value() == self.spec_packet_id(),
    {
        proof {
            use_type_invariant(self);
        }
        let r = PacketIdType::from_buffer(self.packet_id_buf.as_slice());
        proof {
            assert(self.packet_id_buf@.subrange(0, PacketIdType::id_width() as int)
                =~= self.packet_id_buf@);
        }
        r
    }

    /// The return codes, one per subscription.
    pub fn return_codes(&self) -> (r: Vec<SubackReturnCode>)
        ensures
            r@.len() == self.spec_return_codes().len(),
            forall|i: int| 0 <= i < r@.len() ==> (#[trigger] r@[i]).spec_code() == self.spec_return_codes()[i],
    {
        proof {
            use_type_invariant(self);
        }
        let mut r: Vec<SubackReturnCode> = Vec::new();
        let mut i: usize = 0;
        while i < self.return_codes_buf.len()
            invariant
                0 <= i <= self.return_codes_buf@.len(),
                all_suback_codes(self.return_codes_buf@),
                r@.len() == i,
                forall|j: int| 0 <= j < i ==> (#[trigger] r@[j]).spec_code() == self.return_codes_buf@[j],
            decreases self.return_codes_buf@.len() - i,
        {
            let b = self.return_codes_buf[i];
            let code = match SubackReturnCode::try_from_u8(b) {
                Some(c) => c,
                None => SubackReturnCode::Failure,
            };
            r.push(code);
            i = i + 1;
        }
        r
    }

    /// Parses the body of a SUBACK packet: the packet identifier and the return
    /// codes, which take all the remaining bytes.
    ///
    /// Fails with `MalformedPacket` when the identifier is missing or zero or a
    /// return code is unknown, and with `ProtocolError` when there is no return code.
    pub fn parse(data: &[u8]) -> (r: Result<(Self, usize), MqttError>)
        requires
            Self::parse_accepts(data@) ==> data@.len() <= VBI_MAX,
        ensures
            r is Ok <==> Self::parse_accepts(data@),
            r matches Ok((p, n)) ==> {
                &&& n == data@.len()
                &&& p.body() == data@
                &&& p.spec_packet_id() == be_value(
                    data@.subrange(0, PacketIdType::id_width() as int),
                )
                &&& p.spec_return_codes() == data@.subrange(
                    PacketIdType::id_width() as int,
                    data@.len() as int,
                )
            },
            r matches Err(e) ==> {
                if data@.len() < PacketIdType::id_width() || all_zero(
                    data@.subrange(0, PacketIdType::id_width() as int),
                ) || !all_suback_codes(
                    data@.subrange(PacketIdType::id_width() as int, data@.len() as int),
                ) {
                    e == MqttError::MalformedPacket
                } else {
                    e == MqttError::ProtocolError
                }
            },
    {
        let buffer_size = PacketIdType::width();
        proof {
            PacketIdType::lemma_width();
        }
        if data.len() < buffer_size {
            return Err(MqttError::MalformedPacket);
        }
        if leading_bytes_zero(data, buffer_size) {
            return Err(MqttError::MalformedPacket);
        }
        let packet_id = PacketIdType::from_buffer(data);
        let packet_id_buf = packet_id.to_buffer();
        proof {
            lemma_be_value_roundtrip(data@.subrange(0, buffer_size as int));
        }
        let mut return_codes_buf: Vec<u8> = Vec::new();
        let mut cursor: usize = buffer_size;
        while cursor < data.len()
            invariant
                buffer_size == PacketIdType::id_width(),
                buffer_size <= cursor <= data@.len(),
                Self::parse_accepts(data@) ==> data@.len() <= VBI_MAX,
                return_codes_buf@ == data@.subrange(buffer_size as int, cursor as int),
                all_suback_codes(return_codes_buf@),
            decreases data@.len() - cursor,
        {
            if SubackReturnCode::try_from_u8(data[cursor]).is_none() {
                proof {
                    assert(data@.subrange(buffer_size as int, data@.len() as int)[cursor - buffer_size]
                        == data@[cursor as int]);
                }
                return Err(MqttError::MalformedPacket);
            }
            return_codes_buf.push(data[cursor]);
            cursor = cursor + 1;
            proof {
                assert(return_codes_buf@ =~= data@.subrange(buffer_size as int, cursor as int));
            }
        }
        if return_codes_buf.len() == 0 {
            return Err(MqttError::ProtocolError);
        }
        proof {
            assert(data@.subrange(buffer_size as int, data@.len() as int) =~= return_codes_buf@);
        }
        let remaining_size = buffer_size + return_codes_buf.len();
        let p = GenericSuback {
            fixed_header: FixedHeader::Suback.as_u8(),
            remaining_length: VariableByteInteger::from_value(remaining_size as u32),
            packet_id_buf,
            return_codes_buf,
            marker: PhantomData,
        };
        proof {
            assert(p.body() =~= data@);
        }
        Ok((p, cursor))
    }

    /// The size of the whole packet.
    pub fn size(&self) -> (r: usize)
        ensures
            r == self.wire().len(),
    {
        proof {
            use_type_invariant(self);
            self.remaining_length.lemma_wf();
        }
        1 + self.remaining_length.size() + self.remaining_length.to_u32() as usize
    }

    /// The whole packet as one buffer.
    ///
    /// Parsing its body gives the packet back: [`Self::parse`] accepts the body and
    /// takes all of it.
    pub fn to_continuous_buffer(&self) -> (r: Vec<u8>)
        ensures
            r@ == self.wire(),
            r@ == seq![0x90u8] + vbi_encode(self.body().len()) + self.body(),
            self.body() == be_bytes(self.spec_packet_id(), PacketIdType::id_width())
                + self.spec_return_codes(),
            Self::parse_accepts(self.body()),
            be_value(self.body().subrange(0, PacketIdType::id_width() as int))
                == self.spec_packet_id(),
            self.body().subrange(PacketIdType::id_width() as int, self.body().len() as int)
                == self.spec_return_codes(),
    {
        proof {
            use_type_invariant(self);
            self.remaining_length.lemma_wf();
            lemma_be_value_roundtrip(self.packet_id_buf@);
            let w = PacketIdType::id_width() as int;
            assert(self.body().subrange(w, self.body().len() as int) =~= self.return_codes_buf@);
            assert(self.body().subrange(0, w) =~= self.packet_id_buf@);
        }
        let mut buf = Vec::new();
        buf.push(self.fixed_header);
        extend_bytes(&mut buf, self.remaining_length.as_bytes());
        extend_bytes(&mut buf, self.packet_id_buf.as_slice());
        extend_bytes(&mut buf, self.return_codes_buf.as_slice());
        proof {
            assert(buf@ =~= self.wire());
        }
        buf
    }
}

impl<PacketIdType: IsPacketId> Clone for GenericSuback<PacketIdType> {
    fn clone(&self) -> (r: Self)
        ensures
            r.body() == self.body(),
            r.wire() == self.wire(),
    {
        proof {
            use_type_invariant(self);
        }
        let mut packet_id_buf = Vec::new();
        extend_bytes(&mut packet_id_buf, self.packet_id_buf.as_slice());
        let mut return_codes_buf = Vec::new();
        extend_bytes(&mut return_codes_buf, self.return_codes_buf.as_slice());
        GenericSuback {
            fixed_header: self.fixed_header,
            remaining_length: self.remaining_length.clone(),
            packet_id_buf,
            return_codes_buf,
            marker: PhantomData,
        }
    }
}

/// Builder of [`GenericSuback`] packets.
#[derive(Debug)]
pub struct GenericSubackBuilder<PacketIdType: IsPacketId> {
    packet_id_buf: Option<Vec<u8>>,
    return_codes_buf: Option<Vec<u8>>,
    marker: PhantomData<PacketIdType>,
}

impl<PacketIdType: IsPacketId> GenericSubackBuilder<PacketIdType> {
    #[verifier::type_invariant]
    spec fn inv(&self) -> bool {
        &&& self.packet_id_buf matches Some(b) ==> b@.len() == PacketIdType::id_width()
        &&& self.return_codes_buf matches Some(c) ==> all_suback_codes(c@)
    }

    /// The packet identifier, once set.
    pub closed spec fn spec_packet_id(&self) -> Option<nat> {
        match self.packet_id_buf {
            Some(b) => Some(be_value(b@)),
            None => None,
        }
    }

    /// The return code bytes, once set.
    pub closed spec fn spec_return_codes(&self) -> Option<Seq<u8>> {
        match self.return_codes_buf {
            Some(c) => Some(c@),
            None => None,
        }
    }

    /// Sets the packet identifier.
    pub fn packet_id(self, id: PacketIdType) -> (r: Self)
        ensures
            r.spec_packet_id() == Some(id.id_value()),
            r.spec_return_codes() == self.spec_return_codes(),
    {
        proof {
            use_type_invariant(&self);
            PacketIdType::lemma_id_facts(id, id);
            lemma_be_roundtrip(id.id_value(), PacketIdType::id_width());
        }
        GenericSubackBuilder {
            packet_id_buf: Some(id.to_buffer()),
            return_codes_buf: self.return_codes_buf,
            marker: PhantomData,
        }
    }

    /// Sets the return codes.
    pub fn return_codes(self, codes: Vec<SubackReturnCode>) -> (r: Self)
        ensures
            r.spec_return_codes() matches Some(c) && c.len() == codes@.len() && forall|i: int|
                0 <= i < codes@.len() ==> c[i] == (#[trigger] codes@[i]).spec_code(),
            r.spec_packet_id() == self.spec_packet_id(),
    {
        proof {
            use_type_invariant(&self);
        }
        let mut buf: Vec<u8> = Vec::new();
        let mut i: usize = 0;
        while i < codes.len()
            invariant
                0 <= i <= codes@.len(),
                buf@.len() == i,
                forall|j: int| 0 <= j < i ==> buf@[j] == (#[trigger] codes@[j]).spec_code(),
                all_suback_codes(buf@),
            decreases codes@.len() - i,
        {
            buf.push(codes[i].to_u8());
            i = i + 1;
        }
        GenericSubackBuilder {
            packet_id_buf: self.packet_id_buf,
            return_codes_buf: Some(buf),
            marker: PhantomData,
        }
    }

    /// The packet identifier must be set and not zero (else `MalformedPacket`), and
    /// there must be at least one return code (else `ProtocolError`).
    fn validate(&self) -> (r: Result<(), MqttError>)
        ensures
            r is Ok <==> ((self.spec_packet_id() matches Some(id) && id != 0)
                && (self.spec_return_codes() matches Some(c) && c.len() > 0)),
            r matches Err(e) ==> if self.spec_packet_id() matches Some(id) && id != 0 {
                e == MqttError::ProtocolError
            } else {
                e == MqttError::MalformedPacket
            },
    {
        match &self.packet_id_buf {
            None => {
                return Err(MqttError::MalformedPacket);
            },
            Some(buf) => {
                let zero = leading_bytes_zero(buf.as_slice(), buf.len());
                proof {
                    assert(buf@.subrange(0, buf@.len() as int) =~= buf@);
                    lemma_be_value_zero(buf@);
                }
                if zero {
                    return Err(MqttError::MalformedPacket);
                }
            },
        }
        match &self.return_codes_buf {
            None => Err(MqttError::ProtocolError),
            Some(c) => {
                if c.len() == 0 {
                    Err(MqttError::ProtocolError)
                } else {
                    Ok(())
                }
            },
        }
    }

    /// Builds the packet; fails as [`Self::validate`] says.
    pub fn build(self) -> (r: Result<GenericSuback<PacketIdType>, MqttError>)
        requires
            self.spec_packet_id() matches Some(id) && id != 0 ==> (self.spec_return_codes() matches Some(
                c,
            ) ==> c.len() + PacketIdType::id_width() <= VBI_MAX),
        ensures
            r is Ok <==> ((self.spec_packet_id() matches Some(id) && id != 0)
                && (self.spec_return_codes() matches Some(c) && c.len() > 0)),
            r matches Ok(p) ==> {
                &&& self.spec_packet_id() == Some(p.spec_packet_id())
                &&& self.spec_return_codes() == Some(p.spec_return_codes())
            },
            r matches Err(e) ==> if self.spec_packet_id() matches Some(id) && id != 0 {
                e == MqttError::ProtocolError
            } else {
                e == MqttError::MalformedPacket
            },
    {
        proof {
            use_type_invariant(&self);
            PacketIdType::lemma_width();
        }
        self.validate()?;
        let packet_id_buf = match self.packet_id_buf {
            Some(b) => b,
            None => Vec::new(),
        };
        let return_codes_buf = match self.return_codes_buf {
            Some(c) => c,
            None => Vec::new(),
        };
        proof {
            lemma_be_value_zero(packet_id_buf@);
        }
        let remaining = PacketIdType::width() + return_codes_buf.len();
        Ok(GenericSuback {
            fixed_header: FixedHeader::Suback.as_u8(),
            remaining_length: VariableByteInteger::from_value(remaining as u32),
            packet_id_buf,
            return_codes_buf,
            marker: PhantomData,
        })
    }
}

impl<PacketIdType: IsPacketId> PacketKind for GenericSuback<PacketIdType> {
    const IS_CONNECT: bool = false;
    const IS_CONNACK: bool = false;
    const IS_PUBLISH: bool = false;
    const IS_PUBACK: bool = false;
    const IS_PUBREC: bool = false;
    const IS_PUBREL: bool = false;
    const IS_PUBCOMP: bool = false;
    const IS_SUBSCRIBE: bool = false;
    const IS_SUBACK: bool = true;
    const IS_UNSUBSCRIBE: bool = false;
    const IS_UNSUBACK: bool = false;
    const IS_PINGREQ: bool = false;
    const IS_PINGRESP: bool = false;
    const IS_DISCONNECT: bool = false;
    const IS_AUTH: bool = false;
    const IS_V3_1_1: bool = true;
    const IS_V5_0: bool = false;
}

impl<PacketIdType: IsPacketId> SendableVersion for GenericSuback<PacketIdType> {
    open spec fn spec_version() -> Version {
        Version::V3_1_1
    }

    proof fn lemma_version_follows_kind() {
    }

    fn check(version: &Version) -> (r: bool) {
        *version == Version::V3_1_1
    }
}

} // verus!
