//! MQTT v3.1.1 CONNACK packet.
use crate::mqtt::common::bytes::extend_bytes;
use crate::mqtt::connection::sendable_version::SendableVersion;
use crate::mqtt::connection::version::Version;
use crate::mqtt::packet::packet_type::{FixedHeader, PacketType};
use crate::mqtt::packet::variable_byte_integer::{lemma_vbi_encode, vbi_encode, VariableByteInteger};
use crate::mqtt::result_code::{ConnectReturnCode, MqttError};
use crate::mqtt::packet::kind::PacketKind;
use vstd::prelude::*;

verus! {

/// The CONNACK packet: the server's answer to CONNECT.
///
/// Its body is the acknowledgement flags byte (bit 0: session present) and the
/// return code.
#[derive(PartialEq, Eq, Debug)]
pub struct Connack {
    fixed_header: u8,
    remaining_length: VariableByteInteger,
    ack_flags: u8,
    return_code_buf: u8,
}

impl Connack {
    #[verifier::type_invariant]
    spec fn inv(&self) -> bool {
        &&& self.fixed_header == 0x20
        &&& self.remaining_length.wf()
        &&& self.remaining_length.value() == 2
        &&& self.ack_flags <= 1
        &&& self.return_code_buf <= 5
    }

    /// Whether the server holds session state for the client.
    pub closed spec fn spec_session_present(&self) -> bool {
        self.ack_flags == 1
    }

    /// The return code byte.
    pub closed spec fn spec_return_code(&self) -> u8 {
        self.return_code_buf
    }

    /// The body: acknowledgement flags and return code.
    pub closed spec fn body(&self) -> Seq<u8> {
        seq![self.ack_flags, self.return_code_buf]
    }

    /// The whole packet on the wire.
    pub closed spec fn wire(&self) -> Seq<u8> {
        seq![self.fixed_header] + self.remaining_length.bytes() + self.body()
    }

    /// A builder with nothing set.
    pub fn builder() -> (r: ConnackBuilder)
        ensures
            r.spec_session_present() is None,
            r.spec_return_code() is None,
    {
        ConnackBuilder { ack_flags: None, return_code_buf: None }
    }

    /// The packet type (CONNACK).
    pub fn packet_type() -> (r: PacketType)
        ensures
            r == PacketType::Connack,
    {
        PacketType::Connack
    }

    /// The return code.
    pub fn return_code(&self) -> (r: ConnectReturnCode)
        ensures
            r.spec_code() == self.spec_return_code(),
    {
        proof {
            use_type_invariant(self);
        }
        match ConnectReturnCode::try_from_u8(self.return_code_buf) {
            Some(rc) => rc,
            None => {
                proof {
                    assert(false);
                }
                ConnectReturnCode::Accepted
            },
        }
    }

    /// Whether the server holds session state for the client.
    pub fn session_present(&self) -> (r: bool)
        ensures
            r == self.spec_session_present(),
    {
        proof {
            use_type_invariant(self);
        }
        self.ack_flags % 2 != 0
    }

    /// The size of the whole packet (always 4).
    pub fn size(&self) -> (r: usize)
        ensures
            r == self.wire().len(),
            r == 4,
    {
        proof {
            use_type_invariant(self);
            lemma_vbi_encode(2);
        }
        1 + self.remaining_length.size() + self.remaining_length.to_u32() as usize
    }

    /// The whole packet as one buffer: the fixed header, the remaining length 2,
    /// the flags byte (bit 0: session present) and the return code.
    ///
    /// Parsing its body gives the packet back: [`Self::parse`] accepts the body and
    /// reads the same session present flag and return code.
    pub fn to_continuous_buffer(&self) -> (r: Vec<u8>)
        ensures
            r@ == self.wire(),
            r@ == seq![0x20u8, 2u8] + self.body(),
            self.body() == seq![
                if self.spec_session_present() { 1u8 } else { 0u8 },
                self.spec_return_code(),
            ],
            self.spec_return_code() <= 5,
    {
        proof {
            use_type_invariant(self);
            lemma_vbi_encode(2);
        }
        let mut buf = Vec::new();
        buf.push(self.fixed_header);
        extend_bytes(&mut buf, self.remaining_length.as_bytes());
        buf.push(self.ack_flags);
        buf.push(self.return_code_buf);
        proof {
            assert(buf@ =~= self.wire());
            assert(vbi_encode(2) =~= seq![2u8]);
            assert(buf@ =~= seq![0x20u8, 2u8] + self.body());
        }
        buf
    }

    /// Parses the body of a CONNACK packet: the flags byte and the return code.
    ///
    /// Fails with `MalformedPacket` when fewer than two bytes are given or the
    /// return code is not one of 0 to 5. Only bit 0 of the flags byte is kept.
    pub fn parse(data: &[u8]) -> (r: Result<(Self, usize), MqttError>)
        ensures
            r is Ok <==> (data@.len() >= 2 && data@[1] <= 5),
            r matches Ok((c, n)) ==> {
                &&& n == 2
                &&& c.spec_session_present() == (data@[0] % 2 == 1)
                &&& c.spec_return_code() == data@[1]
            },
            r matches Err(e) ==> e == MqttError::MalformedPacket,
    {
        if data.len() < 2 {
            return Err(MqttError::MalformedPacket);
        }
        let session_present = data[0] % 2 != 0;
        let return_code = match ConnectReturnCode::try_from_u8(data[1]) {
            Some(rc) => rc,
            None => {
                return Err(MqttError::MalformedPacket);
            },
        };
        let connack = Connack::builder().session_present(session_present).return_code(
            return_code,
        ).build()?;
        Ok((connack, 2))
    }
}

impl Clone for Connack {
    fn clone(&self) -> (r: Self)
        ensures
            r.body() == self.body(),
            r.wire() == self.wire(),
    {
        proof {
            use_type_invariant(self);
        }
        Connack {
            fixed_header: self.fixed_header,
            remaining_length: self.remaining_length.clone(),
            ack_flags: self.ack_flags,
            return_code_buf: self.return_code_buf,
        }
    }
}

/// Builder of [`Connack`] packets.
#[derive(Debug)]
pub struct ConnackBuilder {
    ack_flags: Option<u8>,
    return_code_buf: Option<u8>,
}

impl ConnackBuilder {
    #[verifier::type_invariant]
    spec fn inv(&self) -> bool {
        &&& self.ack_flags matches Some(f) ==> f <= 1
        &&& self.return_code_buf matches Some(c) ==> c <= 5
    }

    /// The session present flag, once set.
    pub closed spec fn spec_session_present(&self) -> Option<bool> {
        match self.ack_flags {
            Some(f) => Some(f == 1),
            None => None,
        }
    }

    /// The return code byte, once set.
    pub closed spec fn spec_return_code(&self) -> Option<u8> {
        self.return_code_buf
    }

    /// Sets the session present flag.
    pub fn session_present(self, v: bool) -> (r: Self)
        ensures
            r.spec_session_present() == Some(v),
            r.spec_return_code() == self.spec_return_code(),
    {
        proof {
            use_type_invariant(&self);
        }
        ConnackBuilder { ack_flags: Some(if v { 1 } else { 0 }), return_code_buf: self.return_code_buf }
    }

    /// Sets the return code.
    pub fn return_code(self, rc: ConnectReturnCode) -> (r: Self)
        ensures
            r.spec_return_code() == Some(rc.spec_code()),
            r.spec_session_present() == self.spec_session_present(),
    {
        proof {
            use_type_invariant(&self);
        }
        ConnackBuilder { ack_flags: self.ack_flags, return_code_buf: Some(rc.to_u8()) }
    }

    /// Builds the packet; never fails. A field left unset takes its default:
    /// session not present, return code `Accepted`.
    pub fn build(self) -> (r: Result<Connack, MqttError>)
        ensures
            r matches Ok(c) && {
                &&& c.spec_session_present() == match self.spec_session_present() {
                    Some(v) => v,
                    None => false,
                }
                &&& c.spec_return_code() == match self.spec_return_code() {
                    Some(rc) => rc,
                    None => ConnectReturnCode::Accepted.spec_code(),
                }
            },
    {
        proof {
            use_type_invariant(&self);
        }
        let ack_flags = match self.ack_flags {
            Some(f) => f,
            None => 0,
        };
        let return_code_buf = match self.return_code_buf {
            Some(c) => c,
            None => ConnectReturnCode::Accepted.to_u8(),
        };
        let remaining_length = VariableByteInteger::from_value(2);
        Ok(Connack {
            fixed_header: FixedHeader::Connack.as_u8(),
            remaining_length,
            ack_flags,
            return_code_buf,
        })
    }
}

impl PacketKind for Connack {
    const IS_CONNECT: bool = false;
    const IS_CONNACK: bool = true;
    const IS_PUBLISH: bool = false;
    const IS_PUBACK: bool = false;
    const IS_PUBREC: bool = false;
    const IS_PUBREL: bool = false;
    const IS_PUBCOMP: bool = false;
    const IS_SUBSCRIBE: bool = false;
    const IS_SUBACK: bool = false;
    const IS_UNSUBSCRIBE: bool = false;
    const IS_UNSUBACK: bool = false;
    const IS_PINGREQ: bool = false;
    const IS_PINGRESP: bool = false;
    const IS_DISCONNECT: bool = false;
    const IS_AUTH: bool = false;
    const IS_V3_1_1: bool = true;
    const IS_V5_0: bool = false;
}

impl SendableVersion for Connack {
    open spec fn spec_version() -> Version {
        Version::V3_1_1
    }

    proof fn lemma_version_follows_kind() {
    }

    fn check(version: &Version) -> (r: bool) {
        *version == Version::V3_1_1
    }
}

} // verus!
