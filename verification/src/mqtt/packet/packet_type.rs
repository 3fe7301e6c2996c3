//! MQTT control packet types and their fixed header bytes.
use vstd::prelude::*;

verus! {

/// The MQTT control packet types.
#[derive(Debug, PartialEq, Eq, Copy, Clone, Structural)]
pub enum PacketType {
    Connect,
    Connack,
    Publish,
    Puback,
    Pubrec,
    Pubrel,
    Pubcomp,
    Subscribe,
    Suback,
    Unsubscribe,
    Unsuback,
    Pingreq,
    Pingresp,
    Disconnect,
    Auth,
}

/// The fixed header byte of each packet type, including the flags that the
/// protocol fixes for it.
#[derive(Debug, PartialEq, Eq, Copy, Clone, Structural)]
pub enum FixedHeader {
    Connect,
    Connack,
    Publish,
    Puback,
    Pubrec,
    Pubrel,
    Pubcomp,
    Subscribe,
    Suback,
    Unsubscribe,
    Unsuback,
    Pingreq,
    Pingresp,
    Disconnect,
    Auth,
}

impl PacketType {
    /// The type number (1 to 15).
    pub open spec fn spec_u8(self) -> u8 {
        match self {
            PacketType::Connect => 1,
            PacketType::Connack => 2,
            PacketType::Publish => 3,
            PacketType::Puback => 4,
            PacketType::Pubrec => 5,
            PacketType::Pubrel => 6,
            PacketType::Pubcomp => 7,
            PacketType::Subscribe => 8,
            PacketType::Suback => 9,
            PacketType::Unsubscribe => 10,
            PacketType::Unsuback => 11,
            PacketType::Pingreq => 12,
            PacketType::Pingresp => 13,
            PacketType::Disconnect => 14,
            PacketType::Auth => 15,
        }
    }

    /// The lower-case name of the type.
    pub open spec fn spec_name(self) -> Seq<char> {
        match self {
            PacketType::Connect => "connect"@,
            PacketType::Connack => "connack"@,
            PacketType::Publish => "publish"@,
            PacketType::Puback => "puback"@,
            PacketType::Pubrec => "pubrec"@,
            PacketType::Pubrel => "pubrel"@,
            PacketType::Pubcomp => "pubcomp"@,
            PacketType::Subscribe => "subscribe"@,
            PacketType::Suback => "suback"@,
            PacketType::Unsubscribe => "unsubscribe"@,
            PacketType::Unsuback => "unsuback"@,
            PacketType::Pingreq => "pingreq"@,
            PacketType::Pingresp => "pingresp"@,
            PacketType::Disconnect => "disconnect"@,
            PacketType::Auth => "auth"@,
        }
    }

    /// The fixed header of the type.
    pub open spec fn spec_fixed_header(self) -> FixedHeader {
        match self {
            PacketType::Connect => FixedHeader::Connect,
            PacketType::Connack => FixedHeader::Connack,
            PacketType::Publish => FixedHeader::Publish,
            PacketType::Puback => FixedHeader::Puback,
            PacketType::Pubrec => FixedHeader::Pubrec,
            PacketType::Pubrel => FixedHeader::Pubrel,
            PacketType::Pubcomp => FixedHeader::Pubcomp,
            PacketType::Subscribe => FixedHeader::Subscribe,
            PacketType::Suback => FixedHeader::Suback,
            PacketType::Unsubscribe => FixedHeader::Unsubscribe,
            PacketType::Unsuback => FixedHeader::Unsuback,
            PacketType::Pingreq => FixedHeader::Pingreq,
            PacketType::Pingresp => FixedHeader::Pingresp,
            PacketType::Disconnect => FixedHeader::Disconnect,
            PacketType::Auth => FixedHeader::Auth,
        }
    }

    /// The type number (1 to 15).
    pub fn as_u8(self) -> (r: u8)
        ensures
            r == self.spec_u8(),
    {
        match self {
            PacketType::Connect => 1,
            PacketType::Connack => 2,
            PacketType::Publish => 3,
            PacketType::Puback => 4,
            PacketType::Pubrec => 5,
            PacketType::Pubrel => 6,
            PacketType::Pubcomp => 7,
            PacketType::Subscribe => 8,
            PacketType::Suback => 9,
            PacketType::Unsubscribe => 10,
            PacketType::Unsuback => 11,
            PacketType::Pingreq => 12,
            PacketType::Pingresp => 13,
            PacketType::Disconnect => 14,
            PacketType::Auth => 15,
        }
    }

    /// The type with number `v`; `None` outside 1 to 15.
    pub fn try_from_u8(v: u8) -> (r: Option<Self>)
        ensures
            r is Some <==> 1 <= v <= 15,
            r matches Some(t) ==> t.spec_u8() == v,
    {
        match v {
            1 => Some(PacketType::Connect),
            2 => Some(PacketType::Connack),
            3 => Some(PacketType::Publish),
            4 => Some(PacketType::Puback),
            5 => Some(PacketType::Pubrec),
            6 => Some(PacketType::Pubrel),
            7 => Some(PacketType::Pubcomp),
            8 => Some(PacketType::Subscribe),
            9 => Some(PacketType::Suback),
            10 => Some(PacketType::Unsubscribe),
            11 => Some(PacketType::Unsuback),
            12 => Some(PacketType::Pingreq),
            13 => Some(PacketType::Pingresp),
            14 => Some(PacketType::Disconnect),
            15 => Some(PacketType::Auth),
            _ => None,
        }
    }

    /// The lower-case name of the type.
    pub fn as_str(&self) -> (r: &'static str)
        ensures
            r@ == self.spec_name(),
    {
        match self {
            PacketType::Connect => "connect",
            PacketType::Connack => "connack",
            PacketType::Publish => "publish",
            PacketType::Puback => "puback",
            PacketType::Pubrec => "pubrec",
            PacketType::Pubrel => "pubrel",
            PacketType::Pubcomp => "pubcomp",
            PacketType::Subscribe => "subscribe",
            PacketType::Suback => "suback",
            PacketType::Unsubscribe => "unsubscribe",
            PacketType::Unsuback => "unsuback",
            PacketType::Pingreq => "pingreq",
            PacketType::Pingresp => "pingresp",
            PacketType::Disconnect => "disconnect",
            PacketType::Auth => "auth",
        }
    }

    /// The fixed header of the type.
    pub fn to_fixed_header(self) -> (r: FixedHeader)
        ensures
            r == self.spec_fixed_header(),
    {
        match self {
            PacketType::Connect => FixedHeader::Connect,
            PacketType::Connack => FixedHeader::Connack,
            PacketType::Publish => FixedHeader::Publish,
            PacketType::Puback => FixedHeader::Puback,
            PacketType::Pubrec => FixedHeader::Pubrec,
            PacketType::Pubrel => FixedHeader::Pubrel,
            PacketType::Pubcomp => FixedHeader::Pubcomp,
            PacketType::Subscribe => FixedHeader::Subscribe,
            PacketType::Suback => FixedHeader::Suback,
            PacketType::Unsubscribe => FixedHeader::Unsubscribe,
            PacketType::Unsuback => FixedHeader::Unsuback,
            PacketType::Pingreq => FixedHeader::Pingreq,
            PacketType::Pingresp => FixedHeader::Pingresp,
            PacketType::Disconnect => FixedHeader::Disconnect,
            PacketType::Auth => FixedHeader::Auth,
        }
    }
}

impl FixedHeader {
    /// The fixed header byte.
    pub open spec fn spec_u8(self) -> u8 {
        match self {
            FixedHeader::Connect => 0x10,
            FixedHeader::Connack => 0x20,
            FixedHeader::Publish => 0x30,
            FixedHeader::Puback => 0x40,
            FixedHeader::Pubrec => 0x50,
            FixedHeader::Pubrel => 0x62,
            FixedHeader::Pubcomp => 0x70,
            FixedHeader::Subscribe => 0x82,
            FixedHeader::Suback => 0x90,
            FixedHeader::Unsubscribe => 0xa2,
            FixedHeader::Unsuback => 0xb0,
            FixedHeader::Pingreq => 0xc0,
            FixedHeader::Pingresp => 0xd0,
            FixedHeader::Disconnect => 0xe0,
            FixedHeader::Auth => 0xf0,
        }
    }

    /// The packet type of the header.
    pub open spec fn spec_packet_type(self) -> PacketType {
        match self {
            FixedHeader::Connect => PacketType::Connect,
            FixedHeader::Connack => PacketType::Connack,
            FixedHeader::Publish => PacketType::Publish,
            FixedHeader::Puback => PacketType::Puback,
            FixedHeader::Pubrec => PacketType::Pubrec,
            FixedHeader::Pubrel => PacketType::Pubrel,
            FixedHeader::Pubcomp => PacketType::Pubcomp,
            FixedHeader::Subscribe => PacketType::Subscribe,
            FixedHeader::Suback => PacketType::Suback,
            FixedHeader::Unsubscribe => PacketType::Unsubscribe,
            FixedHeader::Unsuback => PacketType::Unsuback,
            FixedHeader::Pingreq => PacketType::Pingreq,
            FixedHeader::Pingresp => PacketType::Pingresp,
            FixedHeader::Disconnect => PacketType::Disconnect,
            FixedHeader::Auth => PacketType::Auth,
        }
    }

    /// The fixed header byte.
    pub fn as_u8(self) -> (r: u8)
        ensures
            r == self.spec_u8(),
    {
        match self {
            FixedHeader::Connect => 0x10,
            FixedHeader::Connack => 0x20,
            FixedHeader::Publish => 0x30,
            FixedHeader::Puback => 0x40,
            FixedHeader::Pubrec => 0x50,
            FixedHeader::Pubrel => 0x62,
            FixedHeader::Pubcomp => 0x70,
            FixedHeader::Subscribe => 0x82,
            FixedHeader::Suback => 0x90,
            FixedHeader::Unsubscribe => 0xa2,
            FixedHeader::Unsuback => 0xb0,
            FixedHeader::Pingreq => 0xc0,
            FixedHeader::Pingresp => 0xd0,
            FixedHeader::Disconnect => 0xe0,
            FixedHeader::Auth => 0xf0,
        }
    }

    /// The packet type: the type number in the high four bits of the byte.
    pub fn packet_type(self) -> (r: PacketType)
        ensures
            r == self.spec_packet_type(),
            r.spec_u8() == self.spec_u8() / 16,
    {
        match PacketType::try_from_u8(self.as_u8() / 16) {
            Some(t) => t,
            None => PacketType::Connect,
        }
    }

    /// The lower-case name of the packet type.
    pub fn as_str(&self) -> (r: &'static str)
        ensures
            r@ == self.spec_packet_type().spec_name(),
    {
        self.packet_type().as_str()
    }
}

/// The packet type numbers MQTT fixes: CONNECT 1, CONNACK 2, PUBLISH 3, PUBACK 4,
/// PUBREC 5, PUBREL 6, PUBCOMP 7, SUBSCRIBE 8, SUBACK 9, UNSUBSCRIBE 10, UNSUBACK
/// 11, PINGREQ 12, PINGRESP 13, DISCONNECT 14, AUTH 15; distinct types have
/// distinct numbers.
pub proof fn lemma_packet_type_numbers()
    ensures
        PacketType::Connect.spec_u8() == 1,
        PacketType::Connack.spec_u8() == 2,
        PacketType::Publish.spec_u8() == 3,
        PacketType::Puback.spec_u8() == 4,
        PacketType::Pubrec.spec_u8() == 5,
        PacketType::Pubrel.spec_u8() == 6,
        PacketType::Pubcomp.spec_u8() == 7,
        PacketType::Subscribe.spec_u8() == 8,
        PacketType::Suback.spec_u8() == 9,
        PacketType::Unsubscribe.spec_u8() == 10,
        PacketType::Unsuback.spec_u8() == 11,
        PacketType::Pingreq.spec_u8() == 12,
        PacketType::Pingresp.spec_u8() == 13,
        PacketType::Disconnect.spec_u8() == 14,
        PacketType::Auth.spec_u8() == 15,
        forall|a: PacketType, b: PacketType| #[trigger] a.spec_u8() == #[trigger] b.spec_u8() ==> a == b,
{
}

/// Each packet type's name is its lower-case MQTT name.
pub proof fn lemma_packet_type_names()
    ensures
        PacketType::Connect.spec_name() == "connect"@,
        PacketType::Connack.spec_name() == "connack"@,
        PacketType::Publish.spec_name() == "publish"@,
        PacketType::Puback.spec_name() == "puback"@,
        PacketType::Pubrec.spec_name() == "pubrec"@,
        PacketType::Pubrel.spec_name() == "pubrel"@,
        PacketType::Pubcomp.spec_name() == "pubcomp"@,
        PacketType::Subscribe.spec_name() == "subscribe"@,
        PacketType::Suback.spec_name() == "suback"@,
        PacketType::Unsubscribe.spec_name() == "unsubscribe"@,
        PacketType::Unsuback.spec_name() == "unsuback"@,
        PacketType::Pingreq.spec_name() == "pingreq"@,
        PacketType::Pingresp.spec_name() == "pingresp"@,
        PacketType::Disconnect.spec_name() == "disconnect"@,
        PacketType::Auth.spec_name() == "auth"@,
{
}

/// A fixed header byte holds the packet type number in its upper four bits and the
/// flags MQTT fixes in its lower four: 2 for PUBREL, SUBSCRIBE and UNSUBSCRIBE, 0
/// otherwise. Each fixed header belongs to the type whose header it is.
pub proof fn lemma_fixed_header_bytes()
    ensures
        forall|t: PacketType| #[trigger] t.spec_fixed_header().spec_u8() / 16 == t.spec_u8(),
        forall|t: PacketType|
            #[trigger] t.spec_fixed_header().spec_u8() % 16 == (if t == PacketType::Pubrel || t
                == PacketType::Subscribe || t == PacketType::Unsubscribe {
                2int
            } else {
                0int
            }),
        forall|t: PacketType| #[trigger] t.spec_fixed_header().spec_packet_type() == t,
        forall|h: FixedHeader| #[trigger] h.spec_packet_type().spec_fixed_header() == h,
{
    lemma_packet_type_numbers();
}

} // verus!
