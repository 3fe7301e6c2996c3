//! Error type and the result codes carried by acknowledgement packets.
use vstd::prelude::*;

verus! {

/// Errors reported by the protocol layer.
#[derive(Debug, Clone, Copy, PartialEq, Eq, Structural)]
pub enum MqttError {
    MalformedPacket,
    ProtocolError,
    PacketIdentifierConflict,
    PacketIdentifierFullyUsed,
    InvalidQos,
    VersionMismatch,
}

/// CONNACK return codes of MQTT v3.1.1.
#[derive(Debug, Clone, Copy, PartialEq, Eq, Structural)]
pub enum ConnectReturnCode {
    Accepted,
    UnacceptableProtocolVersion,
    IdentifierRejected,
    ServerUnavailable,
    BadUserNameOrPassword,
    NotAuthorized,
}

impl ConnectReturnCode {
    /// The wire value of the code.
    pub open spec fn spec_code(self) -> u8 {
        match self {
            ConnectReturnCode::Accepted => 0,
            ConnectReturnCode::UnacceptableProtocolVersion => 1,
            ConnectReturnCode::IdentifierRejected => 2,
            ConnectReturnCode::ServerUnavailable => 3,
            ConnectReturnCode::BadUserNameOrPassword => 4,
            ConnectReturnCode::NotAuthorized => 5,
        }
    }

    /// The wire value of the code.
    pub fn to_u8(self) -> (r: u8)
        ensures
            r == self.spec_code(),
    {
        match self {
            ConnectReturnCode::Accepted => 0,
            ConnectReturnCode::UnacceptableProtocolVersion => 1,
            ConnectReturnCode::IdentifierRejected => 2,
            ConnectReturnCode::ServerUnavailable => 3,
            ConnectReturnCode::BadUserNameOrPassword => 4,
            ConnectReturnCode::NotAuthorized => 5,
        }
    }

    /// The code with wire value `v`; `None` for values that are not return codes.
    pub fn try_from_u8(v: u8) -> (r: Option<Self>)
        ensures
            r is Some <==> v <= 5,
            r matches Some(c) ==> c.spec_code() == v,
    {
        match v {
            0 => Some(ConnectReturnCode::Accepted),
            1 => Some(ConnectReturnCode::UnacceptableProtocolVersion),
            2 => Some(ConnectReturnCode::IdentifierRejected),
            3 => Some(ConnectReturnCode::ServerUnavailable),
            4 => Some(ConnectReturnCode::BadUserNameOrPassword),
            5 => Some(ConnectReturnCode::NotAuthorized),
            _ => None,
        }
    }
}

/// PUBACK reason codes.
#[derive(Debug, Clone, Copy, PartialEq, Eq, Structural)]
pub enum PubackReasonCode {
    Success,
    NoMatchingSubscribers,
    UnspecifiedError,
    ImplementationSpecificError,
    NotAuthorized,
    TopicNameInvalid,
    PacketIdentifierInUse,
    QuotaExceeded,
    PayloadFormatInvalid,
}

/// Whether `v` is the wire value of a PUBACK or PUBREC reason code.
pub open spec fn is_publish_ack_code(v: u8) -> bool {
    v == 0x00 || v == 0x10 || v == 0x80 || v == 0x83 || v == 0x87 || v == 0x90 || v == 0x91
        || v == 0x97 || v == 0x99
}

impl PubackReasonCode {
    /// The wire value of the code.
    pub open spec fn spec_code(self) -> u8 {
        match self {
            PubackReasonCode::Success => 0x00,
            PubackReasonCode::NoMatchingSubscribers => 0x10,
            PubackReasonCode::UnspecifiedError => 0x80,
            PubackReasonCode::ImplementationSpecificError => 0x83,
            PubackReasonCode::NotAuthorized => 0x87,
            PubackReasonCode::TopicNameInvalid => 0x90,
            PubackReasonCode::PacketIdentifierInUse => 0x91,
            PubackReasonCode::QuotaExceeded => 0x97,
            PubackReasonCode::PayloadFormatInvalid => 0x99,
        }
    }

    /// The wire value of the code.
    pub fn to_u8(self) -> (r: u8)
        ensures
            r == self.spec_code(),
    {
        match self {
            PubackReasonCode::Success => 0x00,
            PubackReasonCode::NoMatchingSubscribers => 0x10,
            PubackReasonCode::UnspecifiedError => 0x80,
            PubackReasonCode::ImplementationSpecificError => 0x83,
            PubackReasonCode::NotAuthorized => 0x87,
            PubackReasonCode::TopicNameInvalid => 0x90,
            PubackReasonCode::PacketIdentifierInUse => 0x91,
            PubackReasonCode::QuotaExceeded => 0x97,
            PubackReasonCode::PayloadFormatInvalid => 0x99,
        }
    }

    /// The code with wire value `v`; `None` for values that are not PUBACK codes.
    pub fn try_from_u8(v: u8) -> (r: Option<Self>)
        ensures
            r is Some <==> is_publish_ack_code(v),
            r matches Some(c) ==> c.spec_code() == v,
    {
        match v {
            0x00 => Some(PubackReasonCode::Success),
            0x10 => Some(PubackReasonCode::NoMatchingSubscribers),
            0x80 => Some(PubackReasonCode::UnspecifiedError),
            0x83 => Some(PubackReasonCode::ImplementationSpecificError),
            0x87 => Some(PubackReasonCode::NotAuthorized),
            0x90 => Some(PubackReasonCode::TopicNameInvalid),
            0x91 => Some(PubackReasonCode::PacketIdentifierInUse),
            0x97 => Some(PubackReasonCode::QuotaExceeded),
            0x99 => Some(PubackReasonCode::PayloadFormatInvalid),
            _ => None,
        }
    }
}

/// PUBREC reason codes.
#[derive(Debug, Clone, Copy, PartialEq, Eq, Structural)]
pub enum PubrecReasonCode {
    Success,
    NoMatchingSubscribers,
    UnspecifiedError,
    ImplementationSpecificError,
    NotAuthorized,
    TopicNameInvalid,
    PacketIdentifierInUse,
    QuotaExceeded,
    PayloadFormatInvalid,
}

impl PubrecReasonCode {
    /// The wire value of the code.
    pub open spec fn spec_code(self) -> u8 {
        match self {
            PubrecReasonCode::Success => 0x00,
            PubrecReasonCode::NoMatchingSubscribers => 0x10,
            PubrecReasonCode::UnspecifiedError => 0x80,
            PubrecReasonCode::ImplementationSpecificError => 0x83,
            PubrecReasonCode::NotAuthorized => 0x87,
            PubrecReasonCode::TopicNameInvalid => 0x90,
            PubrecReasonCode::PacketIdentifierInUse => 0x91,
            PubrecReasonCode::QuotaExceeded => 0x97,
            PubrecReasonCode::PayloadFormatInvalid => 0x99,
        }
    }

    /// The wire value of the code.
    pub fn to_u8(self) -> (r: u8)
        ensures
            r == self.spec_code(),
    {
        match self {
            PubrecReasonCode::Success => 0x00,
            PubrecReasonCode::NoMatchingSubscribers => 0x10,
            PubrecReasonCode::UnspecifiedError => 0x80,
            PubrecReasonCode::ImplementationSpecificError => 0x83,
            PubrecReasonCode::NotAuthorized => 0x87,
            PubrecReasonCode::TopicNameInvalid => 0x90,
            PubrecReasonCode::PacketIdentifierInUse => 0x91,
            PubrecReasonCode::QuotaExceeded => 0x97,
            PubrecReasonCode::PayloadFormatInvalid => 0x99,
        }
    }

    /// The code with wire value `v`; `None` for values that are not PUBREC codes.
    pub fn try_from_u8(v: u8) -> (r: Option<Self>)
        ensures
            r is Some <==> is_publish_ack_code(v),
            r matches Some(c) ==> c.spec_code() == v,
    {
        match v {
            0x00 => Some(PubrecReasonCode::Success),
            0x10 => Some(PubrecReasonCode::NoMatchingSubscribers),
            0x80 => Some(PubrecReasonCode::UnspecifiedError),
            0x83 => Some(PubrecReasonCode::ImplementationSpecificError),
            0x87 => Some(PubrecReasonCode::NotAuthorized),
            0x90 => Some(PubrecReasonCode::TopicNameInvalid),
            0x91 => Some(PubrecReasonCode::PacketIdentifierInUse),
            0x97 => Some(PubrecReasonCode::QuotaExceeded),
            0x99 => Some(PubrecReasonCode::PayloadFormatInvalid),
            _ => None,
        }
    }
}

/// PUBCOMP reason codes.
#[derive(Debug, Clone, Copy, PartialEq, Eq, Structural)]
pub enum PubcompReasonCode {
    Success,
    PacketIdentifierNotFound,
}

impl PubcompReasonCode {
    /// The wire value of the code.
    pub open spec fn spec_code(self) -> u8 {
        match self {
            PubcompReasonCode::Success => 0x00,
            PubcompReasonCode::PacketIdentifierNotFound => 0x92,
        }
    }

    /// The wire value of the code.
    pub fn to_u8(self) -> (r: u8)
        ensures
            r == self.spec_code(),
    {
        match self {
            PubcompReasonCode::Success => 0x00,
            PubcompReasonCode::PacketIdentifierNotFound => 0x92,
        }
    }

    /// The code with wire value `v`; `None` for values that are not PUBCOMP codes.
    pub fn try_from_u8(v: u8) -> (r: Option<Self>)
        ensures
            r is Some <==> (v == 0x00 || v == 0x92),
            r matches Some(c) ==> c.spec_code() == v,
    {
        match v {
            0x00 => Some(PubcompReasonCode::Success),
            0x92 => Some(PubcompReasonCode::PacketIdentifierNotFound),
            _ => None,
        }
    }
}

/// SUBACK return codes of MQTT v3.1.1.
#[derive(Debug, Clone, Copy, PartialEq, Eq, Structural)]
pub enum SubackReturnCode {
    SuccessMaximumQos0,
    SuccessMaximumQos1,
    SuccessMaximumQos2,
    Failure,
}

impl SubackReturnCode {
    /// The wire value of the code.
    pub open spec fn spec_code(self) -> u8 {
        match self {
            SubackReturnCode::SuccessMaximumQos0 => 0x00,
            SubackReturnCode::SuccessMaximumQos1 => 0x01,
            SubackReturnCode::SuccessMaximumQos2 => 0x02,
            SubackReturnCode::Failure => 0x80,
        }
    }

    /// Whether `v` is the wire value of a SUBACK return code.
    pub open spec fn is_code(v: u8) -> bool {
        v == 0x00 || v == 0x01 || v == 0x02 || v == 0x80
    }

    /// The wire value of the code.
    pub fn to_u8(self) -> (r: u8)
        ensures
            r == self.spec_code(),
    {
        match self {
            SubackReturnCode::SuccessMaximumQos0 => 0x00,
            SubackReturnCode::SuccessMaximumQos1 => 0x01,
            SubackReturnCode::SuccessMaximumQos2 => 0x02,
            SubackReturnCode::Failure => 0x80,
        }
    }

    /// The code with wire value `v`; `None` for values that are not SUBACK codes.
    pub fn try_from_u8(v: u8) -> (r: Option<Self>)
        ensures
            r is Some <==> Self::is_code(v),
            r matches Some(c) ==> c.spec_code() == v,
    {
        match v {
            0x00 => Some(SubackReturnCode::SuccessMaximumQos0),
            0x01 => Some(SubackReturnCode::SuccessMaximumQos1),
            0x02 => Some(SubackReturnCode::SuccessMaximumQos2),
            0x80 => Some(SubackReturnCode::Failure),
            _ => None,
        }
    }
}

/// The CONNACK return codes carry the wire values MQTT v3.1.1 fixes: Accepted 0,
/// Unacceptable protocol version 1, Identifier rejected 2, Server unavailable 3,
/// Bad user name or password 4, Not authorized 5. Distinct codes have distinct
/// values, so `try_from_u8` and `to_u8` undo each other.
pub proof fn lemma_connect_return_code_values()
    ensures
        ConnectReturnCode::Accepted.spec_code() == 0,
        ConnectReturnCode::UnacceptableProtocolVersion.spec_code() == 1,
        ConnectReturnCode::IdentifierRejected.spec_code() == 2,
        ConnectReturnCode::ServerUnavailable.spec_code() == 3,
        ConnectReturnCode::BadUserNameOrPassword.spec_code() == 4,
        ConnectReturnCode::NotAuthorized.spec_code() == 5,
        forall|a: ConnectReturnCode, b: ConnectReturnCode|
            #[trigger] a.spec_code() == #[trigger] b.spec_code() ==> a == b,
{
}

/// The PUBACK reason codes carry the wire values MQTT fixes (0x00, 0x10, 0x80,
/// 0x83, 0x87, 0x90, 0x91, 0x97, 0x99, in the order of the variants); these are
/// exactly the values accepted as codes, and distinct codes have distinct values.
pub proof fn lemma_puback_reason_code_values()
    ensures
        PubackReasonCode::Success.spec_code() == 0x00,
        PubackReasonCode::NoMatchingSubscribers.spec_code() == 0x10,
        PubackReasonCode::UnspecifiedError.spec_code() == 0x80,
        PubackReasonCode::ImplementationSpecificError.spec_code() == 0x83,
        PubackReasonCode::NotAuthorized.spec_code() == 0x87,
        PubackReasonCode::TopicNameInvalid.spec_code() == 0x90,
        PubackReasonCode::PacketIdentifierInUse.spec_code() == 0x91,
        PubackReasonCode::QuotaExceeded.spec_code() == 0x97,
        PubackReasonCode::PayloadFormatInvalid.spec_code() == 0x99,
        forall|v: u8|
            #[trigger] is_publish_ack_code(v) <==> (v == 0x00 || v == 0x10 || v == 0x80 || v
                == 0x83 || v == 0x87 || v == 0x90 || v == 0x91 || v == 0x97 || v == 0x99),
        forall|a: PubackReasonCode, b: PubackReasonCode|
            #[trigger] a.spec_code() == #[trigger] b.spec_code() ==> a == b,
{
}

/// The PUBREC reason codes carry the same wire values as the PUBACK ones, and
/// distinct codes have distinct values.
pub proof fn lemma_pubrec_reason_code_values()
    ensures
        PubrecReasonCode::Success.spec_code() == 0x00,
        PubrecReasonCode::NoMatchingSubscribers.spec_code() == 0x10,
        PubrecReasonCode::UnspecifiedError.spec_code() == 0x80,
        PubrecReasonCode::ImplementationSpecificError.spec_code() == 0x83,
        PubrecReasonCode::NotAuthorized.spec_code() == 0x87,
        PubrecReasonCode::TopicNameInvalid.spec_code() == 0x90,
        PubrecReasonCode::PacketIdentifierInUse.spec_code() == 0x91,
        PubrecReasonCode::QuotaExceeded.spec_code() == 0x97,
        PubrecReasonCode::PayloadFormatInvalid.spec_code() == 0x99,
        forall|a: PubrecReasonCode, b: PubrecReasonCode|
            #[trigger] a.spec_code() == #[trigger] b.spec_code() ==> a == b,
{
}

/// The PUBCOMP reason codes: Success 0x00, Packet identifier not found 0x92.
pub proof fn lemma_pubcomp_reason_code_values()
    ensures
        PubcompReasonCode::Success.spec_code() == 0x00,
        PubcompReasonCode::PacketIdentifierNotFound.spec_code() == 0x92,
        forall|a: PubcompReasonCode, b: PubcompReasonCode|
            #[trigger] a.spec_code() == #[trigger] b.spec_code() ==> a == b,
{
}

/// The SUBACK return codes of MQTT v3.1.1: maximum QoS 0, 1, 2 granted as 0x00,
/// 0x01, 0x02, and Failure 0x80; these are exactly the values accepted as codes.
pub proof fn lemma_suback_return_code_values()
    ensures
        SubackReturnCode::SuccessMaximumQos0.spec_code() == 0x00,
        SubackReturnCode::SuccessMaximumQos1.spec_code() == 0x01,
        SubackReturnCode::SuccessMaximumQos2.spec_code() == 0x02,
        SubackReturnCode::Failure.spec_code() == 0x80,
        forall|v: u8|
            #[trigger] SubackReturnCode::is_code(v) <==> (v == 0x00 || v == 0x01 || v == 0x02 || v
                == 0x80),
        forall|a: SubackReturnCode, b: SubackReturnCode|
            #[trigger] a.spec_code() == #[trigger] b.spec_code() ==> a == b,
{
}

} // verus!
