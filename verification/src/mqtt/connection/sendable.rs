//! Which send operation a packet type is handed to.
use crate::mqtt::connection::sendable_version::SendableVersion;
use crate::mqtt::connection::version::Version;
use crate::mqtt::packet::kind::PacketKind;
use crate::mqtt::packet::packet_type::PacketType;
use crate::mqtt::result_code::MqttError;
use vstd::prelude::*;

verus! {

/// The packet type named by the first set packet flag of `T`, in the order of the
/// packet types' codes.
pub open spec fn kind_of<T: PacketKind>() -> Option<PacketType> {
    if T::IS_CONNECT {
        Some(PacketType::Connect)
    } else if T::IS_CONNACK {
        Some(PacketType::Connack)
    } else if T::IS_PUBLISH {
        Some(PacketType::Publish)
    } else if T::IS_PUBACK {
        Some(PacketType::Puback)
    } else if T::IS_PUBREC {
        Some(PacketType::Pubrec)
    } else if T::IS_PUBREL {
        Some(PacketType::Pubrel)
    } else if T::IS_PUBCOMP {
        Some(PacketType::Pubcomp)
    } else if T::IS_SUBSCRIBE {
        Some(PacketType::Subscribe)
    } else if T::IS_SUBACK {
        Some(PacketType::Suback)
    } else if T::IS_UNSUBSCRIBE {
        Some(PacketType::Unsubscribe)
    } else if T::IS_UNSUBACK {
        Some(PacketType::Unsuback)
    } else if T::IS_PINGREQ {
        Some(PacketType::Pingreq)
    } else if T::IS_PINGRESP {
        Some(PacketType::Pingresp)
    } else if T::IS_DISCONNECT {
        Some(PacketType::Disconnect)
    } else if T::IS_AUTH {
        Some(PacketType::Auth)
    } else {
        None
    }
}

/// The send operation for `T`: the packet type and the protocol version of the
/// handler it goes to. A v3.1.1 flag is tried before a v5.0 one, and AUTH exists in
/// v5.0 only. `None` when the flags name no operation.
pub open spec fn send_target<T: PacketKind>() -> Option<(PacketType, Version)> {
    match kind_of::<T>() {
        None => None,
        Some(PacketType::Auth) => if T::IS_V5_0 {
            Some((PacketType::Auth, Version::V5_0))
        } else {
            None
        },
        Some(k) => if T::IS_V3_1_1 {
            Some((k, Version::V3_1_1))
        } else if T::IS_V5_0 {
            Some((k, Version::V5_0))
        } else {
            None
        },
    }
}

/// The packet type named by the flags of `T`.
fn packet_kind<T: PacketKind>() -> (r: Option<PacketType>)
    ensures
        r == kind_of::<T>(),
{
    if T::IS_CONNECT {
        Some(PacketType::Connect)
    } else if T::IS_CONNACK {
        Some(PacketType::Connack)
    } else if T::IS_PUBLISH {
        Some(PacketType::Publish)
    } else if T::IS_PUBACK {
        Some(PacketType::Puback)
    } else if T::IS_PUBREC {
        Some(PacketType::Pubrec)
    } else if T::IS_PUBREL {
        Some(PacketType::Pubrel)
    } else if T::IS_PUBCOMP {
        Some(PacketType::Pubcomp)
    } else if T::IS_SUBSCRIBE {
        Some(PacketType::Subscribe)
    } else if T::IS_SUBACK {
        Some(PacketType::Suback)
    } else if T::IS_UNSUBSCRIBE {
        Some(PacketType::Unsubscribe)
    } else if T::IS_UNSUBACK {
        Some(PacketType::Unsuback)
    } else if T::IS_PINGREQ {
        Some(PacketType::Pingreq)
    } else if T::IS_PINGRESP {
        Some(PacketType::Pingresp)
    } else if T::IS_DISCONNECT {
        Some(PacketType::Disconnect)
    } else if T::IS_AUTH {
        Some(PacketType::Auth)
    } else {
        None
    }
}

/// Chooses the send operation for a packet of type `T` on a connection of
/// `version`: a packet of another protocol version is refused with
/// `VersionMismatch`; otherwise the result names the packet type and the version of
/// the handler that sends it.
pub fn dispatch_target<T: PacketKind + SendableVersion>(version: &Version) -> (r: Result<
    (PacketType, Version),
    MqttError,
>)
    requires
        *version == T::spec_version() ==> send_target::<T>() is Some,
    ensures
        *version != T::spec_version() ==> r == Err::<(PacketType, Version), MqttError>(
            MqttError::VersionMismatch,
        ),
        *version == T::spec_version() ==> r == Ok::<(PacketType, Version), MqttError>(
            send_target::<T>().unwrap(),
        ),
{
    if !T::check(version) {
        return Err(MqttError::VersionMismatch);
    }
    match packet_kind::<T>() {
        Some(PacketType::Auth) => Ok((PacketType::Auth, Version::V5_0)),
        Some(k) => {
            if T::IS_V3_1_1 {
                Ok((k, Version::V3_1_1))
            } else {
                Ok((k, Version::V5_0))
            }
        },
        // Excluded by the precondition.
        None => Err(MqttError::VersionMismatch),
    }
}

/// The packet type a packet is dispatched as is the one its flags name: a packet
/// goes to the handler of a type only when it carries that type's flag, and when
/// it carries several, to the one with the smallest type number (so a packet whose
/// only flag is `IS_PUBACK` goes to the PUBACK handler). A packet with no packet
/// flag has no handler.
pub proof fn lemma_dispatch_kind<T: PacketKind>()
    ensures
        kind_of::<T>() == Some(PacketType::Connect) ==> T::IS_CONNECT,
        kind_of::<T>() == Some(PacketType::Connack) ==> T::IS_CONNACK,
        kind_of::<T>() == Some(PacketType::Publish) ==> T::IS_PUBLISH,
        kind_of::<T>() == Some(PacketType::Puback) ==> T::IS_PUBACK,
        kind_of::<T>() == Some(PacketType::Pubrec) ==> T::IS_PUBREC,
        kind_of::<T>() == Some(PacketType::Pubrel) ==> T::IS_PUBREL,
        kind_of::<T>() == Some(PacketType::Pubcomp) ==> T::IS_PUBCOMP,
        kind_of::<T>() == Some(PacketType::Subscribe) ==> T::IS_SUBSCRIBE,
        kind_of::<T>() == Some(PacketType::Suback) ==> T::IS_SUBACK,
        kind_of::<T>() == Some(PacketType::Unsubscribe) ==> T::IS_UNSUBSCRIBE,
        kind_of::<T>() == Some(PacketType::Unsuback) ==> T::IS_UNSUBACK,
        kind_of::<T>() == Some(PacketType::Pingreq) ==> T::IS_PINGREQ,
        kind_of::<T>() == Some(PacketType::Pingresp) ==> T::IS_PINGRESP,
        kind_of::<T>() == Some(PacketType::Disconnect) ==> T::IS_DISCONNECT,
        kind_of::<T>() == Some(PacketType::Auth) ==> T::IS_AUTH,
        T::IS_CONNECT ==> (kind_of::<T>() matches Some(k) && k.spec_u8() <= 1),
        T::IS_CONNACK ==> (kind_of::<T>() matches Some(k) && k.spec_u8() <= 2),
        T::IS_PUBLISH ==> (kind_of::<T>() matches Some(k) && k.spec_u8() <= 3),
        T::IS_PUBACK ==> (kind_of::<T>() matches Some(k) && k.spec_u8() <= 4),
        T::IS_PUBREC ==> (kind_of::<T>() matches Some(k) && k.spec_u8() <= 5),
        T::IS_PUBREL ==> (kind_of::<T>() matches Some(k) && k.spec_u8() <= 6),
        T::IS_PUBCOMP ==> (kind_of::<T>() matches Some(k) && k.spec_u8() <= 7),
        T::IS_SUBSCRIBE ==> (kind_of::<T>() matches Some(k) && k.spec_u8() <= 8),
        T::IS_SUBACK ==> (kind_of::<T>() matches Some(k) && k.spec_u8() <= 9),
        T::IS_UNSUBSCRIBE ==> (kind_of::<T>() matches Some(k) && k.spec_u8() <= 10),
        T::IS_UNSUBACK ==> (kind_of::<T>() matches Some(k) && k.spec_u8() <= 11),
        T::IS_PINGREQ ==> (kind_of::<T>() matches Some(k) && k.spec_u8() <= 12),
        T::IS_PINGRESP ==> (kind_of::<T>() matches Some(k) && k.spec_u8() <= 13),
        T::IS_DISCONNECT ==> (kind_of::<T>() matches Some(k) && k.spec_u8() <= 14),
        T::IS_AUTH ==> (kind_of::<T>() matches Some(k) && k.spec_u8() <= 15),
        kind_of::<T>() is None ==> !(T::IS_CONNECT || T::IS_CONNACK || T::IS_PUBLISH || T::IS_PUBACK || T::IS_PUBREC || T::IS_PUBREL || T::IS_PUBCOMP || T::IS_SUBSCRIBE || T::IS_SUBACK || T::IS_UNSUBSCRIBE || T::IS_UNSUBACK || T::IS_PINGREQ || T::IS_PINGRESP || T::IS_DISCONNECT || T::IS_AUTH),
{
}

/// The handler's version is one the packet's flags name: v3.1.1 when the packet
/// carries the v3.1.1 flag (except AUTH, which exists in v5.0 only), otherwise
/// v5.0 when it carries that flag.
pub proof fn lemma_dispatch_version<T: PacketKind>()
    ensures
        send_target::<T>() matches Some((k, v)) ==> (kind_of::<T>() == Some(k) && (v
            == Version::V3_1_1 ==> T::IS_V3_1_1) && (v == Version::V5_0 ==> T::IS_V5_0)),
        (kind_of::<T>() matches Some(k) && k != PacketType::Auth && T::IS_V3_1_1)
            ==> send_target::<T>() == Some((kind_of::<T>().unwrap(), Version::V3_1_1)),
        (kind_of::<T>() matches Some(k) && k != PacketType::Auth && !T::IS_V3_1_1 && T::IS_V5_0)
            ==> send_target::<T>() == Some((kind_of::<T>().unwrap(), Version::V5_0)),
        kind_of::<T>() == Some(PacketType::Auth) && T::IS_V5_0 ==> send_target::<T>() == Some(
            (PacketType::Auth, Version::V5_0),
        ),
{
}

/// A v3.1.1 packet of a known type is accepted on a v3.1.1 connection and goes to
/// its type's v3.1.1 handler; on any other connection it is refused with
/// `VersionMismatch` (the contract of [`dispatch_target`] with these facts).
pub proof fn lemma_dispatch_v3_1_1<T: SendableVersion>()
    requires
        T::IS_V3_1_1,
        !T::IS_V5_0,
        kind_of::<T>() is Some,
        kind_of::<T>() != Some(PacketType::Auth),
    ensures
        T::spec_version() == Version::V3_1_1,
        send_target::<T>() == Some((kind_of::<T>().unwrap(), Version::V3_1_1)),
{
    T::lemma_version_follows_kind();
}

} // verus!
