use mqtt_protocol_core::mqtt::connection::{
    dispatch_target, Any, Client, ConnectionOptions, RoleType, SendableRole, SendableVersion,
    Server, TimerKind, Version, MQTT_PACKET_SIZE_NO_LIMIT,
};
use mqtt_protocol_core::mqtt::packet::v3_1_1::{Connack, Disconnect, Pingresp, Puback, Suback};
use mqtt_protocol_core::mqtt::packet::{
    AsConcrete, IntoConcreteOwned, PacketKind, PacketType, ResponsePacket,
};
use mqtt_protocol_core::mqtt::result_code::MqttError;

#[test]
fn options_default_and_clamping() {
    assert_eq!(MQTT_PACKET_SIZE_NO_LIMIT, 268435460);
    let o = ConnectionOptions::new();
    assert_eq!(o.maximum_packet_size_recv, MQTT_PACKET_SIZE_NO_LIMIT);
    assert_eq!(ConnectionOptions::default(), o);
    assert_eq!(o.maximum_packet_size_recv(1024).maximum_packet_size_recv, 1024);
    assert_eq!(o.maximum_packet_size_recv(0).maximum_packet_size_recv, MQTT_PACKET_SIZE_NO_LIMIT);
    assert_eq!(
        o.maximum_packet_size_recv(u32::MAX).maximum_packet_size_recv,
        MQTT_PACKET_SIZE_NO_LIMIT
    );
    assert_eq!(
        o.maximum_packet_size_recv(MQTT_PACKET_SIZE_NO_LIMIT).maximum_packet_size_recv,
        MQTT_PACKET_SIZE_NO_LIMIT
    );
}

#[test]
fn role_flags() {
    assert!(Client::IS_CLIENT && !Client::IS_SERVER && !Client::IS_ANY);
    assert!(!Server::IS_CLIENT && Server::IS_SERVER && !Server::IS_ANY);
    assert!(!Any::IS_CLIENT && !Any::IS_SERVER && Any::IS_ANY);
}

fn may_send<R, P: SendableRole<R>>(_p: &P) -> bool {
    true
}

#[test]
fn sendable_roles_compile() {
    assert!(may_send::<Server, _>(&Pingresp::new()));
    assert!(may_send::<Any, _>(&Pingresp::new()));
    assert!(may_send::<Client, _>(&Disconnect::new()));
    let a = Puback::builder().packet_id(1).build().unwrap();
    assert!(may_send::<Client, _>(&a));
    assert!(may_send::<Server, _>(&a));
}

#[test]
fn packet_kind_flags() {
    assert!(Connack::IS_CONNACK && Connack::IS_V3_1_1 && !Connack::IS_V5_0);
    assert!(!Connack::IS_CONNECT);
    assert!(Suback::IS_SUBACK && !Suback::IS_SUBSCRIBE);
    assert!(<&Puback as PacketKind>::IS_PUBACK);
    assert!(<&Puback as PacketKind>::IS_V3_1_1);
}

#[test]
fn dispatch_target_checks_version_first() {
    assert_eq!(
        dispatch_target::<Connack>(&Version::V3_1_1),
        Ok((PacketType::Connack, Version::V3_1_1))
    );
    assert_eq!(
        dispatch_target::<Suback>(&Version::V3_1_1),
        Ok((PacketType::Suback, Version::V3_1_1))
    );
    assert_eq!(dispatch_target::<Connack>(&Version::V5_0), Err(MqttError::VersionMismatch));
    assert_eq!(
        dispatch_target::<Pingresp>(&Version::Undetermined),
        Err(MqttError::VersionMismatch)
    );
}

#[test]
fn version_levels_and_checks() {
    assert_eq!(Version::V3_1_1.level(), 4);
    assert_eq!(Version::V5_0.level(), 5);
    assert_eq!(Version::Undetermined.level(), 0);
    assert!(Puback::check(&Version::V3_1_1));
    assert!(!Puback::check(&Version::V5_0));
}

#[test]
fn enums_compare() {
    assert_ne!(TimerKind::PingreqSend, TimerKind::PingrespRecv);
    assert_eq!(ResponsePacket::V3_1_1Puback, ResponsePacket::V3_1_1Puback);
    assert_ne!(ResponsePacket::V5_0Pubrec, ResponsePacket::V3_1_1Pubrec);
}

#[test]
fn concrete_identity() {
    let p = Pingresp::new();
    assert_eq!(AsConcrete::<Pingresp>::as_concrete(&p), Some(&Pingresp::new()));
    assert_eq!(IntoConcreteOwned::<Pingresp>::into_concrete_owned(p), Some(Pingresp::new()));
}
