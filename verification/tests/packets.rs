use mqtt_protocol_core::mqtt::packet::v3_1_1::{
    Connack, Disconnect, GenericUnsuback, Pingresp, Puback, Pubcomp, Pubrec, Suback, Subscribe,
    Unsuback,
};
use mqtt_protocol_core::mqtt::packet::{PacketType, Qos, SubEntry, SubOpts};
use mqtt_protocol_core::mqtt::result_code::{
    ConnectReturnCode, MqttError, PubackReasonCode, PubcompReasonCode, PubrecReasonCode,
    SubackReturnCode,
};

#[test]
fn connack_build_serialize_parse() {
    let c = Connack::builder()
        .session_present(true)
        .return_code(ConnectReturnCode::Accepted)
        .build()
        .unwrap();
    assert!(c.session_present());
    assert_eq!(c.return_code(), ConnectReturnCode::Accepted);
    assert_eq!(c.size(), 4);
    assert_eq!(c.to_continuous_buffer(), vec![0x20, 0x02, 0x01, 0x00]);
    assert_eq!(Connack::packet_type(), PacketType::Connack);
    let (p, n) = Connack::parse(&[0x01, 0x00]).unwrap();
    assert_eq!(n, 2);
    assert_eq!(p, c);
    assert_eq!(p.clone(), c);
}

#[test]
fn connack_errors_and_flag_bits() {
    assert_eq!(Connack::parse(&[0x00]).unwrap_err(), MqttError::MalformedPacket);
    assert_eq!(Connack::parse(&[0x00, 0x06]).unwrap_err(), MqttError::MalformedPacket);
    let (p, _) = Connack::parse(&[0xff, 0x05]).unwrap();
    assert!(p.session_present());
    assert_eq!(p.return_code(), ConnectReturnCode::NotAuthorized);
}

#[test]
fn connack_builder_defaults() {
    let c = Connack::builder().build().unwrap();
    assert!(!c.session_present());
    assert_eq!(c.return_code(), ConnectReturnCode::Accepted);
    assert_eq!(c.size(), 4);
    assert_eq!(c.to_continuous_buffer(), vec![0x20, 0x02, 0x00, 0x00]);
    let d = Connack::builder().session_present(true).build().unwrap();
    assert!(d.session_present());
    assert_eq!(d.return_code(), ConnectReturnCode::Accepted);
    let e = Connack::builder().return_code(ConnectReturnCode::ServerUnavailable).build().unwrap();
    assert!(!e.session_present());
    assert_eq!(e.return_code(), ConnectReturnCode::ServerUnavailable);
}

#[test]
fn disconnect_and_pingresp_are_bare_headers() {
    let d = Disconnect::new();
    assert_eq!(d.size(), 2);
    assert_eq!(d.to_continuous_buffer(), vec![0xe0, 0x00]);
    assert_eq!(Disconnect::parse(&[]).unwrap(), (Disconnect::new(), 0));
    assert_eq!(Disconnect::builder().build().unwrap(), d);
    assert_eq!(Disconnect::packet_type(), PacketType::Disconnect);
    let p = Pingresp::new();
    assert_eq!(p.size(), 2);
    assert_eq!(p.to_continuous_buffer(), vec![0xd0, 0x00]);
    assert_eq!(Pingresp::parse(&[]).unwrap(), (Pingresp::new(), 0));
    assert_eq!(Pingresp::builder().build().unwrap(), p);
    assert_eq!(Pingresp::packet_type(), PacketType::Pingresp);
}

#[test]
fn puback_with_and_without_reason_code() {
    let a = Puback::builder().packet_id(0x1234).build().unwrap();
    assert_eq!(a.packet_id(), 0x1234);
    assert_eq!(a.reason_code(), None);
    assert_eq!(a.size(), 4);
    assert_eq!(a.to_continuous_buffer(), vec![0x40, 0x02, 0x12, 0x34]);
    let b = Puback::builder()
        .packet_id(0x1234)
        .reason_code(PubackReasonCode::NotAuthorized)
        .build()
        .unwrap();
    assert_eq!(b.reason_code(), Some(PubackReasonCode::NotAuthorized));
    assert_eq!(b.to_continuous_buffer(), vec![0x40, 0x03, 0x12, 0x34, 0x87]);
    let (p, n) = Puback::parse(&[0x12, 0x34, 0x87, 0xff]).unwrap();
    assert_eq!(n, 3);
    assert_eq!(p, b);
    let (q, m) = Puback::parse(&[0x12, 0x34]).unwrap();
    assert_eq!(m, 2);
    assert_eq!(q, a);
}

#[test]
fn puback_errors() {
    assert_eq!(Puback::parse(&[0x12]).unwrap_err(), MqttError::MalformedPacket);
    assert_eq!(Puback::parse(&[0x00, 0x00]).unwrap_err(), MqttError::MalformedPacket);
    assert_eq!(Puback::parse(&[0x00, 0x01, 0x01]).unwrap_err(), MqttError::MalformedPacket);
    assert_eq!(Puback::builder().build().unwrap_err(), MqttError::MalformedPacket);
    assert_eq!(Puback::builder().packet_id(0).build().unwrap_err(), MqttError::MalformedPacket);
}

#[test]
fn pubrec_and_pubcomp_round_trip() {
    let r = Pubrec::builder()
        .packet_id(7)
        .reason_code(PubrecReasonCode::QuotaExceeded)
        .build()
        .unwrap();
    assert_eq!(r.to_continuous_buffer(), vec![0x50, 0x03, 0x00, 0x07, 0x97]);
    assert_eq!(Pubrec::parse(&[0x00, 0x07, 0x97]).unwrap(), (r, 3));
    assert_eq!(Pubrec::parse(&[0x00, 0x07, 0x02]).unwrap_err(), MqttError::MalformedPacket);
    let c = Pubcomp::builder().packet_id(65535).build().unwrap();
    assert_eq!(c.size(), 4);
    assert_eq!(c.to_continuous_buffer(), vec![0x70, 0x02, 0xff, 0xff]);
    assert_eq!(Pubcomp::parse(&[0xff, 0xff]).unwrap(), (c, 2));
    let d = Pubcomp::builder()
        .packet_id(1)
        .reason_code(PubcompReasonCode::PacketIdentifierNotFound)
        .build()
        .unwrap();
    assert_eq!(d.to_continuous_buffer(), vec![0x70, 0x03, 0x00, 0x01, 0x92]);
    assert_eq!(Pubcomp::parse(&[0x00, 0x01, 0x80]).unwrap_err(), MqttError::MalformedPacket);
    assert_eq!(Pubrec::builder().build().unwrap_err(), MqttError::MalformedPacket);
}

#[test]
fn suback_round_trip_and_errors() {
    let s = Suback::builder()
        .packet_id(1)
        .return_codes(vec![SubackReturnCode::SuccessMaximumQos1, SubackReturnCode::Failure])
        .build()
        .unwrap();
    assert_eq!(s.packet_id(), 1);
    assert_eq!(
        s.return_codes(),
        vec![SubackReturnCode::SuccessMaximumQos1, SubackReturnCode::Failure]
    );
    assert_eq!(s.size(), 6);
    assert_eq!(s.to_continuous_buffer(), vec![0x90, 0x04, 0x00, 0x01, 0x01, 0x80]);
    assert_eq!(Suback::parse(&[0x00, 0x01, 0x01, 0x80]).unwrap(), (s, 4));
    assert_eq!(Suback::parse(&[0x00, 0x01]).unwrap_err(), MqttError::ProtocolError);
    assert_eq!(Suback::parse(&[0x00]).unwrap_err(), MqttError::MalformedPacket);
    assert_eq!(Suback::parse(&[0x00, 0x01, 0x03]).unwrap_err(), MqttError::MalformedPacket);
    assert_eq!(Suback::parse(&[0x00, 0x00, 0x00]).unwrap_err(), MqttError::MalformedPacket);
    assert_eq!(Suback::parse(&[0x00, 0x00]).unwrap_err(), MqttError::MalformedPacket);
    let (t, n) = Suback::parse(&[0x00, 0x10, 0x00]).unwrap();
    assert_eq!(n, 3);
    assert_eq!(t.packet_id(), 16);
    assert_eq!(
        Suback::builder().packet_id(1).return_codes(vec![]).build().unwrap_err(),
        MqttError::ProtocolError
    );
    assert_eq!(
        Suback::builder().return_codes(vec![SubackReturnCode::Failure]).build().unwrap_err(),
        MqttError::MalformedPacket
    );
}

#[test]
fn subscribe_round_trip_and_errors() {
    let e1 = SubEntry::new("a", SubOpts::new().set_qos(Qos::AtLeastOnce)).unwrap();
    let e2 = SubEntry::new("b/c", SubOpts::new()).unwrap();
    let s = Subscribe::builder().packet_id(10).entries(vec![e1, e2]).build().unwrap();
    assert_eq!(s.packet_id(), 10);
    assert_eq!(s.entries().len(), 2);
    assert_eq!(s.entries()[1].topic_filter(), "b/c");
    let wire = s.to_continuous_buffer();
    assert_eq!(
        wire,
        vec![0x82, 0x0c, 0x00, 0x0a, 0x00, 0x01, b'a', 0x01, 0x00, 0x03, b'b', b'/', b'c', 0x00]
    );
    assert_eq!(s.size(), wire.len());
    let (p, n) = Subscribe::parse(&wire[2..]).unwrap();
    assert_eq!(n, wire.len() - 2);
    assert_eq!(p, s);
    assert_eq!(Subscribe::parse(&[0x00, 0x0a]).unwrap_err(), MqttError::ProtocolError);
    assert_eq!(
        Subscribe::parse(&[0x00, 0x0a, 0x00, 0x01, b'a']).unwrap_err(),
        MqttError::MalformedPacket
    );
    assert_eq!(
        Subscribe::builder().packet_id(10).entries(vec![]).build().unwrap_err(),
        MqttError::ProtocolError
    );
    assert_eq!(Subscribe::builder().build().unwrap_err(), MqttError::MalformedPacket);
}

#[test]
fn unsuback_round_trip_and_errors() {
    let u = Unsuback::builder().packet_id(5).build().unwrap();
    assert_eq!(u.packet_id(), 5);
    assert_eq!(u.to_continuous_buffer(), vec![0xb0, 0x02, 0x00, 0x05]);
    assert_eq!(u.size(), 4);
    assert_eq!(Unsuback::parse(&[0x00, 0x05, 0x99]).unwrap(), (u, 2));
    assert_eq!(Unsuback::parse(&[0x00]).unwrap_err(), MqttError::MalformedPacket);
    assert_eq!(Unsuback::parse(&[0x00, 0x00]).unwrap_err(), MqttError::MalformedPacket);
    let (v, n) = Unsuback::parse(&[0x00, 0x10]).unwrap();
    assert_eq!(n, 2);
    assert_eq!(v.packet_id(), 16);
    assert_eq!(Unsuback::builder().packet_id(0).build().unwrap_err(), MqttError::MalformedPacket);
}

#[test]
fn unsuback_with_wide_packet_id() {
    let u = GenericUnsuback::<u32>::builder().packet_id(42).build().unwrap();
    assert_eq!(u.packet_id(), 42);
    assert_eq!(u.size(), 6);
    assert_eq!(u.to_continuous_buffer(), vec![0xb0, 0x04, 0x00, 0x00, 0x00, 0x2a]);
    let (p, n) = GenericUnsuback::<u32>::parse(&[0x00, 0x00, 0x00, 0x2a]).unwrap();
    assert_eq!(n, 4);
    assert_eq!(p, u);
}

#[test]
fn serialised_bodies_parse_back() {
    let c = Connack::builder()
        .session_present(false)
        .return_code(ConnectReturnCode::BadUserNameOrPassword)
        .build()
        .unwrap();
    let buf = c.to_continuous_buffer();
    assert_eq!(buf, vec![0x20, 0x02, 0x00, 0x04]);
    assert_eq!(Connack::parse(&buf[2..]).unwrap(), (c, 2));

    let e = SubEntry::new("x/y", SubOpts::new().set_qos(Qos::ExactlyOnce)).unwrap();
    let s = Subscribe::builder().packet_id(300).entries(vec![e]).build().unwrap();
    let buf = s.to_continuous_buffer();
    assert_eq!(buf.len(), s.size());
    assert_eq!(&buf[..4], &[0x82, 0x08, 0x01, 0x2c]);
    assert_eq!(Subscribe::parse(&buf[2..]).unwrap(), (s, buf.len() - 2));

    let r = Pubrec::builder().packet_id(9).build().unwrap();
    let buf = r.to_continuous_buffer();
    assert_eq!(buf.len(), r.size());
    assert_eq!(Pubrec::parse(&buf[2..]).unwrap(), (r, 2));
}

#[test]
fn subscribe_clone_keeps_bytes() {
    let e = SubEntry::new("t/1", SubOpts::new()).unwrap();
    let s = Subscribe::builder().packet_id(2).entries(vec![e]).build().unwrap();
    let c = s.clone();
    assert_eq!(c, s);
    assert_eq!(c.to_continuous_buffer(), s.to_continuous_buffer());
}
