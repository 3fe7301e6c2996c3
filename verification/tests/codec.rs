use mqtt_protocol_core::mqtt::packet::{
    FixedHeader, GenericMqttString, MqttBinary, MqttString, PacketType, Qos, RetainHandling, SubEntry, SubOpts,
    VariableByteInteger,
};
use mqtt_protocol_core::mqtt::result_code::{
    ConnectReturnCode, MqttError, PubackReasonCode, PubcompReasonCode, PubrecReasonCode,
    SubackReturnCode,
};

#[test]
fn vbi_encodings_at_size_boundaries() {
    let cases: [(u32, &[u8]); 8] = [
        (0, &[0x00]),
        (127, &[0x7f]),
        (128, &[0x80, 0x01]),
        (16383, &[0xff, 0x7f]),
        (16384, &[0x80, 0x80, 0x01]),
        (2097151, &[0xff, 0xff, 0x7f]),
        (2097152, &[0x80, 0x80, 0x80, 0x01]),
        (268435455, &[0xff, 0xff, 0xff, 0x7f]),
    ];
    for (v, bytes) in cases.iter() {
        let x = VariableByteInteger::from_u32(*v).unwrap();
        assert_eq!(x.as_bytes(), *bytes);
        assert_eq!(x.size(), bytes.len());
        assert_eq!(x.to_u32(), *v);
        let (y, n) = VariableByteInteger::decode(bytes).unwrap();
        assert_eq!(n, bytes.len());
        assert_eq!(y.to_u32(), *v);
    }
    assert!(VariableByteInteger::from_u32(268435456).is_none());
    assert_eq!(VariableByteInteger::from_value(300).as_bytes(), &[0xac, 0x02]);
}

#[test]
fn vbi_decode_errors_and_trailing_bytes() {
    assert_eq!(VariableByteInteger::decode(&[]).unwrap_err(), MqttError::MalformedPacket);
    assert_eq!(VariableByteInteger::decode(&[0x80]).unwrap_err(), MqttError::MalformedPacket);
    assert_eq!(
        VariableByteInteger::decode(&[0x80, 0x80, 0x80, 0x80, 0x01]).unwrap_err(),
        MqttError::MalformedPacket
    );
    let (x, n) = VariableByteInteger::decode(&[0x05, 0xff, 0xff]).unwrap();
    assert_eq!(n, 1);
    assert_eq!(x.to_u32(), 5);
    let c = x.clone();
    assert_eq!(c.to_u32(), 5);
}

#[test]
fn mqtt_string_round_trip() {
    let s = MqttString::new("héllo").unwrap();
    assert_eq!(s.as_str(), "héllo");
    assert_eq!(s.len(), 6);
    assert_eq!(s.size(), 8);
    assert!(!s.is_empty());
    let wire = s.to_continuous_buffer();
    assert_eq!(&wire[..2], &[0x00, 0x06]);
    assert_eq!(s.as_bytes(), &wire[..]);
    let mut data = wire.clone();
    data.extend_from_slice(&[0xaa, 0xbb]);
    let (d, n) = MqttString::decode(&data).unwrap();
    assert_eq!(n, 8);
    assert_eq!(d.as_str(), "héllo");
    assert!(d.contains('é'));
    assert!(d.starts_with("hé"));
    assert!(d.ends_with("llo"));
    assert!(!d.starts_with("llo"));
    assert!(!d.ends_with("hé"));
    assert!(!d.contains('z'));
    let (again, m) = MqttString::decode(s.as_bytes()).unwrap();
    assert_eq!(m, s.size());
    assert_eq!(again, s);
    let e = MqttString::default();
    assert!(e.is_empty());
    assert_eq!(e.to_continuous_buffer(), vec![0x00, 0x00]);
    assert_eq!(s.clone().as_str(), "héllo");
}

#[test]
fn mqtt_string_errors() {
    let long = "a".repeat(65536);
    assert_eq!(MqttString::new(&long).unwrap_err(), MqttError::MalformedPacket);
    let max = "b".repeat(65535);
    assert_eq!(MqttString::new(&max).unwrap().size(), 65537);
    assert_eq!(MqttString::decode(&[0x00]).unwrap_err(), MqttError::MalformedPacket);
    assert_eq!(MqttString::decode(&[0x00, 0x03, b'a']).unwrap_err(), MqttError::MalformedPacket);
    assert_eq!(MqttString::decode(&[0x00, 0x01, 0xff]).unwrap_err(), MqttError::MalformedPacket);
}

#[test]
fn mqtt_binary_round_trip_and_errors() {
    let b = MqttBinary::new(&[1, 2, 3]).unwrap();
    assert_eq!(b.as_slice(), &[1, 2, 3]);
    assert_eq!(b.as_bytes(), &[0x00, 0x03, 1, 2, 3]);
    assert_eq!(b.len(), 3);
    assert_eq!(b.size(), 5);
    assert!(!b.is_empty());
    let (d, n) = MqttBinary::decode(&[0x00, 0x02, 0xff, 0xfe, 0x00]).unwrap();
    assert_eq!(n, 4);
    assert_eq!(d.as_slice(), &[0xff, 0xfe]);
    assert_eq!(MqttBinary::decode(&[0x00, 0x02, 0x01]).unwrap_err(), MqttError::MalformedPacket);
    assert_eq!(MqttBinary::new(&vec![0u8; 65536]).unwrap_err(), MqttError::MalformedPacket);
    assert!(MqttBinary::default().is_empty());
}

#[test]
fn sub_opts_fields() {
    let o = SubOpts::new();
    assert_eq!(o.to_u8(), 0);
    let o = o
        .set_qos(Qos::ExactlyOnce)
        .set_nl(true)
        .set_rap(true)
        .set_retain_handling(RetainHandling::DoNotSendRetained);
    assert_eq!(o.to_u8(), 0b0010_1110);
    assert_eq!(o.qos(), Qos::ExactlyOnce);
    assert!(o.nl());
    assert!(o.rap());
    assert_eq!(o.retain_handling(), RetainHandling::DoNotSendRetained);
    let o = o.set_nl(false).set_qos(Qos::AtLeastOnce);
    assert_eq!(o.to_u8(), 0b0010_1001);
    assert_eq!(SubOpts::from_u8(0x19).unwrap().to_u8(), 0x19);
    assert_eq!(SubOpts::from_u8(0x03).unwrap_err(), MqttError::MalformedPacket);
    assert_eq!(SubOpts::from_u8(0x30).unwrap_err(), MqttError::MalformedPacket);
    assert_eq!(SubOpts::from_u8(0x40).unwrap_err(), MqttError::MalformedPacket);
}

#[test]
fn sub_entry_round_trip() {
    let e = SubEntry::new("a/#", SubOpts::new().set_qos(Qos::AtLeastOnce)).unwrap();
    assert_eq!(e.topic_filter(), "a/#");
    assert_eq!(e.sub_opts().qos(), Qos::AtLeastOnce);
    assert_eq!(e.size(), 6);
    let wire = e.to_continuous_buffer();
    assert_eq!(wire, vec![0x00, 0x03, b'a', b'/', b'#', 0x01]);
    let (p, n) = SubEntry::parse(&wire).unwrap();
    assert_eq!(n, 6);
    assert_eq!(p, e);
    assert_eq!(SubEntry::parse(&wire[..5]).unwrap_err(), MqttError::MalformedPacket);
    assert_eq!(
        SubEntry::parse(&[0x00, 0x01, b'x', 0xc0]).unwrap_err(),
        MqttError::MalformedPacket
    );
    assert_eq!(e.clone(), e);
}

#[test]
fn packet_type_numbers_names_and_headers() {
    assert_eq!(PacketType::Connect.as_u8(), 1);
    assert_eq!(PacketType::Auth.as_u8(), 15);
    assert_eq!(PacketType::try_from_u8(9), Some(PacketType::Suback));
    assert_eq!(PacketType::try_from_u8(0), None);
    assert_eq!(PacketType::try_from_u8(16), None);
    assert_eq!(PacketType::Unsubscribe.as_str(), "unsubscribe");
    assert_eq!(PacketType::Pubrel.to_fixed_header(), FixedHeader::Pubrel);
    assert_eq!(FixedHeader::Pubrel.as_u8(), 0x62);
    assert_eq!(FixedHeader::Subscribe.as_u8(), 0x82);
    assert_eq!(FixedHeader::Unsubscribe.as_u8(), 0xa2);
    assert_eq!(FixedHeader::Connack.as_u8(), 0x20);
    assert_eq!(FixedHeader::Subscribe.packet_type(), PacketType::Subscribe);
    assert_eq!(FixedHeader::Pingresp.as_str(), "pingresp");
}

#[test]
fn qos_and_retain_handling_codes() {
    assert_eq!(Qos::try_from_u8(2), Some(Qos::ExactlyOnce));
    assert_eq!(Qos::try_from_u8(3), None);
    assert_eq!(Qos::AtLeastOnce.to_u8(), 1);
    assert_eq!(Qos::AtMostOnce.as_str(), "AtMostOnce");
    assert_eq!(RetainHandling::try_from_u8(1), Some(RetainHandling::SendRetainedIfNotExists));
    assert_eq!(RetainHandling::try_from_u8(3), None);
    assert_eq!(RetainHandling::default(), RetainHandling::SendRetained);
    assert_eq!(RetainHandling::DoNotSendRetained.to_u8(), 2);
    assert_eq!(RetainHandling::SendRetained.as_str(), "SendRetained");
}

#[test]
fn result_code_values() {
    assert_eq!(ConnectReturnCode::NotAuthorized.to_u8(), 5);
    assert_eq!(ConnectReturnCode::try_from_u8(2), Some(ConnectReturnCode::IdentifierRejected));
    assert_eq!(ConnectReturnCode::try_from_u8(6), None);
    assert_eq!(PubackReasonCode::PayloadFormatInvalid.to_u8(), 0x99);
    assert_eq!(PubackReasonCode::try_from_u8(0x10), Some(PubackReasonCode::NoMatchingSubscribers));
    assert_eq!(PubackReasonCode::try_from_u8(0x11), None);
    assert_eq!(PubrecReasonCode::QuotaExceeded.to_u8(), 0x97);
    assert_eq!(PubrecReasonCode::try_from_u8(0x87), Some(PubrecReasonCode::NotAuthorized));
    assert_eq!(PubcompReasonCode::try_from_u8(0x92), Some(PubcompReasonCode::PacketIdentifierNotFound));
    assert_eq!(PubcompReasonCode::try_from_u8(0x01), None);
    assert_eq!(SubackReturnCode::Failure.to_u8(), 0x80);
    assert_eq!(SubackReturnCode::try_from_u8(0x02), Some(SubackReturnCode::SuccessMaximumQos2));
    assert_eq!(SubackReturnCode::try_from_u8(0x03), None);
}

#[test]
fn mqtt_string_inline_storage() {
    let small = MqttString::new("hi").unwrap();
    assert!(matches!(small, GenericMqttString::Small(..)));
    let fits = MqttString::new(&"a".repeat(30)).unwrap();
    assert!(matches!(fits, GenericMqttString::Small(_, 32)));
    let large = MqttString::new(&"a".repeat(31)).unwrap();
    assert!(matches!(large, GenericMqttString::Large(_)));
    assert_eq!(large.size(), 33);
    assert_eq!(large.as_str(), "a".repeat(31));
    let (d, n) = MqttString::decode(large.as_bytes()).unwrap();
    assert_eq!(n, 33);
    assert!(matches!(d, GenericMqttString::Large(_)));
    let (e, _) = MqttString::decode(small.as_bytes()).unwrap();
    assert!(matches!(e, GenericMqttString::Small(..)));
    assert_eq!(e.as_str(), "hi");
    assert!(matches!(MqttString::default(), GenericMqttString::Small(_, 2)));
    assert!(matches!(small.clone(), GenericMqttString::Small(..)));
    assert!(matches!(large.clone(), GenericMqttString::Large(_)));
}
