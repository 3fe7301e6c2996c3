use mqtt_protocol_core::mqtt::common::Cursor;
use mqtt_protocol_core::mqtt::connection::{PacketBuildResult, PacketBuilder, PacketData};
use mqtt_protocol_core::mqtt::result_code::MqttError;

fn complete(r: PacketBuildResult) -> mqtt_protocol_core::mqtt::connection::RawPacket {
    match r {
        PacketBuildResult::Complete(p) => p,
        other => panic!("expected a complete packet, got {:?}", other),
    }
}

#[test]
fn builder_reads_whole_frame_at_once() {
    let bytes = [0x40u8, 0x02, 0x00, 0x01];
    let mut b = PacketBuilder::new();
    let mut c = Cursor::new(&bytes);
    let p = complete(b.feed(&mut c));
    assert_eq!(p.packet_type(), 4);
    assert_eq!(p.flags(), 0);
    assert!(!p.is_publish());
    assert_eq!(p.remaining_length(), 2);
    assert_eq!(p.data_as_slice(), &[0x00, 0x01]);
    assert_eq!(c.position(), 4);
    assert!(matches!(p.data, PacketData::Normal(_)));
}

#[test]
fn builder_reads_frame_byte_by_byte() {
    let bytes = [0x90u8, 0x03, 0x00, 0x07, 0x01];
    let mut b = PacketBuilder::new();
    for i in 0..bytes.len() - 1 {
        let mut c = Cursor::new(&bytes[i..i + 1]);
        assert!(matches!(b.feed(&mut c), PacketBuildResult::Incomplete));
        assert_eq!(c.position(), 1);
    }
    let last = [bytes[bytes.len() - 1]];
    let mut c = Cursor::new(&last);
    let p = complete(b.feed(&mut c));
    assert_eq!(p.packet_type(), 9);
    assert_eq!(p.data_as_slice(), &[0x00, 0x07, 0x01]);
}

#[test]
fn builder_stops_after_one_frame() {
    let bytes = [0xd0u8, 0x00, 0xe0, 0x00];
    let mut b = PacketBuilder::new();
    let mut c = Cursor::new(&bytes);
    let p = complete(b.feed(&mut c));
    assert_eq!(p.packet_type(), 13);
    assert_eq!(p.remaining_length(), 0);
    assert_eq!(c.position(), 2);
    let q = complete(b.feed(&mut c));
    assert_eq!(q.packet_type(), 14);
    assert_eq!(c.position(), 4);
}

#[test]
fn builder_shares_publish_body() {
    let bytes = [0x30u8, 0x05, 0x00, 0x01, b'a', b'h', b'i'];
    let mut b = PacketBuilder::new();
    let mut c = Cursor::new(&bytes);
    let p = complete(b.feed(&mut c));
    assert!(p.is_publish());
    assert!(matches!(p.data, PacketData::Publish(_)));
    assert_eq!(p.data_as_slice(), &[0x00, 0x01, b'a', b'h', b'i']);
}

#[test]
fn builder_two_byte_remaining_length() {
    let mut bytes = vec![0x30u8, 0x80, 0x01];
    bytes.extend(std::iter::repeat(7u8).take(128));
    let mut b = PacketBuilder::new();
    let mut c = Cursor::new(&bytes);
    let p = complete(b.feed(&mut c));
    assert_eq!(p.remaining_length(), 128);
    assert_eq!(p.data_as_slice().len(), 128);
}

#[test]
fn builder_accepts_four_byte_remaining_length() {
    let bytes = [0x30u8, 0x80, 0x80, 0x80, 0x01];
    let mut b = PacketBuilder::new();
    let mut c = Cursor::new(&bytes);
    assert!(matches!(b.feed(&mut c), PacketBuildResult::Incomplete));
    assert_eq!(c.position(), 5);
}

#[test]
fn builder_four_byte_remaining_length_small_body() {
    let bytes = [0x90u8, 0x83, 0x80, 0x80, 0x00, 0x00, 0x01, 0x00];
    let mut b = PacketBuilder::new();
    let mut c = Cursor::new(&bytes);
    let p = complete(b.feed(&mut c));
    assert_eq!(p.remaining_length(), 3);
    assert_eq!(p.data_as_slice(), &[0x00, 0x01, 0x00]);
}

#[test]
fn builder_refuses_fifth_remaining_length_byte() {
    let bytes = [0x30u8, 0x80, 0x80, 0x80, 0x80, 0x01, 0x00];
    let mut b = PacketBuilder::new();
    let mut c = Cursor::new(&bytes);
    match b.feed(&mut c) {
        PacketBuildResult::Error(e) => assert_eq!(e, MqttError::MalformedPacket),
        other => panic!("expected an error, got {:?}", other),
    }
    assert_eq!(c.position(), 6);
    let again = [0xc0u8, 0x00];
    let mut c2 = Cursor::new(&again);
    let p = complete(b.feed(&mut c2));
    assert_eq!(p.packet_type(), 12);
}

#[test]
fn builder_empty_input_and_reset() {
    let mut b = PacketBuilder::new();
    let empty: [u8; 0] = [];
    let mut c = Cursor::new(&empty);
    assert!(matches!(b.feed(&mut c), PacketBuildResult::Incomplete));
    let part = [0x40u8, 0x02, 0x00];
    let mut c = Cursor::new(&part);
    assert!(matches!(b.feed(&mut c), PacketBuildResult::Incomplete));
    b.reset();
    let whole = [0xb0u8, 0x02, 0x00, 0x05];
    let mut c = Cursor::new(&whole);
    let p = complete(b.feed(&mut c));
    assert_eq!(p.packet_type(), 11);
    assert_eq!(p.data_as_slice(), &[0x00, 0x05]);
}

#[test]
fn packet_data_lengths() {
    let d = PacketData::Normal(vec![1, 2, 3]);
    assert_eq!(d.len(), 3);
    assert!(!d.is_empty());
    assert_eq!(d.as_slice(), &[1, 2, 3]);
    let e = PacketData::Normal(Vec::new());
    assert!(e.is_empty());
}

#[test]
fn cursor_reads_and_repositions() {
    let data = [1u8, 2, 3];
    let mut c = Cursor::new(&data);
    assert_eq!(c.remaining(), 3);
    assert_eq!(c.read_byte(), Some(1));
    assert_eq!(c.position(), 1);
    c.set_position(3);
    assert_eq!(c.read_byte(), None);
    assert_eq!(c.remaining(), 0);
    c.set_position(10);
    assert_eq!(c.remaining(), 0);
    assert_eq!(c.get_ref(), &[1, 2, 3]);
}
