use mqtt_protocol_core::mqtt::arc_payload::{ArcPayload, IntoPayload};
use std::sync::Arc;

#[test]
fn struct_payload_views_buffer() {
    let data: Arc<[u8]> = Arc::from(vec![0u8, 1, 2, 3, 4]);
    let p = ArcPayload::new(data, 1, 3);
    assert_eq!(p.as_slice(), &[1, 2, 3]);
    assert_eq!(p.len(), 3);
    assert!(!p.is_empty());
    assert_eq!(&p.arc_data()[..], &[0, 1, 2, 3, 4]);
    let q = p.clone();
    assert_eq!(q.as_slice(), &[1, 2, 3]);
}

#[test]
fn struct_payload_default_is_empty() {
    let p = ArcPayload::default();
    assert!(p.is_empty());
    assert_eq!(p.len(), 0);
    assert_eq!(p.as_slice(), &[] as &[u8]);
}

#[test]
fn struct_payload_conversions() {
    assert_eq!("abc".into_payload().as_slice(), b"abc");
    assert_eq!(String::from("de").into_payload().as_slice(), b"de");
    assert_eq!(vec![4u8, 5].into_payload().as_slice(), &[4, 5]);
    let v = vec![6u8];
    assert_eq!((&v).into_payload().as_slice(), &[6]);
    assert_eq!((&[1u8, 2, 3]).into_payload().as_slice(), &[1, 2, 3]);
    assert!(().into_payload().is_empty());
}
