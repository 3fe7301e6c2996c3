use mqtt_protocol_core::mqtt::common::arc_payload::{ArcPayload, IntoPayload};
use std::sync::Arc;

#[test]
fn test_empty_payload() {
    let payload = ArcPayload::default();
    assert_eq!(payload.len(), 0);
    assert!(payload.is_empty());
    assert_eq!(payload.as_slice(), &[] as &[u8]);
}

#[test]
fn test_small_payload() {
    let data = b"hello";
    let payload = data.into_payload();
    assert_eq!(payload.len(), 5);
    assert!(!payload.is_empty());
    assert_eq!(payload.as_slice(), b"hello");
}

#[test]
fn test_payload_variants() {
    let small_data = b"small";
    let payload = small_data.into_payload();
    assert!(matches!(payload, ArcPayload::Large { .. }));

    let medium_data = vec![0u8; 200];
    let _payload = medium_data.into_payload();

    let very_large_data = b"This is a very long payload that exceeds even the largest SSO buffer size of 255 bytes. It should definitely be stored in the Large variant regardless of which SSO feature flags are enabled. This ensures consistent behavior across all configurations and provides a reliable test case.";
    let payload = very_large_data.into_payload();
    assert!(matches!(payload, ArcPayload::Large { .. }));
}

#[test]
fn test_arc_data_access() {
    let small_data = b"test";
    let small_payload = small_data.into_payload();

    let very_large_data = b"This is a very long payload that exceeds even the largest SSO buffer size of 255 bytes. It should definitely be stored in the Large variant regardless of which SSO feature flags are enabled. This ensures consistent behavior across all configurations and provides a reliable test case for arc_data access.";
    let large_payload = very_large_data.into_payload();

    assert!(small_payload.arc_data().is_some());
    assert!(large_payload.arc_data().is_some());
}

#[test]
fn test_into_payload_implementations() {
    let str_payload = "hello".into_payload();
    assert_eq!(str_payload.as_slice(), b"hello");

    let string_payload = String::from("world").into_payload();
    assert_eq!(string_payload.as_slice(), b"world");

    let vec_payload = vec![1, 2, 3, 4].into_payload();
    assert_eq!(vec_payload.as_slice(), &[1, 2, 3, 4]);

    let arr_payload = (&[5, 6, 7, 8]).into_payload();
    assert_eq!(arr_payload.as_slice(), &[5, 6, 7, 8]);

    let unit_payload = ().into_payload();
    assert!(unit_payload.is_empty());
}

#[test]
fn payload_view_of_shared_buffer() {
    let data: Arc<[u8]> = Arc::from(vec![10u8, 11, 12, 13, 14, 15]);
    let payload = ArcPayload::new(data.clone(), 2, 3);
    assert_eq!(payload.as_slice(), &[12, 13, 14]);
    assert_eq!(payload.len(), 3);
    assert!(!payload.is_empty());
    let shared = payload.arc_data().unwrap();
    assert_eq!(&shared[..], &[10, 11, 12, 13, 14, 15]);
    let copy = payload.clone();
    assert_eq!(copy.as_slice(), &[12, 13, 14]);
}

#[test]
fn payload_from_vec_ref_slice_and_arc() {
    let v = vec![1u8, 2, 3];
    assert_eq!((&v).into_payload().as_slice(), &[1, 2, 3]);
    let s: &[u8] = &[9, 8];
    assert_eq!(s.into_payload().as_slice(), &[9, 8]);
    let a: Arc<[u8]> = Arc::from(vec![7u8]);
    assert_eq!(a.into_payload().as_slice(), &[7]);
    let p = "xy".into_payload();
    assert_eq!(p.into_payload().as_slice(), b"xy");
}

#[test]
fn empty_view_at_end_of_buffer() {
    let data: Arc<[u8]> = Arc::from(vec![1u8, 2]);
    let payload = ArcPayload::new(data, 2, 0);
    assert!(payload.is_empty());
    assert_eq!(payload.as_slice(), &[] as &[u8]);
}
