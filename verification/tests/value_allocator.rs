use mqtt_protocol_core::mqtt::common::ValueAllocator;
use mqtt_protocol_core::mqtt::connection::PacketIdManager;
use mqtt_protocol_core::mqtt::result_code::MqttError;

#[test]
fn allocator_hands_out_smallest_vacant_value() {
    let mut a = ValueAllocator::<u16>::new(1, 5);
    assert_eq!(a.allocate(), Some(1));
    assert_eq!(a.allocate(), Some(2));
    assert_eq!(a.allocate(), Some(3));
    a.deallocate(2);
    assert_eq!(a.first_vacant(), Some(2));
    assert_eq!(a.allocate(), Some(2));
    assert_eq!(a.allocate(), Some(4));
    assert_eq!(a.allocate(), Some(5));
    assert_eq!(a.allocate(), None);
    assert_eq!(a.first_vacant(), None);
}

#[test]
fn allocator_keeps_maximal_intervals() {
    let mut a = ValueAllocator::<u16>::new(0, 9);
    assert_eq!(a.interval_count(), 1);
    assert!(a.use_value(5));
    assert_eq!(a.interval_count(), 2);
    assert!(a.use_value(0));
    assert_eq!(a.interval_count(), 2);
    assert!(a.use_value(9));
    assert_eq!(a.interval_count(), 2);
    a.deallocate(5);
    assert_eq!(a.interval_count(), 1);
    a.deallocate(0);
    a.deallocate(9);
    assert_eq!(a.interval_count(), 1);
}

#[test]
fn allocator_use_value_twice_and_out_of_range() {
    let mut a = ValueAllocator::<u16>::new(3, 6);
    assert!(a.use_value(4));
    assert!(!a.use_value(4));
    assert!(a.is_used(4));
    assert!(!a.is_used(5));
    assert!(!a.use_value(100));
    assert!(a.is_used(100));
    assert!(a.is_used(2));
}

#[test]
fn allocator_double_release_is_harmless() {
    let mut a = ValueAllocator::<u16>::new(1, 3);
    assert_eq!(a.allocate(), Some(1));
    a.deallocate(1);
    a.deallocate(1);
    assert_eq!(a.interval_count(), 1);
    assert_eq!(a.allocate(), Some(1));
    assert_eq!(a.allocate(), Some(2));
    assert_eq!(a.allocate(), Some(3));
    assert_eq!(a.allocate(), None);
}

#[test]
fn allocator_clear_restores_range() {
    let mut a = ValueAllocator::<u32>::new(10, 20);
    assert!(a.use_value(15));
    assert!(a.use_value(10));
    a.clear();
    assert_eq!(a.interval_count(), 1);
    assert_eq!(a.first_vacant(), Some(10));
    assert!(!a.is_used(15));
}

#[test]
fn allocator_release_joins_neighbours() {
    let mut a = ValueAllocator::<u16>::new(1, 10);
    for _ in 0..10 {
        a.allocate();
    }
    assert_eq!(a.interval_count(), 0);
    a.deallocate(3);
    a.deallocate(5);
    assert_eq!(a.interval_count(), 2);
    a.deallocate(4);
    assert_eq!(a.interval_count(), 1);
    a.deallocate(2);
    a.deallocate(6);
    assert_eq!(a.interval_count(), 1);
    assert_eq!(a.first_vacant(), Some(2));
}

#[test]
fn packet_id_manager_acquire_register_release() {
    let mut m = PacketIdManager::<u16>::new();
    assert_eq!(m.acquire_unique_id(), Ok(1));
    assert_eq!(m.acquire_unique_id(), Ok(2));
    assert_eq!(m.register_id(2), Err(MqttError::PacketIdentifierConflict));
    assert_eq!(m.register_id(0), Err(MqttError::PacketIdentifierConflict));
    assert_eq!(m.register_id(10), Ok(()));
    assert!(m.is_used_id(10));
    assert!(m.is_used_id(0));
    assert!(!m.is_used_id(3));
    m.release_id(1);
    assert!(!m.is_used_id(1));
    assert_eq!(m.acquire_unique_id(), Ok(1));
    assert_eq!(m.acquire_unique_id(), Ok(3));
    m.clear();
    assert!(!m.is_used_id(10));
    assert_eq!(m.acquire_unique_id(), Ok(1));
}

#[test]
fn packet_id_manager_runs_out() {
    let mut m = PacketIdManager::<u16>::new();
    for i in 1..=65535u32 {
        assert_eq!(m.acquire_unique_id(), Ok(i as u16));
    }
    assert_eq!(m.acquire_unique_id(), Err(MqttError::PacketIdentifierFullyUsed));
    m.release_id(40000);
    assert_eq!(m.acquire_unique_id(), Ok(40000));
}
