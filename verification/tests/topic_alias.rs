use mqtt_protocol_core::mqtt::packet::{TopicAliasRecv, TopicAliasSend};

#[test]
fn send_insert_peek_and_find() {
    let mut t = TopicAliasSend::new(3);
    assert_eq!(t.max(), 3);
    t.insert_or_update("a/b", 1);
    t.insert_or_update("c/d", 2);
    assert_eq!(t.peek(1), Some("a/b"));
    assert_eq!(t.peek(2), Some("c/d"));
    assert_eq!(t.peek(3), None);
    assert_eq!(t.peek(0), None);
    assert_eq!(t.peek(4), None);
    assert_eq!(t.find_by_topic("a/b"), Some(1));
    assert_eq!(t.find_by_topic("c/d"), Some(2));
    assert_eq!(t.find_by_topic("x"), None);
}

#[test]
fn send_one_topic_many_aliases() {
    let mut t = TopicAliasSend::new(5);
    t.insert_or_update("t", 4);
    t.insert_or_update("t", 2);
    assert_eq!(t.find_by_topic("t"), Some(4));
    t.insert_or_update("u", 4);
    assert_eq!(t.find_by_topic("t"), Some(2));
    assert_eq!(t.find_by_topic("u"), Some(4));
    assert_eq!(t.peek(4), Some("u"));
}

#[test]
fn send_rebinding_moves_alias_to_end_of_topic_list() {
    let mut t = TopicAliasSend::new(5);
    t.insert_or_update("t", 1);
    t.insert_or_update("t", 2);
    t.insert_or_update("t", 1);
    assert_eq!(t.find_by_topic("t"), Some(2));
}

#[test]
fn send_lru_alias_prefers_vacant_then_least_recent() {
    let mut t = TopicAliasSend::new(3);
    assert_eq!(t.get_lru_alias(), 1);
    t.insert_or_update("a", 1);
    assert_eq!(t.get_lru_alias(), 2);
    t.insert_or_update("b", 3);
    assert_eq!(t.get_lru_alias(), 2);
    t.insert_or_update("c", 2);
    assert_eq!(t.get_lru_alias(), 1);
    assert_eq!(t.get(1), Some("a"));
    assert_eq!(t.get_lru_alias(), 3);
    assert_eq!(t.peek(3), Some("b"));
    assert_eq!(t.get_lru_alias(), 3);
    t.insert_or_update("d", 3);
    assert_eq!(t.get_lru_alias(), 2);
}

#[test]
fn send_get_out_of_range_or_unbound() {
    let mut t = TopicAliasSend::new(2);
    t.insert_or_update("a", 2);
    assert_eq!(t.get(0), None);
    assert_eq!(t.get(1), None);
    assert_eq!(t.get(3), None);
    assert_eq!(t.get(2), Some("a"));
}

#[test]
fn send_clear_forgets_everything() {
    let mut t = TopicAliasSend::new(2);
    t.insert_or_update("a", 1);
    t.insert_or_update("b", 2);
    t.clear();
    assert_eq!(t.peek(1), None);
    assert_eq!(t.find_by_topic("a"), None);
    assert_eq!(t.get_lru_alias(), 1);
    assert_eq!(t.max(), 2);
}

#[test]
fn recv_insert_get_and_clear() {
    let mut r = TopicAliasRecv::new(10);
    assert_eq!(r.max(), 10);
    r.insert_or_update("x/y", 3);
    assert_eq!(r.get(3), Some("x/y"));
    assert_eq!(r.peek(3), Some("x/y"));
    r.insert_or_update("z", 3);
    assert_eq!(r.get(3), Some("z"));
    assert_eq!(r.get(4), None);
    assert_eq!(r.get(0), None);
    assert_eq!(r.get(11), None);
    r.clear();
    assert_eq!(r.get(3), None);
}
