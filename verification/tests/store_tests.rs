use volo_mini_redis::parse::parse_redis_operation;
use volo_mini_redis::request::{RedisRequest, RequestType};
use volo_mini_redis::store::{rebuild_data_from_aof, KvStore};

fn lines(ls: &[&str]) -> Vec<String> {
    ls.iter().map(|l| l.to_string()).collect()
}

#[test]
fn new_store_is_empty() {
    let s = KvStore::new();
    assert_eq!(s.get("key1"), None);
}

#[test]
fn rebuild_sets_values() {
    let mut s = KvStore::new();
    rebuild_data_from_aof(&mut s, &lines(&["SET key1 value1", "SET key2 value2", "SET key3 value3"]));
    assert_eq!(s.get("key1"), Some("value1".to_string()));
    assert_eq!(s.get("key2"), Some("value2".to_string()));
    assert_eq!(s.get("key3"), Some("value3".to_string()));
    assert_eq!(s.get("key4"), None);
}

#[test]
fn later_set_overwrites_earlier() {
    let mut s = KvStore::new();
    rebuild_data_from_aof(&mut s, &lines(&["SET k a", "SET k b"]));
    assert_eq!(s.get("k"), Some("b".to_string()));
}

#[test]
fn del_removes_every_named_key() {
    let mut s = KvStore::new();
    rebuild_data_from_aof(
        &mut s,
        &lines(&["SET a 1", "SET b 2", "SET c 3", "DEL a c missing"]),
    );
    assert_eq!(s.get("a"), None);
    assert_eq!(s.get("b"), Some("2".to_string()));
    assert_eq!(s.get("c"), None);
}

#[test]
fn set_after_del_restores() {
    let mut s = KvStore::new();
    rebuild_data_from_aof(&mut s, &lines(&["SET a 1", "DEL a", "SET a 2"]));
    assert_eq!(s.get("a"), Some("2".to_string()));
}

#[test]
fn other_lines_change_nothing() {
    let mut s = KvStore::new();
    rebuild_data_from_aof(&mut s, &lines(&["SET a 1", "GET a", "PING", "SET b", "", "exit", "junk x y"]));
    assert_eq!(s.get("a"), Some("1".to_string()));
    assert_eq!(s.get("b"), None);
    assert_eq!(s.get(""), None);
}

#[test]
fn replay_in_two_parts_equals_whole() {
    let all = lines(&["SET a 1", "SET b 2", "DEL a", "SET c 3", "DEL b"]);
    let mut whole = KvStore::new();
    rebuild_data_from_aof(&mut whole, &all);
    let mut parts = KvStore::new();
    rebuild_data_from_aof(&mut parts, &all[..2].to_vec());
    rebuild_data_from_aof(&mut parts, &all[2..].to_vec());
    for k in ["a", "b", "c"] {
        assert_eq!(whole.get(k), parts.get(k));
    }
    assert_eq!(whole.get("c"), Some("3".to_string()));
}

#[test]
fn apply_parsed_and_hand_built_requests() {
    let mut s = KvStore::new();
    s.apply(&parse_redis_operation(&"SET x y".to_string()));
    assert_eq!(s.get("x"), Some("y".to_string()));
    s.apply(&RedisRequest { key: None, value: None, request_type: RequestType::Ping });
    assert_eq!(s.get("x"), Some("y".to_string()));
    s.apply(&RedisRequest {
        key: Some(vec!["x".to_string()]),
        value: None,
        request_type: RequestType::Get,
    });
    assert_eq!(s.get("x"), Some("y".to_string()));
    s.apply(&RedisRequest {
        key: Some(vec!["x".to_string(), "ignored".to_string()]),
        value: Some("z".to_string()),
        request_type: RequestType::SetValue,
    });
    assert_eq!(s.get("x"), Some("z".to_string()));
    assert_eq!(s.get("ignored"), None);
    s.apply(&RedisRequest { key: Some(vec!["x".to_string()]), value: None, request_type: RequestType::Del });
    assert_eq!(s.get("x"), None);
}
