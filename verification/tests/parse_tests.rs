use volo_mini_redis::parse::{parse_client_command, parse_redis_operation};
use volo_mini_redis::request::{ClientCommand, RedisRequest, RequestType};
use volo_mini_redis::words::split_words;

fn sent(cmd: ClientCommand) -> RedisRequest {
    match cmd {
        ClientCommand::Send(r) => r,
        ClientCommand::Exit => panic!("expected a request"),
    }
}

fn strings(ws: &[&str]) -> Vec<String> {
    ws.iter().map(|w| w.to_string()).collect()
}

#[test]
fn split_words_single_spaces() {
    assert_eq!(split_words("SET key1 value1"), strings(&["SET", "key1", "value1"]));
}

#[test]
fn split_words_keeps_empty_fields() {
    assert_eq!(split_words("a  b"), strings(&["a", "", "b"]));
    assert_eq!(split_words(" a "), strings(&["", "a", ""]));
    assert_eq!(split_words(""), strings(&[""]));
}

#[test]
fn split_words_matches_std_split() {
    for line in ["DEL k1 k2 k3", "x", "  ", "héllo wörld", "PING"] {
        let expected: Vec<String> = line.split(' ').map(|s| s.to_string()).collect();
        assert_eq!(split_words(line), expected);
    }
}

#[test]
fn client_ping_with_any_arguments() {
    let r = sent(parse_client_command("PING"));
    assert_eq!(r.request_type, RequestType::Ping);
    assert_eq!(r.key, None);
    assert_eq!(r.value, None);
    let r = sent(parse_client_command("PING hello there"));
    assert_eq!(r.request_type, RequestType::Ping);
}

#[test]
fn client_set() {
    let r = sent(parse_client_command("SET key1 value1"));
    assert_eq!(r.request_type, RequestType::SetValue);
    assert_eq!(r.key, Some(strings(&["key1"])));
    assert_eq!(r.value, Some("value1".to_string()));
}

#[test]
fn client_set_with_wrong_arity_is_illegal() {
    for line in ["SET key1", "SET", "SET a b c"] {
        let r = sent(parse_client_command(line));
        assert_eq!(r.request_type, RequestType::Illegal);
        assert_eq!(r.key, None);
        assert_eq!(r.value, None);
    }
}

#[test]
fn client_get() {
    let r = sent(parse_client_command("GET key3"));
    assert_eq!(r.request_type, RequestType::Get);
    assert_eq!(r.key, Some(strings(&["key3"])));
    assert_eq!(r.value, None);
    let r = sent(parse_client_command("GET a b"));
    assert_eq!(r.request_type, RequestType::Illegal);
}

#[test]
fn client_del_takes_every_key() {
    let r = sent(parse_client_command("DEL k1 k2 k3"));
    assert_eq!(r.request_type, RequestType::Del);
    assert_eq!(r.key, Some(strings(&["k1", "k2", "k3"])));
    let r = sent(parse_client_command("DEL"));
    assert_eq!(r.request_type, RequestType::Del);
    assert_eq!(r.key, Some(vec![]));
}

#[test]
fn client_exit_only_alone() {
    assert!(matches!(parse_client_command("exit"), ClientCommand::Exit));
    let r = sent(parse_client_command("exit now"));
    assert_eq!(r.request_type, RequestType::Illegal);
}

#[test]
fn client_unknown_and_lowercase_are_illegal() {
    for line in ["set a b", "HELLO", "", " SET a b"] {
        let r = sent(parse_client_command(line));
        assert_eq!(r.request_type, RequestType::Illegal);
    }
}

#[test]
fn aof_set_and_del() {
    let r = parse_redis_operation(&"SET key2 value2".to_string());
    assert_eq!(r.request_type, RequestType::SetValue);
    assert_eq!(r.key, Some(strings(&["key2"])));
    assert_eq!(r.value, Some("value2".to_string()));
    let r = parse_redis_operation(&"DEL key2 key9".to_string());
    assert_eq!(r.request_type, RequestType::Del);
    assert_eq!(r.key, Some(strings(&["key2", "key9"])));
    assert_eq!(r.value, None);
}

#[test]
fn aof_other_lines_are_illegal() {
    for line in ["PING", "GET key1", "exit", "SET a", ""] {
        let r = parse_redis_operation(&line.to_string());
        assert_eq!(r.request_type, RequestType::Illegal);
        assert_eq!(r.key, None);
        assert_eq!(r.value, None);
    }
}

#[test]
fn aof_reads_like_client_for_set_and_del() {
    for line in ["SET a b", "DEL a b", "DEL", "GET a", "PING", "exit", "junk"] {
        let server = parse_redis_operation(&line.to_string());
        let client = sent_or_illegal(parse_client_command(line));
        assert_eq!(server.request_type, client.0);
        assert_eq!(server.key, client.1);
        assert_eq!(server.value, client.2);
    }
}

fn sent_or_illegal(cmd: ClientCommand) -> (RequestType, Option<Vec<String>>, Option<String>) {
    match cmd {
        ClientCommand::Send(r)
            if r.request_type == RequestType::SetValue || r.request_type == RequestType::Del =>
        {
            (r.request_type, r.key, r.value)
        }
        _ => (RequestType::Illegal, None, None),
    }
}
