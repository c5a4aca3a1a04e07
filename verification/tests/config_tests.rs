use volo_mini_redis::config::{flag_text, parse_is_main_flag, NodeConfig, RedisConfig};

fn node(addr: &str, is_main: bool) -> NodeConfig {
    NodeConfig { address: addr.to_string(), is_main }
}

#[test]
fn is_main_reads_the_flag() {
    assert!(node("127.0.0.1:8080", true).is_main());
    assert!(!node("127.0.0.1:8081", false).is_main());
}

#[test]
fn flag_text_and_parse() {
    assert_eq!(flag_text(true), "true");
    assert_eq!(flag_text(false), "false");
    assert_eq!(parse_is_main_flag("true"), Some(true));
    assert_eq!(parse_is_main_flag("false"), Some(false));
    assert_eq!(parse_is_main_flag("True"), None);
    assert_eq!(parse_is_main_flag("1"), None);
    assert_eq!(parse_is_main_flag(""), None);
}

#[test]
fn flag_round_trip_matches_std() {
    for b in [true, false] {
        assert_eq!(parse_is_main_flag(&flag_text(b)), Some(b));
        assert_eq!(flag_text(b), b.to_string());
        assert_eq!(parse_is_main_flag(&b.to_string()), b.to_string().parse::<bool>().ok());
    }
}

#[test]
fn server_args_are_address_then_flag() {
    assert_eq!(
        node("127.0.0.1:8080", true).server_args(),
        vec!["127.0.0.1:8080".to_string(), "true".to_string()]
    );
}

#[test]
fn launch_order_is_main_then_secondaries() {
    let cfg = RedisConfig {
        main_node: node("127.0.0.1:8080", true),
        slave_nodes: vec![node("127.0.0.1:8081", false), node("127.0.0.1:8082", false)],
    };
    let all = cfg.server_launch_args();
    assert_eq!(all.len(), 3);
    assert_eq!(all[0], vec!["127.0.0.1:8080".to_string(), "true".to_string()]);
    assert_eq!(all[1], vec!["127.0.0.1:8081".to_string(), "false".to_string()]);
    assert_eq!(all[2], vec!["127.0.0.1:8082".to_string(), "false".to_string()]);
}

#[test]
fn launch_with_no_secondaries() {
    let cfg = RedisConfig { main_node: node("10.0.0.1:1", true), slave_nodes: vec![] };
    assert_eq!(cfg.server_launch_args().len(), 1);
}
