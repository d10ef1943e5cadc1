use rs_tg_nostr::config::{log_filter, parse_allowed_users, parse_port, parse_relays, Config, EnvVars};

#[test]
fn test_allowed_users_parse() {
    let raw = "123456789,987654321";
    let users: Vec<i64> = parse_allowed_users(raw);
    assert_eq!(users, vec![123456789i64, 987654321i64]);
}

#[test]
fn test_relays_parse() {
    let raw = "wss://relay.damus.io,wss://relay.0xchat.com";
    let relays: Vec<String> = parse_relays(raw);
    assert_eq!(relays.len(), 2);
    assert_eq!(relays[0], "wss://relay.damus.io");
}

#[test]
fn allowed_users_skip_pieces_that_are_no_number() {
    let users = parse_allowed_users(" 12 , -5,+7, x, 9223372036854775808, -9223372036854775808,,1 2");
    assert_eq!(users, vec![12, -5, 7, i64::MIN]);
}

#[test]
fn allowed_users_edge_values() {
    assert_eq!(parse_allowed_users("9223372036854775807"), vec![i64::MAX]);
    assert_eq!(parse_allowed_users("-"), Vec::<i64>::new());
    assert_eq!(parse_allowed_users("+"), Vec::<i64>::new());
    assert_eq!(parse_allowed_users(""), Vec::<i64>::new());
    assert_eq!(parse_allowed_users("0007,\t42\n"), vec![7, 42]);
    assert_eq!(parse_allowed_users("\u{3000}5\u{a0}"), vec![5]);
    assert_eq!(parse_allowed_users("１"), Vec::<i64>::new());
}

#[test]
fn relays_keep_empty_pieces_and_trim() {
    let relays = parse_relays(" wss://a , wss://b,,\twss://c\n");
    assert_eq!(relays, vec!["wss://a", "wss://b", "", "wss://c"]);
    assert_eq!(parse_relays(""), vec![""]);
}

#[test]
fn port_parse_follows_u16() {
    assert_eq!(parse_port("8000"), Some(8000));
    assert_eq!(parse_port("65535"), Some(65535));
    assert_eq!(parse_port("65536"), None);
    assert_eq!(parse_port("+80"), Some(80));
    assert_eq!(parse_port("-0"), None);
    assert_eq!(parse_port(""), None);
    assert_eq!(parse_port(" 80"), None);
    assert_eq!(parse_port("00080"), Some(80));
}

fn full_env() -> EnvVars {
    EnvVars {
        bot_token: Some("tok".to_string()),
        webhook_url: Some("https://example.com".to_string()),
        allowed_users: Some("1, 2".to_string()),
        port: Some("9000".to_string()),
        msg_to: Some("npub1target".to_string()),
        nostr_relays: Some("wss://a, wss://b".to_string()),
        log_level: Some("debug".to_string()),
    }
}

#[test]
fn config_from_full_env() {
    let c: Config = Config::from_env(&full_env()).unwrap();
    assert_eq!(c.bot_token, "tok");
    assert_eq!(c.webhook_url, "https://example.com");
    assert_eq!(c.allowed_users, vec![1, 2]);
    assert_eq!(c.port, 9000);
    assert_eq!(c.msg_to, "npub1target");
    assert_eq!(c.nostr_relays, vec!["wss://a", "wss://b"]);
    assert_eq!(c.log_level, "debug");
}

#[test]
fn config_defaults() {
    let mut env = full_env();
    env.allowed_users = None;
    env.port = None;
    env.nostr_relays = None;
    env.log_level = None;
    let c = Config::from_env(&env).unwrap();
    assert!(c.allowed_users.is_empty());
    assert_eq!(c.port, 8000);
    assert_eq!(c.nostr_relays, vec!["wss://relay.damus.io"]);
    assert_eq!(c.log_level, "info");
}

fn error_text(env: EnvVars) -> String {
    Config::from_env(&env).unwrap_err().to_string()
}

#[test]
fn config_errors_in_order() {
    let mut env = full_env();
    env.bot_token = None;
    env.webhook_url = None;
    assert_eq!(error_text(env), "config error: BOT_TOKEN not set");

    let mut env = full_env();
    env.webhook_url = None;
    env.msg_to = None;
    assert_eq!(error_text(env), "config error: WEBHOOK_URL not set");

    let mut env = full_env();
    env.port = Some("eighty".to_string());
    env.msg_to = None;
    assert_eq!(error_text(env), "config error: PORT must be a number");

    let mut env = full_env();
    env.msg_to = None;
    assert_eq!(error_text(env), "config error: MSG_TO not set");
}

#[test]
fn written_ids_read_back() {
    let ids = vec![i64::MIN, -1, 0, 7, 123456789, i64::MAX];
    let text = ids.iter().map(|v| v.to_string()).collect::<Vec<_>>().join(",");
    assert_eq!(parse_allowed_users(&text), ids);
}

#[test]
fn relay_count_is_comma_count_plus_one() {
    let raw = "wss://a,,wss://b , ,";
    assert_eq!(parse_relays(raw).len(), raw.matches(',').count() + 1);
    for r in parse_relays(raw) {
        assert_eq!(r.trim(), r);
        assert!(!r.contains(','));
    }
}

#[test]
fn log_filter_prefers_rust_log() {
    let c = Config::from_env(&full_env()).unwrap();
    assert_eq!(log_filter(&None, &c), "debug");
    assert_eq!(log_filter(&Some("trace".to_string()), &c), "trace");
}
