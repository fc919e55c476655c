use ox_squared_server::config::{parse_u64, uses_default_secret, Config};
use ox_squared_server::cors::{cors_origins, split_at_commas, CorsOrigins};

fn vars(pairs: &[(&str, &str)]) -> Vec<(String, String)> {
    pairs.iter().map(|(k, v)| (k.to_string(), v.to_string())).collect()
}

#[test]
fn defaults() {
    let c = Config::from_env(&vec![]);
    assert_eq!(c.listen_addr, "0.0.0.0:8080");
    assert_eq!(c.cors_origin, "*");
    assert_eq!(c.jwt_secret, "change-me");
    assert_eq!(c.token_ttl_secs, 3600);
    assert_eq!(c.room_timeout_secs, 300);
    assert_eq!(c.max_history_messages, 100);
    assert_eq!(c.rate_limit_max_messages, 20);
    assert_eq!(c.rate_limit_window_secs, 1);
    assert_eq!(c.rate_limit_ban_secs, 60);
    assert_eq!(c.max_message_size_bytes, 65536);
}

#[test]
fn overrides_and_bad_numbers() {
    let c = Config::from_env(&vars(&[
        ("LISTEN_ADDR", "127.0.0.1:9000"),
        ("JWT_SECRET", "s3cret"),
        ("TOKEN_TTL_SECS", "+60"),
        ("ROOM_TIMEOUT_SECS", "abc"),
        ("RATE_LIMIT_MAX_MESSAGES", "4294967296"),
        ("RATE_LIMIT_BAN_SECS", "-5"),
        ("MAX_HISTORY_MESSAGES", ""),
        ("OTHER", "1"),
    ]));
    assert_eq!(c.listen_addr, "127.0.0.1:9000");
    assert_eq!(c.jwt_secret, "s3cret");
    assert_eq!(c.token_ttl_secs, 60);
    assert_eq!(c.room_timeout_secs, 300);
    assert_eq!(c.rate_limit_max_messages, 20);
    assert_eq!(c.rate_limit_ban_secs, 60);
    assert_eq!(c.max_history_messages, 100);
    assert_eq!(c.cors_origin, "*");
}

#[test]
fn unsigned_parsing_agrees_with_std() {
    for s in ["0", "007", "+12", "18446744073709551615", "18446744073709551616", "", "+", "-1", " 1", "1 ", "12a", "٣"] {
        assert_eq!(parse_u64(s), s.parse::<u64>().ok(), "text {:?}", s);
    }
}

#[test]
fn cors_any_or_list() {
    assert_eq!(cors_origins("*"), CorsOrigins::Any);
    assert_eq!(
        cors_origins(" https://a.example , https://b.example,,bad\u{7f}value"),
        CorsOrigins::List(vec!["https://a.example".to_string(), "https://b.example".to_string(), "".to_string()])
    );
    assert_eq!(cors_origins("**"), CorsOrigins::List(vec!["**".to_string()]));
}

#[test]
fn splitting_at_commas() {
    assert_eq!(split_at_commas(""), vec!["".to_string()]);
    assert_eq!(split_at_commas("a,,b"), vec!["a".to_string(), "".to_string(), "b".to_string()]);
    assert_eq!(split_at_commas("a,b,"), vec!["a".to_string(), "b".to_string(), "".to_string()]);
}

#[test]
fn split_pieces_rejoin() {
    for text in ["", ",", "a", "a,b", ",a,,b,", "x y , z"] {
        let pieces = split_at_commas(text);
        assert!(pieces.iter().all(|p| !p.contains(',')));
        assert_eq!(pieces.join(","), text);
    }
}

#[test]
fn default_secret_is_flagged() {
    assert!(uses_default_secret(&vec![]));
    assert!(uses_default_secret(&vars(&[("OTHER", "x")])));
    assert!(!uses_default_secret(&vars(&[("JWT_SECRET", "")])));
}

#[test]
fn origins_are_trimmed_of_unicode_white_space() {
    assert_eq!(
        cors_origins("\u{3000}https://a.example\u{a0}\t,\u{2028}b"),
        CorsOrigins::List(vec!["https://a.example".to_string(), "b".to_string()])
    );
}
