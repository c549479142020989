use waremax::api::{config_from_settings, parse_u64_text, parse_usize_text, split_trimmed, trim_text};

#[test]
fn settings_fall_back_to_defaults() {
    let config = config_from_settings(None, None, None);
    assert_eq!(config.session_timeout_secs, 1800);
    assert_eq!(config.max_sessions, 100);
    assert!(config.cors_origins.is_empty());
    assert!(config.request_id_header);
    let config = config_from_settings(Some("soon"), Some("-3"), None);
    assert_eq!(config.session_timeout_secs, 1800);
    assert_eq!(config.max_sessions, 100);
}

#[test]
fn settings_are_read() {
    let config = config_from_settings(
        Some("600"),
        Some("+25"),
        Some("http://a.example, https://b.example ,"),
    );
    assert_eq!(config.session_timeout_secs, 600);
    assert_eq!(config.max_sessions, 25);
    assert_eq!(config.cors_origins, vec!["http://a.example", "https://b.example", ""]);
}

#[test]
fn numbers_parse_as_std_parses_them() {
    for s in ["0", "42", "+7", "007", "18446744073709551615", "", "+", "-1", " 5", "5 ", "1_000", "18446744073709551616", "٣"] {
        assert_eq!(parse_u64_text(s), s.parse::<u64>().ok(), "{:?}", s);
        assert_eq!(parse_usize_text(s), s.parse::<usize>().ok(), "{:?}", s);
    }
}

#[test]
fn trimming_and_splitting_match_std() {
    for s in ["", "  ", " a ", "\u{3000}b\u{a0}", "\tx y\n", "z"] {
        assert_eq!(trim_text(s), s.trim(), "{:?}", s);
    }
    for s in ["", "a", "a,b", ",", " a , b ,c ", ",,x,"] {
        let expected: Vec<String> = s.split(',').map(|o| o.trim().to_string()).collect();
        assert_eq!(split_trimmed(s, ','), expected, "{:?}", s);
    }
}
