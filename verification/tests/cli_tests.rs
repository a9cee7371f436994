use std::time::Duration;
use webrtc_benchmark::cli::{duration_secs, pair_credentials, parse_duration, parse_target};
use webrtc_benchmark::text::{chars_of, is_whitespace, parse_u16, parse_u64, string_from_chars};

#[test]
fn parse_duration_seconds() {
    assert_eq!(parse_duration("10s"), Duration::from_secs(10));
    assert_eq!(parse_duration("30s"), Duration::from_secs(30));
    assert_eq!(parse_duration(" 60s \n"), Duration::from_secs(60));
    assert_eq!(parse_duration("45"), Duration::from_secs(45));
    assert_eq!(parse_duration("+5s"), Duration::from_secs(5));
}

#[test]
fn parse_duration_defaults() {
    assert_eq!(parse_duration(""), Duration::from_secs(10));
    assert_eq!(parse_duration("s"), Duration::from_secs(10));
    assert_eq!(parse_duration("abc"), Duration::from_secs(10));
    assert_eq!(parse_duration("-5s"), Duration::from_secs(10));
    assert_eq!(parse_duration("5 s"), Duration::from_secs(10));
    assert_eq!(parse_duration("99999999999999999999s"), Duration::from_secs(10));
    // A millisecond suffix ends in 's' and is not a number of seconds.
    assert_eq!(parse_duration("500ms"), Duration::from_secs(10));
}

#[test]
fn duration_secs_values() {
    assert_eq!(duration_secs("18446744073709551615s"), u64::MAX);
    assert_eq!(duration_secs("18446744073709551616s"), 10);
    assert_eq!(duration_secs("007s"), 7);
    assert_eq!(duration_secs("\u{3000}12s\u{2003}"), 12);
}

#[test]
fn parse_target_forms() {
    assert_eq!(parse_target("stun:your-server.com:3478"), ("your-server.com".to_string(), 3478));
    assert_eq!(parse_target("turn:relay.example:5349"), ("relay.example".to_string(), 5349));
    assert_eq!(parse_target("host:1234"), ("host".to_string(), 1234));
    assert_eq!(parse_target("stun:host"), ("host".to_string(), 3478));
    assert_eq!(parse_target("host"), ("host".to_string(), 3478));
    assert_eq!(parse_target("stun:host:notaport"), ("host".to_string(), 3478));
    assert_eq!(parse_target("stun:host:70000"), ("host".to_string(), 3478));
    assert_eq!(parse_target("stun:host:"), ("host".to_string(), 3478));
    assert_eq!(parse_target("stun:::1:3478"), ("::1".to_string(), 3478));
    assert_eq!(parse_target("turn:stun:h:1"), ("stun:h".to_string(), 1));
    assert_eq!(parse_target("STUN:h:1"), ("STUN:h".to_string(), 1));
    assert_eq!(parse_target(""), ("".to_string(), 3478));
}

#[test]
fn parse_target_roundtrip() {
    for host in ["a", "server.example.com", "::1", "ünïcode", ""] {
        for port in [0u16, 1, 3478, 65535] {
            assert_eq!(parse_target(&format!("stun:{}:{}", host, port)), (host.to_string(), port));
            assert_eq!(parse_target(&format!("turn:{}:{}", host, port)), (host.to_string(), port));
        }
    }
}

#[test]
fn pair_credentials_needs_both() {
    let u = Some("u".to_string());
    let c = Some("c".to_string());
    assert_eq!(pair_credentials(u.clone(), c.clone()), Some(("u".to_string(), "c".to_string())));
    assert_eq!(pair_credentials(u, None), None);
    assert_eq!(pair_credentials(None, c), None);
    assert_eq!(pair_credentials(None, None), None);
}

#[test]
fn whitespace_matches_std() {
    for code in 0u32..=0x10FFFF {
        if let Some(c) = char::from_u32(code) {
            assert_eq!(is_whitespace(c), c.is_whitespace(), "char {:#x}", code);
        }
    }
}

#[test]
fn parse_u64_matches_std() {
    let cases = [
        "", "0", "+", "-", "+0", "-0", "++1", "+12", "12a", " 1", "18446744073709551615",
        "18446744073709551616", "99999999999999999999", "000000000000000000000001", "42",
        "1_000", "٣",
    ];
    for s in cases {
        let cs: Vec<char> = s.chars().collect();
        assert_eq!(parse_u64(&cs), s.parse::<u64>().ok(), "{:?}", s);
        assert_eq!(parse_u16(&cs), s.parse::<u16>().ok(), "{:?}", s);
    }
    for s in ["65535", "65536", "+65535", "0065535"] {
        let cs: Vec<char> = s.chars().collect();
        assert_eq!(parse_u16(&cs), s.parse::<u16>().ok(), "{:?}", s);
    }
}

#[test]
fn chars_and_strings_roundtrip() {
    for s in ["", "abc", "héllo wörld", "日本語", "a\u{1F600}b"] {
        let cs = chars_of(s);
        assert_eq!(cs, s.chars().collect::<Vec<char>>());
        assert_eq!(string_from_chars(&cs), s);
    }
}
