use opcua_plc_bridge::opcua_server::OpcUaConfig;
use opcua_plc_bridge::text;
use opcua_plc_bridge::time::{TimeSpan, Timestamp, MAX_SECS, MIN_SECS};

#[test]
fn white_space_is_that_of_characters() {
    for n in 0..=0x10FFFFu32 {
        if let Some(c) = char::from_u32(n) {
            assert_eq!(text::white_space(c), c.is_whitespace());
        }
    }
}

#[test]
fn texts_are_trimmed() {
    for s in ["", " ", " a ", "\t\u{2003}x y\u{a0}\n", "abc"] {
        assert_eq!(text::trim(s), s.trim());
        assert_eq!(text::blank(s), s.trim().is_empty());
    }
    assert_eq!(text::strip_trailing_nuls("a\0b\0\0"), "a\0b");
}

#[test]
fn texts_are_ordered_like_strings() {
    let samples = ["", "a", "b", "aa", "ab", "Z", "\u{e9}", "\u{ffff}", "\u{10000}", "a\u{10ffff}"];
    for a in samples {
        for b in samples {
            assert_eq!(text::comes_before(a, b), a < b);
            assert_eq!(text::same(a, b), a == b);
        }
    }
}

#[test]
fn numbers_are_written() {
    for n in [0u64, 7, 10, 65535, u64::MAX] {
        assert_eq!(text::to_decimal(n), format!("{}", n));
    }
    for n in [0i64, -1, 42, i64::MIN, i64::MAX] {
        assert_eq!(text::to_signed_decimal(n), format!("{}", n));
    }
    for b in 0..=255u8 {
        assert_eq!(text::to_hex_upper_byte(b), format!("{:02X}", b));
        assert_eq!(text::to_hex_lower_byte(b), format!("{:02x}", b));
    }
    for w in [0u16, 0xAB, 0x1103, 0xFFFF] {
        assert_eq!(text::to_hex_upper_word(w), format!("{:04X}", w));
    }
    assert_eq!(text::to_hex_upper_run(&[0, 255, 16]), "00FF10");
}

#[test]
fn numbers_are_read() {
    for s in ["0", "007", "4294967295", "4294967296", "", "+5", "+", "-1", "1x", "99999999999"] {
        assert_eq!(text::parse_u32(s), s.parse::<u32>().ok());
    }
}

#[test]
fn parts_of_texts_are_found() {
    for (s, p) in [("abcabc", "ca"), ("abc", ""), ("", "x"), ("\u{e9}x\u{e9}y", "\u{e9}y")] {
        assert_eq!(text::contains(s, p), s.contains(p));
    }
    assert_eq!(text::find_from("abab", "ab", 1), Some(2));
    assert_eq!(text::find_from("abab", "ab", 3), None);
}

#[test]
fn instants_have_bounds() {
    assert!(Timestamp::from_parts(MIN_SECS, 0).is_some());
    assert!(Timestamp::from_parts(MIN_SECS - 1, 0).is_none());
    assert!(Timestamp::from_parts(MAX_SECS, 999_999_999).is_some());
    assert!(Timestamp::from_parts(MAX_SECS + 1, 0).is_none());
    assert!(Timestamp::from_parts(59, 1_999_999_999).is_some());
    assert!(Timestamp::from_parts(58, 1_000_000_000).is_none());
    assert!(Timestamp::from_parts(-1, 1_000_000_000).is_some());
    assert!(Timestamp::from_parts(0, 2_000_000_000).is_none());
    // The bounds are those of chrono.
    assert_eq!(chrono::DateTime::<chrono::Utc>::MIN_UTC.timestamp(), MIN_SECS);
    assert_eq!(chrono::DateTime::<chrono::Utc>::MAX_UTC.timestamp(), MAX_SECS);
}

#[test]
fn instants_convert_to_milliseconds_and_nanoseconds() {
    let t = Timestamp::from_millis(-1).unwrap();
    assert_eq!(t.parts(), (-1, 999_000_000));
    assert_eq!(t.millis(), -1);
    assert_eq!(t.nanos_opt(), Some(-1_000_000));
    assert_eq!(Timestamp::from_nanos(1_000_000_001).parts(), (1, 1));
    assert!(Timestamp::from_millis(i64::MAX).is_none());
    assert_eq!(Timestamp::from_nanos(i64::MIN).nanos_opt(), Some(i64::MIN));
    assert_eq!(Timestamp::from_nanos(i64::MAX).nanos_opt(), Some(i64::MAX));
    assert_eq!(Timestamp::from_parts(MAX_SECS, 0).unwrap().nanos_opt(), None);
    assert_eq!(Timestamp::unix_epoch().parts(), (0, 0));
}

#[test]
fn spans_between_instants() {
    let a = Timestamp::from_parts(100, 5).unwrap();
    let b = Timestamp::from_parts(98, 7).unwrap();
    assert_eq!(a.since(&b).nanos, 1_999_999_998);
    assert_eq!(b.since(&a).nanos, -1_999_999_998);
    assert_eq!(TimeSpan::seconds(-2).nanos, -2_000_000_000);
    assert_eq!(TimeSpan::milliseconds(3).nanos, 3_000_000);
    // A leap second counts where it lies between the two times of day.
    let leap = Timestamp::from_parts(59, 1_500_000_000).unwrap();
    let after = Timestamp::from_parts(60, 0).unwrap();
    let first = chrono::DateTime::from_timestamp(59, 1_500_000_000).unwrap();
    let second = chrono::DateTime::from_timestamp(60, 0).unwrap();
    assert_eq!(
        after.since(&leap).nanos,
        second.signed_duration_since(first).num_nanoseconds().unwrap() as i128
    );
    assert_eq!(
        leap.since(&after).nanos,
        first.signed_duration_since(second).num_nanoseconds().unwrap() as i128
    );
}

#[test]
fn rfc3339_is_read_and_written() {
    let t = Timestamp::parse_rfc3339("2020-01-02T03:04:05.5+01:00").unwrap();
    assert_eq!(t.parts(), (1577930645, 500_000_000));
    assert_eq!(t.to_rfc3339(), "2020-01-02T02:04:05.500+00:00");
    assert!(Timestamp::parse_rfc3339("2020-01-02").is_none());
    assert!(Timestamp::parse_rfc3339("").is_none());
}

#[test]
fn the_clock_goes_on() {
    let before = chrono::Utc::now();
    let now = Timestamp::now();
    let after = chrono::Utc::now();
    let (secs, _) = now.parts();
    assert!(before.timestamp() <= secs && secs <= after.timestamp());
}

#[test]
fn bind_addresses_are_those_of_sockets() {
    for host in [
        "0.0.0.0",
        "127.0.0.1",
        "256.1.1.1",
        "1.2.3",
        "01.2.3.4",
        "localhost",
        "",
        "[::1]",
        "::1",
        "[::]",
        "[1:2:3:4:5:6:7:8]",
        "[::ffff:1.2.3.4]",
        "[1::2::3]",
        "[fe80::1%3]",
        " 1.2.3.4",
    ] {
        let mut cfg = OpcUaConfig::default_local();
        cfg.bind_addr = host.into();
        let text = format!("{}:{}", host, cfg.port);
        let valid = text.parse::<core::net::SocketAddr>().is_ok();
        assert_eq!(cfg.bind_socket_addr().is_ok(), valid, "{}", host);
        assert_eq!(cfg.validate().is_ok(), valid || host == "localhost", "{}", host);
        if valid {
            assert_eq!(cfg.bind_socket_addr().unwrap(), text);
        }
    }
}
