use sensor_board::words::{parse_signed_byte, parse_unsigned, same, trim, Parts, Sep};

#[test]
fn words_are_runs_without_white_space() {
    let mut w = Parts::words("  ot\tping   fd00::1 \r\n");
    assert_eq!(w.next(), Some("ot"));
    assert_eq!(w.next(), Some("ping"));
    assert_eq!(w.next(), Some("fd00::1"));
    assert_eq!(w.next(), None);
    assert_eq!(w.next(), None);
}

#[test]
fn words_split_as_std_does() {
    for s in ["", " ", "a", "a b", "\u{a0}a\u{2003}b\u{3000}", "x\u{85}y", "\u{200b}z", "a\u{1680}b\u{2028}c\u{205f}d\u{202f}e"] {
        let mut w = Parts::words(s);
        for want in s.split_whitespace() {
            assert_eq!(w.next(), Some(want));
        }
        assert_eq!(w.next(), None);
        assert_eq!(trim(s), s.trim());
    }
}

#[test]
fn parts_between_colons() {
    let mut p = Parts::of(Sep::Colon, ":a::b:");
    assert_eq!(p.next(), Some("a"));
    assert_eq!(p.next(), Some("b"));
    assert_eq!(p.next(), None);
}

#[test]
fn trimming() {
    assert_eq!(trim("  a b\t"), "a b");
    assert_eq!(trim(" \r\n"), "");
    assert_eq!(trim(""), "");
}

#[test]
fn sameness() {
    assert!(same("abc", "abc"));
    assert!(!same("abc", "abd"));
    assert!(!same("abc", "ab"));
    assert!(same("", ""));
}

#[test]
fn unsigned_numbers() {
    assert_eq!(parse_unsigned("65535", 10, 0xFFFF), Some(65535));
    assert_eq!(parse_unsigned("65536", 10, 0xFFFF), None);
    assert_eq!(parse_unsigned("+7", 10, 9), Some(7));
    assert_eq!(parse_unsigned("-7", 10, 9), None);
    assert_eq!(parse_unsigned("", 10, 9), None);
    assert_eq!(parse_unsigned("+", 10, 9), None);
    assert_eq!(parse_unsigned("DeadBeef", 16, 0xFFFF_FFFF), Some(0xdead_beef));
    assert_eq!(parse_unsigned("00000000000000000000000001", 16, 9), Some(1));
    assert_eq!(parse_unsigned("99999999999999999999999999", 10, 0xFFFF), None);
}

#[test]
fn signed_bytes() {
    assert_eq!(parse_signed_byte("-128"), Some(-128));
    assert_eq!(parse_signed_byte("-129"), None);
    assert_eq!(parse_signed_byte("127"), Some(127));
    assert_eq!(parse_signed_byte("128"), None);
    assert_eq!(parse_signed_byte("+6"), Some(6));
    assert_eq!(parse_signed_byte("-0"), Some(0));
    assert_eq!(parse_signed_byte("-"), None);
    assert_eq!(parse_signed_byte("6dBm"), None);
    assert_eq!(parse_signed_byte("--1"), None);
}

#[test]
fn numbers_are_read_as_std_does() {
    for s in ["0", "-5", "+5", "+-5", "-+5", "1_0", "0x1", " 1", "256", "-0001"] {
        assert_eq!(parse_signed_byte(s), s.parse::<i8>().ok(), "{s}");
        assert_eq!(parse_unsigned(s, 10, 255), s.parse::<u8>().ok().map(u64::from), "{s}");
        assert_eq!(parse_unsigned(s, 16, 0xFFFF), u16::from_str_radix(s, 16).ok().map(u64::from), "{s}");
    }
}
