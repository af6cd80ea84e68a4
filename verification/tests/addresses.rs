use sensor_board::ip6::{fmt_ip6, parse_ip6};
use sensor_board::ot::{hex_nibble, leader_aloc, parse_hex_bytes, readable};

const A: [u8; 16] = [0xfd, 0x11, 0x22, 0x33, 0x44, 0x55, 0x66, 0x77, 0, 0, 0, 0xff, 0xfe, 0, 0xfc, 0];

#[test]
fn address_is_printed_in_eight_groups() {
    let mut l = heapless::String::new();
    fmt_ip6(&A, &mut l);
    assert_eq!(l.as_str(), "fd11:2233:4455:6677:0:ff:fe00:fc00");
}

#[test]
fn address_is_cut_at_the_end_of_the_line() {
    let mut l = heapless::String::new();
    for _ in 0..215 {
        l.push('x').unwrap();
    }
    fmt_ip6(&A, &mut l);
    assert_eq!(&l.as_str()[215..], "fd11:2233");
    let mut l = heapless::String::new();
    for _ in 0..216 {
        l.push('x').unwrap();
    }
    fmt_ip6(&A, &mut l);
    assert_eq!(&l.as_str()[216..], "fd11::::");
}

#[test]
fn printed_address_is_read_back() {
    let mut l = heapless::String::new();
    fmt_ip6(&A, &mut l);
    assert_eq!(parse_ip6(l.as_str()), Some(A));
}

#[test]
fn addresses_with_a_gap() {
    assert_eq!(parse_ip6("::"), Some([0; 16]));
    let mut one = [0u8; 16];
    one[15] = 1;
    assert_eq!(parse_ip6("::1"), Some(one));
    let mut a = [0u8; 16];
    a[0] = 0xff;
    a[1] = 0x02;
    a[15] = 1;
    assert_eq!(parse_ip6("ff02::1"), Some(a));
    let mut b = [0u8; 16];
    b[0] = 0xfe;
    b[1] = 0x80;
    assert_eq!(parse_ip6("FE80::"), Some(b));
    assert_eq!(parse_ip6("1:2:3:4:5:6:7:8"), parse_ip6("1:2:3:4:5:6:7:8::"));
}

#[test]
fn colons_at_the_ends_part_nothing() {
    assert_eq!(parse_ip6(":1:2:3:4:5:6:7:8"), parse_ip6("1:2:3:4:5:6:7:8"));
    assert_eq!(parse_ip6("1:2:3:4:5:6:7:8:"), parse_ip6("1:2:3:4:5:6:7:8"));
    assert_eq!(parse_ip6("1:::2"), parse_ip6("1::2"));
}

#[test]
fn second_gap_is_refused() {
    for s in ["1::2::3", "::1::", "::::", "1::2:::3", "1:2::3:4::5:6"] {
        assert_eq!(parse_ip6(s), None, "{s}");
    }
    assert!(parse_ip6("1::2:3").is_some());
}

#[test]
fn what_is_no_address_is_refused() {
    for s in ["", "1", "1:2:3:4:5:6:7", "1:2:3:4:5:6:7:8:9", "g::", "12345::", "1:2:3:4:5::6:7:8:9", "::1.2.3.4", "1 ::2"] {
        assert_eq!(parse_ip6(s), None, "{s}");
    }
    assert_eq!(parse_ip6("+1::"), parse_ip6("1::"));
}

#[test]
fn leader_address_is_under_the_prefix() {
    assert_eq!(leader_aloc(&[0xfd, 0x11, 0x22, 0x33, 0x44, 0x55, 0x66, 0x77]), A);
}

#[test]
fn readable_memory() {
    assert!(!readable(0x1fff_ffff));
    assert!(readable(0x2000_0000));
    assert!(readable(0x2003_ffff));
    assert!(!readable(0x2004_0000));
}

#[test]
fn nibbles() {
    assert_eq!(hex_nibble(b'0'), Some(0));
    assert_eq!(hex_nibble(b'9'), Some(9));
    assert_eq!(hex_nibble(b'a'), Some(10));
    assert_eq!(hex_nibble(b'F'), Some(15));
    assert_eq!(hex_nibble(b'g'), None);
    assert_eq!(hex_nibble(b'/'), None);
    assert_eq!(hex_nibble(b'@'), None);
}

#[test]
fn hex_stops_at_the_first_bad_pair() {
    let r = parse_hex_bytes(b"0aFF3x12");
    assert_eq!(&r.bytes[..r.n], &[0x0a, 0xff]);
    assert_eq!(parse_hex_bytes(b"abc").n, 1);
    assert_eq!(parse_hex_bytes(b"").n, 0);
    assert_eq!(parse_hex_bytes(&[b'1'; 600]).n, 254);
}
