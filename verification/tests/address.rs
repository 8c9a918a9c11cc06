use hostid::address::{
    identifier_of_address, le_bytes_of, le_value_of, parse_address_chars, parse_octet, rotate16,
};

fn chars(s: &str) -> Vec<char> {
    s.chars().collect()
}

fn octet(s: &str) -> Option<u8> {
    parse_octet(&chars(s))
}

fn address(s: &str) -> Option<[u8; 4]> {
    parse_address_chars(&chars(s))
}

#[test]
fn octets_are_decimal_numbers_up_to_255() {
    assert_eq!(octet("0"), Some(0));
    assert_eq!(octet("9"), Some(9));
    assert_eq!(octet("28"), Some(28));
    assert_eq!(octet("255"), Some(255));
    assert_eq!(octet("256"), None);
    assert_eq!(octet("1000"), None);
    assert_eq!(octet("99999999999999999999999"), None);
}

#[test]
fn octets_may_have_leading_zeros_and_a_plus_sign() {
    assert_eq!(octet("007"), Some(7));
    assert_eq!(octet("0000000000000000000000255"), Some(255));
    assert_eq!(octet("0000000000000000000000256"), None);
    assert_eq!(octet("+5"), Some(5));
    assert_eq!(octet("+255"), Some(255));
    assert_eq!(octet("+256"), None);
}

#[test]
fn other_text_is_no_octet() {
    assert_eq!(octet(""), None);
    assert_eq!(octet("+"), None);
    assert_eq!(octet("++1"), None);
    assert_eq!(octet("-1"), None);
    assert_eq!(octet("-0"), None);
    assert_eq!(octet("1a"), None);
    assert_eq!(octet("a1"), None);
    assert_eq!(octet(" 1"), None);
    assert_eq!(octet("1 "), None);
    assert_eq!(octet("0x10"), None);
    assert_eq!(octet("\u{663}"), None);
    assert_eq!(octet("256a"), None);
}

#[test]
fn octets_agree_with_std() {
    let samples = [
        "", "+", "-", "0", "+0", "-0", "1", "12", "123", "255", "256", "260", "299", "300", "999",
        "0255", "00256", "+12", "1+2", "12+", "1.2", "/", ":", "2 5",
    ];
    for s in samples {
        assert_eq!(octet(s), s.parse::<u8>().ok(), "{:?}", s);
    }
}

#[test]
fn addresses_are_four_octets_between_dots() {
    assert_eq!(address("10.0.1.28"), Some([10, 0, 1, 28]));
    assert_eq!(address("127.0.0.1"), Some([127, 0, 0, 1]));
    assert_eq!(address("255.255.255.255"), Some([255, 255, 255, 255]));
    assert_eq!(address("+1.02.003.4"), Some([1, 2, 3, 4]));
}

#[test]
fn malformed_addresses_are_refused() {
    assert_eq!(address(""), None);
    assert_eq!(address("1.2.3"), None);
    assert_eq!(address("1.2.3.4.5"), None);
    assert_eq!(address("1..3.4"), None);
    assert_eq!(address("1.2.3."), None);
    assert_eq!(address(".1.2.3"), None);
    assert_eq!(address("1.2.3.256"), None);
    assert_eq!(address("a.b.c.d"), None);
    assert_eq!(address("::1"), None);
    assert_eq!(address("1.2.3.4 "), None);
    assert_eq!(address("10.0.1.28 myhost"), None);
}

#[test]
fn rotate16_exchanges_the_halves() {
    assert_eq!(rotate16(0x0a00_011c), 0x011c_0a00);
    assert_eq!(rotate16(0x1234_5678), 0x5678_1234);
    assert_eq!(rotate16(0x0000_ffff), 0xffff_0000);
    assert_eq!(rotate16(0), 0);
    assert_eq!(rotate16(0x8000_0001), 0x0001_8000);
}

#[test]
fn rotate16_twice_is_the_identity() {
    for v in [0u32, 1, 0x1234_5678, 0x0a00_011c, 0xffff_0000, 0xdead_beef, u32::MAX] {
        assert_eq!(rotate16(rotate16(v)), v);
        assert_eq!(rotate16(v), v.rotate_left(16));
    }
}

#[test]
fn words_are_little_endian() {
    assert_eq!(le_value_of(&[28, 1, 0, 10]), 0x0a00_011c);
    assert_eq!(le_value_of(&[0xff, 0, 0, 0]), 0xff);
    assert_eq!(le_value_of(&[0, 0, 0, 0x80]), 0x8000_0000);
    assert_eq!(le_bytes_of(0x011c_0a00), [0x00, 0x0a, 0x1c, 0x01]);
    assert_eq!(le_bytes_of(0x1234_5678), [0x78, 0x56, 0x34, 0x12]);
    for v in [0u32, 0xdead_beef, u32::MAX] {
        assert_eq!(le_bytes_of(v), v.to_le_bytes());
        assert_eq!(le_value_of(&v.to_le_bytes()), v);
    }
}

#[test]
fn identifier_of_an_address_is_eight_digits() {
    assert_eq!(identifier_of_address(&[10, 0, 1, 28]), "000a1c01");
    assert_eq!(identifier_of_address(&[127, 0, 0, 1]), "007f0100");
    assert_eq!(identifier_of_address(&[192, 168, 1, 10]), "a8c00a01");
    assert_eq!(identifier_of_address(&[0, 0, 0, 0]), "00000000");
    assert_eq!(identifier_of_address(&[255, 255, 255, 255]), "ffffffff");
}
