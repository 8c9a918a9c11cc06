use hostid::hex::{minimal_hex_text, padded_hex_text, push_minimal_hex, push_padded_hex};

#[test]
fn digits_are_lowercase() {
    let bytes = [0x01, 0x23, 0x45, 0x67, 0x89, 0xab, 0xcd, 0xef];
    assert_eq!(padded_hex_text(&bytes), "0123456789abcdef");
}

#[test]
fn every_byte_is_written_as_std_writes_it() {
    for b in 0u8..=255 {
        assert_eq!(padded_hex_text(&[b]), format!("{:02x}", b));
        assert_eq!(minimal_hex_text(&[b]), format!("{:x}", b));
    }
}

#[test]
fn padded_text_has_two_digits_per_byte() {
    assert_eq!(padded_hex_text(&[0x00, 0x0a, 0x1c, 0x01]), "000a1c01");
    assert_eq!(padded_hex_text(&[0xff, 0x10, 0x0f, 0x00]), "ff100f00");
    assert_eq!(padded_hex_text(&[]), "");
}

#[test]
fn minimal_text_drops_the_leading_zero_of_each_byte() {
    assert_eq!(minimal_hex_text(&[0x1c, 0x00, 0x7f, 0x01]), "1c07f1");
    assert_eq!(minimal_hex_text(&[0xff, 0x10, 0x0f, 0x00]), "ff10f0");
    assert_eq!(minimal_hex_text(&[0, 0, 0, 0]), "0000");
    assert_eq!(minimal_hex_text(&[]), "");
}

#[test]
fn pushing_appends_to_what_is_there() {
    let mut out = String::from("id:");
    push_padded_hex(&mut out, 0x05);
    push_minimal_hex(&mut out, 0x05);
    push_minimal_hex(&mut out, 0xa5);
    assert_eq!(out, "id:055a5");
}
