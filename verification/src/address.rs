//! IPv4 addresses in dotted decimal text, and the identifier that is derived
//! from one: the octets reversed, read as a little-endian word, with the two
//! halves of the word exchanged.
use vstd::prelude::*;
use vstd::slice::slice_subrange;
use crate::hex::{padded_hex, padded_hex_of, padded_hex_text};
use crate::text::{split, split_chars};

verus! {

/// Whether `c` is a decimal digit.
pub open spec fn is_digit(c: char) -> bool {
    '0' <= c && c <= '9'
}

/// Whether `s` holds decimal digits only.
pub open spec fn all_digits(s: Seq<char>) -> bool {
    forall|i: int| 0 <= i < s.len() ==> is_digit(#[trigger] s[i])
}

/// The number that the decimal digits `s` write, leading zeros allowed.
pub open spec fn decimal(s: Seq<char>) -> int
    decreases s.len(),
{
    if s.len() == 0 {
        0
    } else {
        decimal(s.drop_last()) * 10 + (s.last() as int - '0' as int)
    }
}

/// The digits of an unsigned number: a single leading plus sign is dropped.
pub open spec fn unsigned_digits(s: Seq<char>) -> Seq<char> {
    if s.len() > 0 && s[0] == '+' {
        s.drop_first()
    } else {
        s
    }
}

/// The octet that `s` writes: at least one decimal digit, after an optional
/// plus sign, with a value of at most 255. Any other text writes none.
pub open spec fn octet(s: Seq<char>) -> Option<u8> {
    let d = unsigned_digits(s);
    if d.len() > 0 && all_digits(d) && decimal(d) <= 255 {
        Some(decimal(d) as u8)
    } else {
        None
    }
}

/// The four octets that `text` writes in dotted decimal form: exactly four
/// pieces between dots, each of them an octet.
pub open spec fn parse_address(text: Seq<char>) -> Option<Seq<u8>> {
    let parts = split(text, '.');
    if parts.len() == 4 && octet(parts[0]) is Some && octet(parts[1]) is Some && octet(
        parts[2],
    ) is Some && octet(parts[3]) is Some {
        Some(
            seq![
                octet(parts[0]).unwrap(),
                octet(parts[1]).unwrap(),
                octet(parts[2]).unwrap(),
                octet(parts[3]).unwrap(),
            ],
        )
    } else {
        None
    }
}

/// The word whose four bytes, least significant first, are `b`.
pub open spec fn le_value(b: Seq<u8>) -> u32 {
    (b[0] as int + b[1] as int * 0x100 + b[2] as int * 0x1_0000 + b[3] as int * 0x100_0000) as u32
}

/// The four bytes of `v`, least significant first.
pub open spec fn le_bytes(v: u32) -> Seq<u8> {
    seq![
        (v as int % 0x100) as u8,
        (v as int / 0x100 % 0x100) as u8,
        (v as int / 0x1_0000 % 0x100) as u8,
        (v as int / 0x100_0000) as u8,
    ]
}

/// `v` with its upper and lower sixteen bits exchanged.
pub open spec fn rotated(v: u32) -> u32 {
    (v << 16) | (v >> 16)
}

/// The identifier of an address: eight hexadecimal digits.
pub open spec fn address_identifier(octets: Seq<u8>) -> Seq<char> {
    padded_hex_of(le_bytes(rotated(le_value(octets.reverse()))))
}

/// A prefix of decimal digits writes no more than the whole.
pub proof fn lemma_decimal_prefix(s: Seq<char>, i: int)
    requires
        all_digits(s),
        0 <= i <= s.len(),
    ensures
        0 <= decimal(s.take(i)) <= decimal(s),
    decreases s.len(),
{
    if i == s.len() {
        assert(s.take(i) =~= s);
        if s.len() > 0 {
            lemma_decimal_prefix(s.drop_last(), i - 1);
            assert(s.drop_last().take(i - 1) =~= s.drop_last());
        }
    } else {
        lemma_decimal_prefix(s.drop_last(), i);
        assert(s.drop_last().take(i) =~= s.take(i));
        assert(is_digit(s[s.len() - 1]));
    }
}

/// Exchanging the halves twice gives the word back.
pub proof fn lemma_rotated_twice(v: u32)
    ensures
        rotated(rotated(v)) == v,
{
    assert(((v << 16) | (v >> 16)) << 16 | ((v << 16) | (v >> 16)) >> 16 == v) by (bit_vector);
}

/// Exchanges the upper and lower sixteen bits of `v`.
pub fn rotate16(v: u32) -> (r: u32)
    ensures
        r == rotated(v),
{
    v << 16 | v >> 16
}

/// Reads four bytes as a word, least significant byte first.
pub fn le_value_of(b: &[u8; 4]) -> (v: u32)
    ensures
        v == le_value(b@),
{
    let b0: u32 = b[0] as u32;
    let b1: u32 = b[1] as u32;
    let b2: u32 = b[2] as u32;
    let b3: u32 = b[3] as u32;
    assert((b0 | (b1 << 8) | (b2 << 16) | (b3 << 24)) == b0 + b1 * 0x100 + b2 * 0x1_0000 + b3
        * 0x100_0000) by (bit_vector)
        requires
            b0 < 0x100,
            b1 < 0x100,
            b2 < 0x100,
            b3 < 0x100,
    ;
    b0 | (b1 << 8) | (b2 << 16) | (b3 << 24)
}

/// Writes a word as four bytes, least significant byte first.
pub fn le_bytes_of(v: u32) -> (b: [u8; 4])
    ensures
        b@ == le_bytes(v),
{
    assert(v & 0xff == v % 0x100) by (bit_vector);
    assert((v >> 8) & 0xff == v / 0x100 % 0x100) by (bit_vector);
    assert((v >> 16) & 0xff == v / 0x1_0000 % 0x100) by (bit_vector);
    assert(v >> 24 == v / 0x100_0000) by (bit_vector);
    let b: [u8; 4] = [
        (v & 0xff) as u8,
        ((v >> 8) & 0xff) as u8,
        ((v >> 16) & 0xff) as u8,
        (v >> 24) as u8,
    ];
    assert(b@ =~= le_bytes(v));
    b
}

/// The identifier of the address `a.b.c.d` is the two digits of `b`, then
/// those of `a`, of `d` and of `c`.
pub proof fn lemma_address_identifier(octets: Seq<u8>)
    requires
        octets.len() == 4,
    ensures
        address_identifier(octets) == padded_hex(octets[1]) + padded_hex(octets[0]) + padded_hex(
            octets[3],
        ) + padded_hex(octets[2]),
        address_identifier(octets).len() == 8,
{
    let a: u32 = octets[0] as u32;
    let b: u32 = octets[1] as u32;
    let c: u32 = octets[2] as u32;
    let d: u32 = octets[3] as u32;
    let r = octets.reverse();
    assert(r[0] == octets[3] && r[1] == octets[2] && r[2] == octets[1] && r[3] == octets[0]);
    let v: u32 = le_value(r);
    assert(v == d + c * 0x100 + b * 0x1_0000 + a * 0x100_0000);
    let w: u32 = rotated(v);
    assert(w == ((v << 16) | (v >> 16)));
    assert({
        let v: u32 = (d + c * 0x100 + b * 0x1_0000 + a * 0x100_0000) as u32;
        let w: u32 = (v << 16) | (v >> 16);
        &&& w % 0x100 == b
        &&& w / 0x100 % 0x100 == a
        &&& w / 0x1_0000 % 0x100 == d
        &&& w / 0x100_0000 == c
    }) by (bit_vector)
        requires
            a < 0x100,
            b < 0x100,
            c < 0x100,
            d < 0x100,
    ;
    let bytes = le_bytes(w);
    assert(bytes =~= seq![octets[1], octets[0], octets[3], octets[2]]);
    lemma_padded_hex_of_four(bytes);
}

/// The fixed-width digits of four bytes, written out.
pub proof fn lemma_padded_hex_of_four(bytes: Seq<u8>)
    requires
        bytes.len() == 4,
    ensures
        padded_hex_of(bytes) == padded_hex(bytes[0]) + padded_hex(bytes[1]) + padded_hex(bytes[2])
            + padded_hex(bytes[3]),
        padded_hex_of(bytes).len() == 8,
{
    let b3 = bytes.drop_last();
    let b2 = b3.drop_last();
    let b1 = b2.drop_last();
    let b0 = b1.drop_last();
    assert(b0.len() == 0);
    assert(padded_hex_of(b0) =~= Seq::<char>::empty());
    assert(padded_hex_of(b1) =~= padded_hex(bytes[0]));
    assert(padded_hex_of(b2) =~= padded_hex(bytes[0]) + padded_hex(bytes[1]));
    assert(padded_hex_of(b3) =~= padded_hex(bytes[0]) + padded_hex(bytes[1]) + padded_hex(
        bytes[2],
    ));
    assert(padded_hex_of(bytes) =~= padded_hex(bytes[0]) + padded_hex(bytes[1]) + padded_hex(
        bytes[2],
    ) + padded_hex(bytes[3]));
}

/// Reads an octet: decimal digits after an optional plus sign, with a value
/// of at most 255.
pub fn parse_octet(s: &[char]) -> (r: Option<u8>)
    ensures
        r == octet(s@),
{
    let digits: &[char] = if s.len() > 0 && s[0] == '+' {
        slice_subrange(s, 1, s.len())
    } else {
        s
    };
    assert(digits@ =~= unsigned_digits(s@));
    if digits.len() == 0 {
        return None;
    }
    let mut acc: u32 = 0;
    let mut i: usize = 0;
    while i < digits.len()
        invariant
            i <= digits.len(),
            digits@ == unsigned_digits(s@),
            all_digits(digits@.take(i as int)),
            acc == decimal(digits@.take(i as int)),
            acc <= 255,
        decreases digits.len() - i,
    {
        let c: char = digits[i];
        if !('0' <= c && c <= '9') {
            assert(!is_digit(digits@[i as int]));
            return None;
        }
        let next: u32 = acc * 10 + (c as u32 - 48);
        proof {
            let upto = digits@.take(i + 1);
            assert(upto.drop_last() =~= digits@.take(i as int));
            assert(upto.last() == c);
            assert(next == decimal(upto));
            assert forall|k: int| 0 <= k < upto.len() implies is_digit(#[trigger] upto[k]) by {
                if k < i {
                    assert(upto[k] == digits@.take(i as int)[k]);
                }
            }
        }
        if next > 255 {
            proof {
                if all_digits(digits@) {
                    lemma_decimal_prefix(digits@, i + 1);
                }
            }
            return None;
        }
        acc = next;
        i += 1;
    }
    assert(digits@.take(i as int) =~= digits@);
    Some(acc as u8)
}

/// Reads an address in dotted decimal form.
pub fn parse_address_chars(text: &[char]) -> (r: Option<[u8; 4]>)
    ensures
        match parse_address(text@) {
            Some(octets) => r is Some && r.unwrap()@ == octets,
            None => r is None,
        },
{
    let parts = split_chars(text, '.');
    if parts.len() != 4 {
        return None;
    }
    let a = parse_octet(parts[0]);
    let b = parse_octet(parts[1]);
    let c = parse_octet(parts[2]);
    let d = parse_octet(parts[3]);
    match (a, b, c, d) {
        (Some(a), Some(b), Some(c), Some(d)) => {
            let octets: [u8; 4] = [a, b, c, d];
            assert(octets@ =~= parse_address(text@).unwrap());
            Some(octets)
        },
        _ => None,
    }
}

/// The identifier of an address, as text of eight hexadecimal digits.
pub fn identifier_of_address(octets: &[u8; 4]) -> (r: String)
    ensures
        r@ == address_identifier(octets@),
        r@.len() == 8,
{
    let reversed: [u8; 4] = [octets[3], octets[2], octets[1], octets[0]];
    assert(reversed@ =~= octets@.reverse());
    let word = rotate16(le_value_of(&reversed));
    let bytes = le_bytes_of(word);
    proof {
        lemma_address_identifier(octets@);
    }
    padded_hex_text(bytes.as_slice())
}

} // verus!
