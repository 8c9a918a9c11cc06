//! Lowercase hexadecimal rendering of bytes, in a fixed-width form of two
//! digits per byte and in a minimal form that drops a leading zero digit.
use vstd::prelude::*;

verus! {

/// The lowercase hexadecimal digit that stands for `n`, for `0 <= n < 16`.
pub open spec fn hex_digit(n: int) -> char {
    if n < 10 {
        ('0' as int + n) as char
    } else {
        ('a' as int + n - 10) as char
    }
}

/// Both digits of a byte, the high one first: `0x0a` gives `"0a"`.
pub open spec fn padded_hex(b: u8) -> Seq<char> {
    seq![hex_digit(b as int / 16), hex_digit(b as int % 16)]
}

/// The digits of a byte without a leading zero: `0x0a` gives `"a"`, and zero
/// gives `"0"`.
pub open spec fn minimal_hex(b: u8) -> Seq<char> {
    if b < 16 {
        seq![hex_digit(b as int)]
    } else {
        padded_hex(b)
    }
}

/// The fixed-width digits of each byte, concatenated in the order of the bytes.
pub open spec fn padded_hex_of(bytes: Seq<u8>) -> Seq<char>
    decreases bytes.len(),
{
    if bytes.len() == 0 {
        Seq::empty()
    } else {
        padded_hex_of(bytes.drop_last()) + padded_hex(bytes.last())
    }
}

/// The minimal digits of each byte, concatenated in the order of the bytes.
pub open spec fn minimal_hex_of(bytes: Seq<u8>) -> Seq<char>
    decreases bytes.len(),
{
    if bytes.len() == 0 {
        Seq::empty()
    } else {
        minimal_hex_of(bytes.drop_last()) + minimal_hex(bytes.last())
    }
}

/// Whether `c` is one of the sixteen lowercase hexadecimal digits.
pub open spec fn is_hex_digit(c: char) -> bool {
    ('0' <= c && c <= '9') || ('a' <= c && c <= 'f')
}

/// Both digits of a byte are hexadecimal digits.
pub proof fn lemma_padded_hex(b: u8)
    ensures
        padded_hex(b).len() == 2,
        is_hex_digit(padded_hex(b)[0]),
        is_hex_digit(padded_hex(b)[1]),
{
}

/// The minimal digits of a byte are one or two hexadecimal digits.
pub proof fn lemma_minimal_hex(b: u8)
    ensures
        1 <= minimal_hex(b).len() <= 2,
        forall|i: int| 0 <= i < minimal_hex(b).len() ==> is_hex_digit(#[trigger] minimal_hex(b)[i]),
{
}

/// The digit for a value below sixteen.
fn hex_digit_of(n: u8) -> (c: char)
    requires
        n < 16,
    ensures
        c == hex_digit(n as int),
        is_hex_digit(c),
{
    if n < 10 {
        (48u8 + n) as char
    } else {
        (97u8 + (n - 10)) as char
    }
}

/// Appends both digits of `b` to `out`.
pub fn push_padded_hex(out: &mut String, b: u8)
    ensures
        final(out)@ == old(out)@ + padded_hex(b),
{
    out.push(hex_digit_of(b / 16));
    out.push(hex_digit_of(b % 16));
    assert(final(out)@ =~= old(out)@ + padded_hex(b));
}

/// Appends the digits of `b` to `out`, without a leading zero.
pub fn push_minimal_hex(out: &mut String, b: u8)
    ensures
        final(out)@ == old(out)@ + minimal_hex(b),
{
    if b < 16 {
        out.push(hex_digit_of(b));
        assert(final(out)@ =~= old(out)@ + minimal_hex(b));
    } else {
        push_padded_hex(out, b);
    }
}

/// Renders every byte with two digits: the result has twice as many
/// characters as there are bytes.
pub fn padded_hex_text(bytes: &[u8]) -> (r: String)
    ensures
        r@ == padded_hex_of(bytes@),
{
    let mut r = String::new();
    let mut i: usize = 0;
    while i < bytes.len()
        invariant
            i <= bytes.len(),
            r@ == padded_hex_of(bytes@.take(i as int)),
        decreases bytes.len() - i,
    {
        assert(bytes@.take(i + 1).drop_last() =~= bytes@.take(i as int));
        push_padded_hex(&mut r, bytes[i]);
        i += 1;
    }
    assert(bytes@.take(i as int) =~= bytes@);
    r
}

/// Renders every byte with its minimal digits.
pub fn minimal_hex_text(bytes: &[u8]) -> (r: String)
    ensures
        r@ == minimal_hex_of(bytes@),
{
    let mut r = String::new();
    let mut i: usize = 0;
    while i < bytes.len()
        invariant
            i <= bytes.len(),
            r@ == minimal_hex_of(bytes@.take(i as int)),
        decreases bytes.len() - i,
    {
        assert(bytes@.take(i + 1).drop_last() =~= bytes@.take(i as int));
        push_minimal_hex(&mut r, bytes[i]);
        i += 1;
    }
    assert(bytes@.take(i as int) =~= bytes@);
    r
}

} // verus!
