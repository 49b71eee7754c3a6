//! Building diagnostic text as UTF-8 bytes.

use vstd::prelude::*;
use vstd::utf8::*;

use crate::bytes;

verus! {

/// Decimal digits of `n`.
pub open spec fn decimal(n: nat) -> Seq<u8>
    decreases n,
{
    if n < 10 {
        seq![(48 + n) as u8]
    } else {
        decimal(n / 10) + seq![(48 + n % 10) as u8]
    }
}

/// Decimal digits of `n`, with a leading minus sign when it is negative.
pub open spec fn signed_decimal(n: int) -> Seq<u8> {
    if n < 0 {
        seq![45u8] + decimal((-n) as nat)
    } else {
        decimal(n as nat)
    }
}

/// The lower-case hexadecimal digit of a value below sixteen.
pub open spec fn hex_digit(value: u8) -> u8 {
    if value < 10 {
        (48 + value) as u8
    } else {
        (87 + value) as u8
    }
}

/// Two lower-case hexadecimal digits of a byte.
pub open spec fn hex_pair(value: u8) -> Seq<u8> {
    seq![hex_digit((value / 16) as u8), hex_digit((value % 16) as u8)]
}

/// A string of ASCII bytes is valid UTF-8.
pub proof fn ascii_is_valid_utf8(b: Seq<u8>)
    requires
        forall|i: int| 0 <= i < b.len() ==> b[i] < 128,
    ensures
        valid_utf8(b),
    decreases b.len(),
{
    if b.len() > 0 {
        let first = b[0];
        assert(first < 128);
        assert(first & 0x80 == 0 && (first & 0x7f) as u8 == first) by (bit_vector)
            requires
                first < 128,
        ;
        assert(is_leading_byte_width_1(first));
        assert(pop_first_scalar(b) =~= b.skip(1));
        ascii_is_valid_utf8(b.skip(1));
    }
}

/// The decimal digits of a number are ASCII.
pub proof fn decimal_is_ascii(n: nat)
    ensures
        forall|i: int| 0 <= i < decimal(n).len() ==> 48 <= #[trigger] decimal(n)[i] <= 57,
        decimal(n).len() > 0,
    decreases n,
{
    if n >= 10 {
        decimal_is_ascii(n / 10);
    }
}

/// Appends a text.
pub fn push_text(out: &mut Vec<u8>, text: &str)
    requires
        valid_utf8(old(out)@),
    ensures
        final(out)@ == old(out)@ + bytes::utf8(text@),
        valid_utf8(final(out)@),
{
    proof {
        encode_utf8_valid_utf8(text@);
        valid_utf8_concat(out@, encode_utf8(text@));
    }
    bytes::push_bytes(out, text.as_bytes());
}

/// Appends one ASCII byte.
pub fn push_ascii(out: &mut Vec<u8>, byte: u8)
    requires
        valid_utf8(old(out)@),
        byte < 128,
    ensures
        final(out)@ == old(out)@ + seq![byte],
        valid_utf8(final(out)@),
{
    proof {
        ascii_is_valid_utf8(seq![byte]);
        valid_utf8_concat(out@, seq![byte]);
    }
    bytes::push_u8(out, byte);
}

/// Appends the decimal digits of `n`.
pub fn push_decimal(out: &mut Vec<u8>, n: u64)
    requires
        valid_utf8(old(out)@),
    ensures
        final(out)@ == old(out)@ + decimal(n as nat),
        valid_utf8(final(out)@),
    decreases n,
{
    if n >= 10 {
        push_decimal(out, n / 10);
    }
    let ghost before = out@;
    push_ascii(out, 48 + (n % 10) as u8);
    proof {
        if n >= 10 {
            bytes::concat_regroups(
                old(out)@,
                decimal((n / 10) as nat),
                seq![(48 + n % 10) as u8],
            );
        }
    }
}

/// Appends the decimal digits of a signed number.
pub fn push_signed_decimal(out: &mut Vec<u8>, n: i32)
    requires
        valid_utf8(old(out)@),
    ensures
        final(out)@ == old(out)@ + signed_decimal(n as int),
        valid_utf8(final(out)@),
{
    if n < 0 {
        push_ascii(out, 45);
        push_decimal(out, (-(n as i64)) as u64);
        proof {
            bytes::concat_regroups(old(out)@, seq![45u8], decimal((-(n as int)) as nat));
        }
    } else {
        push_decimal(out, n as u64);
    }
}

/// Appends the two hexadecimal digits of a byte.
pub fn push_hex_pair(out: &mut Vec<u8>, value: u8)
    requires
        valid_utf8(old(out)@),
    ensures
        final(out)@ == old(out)@ + hex_pair(value),
        valid_utf8(final(out)@),
{
    let high: u8 = value / 16;
    let low: u8 = value % 16;
    push_ascii(out, if high < 10 { 48 + high } else { 87 + high });
    push_ascii(out, if low < 10 { 48 + low } else { 87 + low });
    assert(out@ =~= old(out)@ + hex_pair(value));
}

/// The text with these bytes.
pub fn finish_text(bytes: Vec<u8>) -> (text: String)
    requires
        valid_utf8(bytes@),
    ensures
        bytes::utf8(text@) == bytes@,
{
    match bytes::text_from_bytes(bytes.as_slice()) {
        Some(text) => text,
        None => String::new(),
    }
}

/// The needle stands somewhere in the text.
pub open spec fn holds(text: Seq<u8>, needle: Seq<u8>) -> bool {
    exists|i: int|
        0 <= i && i + needle.len() <= text.len() && #[trigger] text.subrange(i, i + needle.len())
            == needle
}

/// Whether the needle stands somewhere in the text.
pub fn contains(text: &[u8], needle: &[u8]) -> (found: bool)
    ensures
        found == holds(text@, needle@),
{
    if needle.len() > text.len() {
        return false;
    }
    let total: usize = text.len();
    let last: usize = total - needle.len();
    let mut i: usize = 0;
    while i <= last
        invariant
            total == text@.len(),
            last + needle@.len() == total,
            i <= last,
            forall|j: int|
                0 <= j < i ==> #[trigger] text@.subrange(j, j + needle@.len()) != needle@,
        decreases last - i,
    {
        if bytes::bytes_equal(vstd::slice::slice_subrange(text, i, i + needle.len()), needle) {
            assert(text@.subrange(i as int, i + needle@.len()) == needle@);
            return true;
        }
        if i == last {
            return false;
        }
        i = i + 1;
    }
    false
}

} // verus!
