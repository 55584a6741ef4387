//! Small helpers for building message and payload text: appending to a
//! `String`, and decimal and hexadecimal renderings of unsigned numbers.

use vstd::prelude::*;

verus! {

/// Relies on `String::push_str`: appends the whole slice to the end of the
/// string.
#[verifier::external_body]
pub(crate) fn append_str(s: &mut String, t: &str)
    ensures
        final(s)@ == old(s)@ + t@,
{
    s.push_str(t);
}

/// Relies on `String::push`: appends the character to the end of the string.
#[verifier::external_body]
pub(crate) fn append_char(s: &mut String, c: char)
    ensures
        final(s)@ == old(s)@.push(c),
{
    s.push(c);
}

/// The character for one decimal digit.
pub open spec fn decimal_digit(d: nat) -> char
    recommends
        d < 10,
{
    ((48 + d) as u8) as char
}

/// The decimal rendering of `n`, most significant digit first, without
/// leading zeros.
pub open spec fn spec_decimal(n: nat) -> Seq<char>
    decreases n,
{
    if n < 10 {
        seq![decimal_digit(n)]
    } else {
        spec_decimal(n / 10).push(decimal_digit(n % 10))
    }
}

/// Appends the decimal rendering of `n`.
pub fn append_decimal(s: &mut String, n: u64)
    ensures
        final(s)@ == old(s)@ + spec_decimal(n as nat),
    decreases n,
{
    if n < 10 {
        append_char(s, (48 + n as u8) as char);
        assert(final(s)@ =~= old(s)@ + spec_decimal(n as nat));
    } else {
        append_decimal(s, n / 10);
        append_char(s, (48 + (n % 10) as u8) as char);
        assert(final(s)@ =~= old(s)@ + spec_decimal(n as nat));
    }
}

/// The decimal rendering of a signed number: a minus sign for a negative
/// one, then the digits.
pub open spec fn spec_signed_decimal(n: int) -> Seq<char> {
    if n >= 0 {
        spec_decimal(n as nat)
    } else {
        seq!['-'] + spec_decimal((-n) as nat)
    }
}

/// Appends the decimal rendering of a signed number.
pub fn append_signed_decimal(s: &mut String, n: i64)
    ensures
        final(s)@ == old(s)@ + spec_signed_decimal(n as int),
{
    if n >= 0 {
        append_decimal(s, n as u64);
    } else {
        append_char(s, '-');
        let mag: u64 = ((-(n + 1)) as u64) + 1;
        assert(mag == -(n as int));
        append_decimal(s, mag);
        assert(final(s)@ =~= old(s)@ + spec_signed_decimal(n as int));
    }
}

/// The character for one hexadecimal digit, in lower case.
pub open spec fn hex_digit(d: nat) -> char
    recommends
        d < 16,
{
    if d < 10 {
        ((48 + d) as u8) as char
    } else {
        ((87 + d) as u8) as char
    }
}

/// The hexadecimal rendering of `n`, most significant digit first, without
/// leading zeros, in lower case.
pub open spec fn spec_hex(n: nat) -> Seq<char>
    decreases n,
{
    if n < 16 {
        seq![hex_digit(n)]
    } else {
        spec_hex(n / 16).push(hex_digit(n % 16))
    }
}

/// Appends the hexadecimal rendering of `n`.
pub fn append_hex(s: &mut String, n: u16)
    ensures
        final(s)@ == old(s)@ + spec_hex(n as nat),
    decreases n,
{
    if n < 16 {
        append_hex_digit(s, n);
        assert(final(s)@ =~= old(s)@ + spec_hex(n as nat));
    } else {
        append_hex(s, n / 16);
        append_hex_digit(s, n % 16);
        assert(final(s)@ =~= old(s)@ + spec_hex(n as nat));
    }
}

/// Appends one hexadecimal digit.
fn append_hex_digit(s: &mut String, d: u16)
    requires
        d < 16,
    ensures
        final(s)@ == old(s)@.push(hex_digit(d as nat)),
{
    if d < 10 {
        append_char(s, (48 + d as u8) as char);
    } else {
        append_char(s, (87 + d as u8) as char);
    }
}

} // verus!
