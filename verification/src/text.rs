//! Small text-building helpers: appending single characters and the decimal
//! digits of an integer to a `String`, with the sequence of characters they
//! produce stated exactly.

use vstd::prelude::*;
use vstd::string::StringExecFns;

verus! {

/// Relies on `String::push` of std: appends exactly the one character.
#[verifier::external_body]
pub fn push_char(s: &mut String, c: char)
    ensures
        final(s)@ == old(s)@ + seq![c],
{
    s.push(c);
}

/// Relies on `str` equality of std: two string slices are equal exactly when
/// their characters are.
#[verifier::external_body]
pub fn str_eq(a: &str, b: &str) -> (r: bool)
    ensures
        r == (a@ == b@),
{
    a == b
}

/// Appends `t` to `s`; a named, contract-carrying form of `String::append`.
pub fn push_str(s: &mut String, t: &str)
    ensures
        final(s)@ == old(s)@ + t@,
{
    s.append(t);
}

/// The character for a single decimal digit.
pub open spec fn digit_char(d: nat) -> char {
    if d == 0 { '0' }
    else if d == 1 { '1' }
    else if d == 2 { '2' }
    else if d == 3 { '3' }
    else if d == 4 { '4' }
    else if d == 5 { '5' }
    else if d == 6 { '6' }
    else if d == 7 { '7' }
    else if d == 8 { '8' }
    else if d == 9 { '9' }
    else { '?' }
}

/// The decimal digits of `n`, most significant first, with no leading zeros
/// (except that zero itself is the single digit `0`).
pub open spec fn dec_digits(n: nat) -> Seq<char>
    decreases n,
{
    if n < 10 {
        seq![digit_char(n)]
    } else {
        dec_digits(n / 10) + seq![digit_char(n % 10)]
    }
}

/// The decimal digits of `n`, left-padded with zeros to at least `width`
/// characters.
pub open spec fn dec_digits_padded(n: nat, width: nat) -> Seq<char>
    decreases width,
{
    if width <= 1 {
        dec_digits(n)
    } else {
        dec_digits_padded(n / 10, (width - 1) as nat) + seq![digit_char(n % 10)]
    }
}

fn digit_to_char(d: u64) -> (c: char)
    requires
        d < 10,
    ensures
        c == digit_char(d as nat),
{
    if d == 0 { '0' }
    else if d == 1 { '1' }
    else if d == 2 { '2' }
    else if d == 3 { '3' }
    else if d == 4 { '4' }
    else if d == 5 { '5' }
    else if d == 6 { '6' }
    else if d == 7 { '7' }
    else if d == 8 { '8' }
    else { '9' }
}

/// Appends the decimal digits of `n` to `out`.
pub fn push_u64(out: &mut String, n: u64)
    ensures
        final(out)@ == old(out)@ + dec_digits(n as nat),
    decreases n,
{
    if n < 10 {
        let c = digit_to_char(n);
        push_char(out, c);
    } else {
        push_u64(out, n / 10);
        let c = digit_to_char(n % 10);
        push_char(out, c);
        proof {
            assert(out@ =~= old(out)@ + dec_digits(n as nat));
        }
    }
}

/// Appends the decimal digits of `n` to `out`, left-padded with zeros to at
/// least `width` characters.
pub fn push_u64_padded(out: &mut String, n: u64, width: u8)
    ensures
        final(out)@ == old(out)@ + dec_digits_padded(n as nat, width as nat),
    decreases width,
{
    if width <= 1 {
        push_u64(out, n);
    } else {
        push_u64_padded(out, n / 10, width - 1);
        let c = digit_to_char(n % 10);
        push_char(out, c);
        proof {
            assert(out@ =~= old(out)@ + dec_digits_padded(n as nat, width as nat));
        }
    }
}

} // verus!
