//! The numeric value of a gauge: a non-negative decimal, kept exactly as it
//! was observed (a mantissa and the number of digits after the decimal
//! point), so that rendering reproduces the observed text without rounding.

use vstd::prelude::*;
use vstd::string::StrSliceExecFns;
use crate::text::{dec_digits, dec_digits_padded, push_char, push_u64, push_u64_padded};

verus! {

/// A non-negative decimal number `mantissa / 10^scale`, stored exactly.
///
/// `scale` is the number of digits after the decimal point; `scale == 0`
/// means an integer. The bound on `scale` keeps `10^scale` within `u64`.
#[derive(Clone, Copy, Debug, PartialEq, Eq, Structural)]
pub struct GaugeValue {
    pub mantissa: u64,
    pub scale: u8,
}

impl GaugeValue {
    /// A value is well formed when its scale stays within the range that
    /// `u64` arithmetic can split into whole and fractional digits.
    pub open spec fn wf(self) -> bool {
        self.scale <= 19
    }

    /// The characters that rendering produces for this value: the whole part
    /// without leading zeros, then, for a scaled value, a point and exactly
    /// `scale` fractional digits.
    pub open spec fn rendered(self) -> Seq<char> {
        if self.scale == 0 {
            dec_digits(self.mantissa as nat)
        } else {
            dec_digits(self.mantissa as nat / pow10(self.scale as nat)) + seq!['.']
                + dec_digits_padded(self.mantissa as nat % pow10(self.scale as nat), self.scale as nat)
        }
    }

    /// The integer `n`, as a gauge value.
    pub fn from_u64(n: u64) -> (r: GaugeValue)
        ensures
            r == (GaugeValue { mantissa: n, scale: 0 }),
    {
        GaugeValue { mantissa: n, scale: 0 }
    }

    /// `1` for `true`, `0` for `false`: the encoding of a flag as a gauge.
    pub fn from_bool(b: bool) -> (r: GaugeValue)
        ensures
            r == (GaugeValue { mantissa: if b { 1u64 } else { 0u64 }, scale: 0 }),
    {
        GaugeValue { mantissa: if b { 1 } else { 0 }, scale: 0 }
    }
}

/// Ten to the `e`.
pub open spec fn pow10(e: nat) -> nat
    decreases e,
{
    if e == 0 {
        1
    } else {
        10 * pow10((e - 1) as nat)
    }
}

/// `10^e` computed executably.
pub fn pow10_u64(e: u8) -> (r: u64)
    requires
        e <= 19,
    ensures
        r == pow10(e as nat),
{
    let mut r: u64 = 1;
    let mut i: u8 = 0;
    while i < e
        invariant
            i <= e <= 19,
            r == pow10(i as nat),
        decreases e - i,
    {
        proof {
            lemma_pow10_bounds(e as nat);
            lemma_pow10_increases(i as nat + 1, e as nat);
        }
        r = r * 10;
        i = i + 1;
    }
    r
}

/// `pow10` never exceeds `u64` range while the exponent stays at or below 19.
pub proof fn lemma_pow10_bounds(e: nat)
    requires
        e <= 19,
    ensures
        pow10(e) <= 10_000_000_000_000_000_000,
{
    lemma_pow10_increases(e, 19);
    assert(pow10(19) == 10_000_000_000_000_000_000) by {
        reveal_with_fuel(pow10, 21);
    }
}

/// `pow10` grows with its exponent.
pub proof fn lemma_pow10_increases(a: nat, b: nat)
    requires
        a <= b,
    ensures
        pow10(a) <= pow10(b),
    decreases b,
{
    if a < b {
        lemma_pow10_increases(a, (b - 1) as nat);
        assert(pow10(b) == 10 * pow10((b - 1) as nat));
        assert(pow10((b - 1) as nat) >= 1) by {
            lemma_pow10_pos((b - 1) as nat);
        }
    }
}

/// `pow10` is positive.
pub proof fn lemma_pow10_pos(e: nat)
    ensures
        pow10(e) >= 1,
    decreases e,
{
    if e > 0 {
        lemma_pow10_pos((e - 1) as nat);
    }
}

/// Whether `c` is a decimal digit.
pub open spec fn is_dec_digit(c: char) -> bool {
    c == '0' || c == '1' || c == '2' || c == '3' || c == '4' || c == '5' || c == '6' || c == '7'
        || c == '8' || c == '9'
}

/// The numeric value of a decimal digit character.
pub open spec fn digit_value(c: char) -> nat {
    if c == '0' { 0 }
    else if c == '1' { 1 }
    else if c == '2' { 2 }
    else if c == '3' { 3 }
    else if c == '4' { 4 }
    else if c == '5' { 5 }
    else if c == '6' { 6 }
    else if c == '7' { 7 }
    else if c == '8' { 8 }
    else if c == '9' { 9 }
    else { 0 }
}

/// The number denoted by a sequence of digit characters, most significant
/// first.
pub open spec fn digits_value(s: Seq<char>) -> nat
    decreases s.len(),
{
    if s.len() == 0 {
        0
    } else {
        digits_value(s.drop_last()) * 10 + digit_value(s.last())
    }
}

/// Whether every character of `s` is a decimal digit.
pub open spec fn all_dec_digits(s: Seq<char>) -> bool {
    forall|i: int| 0 <= i < s.len() ==> is_dec_digit(s[i])
}

/// The index of the first `.` in `s`, or `s.len()` when there is none.
pub open spec fn first_dot(s: Seq<char>) -> int
    decreases s.len(),
{
    if s.len() == 0 {
        0
    } else if s[0] == '.' {
        0
    } else {
        1 + first_dot(s.skip(1))
    }
}

/// `s` with every `.` removed.
pub open spec fn strip_dot(s: Seq<char>) -> Seq<char>
    decreases s.len(),
{
    if s.len() == 0 {
        Seq::empty()
    } else if s.last() == '.' {
        strip_dot(s.drop_last())
    } else {
        strip_dot(s.drop_last()) + seq![s.last()]
    }
}

/// Whether `s` has the shape of a plain decimal literal: at least one integer
/// digit, at most one point, at least one and at most nineteen fraction
/// digits when a point is present, and nothing but digits elsewhere.
pub open spec fn decimal_shape_ok(s: Seq<char>) -> bool {
    let d = first_dot(s);
    if d == s.len() {
        s.len() >= 1 && all_dec_digits(s)
    } else {
        1 <= d && d + 2 <= s.len() && s.len() - d - 1 <= 19 && all_dec_digits(s.take(d))
            && all_dec_digits(s.skip(d + 1))
    }
}

/// The digits of a decimal literal with the point removed.
pub open spec fn decimal_mantissa_digits(s: Seq<char>) -> Seq<char> {
    let d = first_dot(s);
    if d == s.len() {
        s
    } else {
        s.take(d) + s.skip(d + 1)
    }
}

/// The number of fraction digits of a decimal literal.
pub open spec fn decimal_scale(s: Seq<char>) -> nat {
    let d = first_dot(s);
    if d == s.len() {
        0
    } else {
        (s.len() - d - 1) as nat
    }
}

/// Whether `s` denotes a decimal that this library can hold exactly.
pub open spec fn valid_decimal(s: Seq<char>) -> bool {
    decimal_shape_ok(s) && digits_value(decimal_mantissa_digits(s)) <= u64::MAX
}

/// The gauge value that a valid decimal literal denotes.
pub open spec fn decimal_of(s: Seq<char>) -> GaugeValue {
    GaugeValue {
        mantissa: digits_value(decimal_mantissa_digits(s)) as u64,
        scale: decimal_scale(s) as u8,
    }
}

/// Appending one character to a digit string multiplies its value by ten and
/// adds the digit.
pub proof fn lemma_digits_value_push(x: Seq<char>, c: char)
    ensures
        digits_value(x + seq![c]) == digits_value(x) * 10 + digit_value(c),
{
    assert((x + seq![c]).drop_last() =~= x);
    assert((x + seq![c]).last() == c);
}

/// On a string without points, `strip_dot` changes nothing.
pub proof fn lemma_strip_no_dots(s: Seq<char>)
    requires
        forall|j: int| 0 <= j < s.len() ==> s[j] != '.',
    ensures
        strip_dot(s) =~= s,
    decreases s.len(),
{
    if s.len() > 0 {
        lemma_strip_no_dots(s.drop_last());
    }
}

/// On a string with exactly one point, `strip_dot` splices out that point.
pub proof fn lemma_strip_one_dot(s: Seq<char>, d: int)
    requires
        0 <= d < s.len(),
        s[d] == '.',
        forall|j: int| 0 <= j < s.len() && j != d ==> s[j] != '.',
    ensures
        strip_dot(s) =~= s.take(d) + s.skip(d + 1),
    decreases s.len(),
{
    if d == s.len() - 1 {
        lemma_strip_no_dots(s.drop_last());
        assert(s.take(d) =~= s.drop_last());
        assert(strip_dot(s) =~= s.take(d) + s.skip(d + 1));
    } else {
        lemma_strip_one_dot(s.drop_last(), d);
        assert(s.drop_last().take(d) =~= s.take(d));
        assert(s.drop_last().skip(d + 1) =~= s.skip(d + 1).drop_last());
        assert(strip_dot(s) =~= s.take(d) + s.skip(d + 1));
    }
}

/// Extending a string never shrinks the number its digits denote.
pub proof fn lemma_value_extends(s: Seq<char>, i: int)
    requires
        0 <= i <= s.len(),
    ensures
        digits_value(strip_dot(s.take(i))) <= digits_value(strip_dot(s)),
    decreases s.len() - i,
{
    if i == s.len() {
        assert(s.take(i) =~= s);
    } else {
        assert(s.take(i + 1).drop_last() =~= s.take(i));
        if s[i] == '.' {
            assert(strip_dot(s.take(i + 1)) == strip_dot(s.take(i)));
        } else {
            assert(strip_dot(s.take(i + 1)) == strip_dot(s.take(i)) + seq![s[i]]);
            lemma_digits_value_push(strip_dot(s.take(i)), s[i]);
        }
        lemma_value_extends(s, i + 1);
    }
}

/// A point at `d` with nothing but non-points before it is the first point;
/// with no point at all, `first_dot` is the length.
pub proof fn lemma_first_dot_at(s: Seq<char>, d: int)
    requires
        0 <= d <= s.len(),
        forall|j: int| 0 <= j < d ==> s[j] != '.',
        d < s.len() ==> s[d] == '.',
    ensures
        first_dot(s) == d,
    decreases s.len(),
{
    if s.len() > 0 && s[0] != '.' {
        lemma_first_dot_at(s.skip(1), d - 1);
    }
}

/// The first point of a string lies within it, is a point when it is not the
/// length, and nothing before it is a point.
pub proof fn lemma_first_dot_props(s: Seq<char>)
    ensures
        0 <= first_dot(s) <= s.len(),
        first_dot(s) < s.len() ==> s[first_dot(s)] == '.',
        forall|j: int| 0 <= j < first_dot(s) ==> s[j] != '.',
    decreases s.len(),
{
    if s.len() > 0 && s[0] != '.' {
        lemma_first_dot_props(s.skip(1));
        assert forall|j: int| 0 <= j < first_dot(s) implies s[j] != '.' by {
            if j > 0 {
                assert(s.skip(1)[j - 1] != '.');
            }
        }
    }
}

/// In a well-shaped decimal literal whose first point is inside it, that
/// point is the only one.
pub proof fn lemma_shape_unique_dot(s: Seq<char>)
    requires
        decimal_shape_ok(s),
        first_dot(s) < s.len(),
    ensures
        s[first_dot(s)] == '.',
        forall|j: int| 0 <= j < s.len() && j != first_dot(s) ==> s[j] != '.',
{
    lemma_first_dot_props(s);
    let d = first_dot(s);
    assert forall|j: int| 0 <= j < s.len() && j != d implies s[j] != '.' by {
        if j > d {
            assert(is_dec_digit(s.skip(d + 1)[j - d - 1]));
        }
    }
}

fn char_digit(c: char) -> (r: Option<u64>)
    ensures
        r == if is_dec_digit(c) {
            Some(digit_value(c) as u64)
        } else {
            None::<u64>
        },
{
    match c {
        '0' => Some(0),
        '1' => Some(1),
        '2' => Some(2),
        '3' => Some(3),
        '4' => Some(4),
        '5' => Some(5),
        '6' => Some(6),
        '7' => Some(7),
        '8' => Some(8),
        '9' => Some(9),
        _ => None,
    }
}

impl GaugeValue {
    /// Parses a plain decimal literal such as `1000` or `12.5` into the exact
    /// value it denotes; returns `None` precisely on text that is not such a
    /// literal, that has more than nineteen fraction digits, or whose digits
    /// exceed what a `u64` mantissa can hold.
    pub fn from_decimal_str(s: &str) -> (r: Option<GaugeValue>)
        ensures
            valid_decimal(s@) ==> r == Some(decimal_of(s@)),
            !valid_decimal(s@) ==> r is None,
            r is Some ==> r->Some_0.wf(),
    {
        let len = s.unicode_len();
        if len == 0 {
            return None;
        }
        let mut i: usize = 0;
        let mut has_dot: bool = false;
        let mut dot: usize = 0;
        let mut m: u64 = 0;
        while i < len
            invariant
                len == s@.len(),
                i <= len,
                1 <= len,
                m == digits_value(strip_dot(s@.take(i as int))),
                !has_dot ==> forall|j: int| 0 <= j < i ==> is_dec_digit(s@[j]),
                has_dot ==> 1 <= dot < i && s@[dot as int] == '.' && dot + 2 <= len && len - dot
                    - 1 <= 19 && forall|j: int| 0 <= j < i && j != dot ==> is_dec_digit(s@[j]),
            decreases len - i,
        {
            let c = s.get_char(i);
            proof {
                assert(s@.take(i as int + 1).drop_last() =~= s@.take(i as int));
            }
            if c == '.' {
                if has_dot || i == 0 || i + 1 == len || len - i - 1 > 19 {
                    proof {
                        assert(!decimal_shape_ok(s@)) by {
                            if has_dot {
                                lemma_first_dot_at(s@, dot as int);
                                assert(!is_dec_digit(s@.skip(dot as int + 1)[i - dot - 1]));
                            } else {
                                lemma_first_dot_at(s@, i as int);
                            }
                        }
                    }
                    return None;
                }
                has_dot = true;
                dot = i;
            } else {
                match char_digit(c) {
                    None => {
                        proof {
                            assert(!decimal_shape_ok(s@)) by {
                                if decimal_shape_ok(s@) {
                                    let d = first_dot(s@);
                                    lemma_first_dot_props(s@);
                                    if d == s@.len() {
                                        assert(is_dec_digit(s@[i as int]));
                                    } else if i < d {
                                        assert(is_dec_digit(s@.take(d)[i as int]));
                                    } else if i > d {
                                        assert(is_dec_digit(s@.skip(d + 1)[i - d - 1]));
                                    }
                                    assert(false);
                                }
                            }
                        }
                        return None;
                    },
                    Some(d) => {
                        if m > 1844674407370955161 || (m == 1844674407370955161 && d > 5) {
                            proof {
                                lemma_digits_value_push(strip_dot(s@.take(i as int)), c);
                                assert(strip_dot(s@.take(i as int + 1)) == strip_dot(
                                    s@.take(i as int),
                                ) + seq![c]);
                                lemma_value_extends(s@, i as int + 1);
                                assert(digits_value(strip_dot(s@)) > u64::MAX);
                                if decimal_shape_ok(s@) {
                                    let fd = first_dot(s@);
                                    lemma_first_dot_props(s@);
                                    if fd == s@.len() {
                                        assert forall|j: int| 0 <= j < s@.len() implies s@[j]
                                            != '.' by {
                                            assert(is_dec_digit(s@[j]));
                                        }
                                        lemma_strip_no_dots(s@);
                                    } else {
                                        lemma_shape_unique_dot(s@);
                                        lemma_strip_one_dot(s@, fd);
                                    }
                                    assert(digits_value(decimal_mantissa_digits(s@))
                                        > u64::MAX);
                                }
                            }
                            return None;
                        }
                        m = m * 10 + d;
                        proof {
                            lemma_digits_value_push(strip_dot(s@.take(i as int)), c);
                            assert(strip_dot(s@.take(i as int + 1)) == strip_dot(
                                s@.take(i as int),
                            ) + seq![c]);
                        }
                    },
                }
            }
            i = i + 1;
        }
        let scale: u8 = if has_dot {
            (len - dot - 1) as u8
        } else {
            0
        };
        proof {
            assert(s@.take(len as int) =~= s@);
            if has_dot {
                lemma_first_dot_at(s@, dot as int);
                lemma_strip_one_dot(s@, dot as int);
                assert(forall|j: int|
                    0 <= j < s@.take(dot as int).len() ==> is_dec_digit(
                        #[trigger] s@.take(dot as int)[j],
                    ));
                assert(forall|j: int|
                    0 <= j < s@.skip(dot as int + 1).len() ==> is_dec_digit(
                        #[trigger] s@.skip(dot as int + 1)[j],
                    ));
                assert(decimal_shape_ok(s@));
            } else {
                lemma_first_dot_at(s@, len as int);
                lemma_strip_no_dots(s@);
                assert(decimal_shape_ok(s@));
            }
            assert(valid_decimal(s@));
        }
        Some(GaugeValue { mantissa: m, scale })
    }
}

/// Appends the rendered form of `v` to `out`.
pub fn push_value(out: &mut String, v: GaugeValue)
    requires
        v.wf(),
    ensures
        final(out)@ == old(out)@ + v.rendered(),
{
    if v.scale == 0 {
        push_u64(out, v.mantissa);
    } else {
        let p = pow10_u64(v.scale);
        proof {
            lemma_pow10_pos(v.scale as nat);
        }
        push_u64(out, v.mantissa / p);
        push_char(out, '.');
        push_u64_padded(out, v.mantissa % p, v.scale);
        proof {
            assert(out@ =~= old(out)@ + v.rendered());
        }
    }
}

} // verus!
