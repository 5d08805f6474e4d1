//! Decimal numerals: how numbers are written into engine arguments and read
//! back from probe output.
//!
//! Every quantity with a fractional part (seconds, gains) is held as an
//! integer count of fixed-size steps; `scale` is the number of decimal places
//! one unit is divided into. Seconds and gains use scale 6 throughout the
//! crate, so one second is 1_000_000 and a gain of 1.1 is 1_100_000.

use vstd::arithmetic::div_mod::{lemma_fundamental_div_mod, lemma_fundamental_div_mod_converse};
use vstd::prelude::*;
use vstd::string::*;

verus! {

/// The character that writes the digit `d`.
pub open spec fn digit_char(d: nat) -> char {
    if d == 0 {
        '0'
    } else if d == 1 {
        '1'
    } else if d == 2 {
        '2'
    } else if d == 3 {
        '3'
    } else if d == 4 {
        '4'
    } else if d == 5 {
        '5'
    } else if d == 6 {
        '6'
    } else if d == 7 {
        '7'
    } else if d == 8 {
        '8'
    } else {
        '9'
    }
}

/// Whether `c` is one of the ten ASCII digits.
pub open spec fn is_digit(c: char) -> bool {
    '0' <= c && c <= '9'
}

/// The digit that `c` writes; meaningful where `is_digit(c)`.
pub open spec fn digit_value(c: char) -> nat {
    (c as nat - '0' as nat) as nat
}

/// `10` raised to `e`.
pub open spec fn pow10(e: nat) -> nat
    decreases e,
{
    if e == 0 {
        1
    } else {
        10 * pow10((e - 1) as nat)
    }
}

/// The shortest decimal numeral for `n`: no sign, no leading zero except for
/// zero itself.
pub open spec fn nat_text(n: nat) -> Seq<char>
    decreases n,
{
    if n < 10 {
        seq![digit_char(n)]
    } else {
        nat_text(n / 10).push(digit_char(n % 10))
    }
}

/// The numeral for a signed integer: a minus sign in front of the magnitude
/// when negative.
pub open spec fn int_text(i: int) -> Seq<char> {
    if i < 0 {
        seq!['-'] + nat_text((-i) as nat)
    } else {
        nat_text(i as nat)
    }
}

/// Exactly `width` digits: `n` modulo `10^width`, with leading zeros.
pub open spec fn padded_text(n: nat, width: nat) -> Seq<char>
    decreases width,
{
    if width == 0 {
        Seq::empty()
    } else {
        padded_text(n / 10, (width - 1) as nat).push(digit_char(n % 10))
    }
}

/// The digits after the decimal point for the fraction `frac / 10^width`,
/// without trailing zeros. Empty when the fraction is zero.
pub open spec fn fraction_text(frac: nat, width: nat) -> Seq<char>
    decreases width,
{
    if width == 0 {
        Seq::empty()
    } else if frac % 10 == 0 {
        fraction_text(frac / 10, (width - 1) as nat)
    } else {
        padded_text(frac, width)
    }
}

/// The numeral for `value / 10^scale`: the whole part, then, only if the
/// fraction is not zero, a point and the fraction without trailing zeros.
pub open spec fn decimal_text(value: nat, scale: nat) -> Seq<char> {
    let whole = value / pow10(scale);
    let frac = value % pow10(scale);
    if frac == 0 {
        nat_text(whole)
    } else {
        nat_text(whole) + seq!['.'] + fraction_text(frac, scale)
    }
}

/// The number that a run of digits writes, most significant first. The empty
/// run writes zero.
pub open spec fn digits_value(s: Seq<char>) -> nat
    decreases s.len(),
{
    if s.len() == 0 {
        0
    } else {
        digits_value(s.drop_last()) * 10 + digit_value(s.last())
    }
}

/// Whether every character of `s` is an ASCII digit.
pub open spec fn all_digits(s: Seq<char>) -> bool {
    forall|i: int| 0 <= i < s.len() ==> is_digit(#[trigger] s[i])
}

fn digit_str(d: u8) -> (s: &'static str)
    requires
        d < 10,
    ensures
        s@ == seq![digit_char(d as nat)],
{
    proof {
        reveal_strlit("0");
        reveal_strlit("1");
        reveal_strlit("2");
        reveal_strlit("3");
        reveal_strlit("4");
        reveal_strlit("5");
        reveal_strlit("6");
        reveal_strlit("7");
        reveal_strlit("8");
        reveal_strlit("9");
    }
    let s = if d == 0 {
        "0"
    } else if d == 1 {
        "1"
    } else if d == 2 {
        "2"
    } else if d == 3 {
        "3"
    } else if d == 4 {
        "4"
    } else if d == 5 {
        "5"
    } else if d == 6 {
        "6"
    } else if d == 7 {
        "7"
    } else if d == 8 {
        "8"
    } else {
        "9"
    };
    assert(s@ =~= seq![digit_char(d as nat)]);
    s
}

/// Appends the numeral for `n` to `out`.
pub fn append_nat(out: &mut String, n: u128)
    ensures
        final(out)@ == old(out)@ + nat_text(n as nat),
    decreases n,
{
    if n >= 10 {
        append_nat(out, n / 10);
    }
    let d: u8 = (n % 10) as u8;
    out.append(digit_str(d));
    proof {
        assert(out@ =~= old(out)@ + nat_text(n as nat));
    }
}

/// Appends the numeral for the signed integer `i` to `out`.
pub fn append_int(out: &mut String, i: i64)
    ensures
        final(out)@ == old(out)@ + int_text(i as int),
{
    if i < 0 {
        proof {
            reveal_strlit("-");
        }
        out.append("-");
        let magnitude: i128 = -(i as i128);
        append_nat(out, magnitude as u128);
        proof {
            assert("-"@ =~= seq!['-']);
            assert(out@ =~= old(out)@ + int_text(i as int));
        }
    } else {
        append_nat(out, i as u128);
    }
}

/// `pow10` grows with its exponent.
pub proof fn lemma_pow10_increasing(a: nat, b: nat)
    requires
        a <= b,
    ensures
        0 < pow10(a) <= pow10(b),
    decreases b,
{
    if b == 0 {
    } else if a == b {
        lemma_pow10_increasing(0, (b - 1) as nat);
    } else {
        lemma_pow10_increasing(a, (b - 1) as nat);
    }
}

/// Largest exponent whose power of ten fits in 128 bits.
pub const MAX_SCALE: u8 = 38;

proof fn lemma_pow10_38()
    ensures
        pow10(38) == 100_000_000_000_000_000_000_000_000_000_000_000_000,
{
    assert(pow10(10) == 10_000_000_000) by {
        reveal_with_fuel(pow10, 11);
    }
    assert(pow10(20) == 100_000_000_000_000_000_000) by {
        lemma_pow10_sum(10, 10);
    }
    assert(pow10(8) == 100_000_000) by {
        reveal_with_fuel(pow10, 9);
    }
    assert(pow10(30) == 1_000_000_000_000_000_000_000_000_000_000) by {
        lemma_pow10_sum(20, 10);
    }
    lemma_pow10_sum(30, 8);
}

/// Powers of ten multiply by adding exponents.
pub proof fn lemma_pow10_sum(a: nat, b: nat)
    ensures
        pow10(a + b) == pow10(a) * pow10(b),
    decreases b,
{
    if b == 0 {
        assert(pow10(a) * 1 == pow10(a));
    } else {
        lemma_pow10_sum(a, (b - 1) as nat);
        assert(pow10(a + b) == 10 * pow10((a + b - 1) as nat));
        assert(10 * (pow10(a) * pow10((b - 1) as nat)) == pow10(a) * (10 * pow10((b - 1) as nat)))
            by (nonlinear_arith);
    }
}

/// Computes `10^scale`.
pub(crate) fn power_of_ten(scale: u8) -> (unit: u128)
    requires
        scale <= MAX_SCALE,
    ensures
        unit == pow10(scale as nat),
        unit > 0,
{
    let mut unit: u128 = 1;
    let mut i: u8 = 0;
    while i < scale
        invariant
            i <= scale <= 38,
            unit == pow10(i as nat),
        decreases scale - i,
    {
        proof {
            lemma_pow10_increasing(i as nat + 1, 38);
            lemma_pow10_38();
        }
        unit = unit * 10;
        i = i + 1;
    }
    proof {
        lemma_pow10_increasing(0, scale as nat);
    }
    unit
}

fn append_padded(out: &mut String, n: u128, width: u8)
    ensures
        final(out)@ == old(out)@ + padded_text(n as nat, width as nat),
    decreases width,
{
    if width > 0 {
        append_padded(out, n / 10, width - 1);
        let d: u8 = (n % 10) as u8;
        out.append(digit_str(d));
    }
    proof {
        assert(out@ =~= old(out)@ + padded_text(n as nat, width as nat));
    }
}

/// Appends the numeral for `value / 10^scale` to `out`.
pub(crate) fn append_decimal(out: &mut String, value: u128, scale: u8)
    requires
        scale <= MAX_SCALE,
    ensures
        final(out)@ == old(out)@ + decimal_text(value as nat, scale as nat),
{
    let unit = power_of_ten(scale);
    let whole = value / unit;
    let frac = value % unit;
    append_nat(out, whole);
    if frac != 0 {
        proof {
            reveal_strlit(".");
        }
        out.append(".");
        let mut rest: u128 = frac;
        let mut width: u8 = scale;
        while width > 0 && rest % 10 == 0
            invariant
                fraction_text(rest as nat, width as nat) == fraction_text(
                    frac as nat,
                    scale as nat,
                ),
            decreases width,
        {
            rest = rest / 10;
            width = width - 1;
        }
        append_padded(out, rest, width);
        proof {
            assert("."@ =~= seq!['.']);
            assert(out@ =~= old(out)@ + decimal_text(value as nat, scale as nat));
        }
    }
}

/// The numeral for `n` as a new string.
pub fn nat_to_string(n: u128) -> (s: String)
    ensures
        s@ == nat_text(n as nat),
{
    let mut s = String::new();
    append_nat(&mut s, n);
    proof {
        assert(s@ =~= nat_text(n as nat));
    }
    s
}

/// The numeral for `value / 10^scale` as a new string.
pub(crate) fn decimal_to_string(value: u128, scale: u8) -> (s: String)
    requires
        scale <= MAX_SCALE,
    ensures
        s@ == decimal_text(value as nat, scale as nat),
{
    let mut s = String::new();
    append_decimal(&mut s, value, scale);
    proof {
        assert(s@ =~= decimal_text(value as nat, scale as nat));
    }
    s
}

/// The numeral for a count of millionths, as a new string: `1_500_000`
/// reads `1.5`.
pub fn micros_to_string(value: u128) -> (s: String)
    ensures
        s@ == decimal_text(value as nat, 6),
{
    decimal_to_string(value, 6)
}

/// The numeral for a signed integer, as a new string.
pub fn int_to_string(i: i64) -> (s: String)
    ensures
        s@ == int_text(i as int),
{
    let mut s = String::new();
    append_int(&mut s, i);
    proof {
        assert(s@ =~= int_text(i as int));
    }
    s
}

/// What a run of characters holds when read as an unsigned numeral.
pub(crate) enum DigitRun {
    /// Every character is a digit and the number is at most the limit.
    Value(u128),
    /// Every character is a digit and the number is above the limit.
    Overflow,
    /// Some character is not a digit.
    Invalid,
}

/// Largest limit that `read_digits` accepts: one more digit still fits.
pub(crate) const MAX_DIGIT_LIMIT: u128 = 34_028_236_692_093_846_346_337_460_743_176_821_144;

/// Dropping trailing digits never makes the number larger.
pub proof fn lemma_digits_value_prefix(s: Seq<char>, k: int)
    requires
        0 <= k <= s.len(),
    ensures
        digits_value(s.take(k)) <= digits_value(s),
    decreases s.len(),
{
    if k == s.len() {
        assert(s.take(k) =~= s);
    } else {
        lemma_digits_value_prefix(s.drop_last(), k);
        assert(s.drop_last().take(k) =~= s.take(k));
    }
}

/// Tests whether `c` is an ASCII digit.
pub fn is_ascii_digit(c: char) -> (r: bool)
    ensures
        r == is_digit(c),
{
    '0' <= c && c <= '9'
}

/// Reads `s[from..to)` as an unsigned numeral and compares it to `limit`.
pub(crate) fn read_digits(s: &[char], from: usize, to: usize, limit: u128) -> (r: DigitRun)
    requires
        from <= to <= s@.len(),
        limit <= MAX_DIGIT_LIMIT,
    ensures
        r == (if !all_digits(s@.subrange(from as int, to as int)) {
            DigitRun::Invalid
        } else if digits_value(s@.subrange(from as int, to as int)) > limit {
            DigitRun::Overflow
        } else {
            DigitRun::Value(digits_value(s@.subrange(from as int, to as int)) as u128)
        }),
{
    let ghost run = s@.subrange(from as int, to as int);
    let mut i: usize = from;
    while i < to
        invariant
            from <= i <= to <= s@.len(),
            run == s@.subrange(from as int, to as int),
            forall|j: int| 0 <= j < i - from ==> is_digit(#[trigger] run[j]),
        decreases to - i,
    {
        if !is_ascii_digit(s[i]) {
            assert(!is_digit(run[i - from]));
            return DigitRun::Invalid;
        }
        i = i + 1;
    }
    let mut value: u128 = 0;
    let mut k: usize = from;
    while k < to
        invariant
            from <= k <= to <= s@.len(),
            run == s@.subrange(from as int, to as int),
            all_digits(run),
            limit <= MAX_DIGIT_LIMIT,
            value == digits_value(run.take(k - from)),
            value <= limit,
        decreases to - k,
    {
        let c = s[k];
        proof {
            assert(run[k - from] == c);
            assert(is_digit(c));
            assert(run.take(k - from + 1).drop_last() =~= run.take(k - from));
            assert(run.take(k - from + 1).last() == c);
        }
        let d: u128 = (c as u32 - '0' as u32) as u128;
        value = value * 10 + d;
        k = k + 1;
        if value > limit {
            proof {
                lemma_digits_value_prefix(run, k - from);
            }
            return DigitRun::Overflow;
        }
    }
    proof {
        assert(run.take(k - from) =~= run);
    }
    DigitRun::Value(value)
}

/// Position of the first point in `s`; `s.len()` when it has none.
pub open spec fn point_index(s: Seq<char>) -> nat
    decreases s.len(),
{
    if s.len() == 0 {
        0
    } else if s[0] == '.' {
        0
    } else {
        1 + point_index(s.drop_first())
    }
}

/// The count of millionths that the digits after a point stand for. Digits
/// beyond the sixth are dropped.
pub open spec fn fraction_micros(frac: Seq<char>) -> nat {
    if frac.len() >= 6 {
        digits_value(frac.take(6))
    } else {
        digits_value(frac) * pow10((6 - frac.len()) as nat)
    }
}

/// Reads a plain decimal numeral of seconds as a count of microseconds.
///
/// A numeral is a run of digits, optionally followed by a point and another
/// run of digits; either run may be empty but not both. There is no sign and
/// no exponent. Anything else reads as `None`.
pub open spec fn seconds_micros(s: Seq<char>) -> Option<nat> {
    let dot = point_index(s) as int;
    let whole = s.take(dot);
    let frac = if dot < s.len() {
        s.skip(dot + 1)
    } else {
        Seq::empty()
    };
    if all_digits(whole) && all_digits(frac) && whole.len() + frac.len() > 0 {
        Some(digits_value(whole) * 1_000_000 + fraction_micros(frac))
    } else {
        None
    }
}

/// A run of `n` digits writes a number below `10^n`.
pub proof fn lemma_digits_value_bound(s: Seq<char>)
    requires
        all_digits(s),
    ensures
        digits_value(s) < pow10(s.len()),
    decreases s.len(),
{
    if s.len() > 0 {
        lemma_digits_value_bound(s.drop_last());
        assert(is_digit(s[s.len() - 1]));
    }
}

/// Finds the first point in `s`.
pub fn find_point(s: &[char]) -> (dot: usize)
    ensures
        dot == point_index(s@),
        dot <= s@.len(),
        dot < s@.len() ==> s@[dot as int] == '.',
{
    let mut i: usize = 0;
    proof {
        assert(s@.skip(0) =~= s@);
    }
    while i < s.len()
        invariant
            i <= s@.len(),
            point_index(s@) == i + point_index(s@.skip(i as int)),
        decreases s@.len() - i,
    {
        if s[i] == '.' {
            assert(s@.skip(i as int)[0] == '.');
            return i;
        }
        proof {
            assert(s@.skip(i as int)[0] == s@[i as int]);
            assert(s@.skip(i as int).drop_first() =~= s@.skip(i + 1));
        }
        i = i + 1;
    }
    i
}

/// Splitting a run of characters in two: the whole is all digits exactly
/// when both parts are.
proof fn lemma_all_digits_split(s: Seq<char>, at: int)
    requires
        0 <= at <= s.len(),
    ensures
        all_digits(s) <==> all_digits(s.take(at)) && all_digits(s.skip(at)),
{
    if all_digits(s.take(at)) && all_digits(s.skip(at)) {
        assert forall|i: int| 0 <= i < s.len() implies is_digit(#[trigger] s[i]) by {
            if i < at {
                assert(s[i] == s.take(at)[i]);
            } else {
                assert(s[i] == s.skip(at)[i - at]);
            }
        }
    }
    if all_digits(s) {
        assert forall|i: int| 0 <= i < s.take(at).len() implies is_digit(
            #[trigger] s.take(at)[i],
        ) by {
            assert(s.take(at)[i] == s[i]);
        }
        assert forall|i: int| 0 <= i < s.skip(at).len() implies is_digit(
            #[trigger] s.skip(at)[i],
        ) by {
            assert(s.skip(at)[i] == s[i + at]);
        }
    }
}

/// Reads `s[from..]` as the digits after a point: the millionths they stand
/// for, or `None` where some character is not a digit.
fn read_fraction(s: &[char], from: usize) -> (r: Option<u64>)
    requires
        from <= s@.len(),
    ensures
        r == (if all_digits(s@.skip(from as int)) {
            Some(fraction_micros(s@.skip(from as int)) as u64)
        } else {
            None
        }),
        all_digits(s@.skip(from as int)) ==> fraction_micros(s@.skip(from as int)) <= 999_999,
{
    let len: usize = s.len();
    let cut: usize = if len - from > 6 {
        from + 6
    } else {
        len
    };
    let ghost frac = s@.skip(from as int);
    let ghost head = s@.subrange(from as int, cut as int);
    let ghost tail = s@.subrange(cut as int, len as int);
    proof {
        assert(head =~= frac.take(cut - from));
        assert(tail =~= frac.skip(cut - from));
        lemma_all_digits_split(frac, cut - from);
    }
    let head_run = read_digits(s, from, cut, 999_999);
    let tail_run = read_digits(s, cut, len, 0);
    match tail_run {
        DigitRun::Invalid => {
            return None;
        },
        _ => {},
    }
    let head_value: u128 = match head_run {
        DigitRun::Value(v) => v,
        DigitRun::Invalid => {
            return None;
        },
        DigitRun::Overflow => {
            proof {
                lemma_digits_value_bound(head);
                lemma_pow10_increasing(head.len(), 6);
                reveal_with_fuel(pow10, 7);
            }
            return None;
        },
    };
    let missing: u8 = (6 - (cut - from)) as u8;
    let scale_up: u128 = power_of_ten(missing);
    proof {
        lemma_pow10_increasing(missing as nat, 6);
        reveal_with_fuel(pow10, 7);
        if frac.len() >= 6 {
            assert(scale_up == 1);
            assert(head_value * scale_up == head_value) by (nonlinear_arith)
                requires
                    scale_up == 1,
            ;
        } else {
            assert(head =~= frac);
            lemma_digits_value_bound(head);
            lemma_pow10_sum(head.len(), missing as nat);
            assert(head_value * scale_up < pow10(head.len()) * scale_up) by (nonlinear_arith)
                requires
                    head_value < pow10(head.len()),
                    scale_up > 0,
            ;
        }
    }
    Some((head_value * scale_up) as u64)
}

/// Reads a plain decimal numeral of seconds as microseconds, or `None` where
/// the text is no such numeral or the count does not fit in 64 bits.
pub fn parse_seconds(s: &[char]) -> (r: Option<u64>)
    ensures
        r == (match seconds_micros(s@) {
            Some(v) => if v <= u64::MAX {
                Some(v as u64)
            } else {
                None
            },
            None => None,
        }),
{
    let len: usize = s.len();
    let dot: usize = find_point(s);
    let frac_start: usize = if dot < len {
        dot + 1
    } else {
        len
    };
    proof {
        assert(s@.subrange(0, dot as int) =~= s@.take(dot as int));
        if dot >= len {
            assert(s@.skip(frac_start as int) =~= Seq::<char>::empty());
        }
    }
    if len - frac_start + dot == 0 {
        return None;
    }
    let whole_value: u128 = match read_digits(s, 0, dot, 18_446_744_073_709_551_615) {
        DigitRun::Value(v) => v,
        _ => {
            return None;
        },
    };
    let fraction: u64 = match read_fraction(s, frac_start) {
        Some(f) => f,
        None => {
            return None;
        },
    };
    let micros: u128 = whole_value * 1_000_000 + fraction as u128;
    if micros > 18_446_744_073_709_551_615 {
        None
    } else {
        Some(micros as u64)
    }
}

/// The numeral for `n` is made of digits and writes `n`.
pub proof fn lemma_nat_text_value(n: nat)
    ensures
        nat_text(n).len() >= 1,
        all_digits(nat_text(n)),
        digits_value(nat_text(n)) == n,
    decreases n,
{
    if n < 10 {
        assert(nat_text(n).drop_last() =~= Seq::<char>::empty());
        assert(digits_value(nat_text(n).drop_last()) == 0);
    } else {
        lemma_nat_text_value(n / 10);
        assert(nat_text(n).drop_last() =~= nat_text(n / 10));
        assert forall|i: int| 0 <= i < nat_text(n).len() implies is_digit(
            #[trigger] nat_text(n)[i],
        ) by {
            if i < nat_text(n / 10).len() {
                assert(nat_text(n)[i] == nat_text(n / 10)[i]);
            }
        }
    }
}

/// Different numbers have different numerals.
pub proof fn lemma_nat_text_distinct(a: nat, b: nat)
    requires
        a != b,
    ensures
        nat_text(a) != nat_text(b),
{
    lemma_nat_text_value(a);
    lemma_nat_text_value(b);
}

/// `width` digits with leading zeros are made of digits and write `n`
/// modulo `10^width`.
pub proof fn lemma_padded_text_value(n: nat, width: nat)
    ensures
        padded_text(n, width).len() == width,
        all_digits(padded_text(n, width)),
        digits_value(padded_text(n, width)) == n % pow10(width),
    decreases width,
{
    if width > 0 {
        let rest = (width - 1) as nat;
        lemma_padded_text_value(n / 10, rest);
        lemma_pow10_increasing(0, rest);
        assert(padded_text(n, width).drop_last() =~= padded_text(n / 10, rest));
        assert forall|i: int| 0 <= i < padded_text(n, width).len() implies is_digit(
            #[trigger] padded_text(n, width)[i],
        ) by {
            if i < rest {
                assert(padded_text(n, width)[i] == padded_text(n / 10, rest)[i]);
            }
        }
        let unit = pow10(rest) as int;
        let tens = (n / 10) as int;
        lemma_fundamental_div_mod(tens, unit);
        assert(n == (tens / unit) * (10 * unit) + (10 * (tens % unit) + n % 10))
            by (nonlinear_arith)
            requires
                tens == unit * (tens / unit) + tens % unit,
                n == 10 * tens + n % 10,
        ;
        lemma_fundamental_div_mod_converse(
            n as int,
            10 * unit,
            tens / unit,
            10 * (tens % unit) + n % 10,
        );
    }
}

/// The digits of a fraction, once the trailing zeros that were left out are
/// put back, write the fraction.
pub proof fn lemma_fraction_text_value(frac: nat, width: nat)
    requires
        0 < frac < pow10(width),
    ensures
        1 <= fraction_text(frac, width).len() <= width,
        all_digits(fraction_text(frac, width)),
        digits_value(fraction_text(frac, width)) * pow10(
            (width - fraction_text(frac, width).len()) as nat,
        ) == frac,
    decreases width,
{
    if width == 0 {
    } else if frac % 10 == 0 {
        let rest = (width - 1) as nat;
        assert(0 < frac / 10 < pow10(rest));
        lemma_fraction_text_value(frac / 10, rest);
        let shown = fraction_text(frac / 10, rest);
        let left_out = (rest - shown.len()) as nat;
        assert(pow10(left_out + 1) == 10 * pow10(left_out));
        assert(digits_value(shown) * (10 * pow10(left_out)) == (digits_value(shown) * pow10(
            left_out,
        )) * 10) by (nonlinear_arith);
    } else {
        lemma_padded_text_value(frac, width);
        assert(frac % pow10(width) == frac) by (nonlinear_arith)
            requires
                0 < frac < pow10(width),
        ;
        assert(digits_value(padded_text(frac, width)) * 1 == frac);
    }
}

/// In a text that begins with a run of digits, the first point is not
/// inside the run.
pub proof fn lemma_point_after_digits(digits: Seq<char>, rest: Seq<char>)
    requires
        all_digits(digits),
    ensures
        point_index(digits + rest) == digits.len() + point_index(rest),
    decreases digits.len(),
{
    if digits.len() == 0 {
        assert(digits + rest =~= rest);
    } else {
        assert(is_digit(digits[0]));
        assert((digits + rest)[0] == digits[0]);
        assert((digits + rest).drop_first() =~= digits.drop_first() + rest);
        assert forall|i: int| 0 <= i < digits.drop_first().len() implies is_digit(
            #[trigger] digits.drop_first()[i],
        ) by {
            assert(digits.drop_first()[i] == digits[i + 1]);
        }
        lemma_point_after_digits(digits.drop_first(), rest);
    }
}

/// What is written is read back: the numeral for a count of microseconds
/// reads as that count.
pub proof fn lemma_written_seconds_read_back(value: nat)
    ensures
        seconds_micros(decimal_text(value, 6)) == Some(value),
{
    reveal_with_fuel(pow10, 7);
    assert(pow10(6) == 1_000_000);
    let whole = value / 1_000_000;
    let frac = value % 1_000_000;
    let written = decimal_text(value, 6);
    let head = nat_text(whole);
    lemma_nat_text_value(whole);
    if frac == 0 {
        lemma_point_after_digits(head, Seq::empty());
        assert(head + Seq::<char>::empty() =~= head);
        assert(written == head);
        assert(point_index(written) == head.len());
        assert(written.take(head.len() as int) =~= head);
        assert(digits_value(Seq::<char>::empty()) == 0);
        assert(fraction_micros(Seq::<char>::empty()) == 0) by (nonlinear_arith)
            requires
                fraction_micros(Seq::<char>::empty()) == 0 * pow10(6),
        ;
        assert(seconds_micros(written) == Some(whole * 1_000_000 + 0));
    } else {
        let shown = fraction_text(frac, 6);
        lemma_fraction_text_value(frac, 6);
        let tail = seq!['.'] + shown;
        assert(written =~= head + tail);
        lemma_point_after_digits(head, tail);
        assert(tail[0] == '.');
        assert(point_index(tail) == 0);
        assert(written.take(head.len() as int) =~= head);
        assert(written.skip(head.len() as int + 1) =~= shown);
        assert(point_index(written) == head.len());
        if shown.len() >= 6 {
            assert(shown.take(6) =~= shown);
            assert(pow10(0) == 1);
            assert(digits_value(shown) * 1 == digits_value(shown));
        }
        assert(fraction_micros(shown) == frac);
        assert(seconds_micros(written) == Some(whole * 1_000_000 + frac));
    }
}

} // verus!
