//! Reading the engine's progress channel: from a line of `key=value` text to
//! a share of the whole export.
//!
//! Progress is a percentage in millionths: 100_000_000 is one hundred
//! percent.

use vstd::prelude::*;
use vstd::string::*;
use vstd::arithmetic::div_mod::lemma_fundamental_div_mod_converse;
use crate::decimal::{
    all_digits, digits_value, lemma_pow10_increasing, pow10, read_digits, DigitRun,
};
use crate::outside::{regex_group, regex_group_text};
use crate::text::chars_of;

verus! {

/// One hundred percent.
pub const FULL_PROGRESS: u64 = 100_000_000;

/// The share that `processed` milliseconds are of `total` microseconds, as
/// a percentage in millionths, rounded down and never above one hundred
/// percent. Of a total of nothing, everything is one hundred percent.
pub open spec fn progress_share(processed: nat, total: nat) -> nat {
    if total == 0 || processed * 1000 >= total {
        FULL_PROGRESS as nat
    } else {
        (processed * 1000 * 100_000_000) / total
    }
}

/// The progress that the value of a processed-time marker stands for; none
/// where the value is not a run of ASCII digits.
pub open spec fn marker_progress(value: Seq<char>, total: nat) -> Option<nat> {
    if all_digits(value) {
        Some(progress_share(digits_value(value), total))
    } else {
        None
    }
}

/// The regular expression that finds the processed-time marker in a line of
/// the progress channel and captures its value.
pub open spec fn progress_pattern() -> Seq<char> {
    "out_time_ms=(\\d+)"@
}

/// The progress that a line of the progress channel reports: that of the
/// first processed-time marker in it. Lines without a marker report none.
pub open spec fn line_progress(line: Seq<char>, total: nat) -> Option<nat> {
    match regex_group_text(progress_pattern(), line, 1) {
        Some(Some(value)) => marker_progress(value, total),
        _ => None,
    }
}

/// Computes `10 * part` divided by `whole`, quotient and remainder, for a
/// part below the whole, without leaving 128 bits.
fn times_ten(part: u128, whole: u128) -> (r: (u8, u128))
    requires
        part < whole,
    ensures
        r.0 as int * whole + r.1 == 10 * part,
        r.1 < whole,
        r.0 < 10,
{
    let mut quotient: u8 = 0;
    let mut rest: u128 = 0;
    let mut k: u8 = 0;
    while k < 10
        invariant
            k <= 10,
            part < whole,
            rest < whole,
            quotient <= k,
            quotient as int * whole + rest == k * part,
        decreases 10 - k,
    {
        let ghost before = quotient as int * whole + rest;
        if rest >= whole - part {
            rest = rest - (whole - part);
            quotient = quotient + 1;
            proof {
                assert(quotient as int * whole == (quotient - 1) * whole + whole)
                    by (nonlinear_arith);
            }
        } else {
            rest = rest + part;
        }
        k = k + 1;
        proof {
            assert(k * part == (k - 1) * part + part) by (nonlinear_arith);
        }
    }
    proof {
        if quotient == 10 {
            assert(10 * whole + rest == 10 * part);
        }
    }
    (quotient, rest)
}

/// Computes `part * 100_000_000 / whole`, rounded down, for a part below
/// the whole.
pub(crate) fn hundred_millionths(part: u128, whole: u128) -> (share: u64)
    requires
        part < whole,
    ensures
        share == (part * 100_000_000) / whole as int,
        share < 100_000_000,
{
    let mut quotient: u64 = 0;
    let mut rest: u128 = part;
    let mut scale: u64 = 1;
    let mut i: u8 = 0;
    while i < 8
        invariant
            i <= 8,
            rest < whole,
            scale == pow10(i as nat),
            scale <= 100_000_000,
            quotient < scale,
            quotient as int * whole + rest == part * scale,
        decreases 8 - i,
    {
        let (digit, next) = times_ten(rest, whole);
        proof {
            lemma_pow10_increasing(i as nat + 1, 8);
            reveal_with_fuel(pow10, 9);
            assert((quotient * 10 + digit) * whole + next == part * (scale * 10))
                by (nonlinear_arith)
                requires
                    quotient as int * whole + rest == part * scale,
                    digit as int * whole + next == 10 * rest,
            ;
        }
        quotient = quotient * 10 + digit as u64;
        rest = next;
        scale = scale * 10;
        i = i + 1;
    }
    proof {
        reveal_with_fuel(pow10, 9);
        assert(scale == 100_000_000);
        assert(part * 100_000_000 == quotient as int * whole as int + rest);
        lemma_fundamental_div_mod_converse(
            part * 100_000_000,
            whole as int,
            quotient as int,
            rest as int,
        );
    }
    quotient
}

/// The progress that the value of a processed-time marker stands for, for
/// an export of `total` microseconds.
pub fn progress_from_marker(value: &str, total: u128) -> (progress: Option<u64>)
    ensures
        match progress {
            Some(p) => marker_progress(value@, total as nat) == Some(p as nat),
            None => marker_progress(value@, total as nat) is None,
        },
        progress matches Some(p) ==> p <= FULL_PROGRESS,
{
    let chars = chars_of(value);
    proof {
        assert(chars@.subrange(0, chars@.len() as int) =~= value@);
    }
    // A marker of more milliseconds than this is beyond every total.
    let limit: u128 = 340_282_366_920_938_463_463_374_607_431_768_211;
    match read_digits(chars.as_slice(), 0, chars.len(), limit) {
        DigitRun::Invalid => None,
        DigitRun::Overflow => Some(FULL_PROGRESS),
        DigitRun::Value(processed) => {
            if total == 0 {
                return Some(FULL_PROGRESS);
            }
            let part: u128 = processed * 1000;
            if part >= total {
                Some(FULL_PROGRESS)
            } else {
                proof {
                    assert(processed * 1000 * 100_000_000 == part * 100_000_000);
                }
                Some(hundred_millionths(part, total))
            }
        },
    }
}

/// The progress that a line of the progress channel reports, for an export
/// of `total` microseconds.
pub fn progress_from_line(line: &str, total: u128) -> (progress: Option<u64>)
    ensures
        match progress {
            Some(p) => line_progress(line@, total as nat) == Some(p as nat),
            None => line_progress(line@, total as nat) is None,
        },
        progress matches Some(p) ==> p <= FULL_PROGRESS,
{
    match regex_group("out_time_ms=(\\d+)", line, 1) {
        Ok(Some(value)) => progress_from_marker(value.as_str(), total),
        _ => None,
    }
}

} // verus!
