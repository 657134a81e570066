//! Durations and clock access.
//!
//! A requested duration is written as a positive number followed by one
//! unit letter: `d` (days), `h` (hours), `m` (minutes) or `s` (seconds),
//! as in `"13d"`. Anything else — including a value whose seconds do not
//! fit in 64 bits — is rejected as invalid.

use vstd::prelude::*;
use vstd::string::StrSliceExecFns;
use crate::strings::{is_digit, digit_val, digits_val, all_digits, lemma_digits_val_nonneg, lemma_digits_val_prefix};

verus! {

/// Shortest duration a ban or mute may request, in seconds.
pub const MIN_ACTION_DURATION_SECS: u64 = 60;

/// Longest mute the platform supports: 28 days, in seconds.
pub const MAX_MUTE_DURATION_SECS: u64 = 2419200;

/// Seconds of one duration unit letter.
pub open spec fn unit_secs(c: char) -> Option<int> {
    if c == 'd' {
        Some(86400int)
    } else if c == 'h' {
        Some(3600int)
    } else if c == 'm' {
        Some(60int)
    } else if c == 's' {
        Some(1int)
    } else {
        None
    }
}

/// The seconds a duration string denotes: one or more digits, then a unit
/// letter; rejected when malformed or when the seconds exceed `u64::MAX`.
pub open spec fn spec_parse_duration(s: Seq<char>) -> Option<u64> {
    let digits = s.subrange(0, s.len() - 1);
    if s.len() >= 2 && all_digits(digits) && unit_secs(s.last()) is Some {
        let n = digits_val(digits);
        let u = unit_secs(s.last())->0;
        if n * u <= u64::MAX {
            Some((n * u) as u64)
        } else {
            None
        }
    } else {
        None
    }
}

/// Parses a duration string (`"13d"`, `"45m"`) to seconds.
pub fn parse_duration(s: &str) -> (r: Option<u64>)
    ensures
        r == spec_parse_duration(s@),
{
    let n = s.unicode_len();
    if n < 2 {
        return None;
    }
    let ghost digits = s@.subrange(0, s@.len() - 1);
    let mut value: u64 = 0;
    let mut i: usize = 0;
    while i < n - 1
        invariant
            s@.len() == n,
            2 <= n <= usize::MAX,
            i <= n - 1,
            digits == s@.subrange(0, s@.len() - 1),
            all_digits(digits.subrange(0, i as int)),
            value == digits_val(digits.subrange(0, i as int)),
        decreases n - 1 - i,
    {
        let c = s.get_char(i);
        proof {
            assert(digits[i as int] == s@[i as int]);
        }
        let cv = c as u32;
        if cv < 48 || cv > 57 {
            proof {
                assert(!is_digit(digits[i as int]));
            }
            return None;
        }
        let d = (cv - 48) as u64;
        proof {
            assert(digits.subrange(0, i as int + 1).drop_last() =~= digits.subrange(0, i as int));
            assert(digits.subrange(0, i as int + 1).last() == digits[i as int]);
            assert(is_digit(digits[i as int]));
            assert(d == digit_val(digits[i as int]));
        }
        if value > (u64::MAX - d) / 10 {
            // The digits already exceed the representable range, so the
            // final value would too, whatever the unit is.
            proof {
                let p1 = digits.subrange(0, i as int + 1);
                assert(digits_val(p1) == value * 10 + d);
                assert(value * 10 + d > u64::MAX) by (nonlinear_arith)
                    requires
                        value > (u64::MAX - d) / 10,
                        0 <= d <= 9,
                ;
                if all_digits(digits) && unit_secs(s@.last()) is Some {
                    lemma_digits_val_prefix(digits, i as int + 1);
                    let nv = digits_val(digits);
                    let u = unit_secs(s@.last())->0;
                    assert(u >= 1);
                    assert(nv * u >= nv) by (nonlinear_arith)
                        requires
                            nv > 0,
                            u >= 1,
                    ;
                }
            }
            return None;
        }
        proof {
            assert(value * 10 + d <= u64::MAX) by (nonlinear_arith)
                requires
                    value <= (u64::MAX - d) / 10,
                    0 <= d <= 9,
            ;
        }
        value = value * 10 + d;
        i = i + 1;
    }
    proof {
        assert(digits.subrange(0, i as int) =~= digits);
    }
    let unit = s.get_char(n - 1);
    proof {
        assert(s@[s@.len() - 1] == s@.last());
    }
    let mult: u64 = if unit == 'd' {
        86400
    } else if unit == 'h' {
        3600
    } else if unit == 'm' {
        60
    } else if unit == 's' {
        1
    } else {
        return None;
    };
    proof {
        lemma_digits_val_nonneg(digits);
    }
    if value > u64::MAX / mult {
        proof {
            assert(value * mult > u64::MAX) by (nonlinear_arith)
                requires
                    value > u64::MAX / mult,
                    1 <= mult,
            ;
        }
        return None;
    }
    proof {
        assert(value * mult <= u64::MAX) by (nonlinear_arith)
            requires
                value <= u64::MAX / mult,
                1 <= mult <= 86400,
        ;
    }
    Some(value * mult)
}

/// The end date of an action that starts at `now` and lasts `secs` seconds.
pub fn date_after(now: u64, secs: u64) -> (r: u64)
    requires
        now + secs <= u64::MAX,
    ensures
        r == now + secs,
{
    now + secs
}

/// Clamps a raw clock reading to the epoch-seconds domain the case model
/// uses: readings before the epoch count as 0.
pub fn clamp_epoch_seconds(t: i64) -> (r: u64)
    ensures
        r == if t < 0 {
            0
        } else {
            t as u64
        },
{
    if t < 0 {
        0
    } else {
        t as u64
    }
}

/// Relies on chrono's `Utc::now` and `DateTime::timestamp`: the current
/// wall-clock time as seconds since the Unix epoch. Nothing is assumed
/// of the reading; chrono itself aborts on a clock before the epoch.
#[verifier::external_body]
fn chrono_now_seconds() -> i64 {
    chrono::Utc::now().timestamp()
}

/// The current time as epoch seconds, clamped at the epoch.
pub fn now_seconds() -> u64 {
    let t = chrono_now_seconds();
    clamp_epoch_seconds(t)
}

} // verus!
