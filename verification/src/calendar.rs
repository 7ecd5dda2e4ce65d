//! Calendar dates of the proleptic Gregorian calendar, for the timestamps
//! that name saved screenshots: a day count since 1970-01-01 becomes a
//! `YYYYMMDD` date, and a second count a `YYYYMMDD_HHMMSS` timestamp.

use vstd::prelude::*;

use std::time::{Duration, SystemTime, SystemTimeError};

use crate::board_text::{decimal, digit_char, push_decimal};
use crate::clock::whole_seconds;

verus! {

/// Whether a year is a leap year.
pub open spec fn is_leap_year(y: int) -> bool {
    y % 4 == 0 && (y % 100 != 0 || y % 400 == 0)
}

/// The number of days of a month.
pub open spec fn month_length(y: int, m: int) -> int {
    if m == 2 {
        if is_leap_year(y) {
            29
        } else {
            28
        }
    } else if m == 4 || m == 6 || m == 9 || m == 11 {
        30
    } else {
        31
    }
}

/// Whether `y`-`m`-`d` is a date.
pub open spec fn valid_date(y: int, m: int, d: int) -> bool {
    1 <= m <= 12 && 1 <= d <= month_length(y, m)
}

/// The number of leap years among the years `1..=x` (counted backwards for
/// a negative `x`).
pub open spec fn leaps(x: int) -> int {
    x / 4 - x / 100 + x / 400
}

/// The days of a year before the first of month `m`.
pub open spec fn days_before_month(y: int, m: int) -> int {
    let base = if m == 1 {
        0int
    } else if m == 2 {
        31
    } else if m == 3 {
        59
    } else if m == 4 {
        90
    } else if m == 5 {
        120
    } else if m == 6 {
        151
    } else if m == 7 {
        181
    } else if m == 8 {
        212
    } else if m == 9 {
        243
    } else if m == 10 {
        273
    } else if m == 11 {
        304
    } else {
        334
    };
    base + if m > 2 && is_leap_year(y) {
        1int
    } else {
        0
    }
}

/// The number of days from 1970-01-01 to a date: 365 per year, one more
/// per leap year in between, the months before, the days before.
pub open spec fn day_number(y: int, m: int, d: int) -> int {
    365 * (y - 1970) + (leaps(y - 1) - leaps(1969)) + days_before_month(y, m) + d - 1
}

/// A run of `n` zeros.
pub open spec fn zeros(n: int) -> Seq<char> {
    Seq::new(if n < 0 { 0 } else { n as nat }, |i: int| '0')
}

/// An integer in decimal, zero-padded to width `w`; a negative one carries
/// its `-` within the width.
pub open spec fn zero_padded(v: int, w: nat) -> Seq<char> {
    if v < 0 {
        "-"@ + zeros(w - 1 - decimal((-v) as nat).len()) + decimal((-v) as nat)
    } else {
        zeros(w - decimal(v as nat).len()) + decimal(v as nat)
    }
}

/// A date as `YYYYMMDD`.
pub open spec fn date_text(y: int, m: int, d: int) -> Seq<char> {
    zero_padded(y, 4) + zero_padded(m, 2) + zero_padded(d, 2)
}

/// Hinnant's closed form of the day number, by March-based years within
/// 400-year eras.
spec fn march_day_number(y: int, m: int, d: int) -> int {
    let y1 = if m <= 2 {
        y - 1
    } else {
        y
    };
    let era = y1 / 400;
    let yoe = y1 - era * 400;
    let mp = if m > 2 {
        m - 3
    } else {
        m + 9
    };
    let doy = (153 * mp + 2) / 5 + d - 1;
    let doe = yoe * 365 + yoe / 4 - yoe / 100 + doy;
    era * 146097 + doe - 719468
}

proof fn lemma_leaps_step(y: int)
    ensures
        leaps(y) == leaps(y - 1) + if is_leap_year(y) {
            1int
        } else {
            0
        },
{
    assert(y / 4 == (y - 1) / 4 + if y % 4 == 0 {
        1int
    } else {
        0
    });
    assert(y / 100 == (y - 1) / 100 + if y % 100 == 0 {
        1int
    } else {
        0
    });
    assert(y / 400 == (y - 1) / 400 + if y % 400 == 0 {
        1int
    } else {
        0
    });
    assert(y % 400 == 0 ==> y % 100 == 0 && y % 4 == 0);
    assert(y % 100 == 0 ==> y % 4 == 0);
}

proof fn lemma_era(y1: int)
    ensures
        (y1 % 400) * 365 + (y1 % 400) / 4 - (y1 % 400) / 100 + (y1 / 400) * 146097 == 365 * y1 + leaps(
            y1,
        ),
{
}

/// Hinnant's closed form is the day number.
proof fn lemma_march_day_number(y: int, m: int, d: int)
    requires
        1 <= m <= 12,
    ensures
        march_day_number(y, m, d) == day_number(y, m, d),
{
    let y1 = if m <= 2 {
        y - 1
    } else {
        y
    };
    lemma_era(y1);
    lemma_leaps_step(y);
    assert(y1 - (y1 / 400) * 400 == y1 % 400);
}

/// The year of an era a day of the era falls in, and the bounds of that
/// March-based year.
proof fn lemma_year_of_era(doe: int)
    requires
        0 <= doe < 146097,
    ensures
        0 <= (doe - doe / 1460 + doe / 36524 - doe / 146096) / 365 <= 399,
        ({
            let yoe = (doe - doe / 1460 + doe / 36524 - doe / 146096) / 365;
            &&& 365 * yoe + yoe / 4 - yoe / 100 <= doe
            &&& doe < 365 * (yoe + 1) + (yoe + 1) / 4 - (yoe + 1) / 100 + if yoe == 399 {
                1int
            } else {
                0
            }
        }),
{
}

/// The day of a March-based year falls in a month of it: the month's offset
/// and the day within it, which stays within a non-February month's length.
proof fn lemma_month_of_year(doy: int, mp: int, d: int)
    requires
        0 <= doy <= 365,
        mp == (5 * doy + 2) / 153,
        d == doy - (153 * mp + 2) / 5 + 1,
    ensures
        0 <= mp <= 11,
        1 <= d,
        d <= (153 * mp + 155) / 5 - (153 * mp + 2) / 5,
        mp < 11 ==> d <= month_length(0, if mp < 10 { mp + 3 } else { mp - 9 }),
{
    assert((153 * mp + 2) / 5 <= doy);
    assert(doy + 1 <= (153 * mp + 155) / 5);
}

/// Shifting a year by whole eras keeps its leap-ness.
proof fn lemma_leap_shift(a: int, era: int)
    ensures
        is_leap_year(a + era * 400) == is_leap_year(a),
{
    assert((a + era * 400) % 4 == a % 4) by {
        assert(era * 400 == (era * 100) * 4);
    }
    assert((a + era * 400) % 100 == a % 100) by {
        assert(era * 400 == (era * 4) * 100);
    }
    assert((a + era * 400) % 400 == a % 400);
}

/// The length of a March-based year of an era: 365 days, one more when the
/// February that ends it is a leap February.
proof fn lemma_march_year_length(yoe: int)
    requires
        0 <= yoe <= 399,
    ensures
        365 * (yoe + 1) + (yoe + 1) / 4 - (yoe + 1) / 100 + (if yoe == 399 {
            1int
        } else {
            0
        }) - (365 * yoe + yoe / 4 - yoe / 100) == 365 + if is_leap_year(yoe + 1) {
            1int
        } else {
            0
        },
{
    assert((yoe + 1) / 4 - yoe / 4 == if (yoe + 1) % 4 == 0 {
        1int
    } else {
        0
    });
    assert((yoe + 1) / 100 - yoe / 100 == if (yoe + 1) % 100 == 0 {
        1int
    } else {
        0
    });
    assert((yoe + 1) % 400 == 0 <==> yoe == 399);
}

/// The last month of a March-based year is February of the next year, whose
/// length the year's bound gives.
proof fn lemma_february(yoe: int, era: int, doe: int, doy: int, d: int)
    requires
        0 <= yoe <= 399,
        365 * yoe + yoe / 4 - yoe / 100 <= doe,
        doe < 365 * (yoe + 1) + (yoe + 1) / 4 - (yoe + 1) / 100 + if yoe == 399 {
            1int
        } else {
            0
        },
        doy == doe - (365 * yoe + yoe / 4 - yoe / 100),
        d == doy - 337 + 1,
    ensures
        d <= month_length(yoe + era * 400 + 1, 2),
{
    lemma_march_year_length(yoe);
    lemma_leap_shift(yoe + 1, era);
    assert(yoe + era * 400 + 1 == (yoe + 1) + era * 400);
}

/// The date Hinnant computes for a day has that day as its day number.
proof fn lemma_civil_day_number(z: int, era: int, doe: int, yoe: int, doy: int, mp: int, d: int, m: int, year: int)
    requires
        era == (z + 719468) / 146097,
        doe == (z + 719468) % 146097,
        0 <= yoe <= 399,
        doy == doe - (365 * yoe + yoe / 4 - yoe / 100),
        0 <= mp <= 11,
        d == doy - (153 * mp + 2) / 5 + 1,
        m == if mp < 10 {
            mp + 3
        } else {
            mp - 9
        },
        year == yoe + era * 400 + if m <= 2 {
            1int
        } else {
            0
        },
    ensures
        day_number(year, m, d) == z,
{
    let y = yoe + era * 400;
    assert(y / 400 == era && y % 400 == yoe);
    assert(march_day_number(year, m, d) == z);
    lemma_march_day_number(year, m, d);
}

/// The date of a day counted from the start of an era, as Hinnant computes
/// it, is a date whose day number is that day.
proof fn lemma_civil(z: int, era: int, doe: int, yoe: int, doy: int, mp: int, d: int, m: int, year: int)
    requires
        era == (z + 719468) / 146097,
        doe == (z + 719468) % 146097,
        yoe == (doe - doe / 1460 + doe / 36524 - doe / 146096) / 365,
        doy == doe - (365 * yoe + yoe / 4 - yoe / 100),
        mp == (5 * doy + 2) / 153,
        d == doy - (153 * mp + 2) / 5 + 1,
        m == if mp < 10 {
            mp + 3
        } else {
            mp - 9
        },
        year == yoe + era * 400 + if m <= 2 {
            1int
        } else {
            0
        },
    ensures
        0 <= yoe <= 399,
        0 <= doy <= 365,
        0 <= mp <= 11,
        valid_date(year, m, d),
        day_number(year, m, d) == z,
{
    lemma_year_of_era(doe);
    lemma_month_of_year(doy, mp, d);
    if mp == 11 {
        lemma_february(yoe, era, doe, doy, d);
    }
    lemma_civil_day_number(z, era, doe, yoe, doy, mp, d, m, year);
}

/// Appends `n` zeros.
fn push_zeros(out: &mut String, n: u64)
    ensures
        final(out)@ == old(out)@ + zeros(n as int),
{
    let ghost start = out@;
    let mut i: u64 = 0;
    while i < n
        invariant
            i <= n,
            out@ == start + zeros(i as int),
        decreases n - i,
    {
        crate::text::push_char(out, '0');
        assert(start + zeros(i + 1) =~= (start + zeros(i as int)).push('0'));
        i += 1;
    }
}

/// The number of decimal digits of `n`.
fn digit_count(n: u64) -> (r: u64)
    ensures
        r == decimal(n as nat).len(),
        1 <= r <= 20,
    decreases n,
{
    proof {
        lemma_decimal_short(n);
    }
    if n < 10 {
        1
    } else {
        let r = digit_count(n / 10);
        assert(decimal(n as nat) == decimal((n / 10) as nat).push(digit_char((n % 10) as nat)));
        r + 1
    }
}

/// A `u64` has at most twenty digits.
proof fn lemma_decimal_short(n: u64)
    ensures
        1 <= decimal(n as nat).len() <= 20,
{
    crate::board_text::lemma_decimal_len_u64(n);
}

/// Appends `v` zero-padded to width `w`.
pub(crate) fn push_zero_padded(out: &mut String, v: i64, w: u64)
    requires
        v > i64::MIN,
        1 <= w <= 20,
    ensures
        final(out)@ == old(out)@ + zero_padded(v as int, w as nat),
{
    let ghost start = out@;
    if v < 0 {
        let a: u64 = (-v) as u64;
        out.append("-");
        let n = digit_count(a);
        if n + 1 < w {
            push_zeros(out, w - 1 - n);
        } else {
            push_zeros(out, 0);
        }
        push_decimal(out, a);
    } else {
        let a: u64 = v as u64;
        let n = digit_count(a);
        if n < w {
            push_zeros(out, w - n);
        } else {
            push_zeros(out, 0);
        }
        push_decimal(out, a);
    }
    assert(out@ =~= start + zero_padded(v as int, w as nat));
}

/// Converts a day count since 1970-01-01 to its `YYYYMMDD` date (Howard
/// Hinnant's `civil_from_days`).
pub fn civil_from_days(z: i64) -> (r: String)
    requires
        z <= i64::MAX - 719468,
    ensures
        exists|y: int, m: int, d: int|
            valid_date(y, m, d) && #[trigger] day_number(y, m, d) == z && r@ == date_text(y, m, d),
{
    let zp: i64 = z + 719468;
    let era: i64;
    let doe: i64;
    if zp >= 0 {
        era = zp / 146097;
        doe = zp % 146097;
    } else {
        let n: u64 = (-(zp as i128)) as u64;
        let q: u64 = (n + 146096) / 146097;
        era = -(q as i64);
        doe = (q * 146097 - n) as i64;
        assert(era == zp as int / 146097 && doe == zp as int % 146097) by {
            assert(zp == -(n as int));
            assert(q * 146097 >= n);
            assert(q * 146097 < n + 146097);
        }
    }
    let yoe: i64 = (doe - doe / 1460 + doe / 36524 - doe / 146096) / 365;
    proof {
        lemma_year_of_era(doe as int);
    }
    let doy: i64 = doe - (365 * yoe + yoe / 4 - yoe / 100);
    let mp: i64 = (5 * doy + 2) / 153;
    let d: i64 = doy - (153 * mp + 2) / 5 + 1;
    let m: i64 = if mp < 10 {
        mp + 3
    } else {
        mp - 9
    };
    let year: i64 = yoe + era * 400 + if m <= 2 {
        1
    } else {
        0
    };
    proof {
        lemma_civil(z as int, era as int, doe as int, yoe as int, doy as int, mp as int, d as int, m as int, year as int);
    }
    let mut out = String::new();
    push_zero_padded(&mut out, year, 4);
    push_zero_padded(&mut out, m, 2);
    push_zero_padded(&mut out, d, 2);
    assert(out@ == date_text(year as int, m as int, d as int));
    out
}

#[verifier::external_type_specification]
#[verifier::external_body]
pub struct ExSystemTime(SystemTime);

#[verifier::external_type_specification]
#[verifier::external_body]
pub struct ExSystemTimeError(SystemTimeError);

/// `SystemTime::now`: the wall clock now. Nothing is known of it.
#[verifier::external_body]
fn system_time_now() -> SystemTime {
    SystemTime::now()
}

/// `SystemTime::duration_since` the Unix epoch: the time since the epoch,
/// or an error when the clock reads earlier. Nothing is known of either.
#[verifier::external_body]
fn since_unix_epoch(t: &SystemTime) -> Result<Duration, SystemTimeError> {
    t.duration_since(std::time::UNIX_EPOCH)
}

/// Whether `t` is the timestamp of a second count since the epoch: the
/// date of its day as `YYYYMMDD`, `_`, then the hour, minute and second
/// within that day, two digits each.
pub open spec fn is_timestamp_of(t: Seq<char>, secs: u64) -> bool {
    exists|y: int, m: int, d: int|
        valid_date(y, m, d) && #[trigger] day_number(y, m, d) == (secs / 86400) as int && t == date_text(y, m, d)
            + "_"@ + zero_padded(((secs % 86400) / 3600) as int, 2) + zero_padded(((secs % 3600) / 60) as int, 2)
            + zero_padded((secs % 60) as int, 2)
}

/// A second count since the epoch as `YYYYMMDD_HHMMSS`: the date of its
/// day, then the hour, minute and second within that day.
pub fn timestamp_of(secs: u64) -> (r: String)
    ensures
        is_timestamp_of(r@, secs),
{
    let days = secs / 86400;
    let mut out = civil_from_days(days as i64);
    let ghost date = out@;
    let rem = secs % 86400;
    let h = rem / 3600;
    let mi = (rem % 3600) / 60;
    let s = rem % 60;
    assert((secs % 86400) % 3600 == secs % 3600 && (secs % 86400) % 60 == secs % 60) by (nonlinear_arith);
    out.append("_");
    push_zero_padded(&mut out, h as i64, 2);
    push_zero_padded(&mut out, mi as i64, 2);
    push_zero_padded(&mut out, s as i64, 2);
    assert(out@ == date + "_"@ + zero_padded(((secs % 86400) / 3600) as int, 2) + zero_padded(((secs % 3600) / 60) as int, 2)
        + zero_padded((secs % 60) as int, 2));
    out
}

/// Today's date and time as `YYYYMMDD_HHMMSS`, from the seconds since the
/// Unix epoch (zero when the clock reads earlier). Which second it shows
/// depends on the clock.
pub fn current_timestamp() -> (r: String)
    ensures
        exists|secs: u64| is_timestamp_of(r@, secs),
{
    let now = system_time_now();
    let secs = match since_unix_epoch(&now) {
        Ok(d) => whole_seconds(&d),
        Err(_) => 0,
    };
    timestamp_of(secs)
}

} // verus!
