//! Calendar arithmetic and element-set epoch handling.
//!
//! Timestamps are Unix milliseconds (`i64`). An element set encodes its epoch
//! as a two-digit year plus a fractional day of year (`YYDDD.DDDDDDDD`); this
//! module decodes that field exactly, resolves the two-digit year through the
//! 1957/2056 pivot, and offers the two resolution policies a tracker needs:
//! the fixed absolute epoch used while sweeping a search window, and the
//! nearest-year re-anchoring used for live refresh across a year rollover.

use vstd::prelude::*;

use crate::errors::ParseError;

verus! {

/// Milliseconds in one day.
pub const MS_PER_DAY: i64 = 86_400_000;

/// Earliest timestamp (milliseconds) the library reasons about.
pub const MIN_TIME_MS: i64 = -11_000_000_000_000;

/// Latest timestamp (milliseconds) the library reasons about.
pub const MAX_TIME_MS: i64 = 12_000_000_000_000;

/// Gregorian leap-year rule.
pub open spec fn is_leap_year(y: int) -> bool {
    y % 4 == 0 && (y % 100 != 0 || y % 400 == 0)
}

/// Days in calendar year `y`.
pub open spec fn days_in_year(y: int) -> int {
    if is_leap_year(y) {
        366
    } else {
        365
    }
}

/// Days from 1970-01-01 to the first day of year `y` (negative before 1970).
pub open spec fn spec_days_before_year(y: int) -> int
    decreases (if y >= 1970 { y - 1970 } else { 1970 - y }),
{
    if y > 1970 {
        spec_days_before_year(y - 1) + days_in_year(y - 1)
    } else if y < 1970 {
        spec_days_before_year(y + 1) - days_in_year(y)
    } else {
        0
    }
}

/// Unix millisecond timestamp of `y`-01-01T00:00:00Z.
pub open spec fn spec_year_start_ms(y: int) -> int {
    spec_days_before_year(y) * (MS_PER_DAY as int)
}

/// One year advances the year-start day count by that year's length.
pub proof fn lemma_days_before_year_succ(y: int)
    ensures
        spec_days_before_year(y + 1) == spec_days_before_year(y) + days_in_year(y),
{
}

/// Year starts are strictly increasing, at least 365 days apart.
pub proof fn lemma_year_start_monotonic(y1: int, y2: int)
    requires
        y1 <= y2,
    ensures
        spec_days_before_year(y1) + 365 * (y2 - y1) <= spec_days_before_year(y2),
        spec_days_before_year(y2) <= spec_days_before_year(y1) + 366 * (y2 - y1),
    decreases y2 - y1,
{
    if y1 < y2 {
        lemma_year_start_monotonic(y1, y2 - 1);
        lemma_days_before_year_succ(y2 - 1);
    }
}

/// Whether `y` is a leap year.
pub fn is_leap_year_exec(y: i32) -> (r: bool)
    requires
        0 <= y,
    ensures
        r == is_leap_year(y as int),
{
    y % 4 == 0 && (y % 100 != 0 || y % 400 == 0)
}

/// Days in calendar year `y`.
pub fn days_in_year_exec(y: i32) -> (r: u32)
    requires
        0 <= y,
    ensures
        r == days_in_year(y as int),
{
    if is_leap_year_exec(y) {
        366
    } else {
        365
    }
}

/// Days from 1970-01-01 to the first day of year `y`.
pub fn days_before_year(y: i32) -> (d: i64)
    requires
        1600 <= y <= 2400,
    ensures
        d == spec_days_before_year(y as int),
{
    let mut year: i32 = 1970;
    let mut days: i64 = 0;
    while year < y
        invariant
            1600 <= y <= 2400,
            1970 <= year <= 2400,
            year <= y || year == 1970,
            days == spec_days_before_year(year as int),
            -200_000 <= days <= 200_000,
        decreases 2400 - year,
    {
        proof {
            lemma_days_before_year_succ(year as int);
            lemma_year_start_monotonic(1970, year as int + 1);
        }
        days = days + days_in_year_exec(year) as i64;
        year = year + 1;
    }
    while year > y
        invariant
            1600 <= y <= 2400,
            1600 <= year <= 2400,
            y <= year,
            year > y ==> year <= 1970,
            days == spec_days_before_year(year as int),
            -200_000 <= days <= 200_000,
        decreases year - 1600,
    {
        proof {
            lemma_days_before_year_succ(year as int - 1);
            lemma_year_start_monotonic(year as int - 1, 1970);
        }
        days = days - days_in_year_exec(year - 1) as i64;
        year = year - 1;
    }
    days
}

/// An ASCII decimal digit.
pub open spec fn spec_is_digit(b: u8) -> bool {
    48 <= b <= 57
}

/// Numeric value of an ASCII digit.
pub open spec fn spec_digit(b: u8) -> int {
    b - 48
}

/// The epoch field of the first element line: columns 18..32 hold
/// `YYDDD.DDDDDDDD` — a two-digit year, a three-digit day of year, and eight
/// fractional-day digits.
pub open spec fn epoch_field_wf(line1: Seq<u8>) -> bool {
    &&& line1.len() >= 32
    &&& spec_is_digit(line1[18])
    &&& spec_is_digit(line1[19])
    &&& spec_is_digit(line1[20])
    &&& spec_is_digit(line1[21])
    &&& spec_is_digit(line1[22])
    &&& line1[23] == 46u8
    &&& spec_is_digit(line1[24])
    &&& spec_is_digit(line1[25])
    &&& spec_is_digit(line1[26])
    &&& spec_is_digit(line1[27])
    &&& spec_is_digit(line1[28])
    &&& spec_is_digit(line1[29])
    &&& spec_is_digit(line1[30])
    &&& spec_is_digit(line1[31])
}

/// Two-digit year of the epoch field.
pub open spec fn spec_epoch_year2(line1: Seq<u8>) -> int {
    spec_digit(line1[18]) * 10 + spec_digit(line1[19])
}

/// Integer day of year of the epoch field, as encoded (not range-checked).
pub open spec fn spec_epoch_day(line1: Seq<u8>) -> int {
    spec_digit(line1[20]) * 100 + spec_digit(line1[21]) * 10 + spec_digit(line1[22])
}

/// Fractional day of the epoch field, in units of 1e-8 day.
pub open spec fn spec_epoch_frac_e8(line1: Seq<u8>) -> int {
    spec_digit(line1[24]) * 10_000_000 + spec_digit(line1[25]) * 1_000_000 + spec_digit(
        line1[26],
    ) * 100_000 + spec_digit(line1[27]) * 10_000 + spec_digit(line1[28]) * 1_000 + spec_digit(
        line1[29],
    ) * 100 + spec_digit(line1[30]) * 10 + spec_digit(line1[31])
}

/// Two-digit years at or above 57 belong to the 1900s, the rest to the 2000s.
pub open spec fn pivot_year(y2: int) -> int {
    if y2 >= 57 {
        1900 + y2
    } else {
        2000 + y2
    }
}

/// Milliseconds from the start of the year to day `day` plus `frac_e8`
/// hundred-millionths of a day (day 1.0 is the year's first instant).
pub open spec fn spec_ms_into_year(day: int, frac_e8: int) -> int {
    (day - 1) * (MS_PER_DAY as int) + (frac_e8 * 864) / 1000
}

/// Absolute Unix millisecond timestamp encoded by a well-formed epoch field.
pub open spec fn spec_epoch_unix_ms(line1: Seq<u8>) -> int {
    spec_year_start_ms(pivot_year(spec_epoch_year2(line1))) + spec_ms_into_year(
        spec_epoch_day(line1),
        spec_epoch_frac_e8(line1),
    )
}

/// Day-of-year 1.0 in year `y` decodes to `y`-01-01T00:00:00Z exactly.
pub proof fn lemma_epoch_day_one_is_year_start(line1: Seq<u8>)
    requires
        epoch_field_wf(line1),
        spec_epoch_day(line1) == 1,
        spec_epoch_frac_e8(line1) == 0,
    ensures
        spec_epoch_unix_ms(line1) == spec_year_start_ms(pivot_year(spec_epoch_year2(line1))),
{
}

/// The decoded epoch of an element set: the pivot-resolved year, the encoded
/// day of year with its fraction, and the absolute timestamp they denote.
///
/// `day` and `frac_e8` are kept beside the absolute `unix_ms` because live
/// refresh re-anchors the same day-of-year to a neighbouring calendar year.
#[derive(Clone, Copy, Debug, PartialEq, Eq, Structural)]
pub struct TleEpoch {
    /// Full calendar year, resolved through the 57 pivot.
    pub year: i32,
    /// Integer day of year as encoded (001 is January 1st).
    pub day: u32,
    /// Fractional day in units of 1e-8 day.
    pub frac_e8: u32,
    /// Milliseconds from the year's start to the epoch instant.
    pub ms_into_year: i64,
    /// Absolute epoch, Unix milliseconds.
    pub unix_ms: i64,
}

impl TleEpoch {
    /// The fields agree with each other and lie in the ranges the encoding
    /// can produce.
    pub open spec fn wf(self) -> bool {
        &&& 1957 <= self.year <= 2056
        &&& self.day <= 999
        &&& self.frac_e8 < 100_000_000
        &&& self.ms_into_year == spec_ms_into_year(self.day as int, self.frac_e8 as int)
        &&& self.unix_ms == spec_year_start_ms(self.year as int) + self.ms_into_year
    }
}

/// Whether `b` is an ASCII decimal digit.
fn is_digit(b: u8) -> (r: bool)
    ensures
        r == spec_is_digit(b),
{
    48 <= b && b <= 57
}

/// Decode the fixed-width epoch field of the first element line: two-digit
/// year through the 57 pivot, then the fractional day of year, exactly.
pub fn parse_tle_epoch(line1: &[u8]) -> (r: Result<TleEpoch, ParseError>)
    ensures
        r is Ok <==> epoch_field_wf(line1@),
        r matches Ok(e) ==> {
            &&& e.wf()
            &&& e.year == pivot_year(spec_epoch_year2(line1@))
            &&& e.day == spec_epoch_day(line1@)
            &&& e.frac_e8 == spec_epoch_frac_e8(line1@)
            &&& e.unix_ms == spec_epoch_unix_ms(line1@)
        },
        r matches Err(err) ==> err == ParseError::BadEpochField,
{
    if line1.len() < 32 {
        return Err(ParseError::BadEpochField);
    }
    let mut all_digits: bool = true;
    let mut i: usize = 18;
    while i < 32
        invariant
            18 <= i <= 32,
            line1@.len() >= 32,
            all_digits == (forall|j: int|
                18 <= j < i && j != 23 ==> spec_is_digit(#[trigger] line1@[j])),
        decreases 32 - i,
    {
        if i != 23 && !is_digit(line1[i]) {
            all_digits = false;
        }
        i = i + 1;
    }
    if !all_digits || line1[23] != 46 {
        return Err(ParseError::BadEpochField);
    }
    let y2: u32 = (line1[18] - 48) as u32 * 10 + (line1[19] - 48) as u32;
    let day: u32 = (line1[20] - 48) as u32 * 100 + (line1[21] - 48) as u32 * 10 + (line1[22]
        - 48) as u32;
    let frac_e8: u32 = (line1[24] - 48) as u32 * 10_000_000 + (line1[25] - 48) as u32 * 1_000_000
        + (line1[26] - 48) as u32 * 100_000 + (line1[27] - 48) as u32 * 10_000 + (line1[28]
        - 48) as u32 * 1_000 + (line1[29] - 48) as u32 * 100 + (line1[30] - 48) as u32 * 10 + (
    line1[31] - 48) as u32;
    let year: i32 = if y2 >= 57 {
        1900 + y2 as i32
    } else {
        2000 + y2 as i32
    };
    let ms_into_year: i64 = (day as i64 - 1) * MS_PER_DAY + (frac_e8 as i64 * 864) / 1000;
    proof {
        if year >= 1970 {
            lemma_year_start_monotonic(1970, year as int);
        } else {
            lemma_year_start_monotonic(year as int, 1970);
        }
    }
    let unix_ms: i64 = year_start_ms(year) + ms_into_year;
    Ok(TleEpoch { year, day, frac_e8, ms_into_year, unix_ms })
}

/// Unix millisecond timestamp of `y`-01-01T00:00:00Z.
pub fn year_start_ms(y: i32) -> (t: i64)
    requires
        1600 <= y <= 2400,
    ensures
        t == spec_year_start_ms(y as int),
{
    let days: i64 = days_before_year(y);
    proof {
        lemma_year_start_monotonic(1600, y as int);
        lemma_year_start_monotonic(y as int, 2400);
        lemma_year_start_monotonic(1600, 1970);
        lemma_year_start_monotonic(1970, 2400);
    }
    days * MS_PER_DAY
}

/// Magnitude of an integer.
pub open spec fn abs_int(x: int) -> int {
    if x < 0 {
        -x
    } else {
        x
    }
}

/// Magnitude of an `i64`.
pub fn abs_i64(x: i64) -> (r: i64)
    requires
        i64::MIN < x,
    ensures
        r == abs_int(x as int),
{
    if x < 0 {
        -x
    } else {
        x
    }
}

/// The day-of-year encoding anchored to a given calendar year, as an absolute
/// timestamp.
pub open spec fn spec_anchored_epoch_ms(year: int, day: int, frac_e8: int) -> int {
    spec_year_start_ms(year) + spec_ms_into_year(day, frac_e8)
}

/// Anchor a day-of-year with its fraction to calendar year `year`.
pub fn year_day_to_unix_ms(year: i32, day: u32, frac_e8: u32) -> (t: i64)
    requires
        1600 <= year <= 2399,
        day <= 999,
        frac_e8 < 100_000_000,
    ensures
        t == spec_anchored_epoch_ms(year as int, day as int, frac_e8 as int),
{
    let ms_into_year: i64 = (day as i64 - 1) * MS_PER_DAY + (frac_e8 as i64 * 864) / 1000;
    proof {
        if year >= 1970 {
            lemma_year_start_monotonic(1970, year as int);
        } else {
            lemma_year_start_monotonic(year as int, 1970);
        }
    }
    year_start_ms(year) + ms_into_year
}

/// The calendar year containing a timestamp: the unique `y` with
/// `year_start(y) <= t < year_start(y + 1)`.
pub open spec fn spec_year_of_ms(t: int) -> int {
    choose|y: int| #[trigger] spec_year_start_ms(y) <= t < spec_year_start_ms(y + 1)
}

/// `spec_year_of_ms` is characterized by its bracketing property.
pub proof fn lemma_year_of_ms(t: int, y: int)
    requires
        spec_year_start_ms(y) <= t < spec_year_start_ms(y + 1),
    ensures
        spec_year_of_ms(t) == y,
{
    assert(exists|y0: int|
        #[trigger] spec_year_start_ms(y0) <= t < spec_year_start_ms(y0 + 1)) by {
        assert(spec_year_start_ms(y) <= t < spec_year_start_ms(y + 1));
    }
    let c = spec_year_of_ms(t);
    assert(spec_year_start_ms(c) <= t < spec_year_start_ms(c + 1));
    if c < y {
        lemma_year_start_monotonic(c + 1, y);
        assert(false);
    } else if y < c {
        lemma_year_start_monotonic(y + 1, c);
        assert(false);
    }
}

/// Find the calendar year containing `t`.
pub fn year_of_unix_ms(t: i64) -> (y: i32)
    requires
        MIN_TIME_MS <= t <= MAX_TIME_MS,
    ensures
        1601 <= y <= 2398,
        spec_year_start_ms(y as int) <= t < spec_year_start_ms(y as int + 1),
        spec_year_of_ms(t as int) == y,
{
    let mut year: i32 = 1970;
    let mut start: i64 = 0;
    if t >= 0 {
        loop
            invariant
                0 <= t <= 12_000_000_000_000,
                1970 <= year <= 2398,
                start == spec_year_start_ms(year as int),
                start <= t,
            ensures
                1970 <= year <= 2398,
                start == spec_year_start_ms(year as int),
                start <= t < spec_year_start_ms(year as int + 1),
            decreases 2398 - year,
        {
            proof {
                lemma_days_before_year_succ(year as int);
                lemma_year_start_monotonic(1970, year as int + 1);
            }
            let len_ms: i64 = days_in_year_exec(year) as i64 * MS_PER_DAY;
            if t < start + len_ms {
                break ;
            }
            proof {
                lemma_year_start_monotonic(1970, year as int);
                if year as int + 1 >= 2399 {
                    lemma_year_start_monotonic(2399, year as int + 1);
                    lemma_year_start_monotonic(1970, 2399);
                    assert(spec_days_before_year(2399) >= 365 * (2399 - 1970));
                    assert(false);
                }
            }
            start = start + len_ms;
            year = year + 1;
        }
    } else {
        while start > t
            invariant
                -11_000_000_000_000 <= t < 0,
                1601 <= year <= 1970,
                start == spec_year_start_ms(year as int),
                t < spec_year_start_ms(year as int + 1),
            decreases year - 1601,
        {
            proof {
                lemma_days_before_year_succ(year as int - 1);
                lemma_year_start_monotonic(year as int - 1, 1970);
                if year == 1601 {
                    lemma_year_start_monotonic(1601, 1970);
                    assert(spec_days_before_year(1601) <= -365 * (1970 - 1601));
                    assert(false);
                }
            }
            let len_ms: i64 = days_in_year_exec(year - 1) as i64 * MS_PER_DAY;
            start = start - len_ms;
            year = year - 1;
        }
    }
    proof {
        lemma_year_of_ms(t as int, year as int);
    }
    year
}

/// Among the three anchorings of a day-of-year to the calendar year of `now`
/// and its two neighbours, the one nearest to `now`; ties keep the current
/// year's anchoring.
pub open spec fn spec_nearest_epoch_ms(base_year: int, day: int, frac_e8: int, now: int) -> int {
    let cur = spec_anchored_epoch_ms(base_year, day, frac_e8);
    let prev = spec_anchored_epoch_ms(base_year - 1, day, frac_e8);
    let next = spec_anchored_epoch_ms(base_year + 1, day, frac_e8);
    if abs_int(now - prev) < abs_int(now - cur) && abs_int(now - prev) < abs_int(now - next) {
        prev
    } else if abs_int(now - next) < abs_int(now - cur) && abs_int(now - next) < abs_int(
        now - prev,
    ) {
        next
    } else {
        cur
    }
}

/// The epoch instant the nearest-year policy resolves to at time `now`.
pub open spec fn spec_resolved_epoch_ms(day: int, frac_e8: int, now: int) -> int {
    spec_nearest_epoch_ms(spec_year_of_ms(now), day, frac_e8, now)
}

/// Re-anchor the stored day-of-year to whichever of the previous, current or
/// next calendar year of `now` lies nearest to `now`.
///
/// This keeps "time since epoch" small across a calendar-year rollover during
/// live refresh, where the fixed absolute epoch of a batch search would not.
pub fn resolve_epoch_nearest(epoch: &TleEpoch, now_ms: i64) -> (r: i64)
    requires
        epoch.wf(),
        MIN_TIME_MS <= now_ms <= MAX_TIME_MS,
    ensures
        r == spec_resolved_epoch_ms(epoch.day as int, epoch.frac_e8 as int, now_ms as int),
        -15_000_000_000_000 <= r <= 15_000_000_000_000,
{
    let base: i32 = year_of_unix_ms(now_ms);
    let cur: i64 = year_day_to_unix_ms(base, epoch.day, epoch.frac_e8);
    let prev: i64 = year_day_to_unix_ms(base - 1, epoch.day, epoch.frac_e8);
    let next: i64 = year_day_to_unix_ms(base + 1, epoch.day, epoch.frac_e8);
    proof {
        lemma_year_start_bounds_for_diff(base as int - 1);
        lemma_year_start_bounds_for_diff(base as int);
        lemma_year_start_bounds_for_diff(base as int + 1);
    }
    let diff_cur: i64 = abs_i64(now_ms - cur);
    let diff_prev: i64 = abs_i64(now_ms - prev);
    let diff_next: i64 = abs_i64(now_ms - next);
    if diff_prev < diff_cur && diff_prev < diff_next {
        prev
    } else if diff_next < diff_cur && diff_next < diff_prev {
        next
    } else {
        cur
    }
}

/// Year starts of years near the supported range stay within fixed numeric
/// bounds, so differences of anchored epochs fit in an `i64`.
proof fn lemma_year_start_bounds_for_diff(y: int)
    requires
        1600 <= y <= 2399,
    ensures
        -14_000_000_000_000 <= spec_year_start_ms(y) <= 14_000_000_000_000,
{
    if y >= 1970 {
        lemma_year_start_monotonic(1970, y);
    } else {
        lemma_year_start_monotonic(y, 1970);
    }
}

proof fn lemma_find_year_up(t: int, y: int)
    requires
        1601 <= y <= 2398,
        spec_year_start_ms(y) <= t,
        t < spec_year_start_ms(2399),
    ensures
        exists|z: int|
            1601 <= z <= 2398 && #[trigger] spec_year_start_ms(z) <= t < spec_year_start_ms(z + 1),
    decreases 2399 - y,
{
    if t < spec_year_start_ms(y + 1) {
        assert(spec_year_start_ms(y) <= t < spec_year_start_ms(y + 1));
    } else {
        if y == 2398 {
            assert(false);
        }
        lemma_find_year_up(t, y + 1);
    }
}

proof fn lemma_find_year_down(t: int, y: int)
    requires
        1602 <= y <= 2398,
        t < spec_year_start_ms(y),
        spec_year_start_ms(1601) <= t,
    ensures
        exists|z: int|
            1601 <= z <= 2398 && #[trigger] spec_year_start_ms(z) <= t < spec_year_start_ms(z + 1),
    decreases y - 1601,
{
    if spec_year_start_ms(y - 1) <= t {
        assert(spec_year_start_ms(y - 1) <= t < spec_year_start_ms(y));
    } else {
        if y == 1602 {
            assert(false);
        }
        lemma_find_year_down(t, y - 1);
    }
}

/// Every timestamp in the library's range falls inside some calendar year of
/// the supported span, and `spec_year_of_ms` names that year.
pub proof fn lemma_year_of_ms_in_range(t: int)
    requires
        MIN_TIME_MS <= t <= MAX_TIME_MS,
    ensures
        1601 <= spec_year_of_ms(t) <= 2398,
        spec_year_start_ms(spec_year_of_ms(t)) <= t < spec_year_start_ms(spec_year_of_ms(t) + 1),
{
    lemma_year_start_monotonic(1601, 1970);
    lemma_year_start_monotonic(1970, 2399);
    if t >= 0 {
        lemma_find_year_up(t, 1970);
    } else {
        lemma_find_year_down(t, 1970);
    }
    let z = choose|z: int|
        1601 <= z <= 2398 && #[trigger] spec_year_start_ms(z) <= t < spec_year_start_ms(z + 1);
    lemma_year_of_ms(t, z);
}

/// The nearest-year policy really picks a nearest anchoring: among the three
/// candidate anchorings of the day-of-year, none lies closer to `now` than
/// the one chosen (ties keep the current year, which is then no farther than
/// either neighbour).
pub proof fn lemma_nearest_epoch_minimizes(base_year: int, day: int, frac_e8: int, now: int)
    ensures
        abs_int(now - spec_nearest_epoch_ms(base_year, day, frac_e8, now)) <= abs_int(
            now - spec_anchored_epoch_ms(base_year - 1, day, frac_e8),
        ),
        abs_int(now - spec_nearest_epoch_ms(base_year, day, frac_e8, now)) <= abs_int(
            now - spec_anchored_epoch_ms(base_year, day, frac_e8),
        ),
        abs_int(now - spec_nearest_epoch_ms(base_year, day, frac_e8, now)) <= abs_int(
            now - spec_anchored_epoch_ms(base_year + 1, day, frac_e8),
        ),
{
    lemma_days_before_year_succ(base_year - 1);
    lemma_days_before_year_succ(base_year);
    let prev = spec_anchored_epoch_ms(base_year - 1, day, frac_e8);
    let cur = spec_anchored_epoch_ms(base_year, day, frac_e8);
    let next = spec_anchored_epoch_ms(base_year + 1, day, frac_e8);
    assert(cur - prev == days_in_year(base_year - 1) * (MS_PER_DAY as int));
    assert(next - cur == days_in_year(base_year) * (MS_PER_DAY as int));
    let dp = abs_int(now - prev);
    let dc = abs_int(now - cur);
    let dn = abs_int(now - next);
    if !(dp < dc && dp < dn) && !(dn < dc && dn < dp) {
        // The current anchoring is kept; show neither neighbour is closer.
        // Were one closer, the tie-break conditions force the two neighbours
        // equidistant, which would put `now` at their midpoint — but the
        // current anchoring sits within half a day of that midpoint, while
        // the neighbours are a year out.
        if dp < dc || dn < dc {
            assert(dp == dn);
            assert(prev < now < next);
            assert(2 * (now - cur) == (next - cur) - (cur - prev));
            assert(2 * dc <= MS_PER_DAY as int);
            assert(2 * dp >= 730 * (MS_PER_DAY as int));
            assert(false);
        }
    }
}

/// The two resolution policies agree wherever both make sense: whenever `now`
/// lies within half of a minimal year (182.5 days) of the absolute epoch, the
/// nearest-year re-anchoring resolves to exactly the absolute epoch, so
/// "time since epoch" is the same under either policy.
///
/// (Outside that span they can differ by design: that is the point of
/// re-anchoring.)
pub proof fn lemma_resolution_policies_agree(epoch: TleEpoch, now_ms: int)
    requires
        epoch.wf(),
        1 <= epoch.day <= 366,
        2 * abs_int(now_ms - epoch.unix_ms) < 365 * (MS_PER_DAY as int),
        MIN_TIME_MS <= now_ms <= MAX_TIME_MS,
    ensures
        spec_resolved_epoch_ms(epoch.day as int, epoch.frac_e8 as int, now_ms) == epoch.unix_ms,
{
    let day = epoch.day as int;
    let frac = epoch.frac_e8 as int;
    let m = spec_ms_into_year(day, frac);
    assert(0 <= m < 366 * (MS_PER_DAY as int));
    lemma_year_of_ms_in_range(now_ms);
    let base = spec_year_of_ms(now_ms);
    let e = epoch.unix_ms as int;
    let ey = epoch.year as int;
    lemma_days_before_year_succ(base - 1);
    lemma_days_before_year_succ(base);
    lemma_days_before_year_succ(base + 1);
    // The epoch's own year is one of the three candidate anchorings.
    if ey <= base - 2 {
        lemma_year_start_monotonic(ey + 1, base);
        lemma_days_before_year_succ(ey);
        assert(false);
    }
    if ey >= base + 2 {
        lemma_year_start_monotonic(base + 2, ey);
        lemma_days_before_year_succ(base + 1);
        assert(false);
    }
    let cur = spec_anchored_epoch_ms(base, day, frac);
    let prev = spec_anchored_epoch_ms(base - 1, day, frac);
    let next = spec_anchored_epoch_ms(base + 1, day, frac);
    // Adjacent anchorings are at least 365 days apart, so within 182.5 days
    // of one anchoring, that anchoring is the strict nearest.
    assert(cur - prev >= 365 * (MS_PER_DAY as int));
    assert(next - cur >= 365 * (MS_PER_DAY as int));
    if ey == base - 1 {
        assert(e == prev);
        assert(abs_int(now_ms - cur) > abs_int(now_ms - prev));
        assert(abs_int(now_ms - next) > abs_int(now_ms - prev));
    } else if ey == base {
        assert(e == cur);
        assert(abs_int(now_ms - prev) > abs_int(now_ms - cur));
        assert(abs_int(now_ms - next) > abs_int(now_ms - cur));
    } else {
        assert(e == next);
        assert(abs_int(now_ms - prev) > abs_int(now_ms - next));
        assert(abs_int(now_ms - cur) > abs_int(now_ms - next));
    }
}

/// How "time since epoch" anchors the stored epoch.
#[derive(Clone, Copy, Debug, PartialEq, Eq, Structural)]
pub enum EpochResolution {
    /// The fixed absolute epoch computed at parse time: used while sweeping a
    /// search window.
    Absolute,
    /// The stored day-of-year re-anchored to the calendar year nearest `now`:
    /// used for live refresh.
    NearestYear,
}

/// Milliseconds elapsed at `now_ms` since the element set's epoch, under the
/// chosen resolution policy.
pub fn time_since_epoch_ms(epoch: &TleEpoch, now_ms: i64, mode: EpochResolution) -> (r: i64)
    requires
        epoch.wf(),
        MIN_TIME_MS <= now_ms <= MAX_TIME_MS,
    ensures
        mode is Absolute ==> r == now_ms - epoch.unix_ms,
        mode is NearestYear ==> r == now_ms - spec_resolved_epoch_ms(
            epoch.day as int,
            epoch.frac_e8 as int,
            now_ms as int,
        ),
{
    match mode {
        EpochResolution::Absolute => {
            proof {
                if epoch.year >= 1970 {
                    lemma_year_start_monotonic(1970, epoch.year as int);
                } else {
                    lemma_year_start_monotonic(epoch.year as int, 1970);
                }
            }
            now_ms - epoch.unix_ms
        },
        EpochResolution::NearestYear => {
            let resolved: i64 = resolve_epoch_nearest(epoch, now_ms);
            now_ms - resolved
        },
    }
}

} // verus!
