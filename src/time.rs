//! Resolution of a terse clock/date text into a UTC interval.
//!
//! Instants are counted in nanoseconds since 1970-01-01T00:00:00Z. User
//! supplied clock times and dates are read at the fixed offset UTC+8.
use chrono::{Datelike, Timelike};
use crate::text::{first_word, second_word, skip_space, skip_word};
use vstd::arithmetic::div_mod::lemma_fundamental_div_mod_converse;
use vstd::prelude::*;
use vstd::string::StrSliceExecFns;

verus! {

pub const MIN_YEAR: i32 = -262143;

pub const MAX_YEAR: i32 = 262142;

pub const NANOS_PER_SEC: i128 = 1_000_000_000;

pub const SECS_PER_DAY: u32 = 86400;

pub const NANOS_PER_DAY: i128 = 86_400_000_000_000;

/// Day number (counted from 0001-01-01 as day 1) of 1970-01-01.
pub const UNIX_EPOCH_DAY: i128 = 719_163;

/// Offset of the local time that user input is read in: UTC+8, in seconds.
pub const LOCAL_OFFSET_SECS: i32 = 28800;

pub const LOCAL_OFFSET_NANOS: i128 = 28_800_000_000_000;

/// A calendar date of the proleptic Gregorian calendar.
#[derive(Clone, Copy, Debug, PartialEq, Eq, Structural)]
pub struct CivilDate {
    pub year: i32,
    pub month: u32,
    pub day: u32,
}

/// A time of day: whole seconds since midnight and a fraction in
/// nanoseconds (a fraction of one second or more marks a leap second).
#[derive(Clone, Copy, Debug, PartialEq, Eq, Structural)]
pub struct TimeOfDay {
    pub secs: u32,
    pub nano: u32,
}

/// A wall-clock reading: a date and a time of day in some offset.
#[derive(Clone, Copy, Debug, PartialEq, Eq, Structural)]
pub struct LocalDateTime {
    pub date: CivilDate,
    pub time: TimeOfDay,
}

/// Why a time text could not be resolved.
#[derive(Debug)]
pub enum TimeParseError {
    DurationError(duration_str::DError),
    TimeError(chrono::format::ParseError),
    NegativeDuration,
}

#[verifier::external_type_specification]
#[verifier::external_body]
pub struct ExDError(duration_str::DError);

#[verifier::external_type_specification]
#[verifier::external_body]
pub struct ExParseError(chrono::format::ParseError);

pub open spec fn is_leap_year(y: int) -> bool {
    y % 4 == 0 && (y % 100 != 0 || y % 400 == 0)
}

pub open spec fn year_length(y: int) -> int {
    if is_leap_year(y) { 366 } else { 365 }
}

pub open spec fn days_in_month(y: int, m: int) -> int {
    if m == 2 {
        if is_leap_year(y) { 29 } else { 28 }
    } else if m == 4 || m == 6 || m == 9 || m == 11 {
        30
    } else {
        31
    }
}

/// A date that exists in the calendar and lies in the representable range.
pub open spec fn valid_date(d: CivilDate) -> bool {
    &&& MIN_YEAR <= d.year <= MAX_YEAR
    &&& 1 <= d.month <= 12
    &&& 1 <= d.day <= days_in_month(d.year as int, d.month as int)
}

/// The calendar day after `d`.
pub open spec fn next_day(d: CivilDate) -> CivilDate {
    if (d.day as int) < days_in_month(d.year as int, d.month as int) {
        CivilDate { year: d.year, month: d.month, day: (d.day + 1) as u32 }
    } else if d.month < 12 {
        CivilDate { year: d.year, month: (d.month + 1) as u32, day: 1 }
    } else {
        CivilDate { year: (d.year + 1) as i32, month: 1, day: 1 }
    }
}

/// Days from 0001-01-01 to January 1 of year `y`.
pub open spec fn days_before_year(y: int) -> int
    decreases (if y >= 1 { y - 1 } else { 1 - y }),
{
    if y == 1 {
        0
    } else if y > 1 {
        days_before_year(y - 1) + year_length(y - 1)
    } else {
        days_before_year(y + 1) - year_length(y)
    }
}

/// Days from January 1 to the first of month `m` in year `y`.
pub open spec fn days_before_month(y: int, m: int) -> int
    decreases m,
{
    if m <= 1 {
        0
    } else {
        days_before_month(y, m - 1) + days_in_month(y, m - 1)
    }
}

/// The day number of `d`, 0001-01-01 being day 1.
pub open spec fn day_number(d: CivilDate) -> int {
    days_before_year(d.year as int) + days_before_month(d.year as int, d.month as int) + d.day
}

impl TimeOfDay {
    pub open spec fn wf(self) -> bool {
        self.secs < SECS_PER_DAY && self.nano < 2 * NANOS_PER_SEC
    }

    /// Strict order of times of day, seconds first, then the fraction.
    pub open spec fn before(self, other: TimeOfDay) -> bool {
        self.secs < other.secs || (self.secs == other.secs && self.nano < other.nano)
    }
}

impl LocalDateTime {
    pub open spec fn wf(self) -> bool {
        valid_date(self.date) && self.time.wf()
    }
}

/// The time of day `h:m:00`.
pub open spec fn clock_time(h: u32, m: u32) -> TimeOfDay {
    TimeOfDay { secs: (h * 3600 + m * 60) as u32, nano: 0 }
}

pub open spec fn valid_clock(c: (u32, u32)) -> bool {
    c.0 < 24 && c.1 < 60
}

/// Nanoseconds since the Unix epoch of the wall-clock reading `d t` taken at UTC.
pub open spec fn naive_nanos(d: CivilDate, t: TimeOfDay) -> int {
    (day_number(d) - UNIX_EPOCH_DAY) * NANOS_PER_DAY + t.secs * NANOS_PER_SEC + t.nano
}

/// The instant at which the UTC+8 wall clock reads `d t`.
pub open spec fn utc8_instant(d: CivilDate, t: TimeOfDay) -> int {
    naive_nanos(d, t) - LOCAL_OFFSET_NANOS
}

/// The date an event falls on: the given one, else the reference's date
/// when the clock time has not passed yet there, else the day after.
pub open spec fn resolved_date(clock: TimeOfDay, date: Option<CivilDate>, now: LocalDateTime) -> CivilDate {
    match date {
        Some(d) => d,
        None => if clock.before(now.time) { next_day(now.date) } else { now.date },
    }
}

pub open spec fn resolved_clock(clock: Option<(u32, u32)>, now: LocalDateTime) -> TimeOfDay {
    match clock {
        Some(c) => clock_time(c.0, c.1),
        None => now.time,
    }
}

/// Start of the event: the resolved date and clock time read at UTC+8.
pub open spec fn start_instant(clock: Option<(u32, u32)>, date: Option<CivilDate>, now: LocalDateTime) -> int {
    let c = resolved_clock(clock, now);
    utc8_instant(resolved_date(c, date, now), c)
}

/// Length in nanoseconds of a duration given as whole seconds and a fraction.
pub open spec fn duration_nanos(d: (i64, i32)) -> int {
    d.0 * NANOS_PER_SEC + d.1
}

/// The interval for already parsed inputs; `None` for a negative duration.
pub open spec fn interval_of(
    clock: Option<(u32, u32)>,
    date: Option<CivilDate>,
    duration: Option<(i64, i32)>,
    now: LocalDateTime,
) -> Option<(int, int)> {
    let start = start_instant(clock, date, now);
    match duration {
        None => Some((start, start)),
        Some(d) => if duration_nanos(d) < 0 { None } else { Some((start, start + duration_nanos(d))) },
    }
}

/// What the inputs of a resolution must satisfy.
pub open spec fn resolvable(clock: Option<(u32, u32)>, date: Option<CivilDate>, now: LocalDateTime) -> bool {
    &&& now.wf()
    &&& valid_date(next_day(now.date))
    &&& (clock matches Some(c) ==> valid_clock(c))
    &&& (date matches Some(d) ==> valid_date(d))
}


/// The result of `NaiveTime::parse_from_str(s, "%H:%M")`, as hour and minute.
pub uninterp spec fn clock_reading(s: Seq<char>) -> Option<(u32, u32)>;

/// The result of `NaiveDate::parse_from_str(s, "%d/%m/%Y")`, as a date.
pub uninterp spec fn date_reading(s: Seq<char>) -> Option<CivilDate>;

/// The result of `duration_str::parse_chrono(s)`, as whole seconds and the
/// nanoseconds of the fraction.
pub uninterp spec fn duration_reading(s: Seq<char>) -> Option<(i64, i32)>;

/// Relies on chrono's `NaiveTime::parse_from_str` with the format `%H:%M`;
/// a parsed `NaiveTime` has an hour below 24 and a minute below 60.
#[verifier::external_body]
fn read_clock(s: &str) -> (r: Result<(u32, u32), chrono::format::ParseError>)
    ensures
        r is Ok <==> clock_reading(s@) is Some,
        r matches Ok(c) ==> c == clock_reading(s@)->0 && valid_clock(c),
{
    chrono::NaiveTime::parse_from_str(s, "%H:%M").map(|t| (t.hour(), t.minute()))
}

/// Relies on chrono's `NaiveDate::parse_from_str` with the format
/// `%d/%m/%Y`; a parsed `NaiveDate` is a calendar date in chrono's range.
#[verifier::external_body]
fn read_date(s: &str) -> (r: Result<CivilDate, chrono::format::ParseError>)
    ensures
        r is Ok <==> date_reading(s@) is Some,
        r matches Ok(d) ==> d == date_reading(s@)->0 && valid_date(d),
{
    chrono::NaiveDate::parse_from_str(s, "%d/%m/%Y").map(
        |d| CivilDate { year: d.year(), month: d.month(), day: d.day() },
    )
}

/// Relies on `duration_str::parse_chrono`, and on chrono's
/// `TimeDelta::num_seconds` and `TimeDelta::subsec_nanos` to read the result.
#[verifier::external_body]
fn read_duration(s: &str) -> (r: Result<(i64, i32), duration_str::DError>)
    ensures
        r is Ok <==> duration_reading(s@) is Some,
        r matches Ok(d) ==> d == duration_reading(s@)->0,
{
    duration_str::parse_chrono(s).map(|d| (d.num_seconds(), d.subsec_nanos()))
}

/// Relies on chrono's `NaiveDate::from_ymd_opt`, which accepts a date of
/// the calendar in its range, and `Datelike::num_days_from_ce`, which counts
/// days from 0001-01-01 as day 1.
#[verifier::external_body]
fn days_from_ce(d: CivilDate) -> (r: i32)
    requires
        valid_date(d),
    ensures
        r == day_number(d),
{
    chrono::NaiveDate::from_ymd_opt(d.year, d.month, d.day).unwrap().num_days_from_ce()
}

/// Relies on chrono's `Utc::now` read through `FixedOffset::east_opt(offset)`:
/// a date of the calendar in chrono's range, seconds since midnight below a
/// day and a fraction below two seconds.
#[verifier::external_body]
fn wall_clock_now(offset: i32) -> (r: LocalDateTime)
    requires
        -86400 < offset < 86400,
    ensures
        r.wf(),
{
    let t = chrono::Utc::now().with_timezone(&chrono::FixedOffset::east_opt(offset).unwrap());
    LocalDateTime {
        date: CivilDate { year: t.year(), month: t.month(), day: t.day() },
        time: TimeOfDay { secs: t.num_seconds_from_midnight(), nano: t.nanosecond() },
    }
}


/// Number of days in month `m` of year `y`.
pub fn month_length(y: i32, m: u32) -> (r: u32)
    requires
        MIN_YEAR <= y <= MAX_YEAR,
        1 <= m <= 12,
    ensures
        r == days_in_month(y as int, m as int),
{
    // Shifting by a multiple of 400 years keeps the leap-year rule and makes
    // the year positive.
    let shifted: u32 = (y as i64 + 262400) as u32;
    assert(shifted % 4 == (y as int) % 4);
    assert(shifted % 100 == (y as int) % 100);
    assert(shifted % 400 == (y as int) % 400);
    let leap = shifted % 4 == 0 && (shifted % 100 != 0 || shifted % 400 == 0);
    if m == 2 {
        if leap { 29 } else { 28 }
    } else if m == 4 || m == 6 || m == 9 || m == 11 {
        30
    } else {
        31
    }
}

/// The calendar day after `d`.
pub fn following_day(d: CivilDate) -> (r: CivilDate)
    requires
        valid_date(d),
    ensures
        r == next_day(d),
{
    if d.day < month_length(d.year, d.month) {
        CivilDate { year: d.year, month: d.month, day: d.day + 1 }
    } else if d.month < 12 {
        CivilDate { year: d.year, month: d.month + 1, day: 1 }
    } else {
        CivilDate { year: d.year + 1, month: 1, day: 1 }
    }
}

/// Whether the time of day `a` comes strictly before `b`.
pub fn time_before(a: TimeOfDay, b: TimeOfDay) -> (r: bool)
    ensures
        r == a.before(b),
{
    a.secs < b.secs || (a.secs == b.secs && a.nano < b.nano)
}

/// The instant at which the UTC+8 wall clock reads `d t`.
pub fn utc8_to_utc(d: CivilDate, t: TimeOfDay) -> (r: i128)
    requires
        valid_date(d),
        t.wf(),
    ensures
        r == utc8_instant(d, t),
        -1_000_000_000_000_000_000_000_000 <= r <= 1_000_000_000_000_000_000_000_000,
{
    let days = days_from_ce(d) as i128 - UNIX_EPOCH_DAY;
    assert(-4_000_000_000 <= days <= 4_000_000_000);
    assert(-400_000_000_000_000_000_000_000 <= days * NANOS_PER_DAY <= 400_000_000_000_000_000_000_000)
        by (nonlinear_arith)
        requires
            -4_000_000_000 <= days <= 4_000_000_000,
    ;
    days * NANOS_PER_DAY + (t.secs as i128) * NANOS_PER_SEC + t.nano as i128 - LOCAL_OFFSET_NANOS
}

/// The UTC interval for already parsed inputs: the clock time (the
/// reference's when absent), the date (resolved by the rollover rule when
/// absent) and the duration (none when absent). `None` for a negative
/// duration.
pub fn resolve_interval(
    clock: Option<(u32, u32)>,
    date: Option<CivilDate>,
    duration: Option<(i64, i32)>,
    now: LocalDateTime,
) -> (r: Option<(i128, i128)>)
    requires
        resolvable(clock, date, now),
    ensures
        widen(r) == interval_of(clock, date, duration, now),
{
    let c = match clock {
        Some(hm) => TimeOfDay { secs: hm.0 * 3600 + hm.1 * 60, nano: 0 },
        None => now.time,
    };
    let day = match date {
        Some(d) => d,
        None => if time_before(c, now.time) { following_day(now.date) } else { now.date },
    };
    let start = utc8_to_utc(day, c);
    match duration {
        None => Some((start, start)),
        Some(d) => {
            let secs = d.0 as i128;
            assert(-10_000_000_000_000_000_000_000_000_000 <= secs * NANOS_PER_SEC
                <= 10_000_000_000_000_000_000_000_000_000) by (nonlinear_arith)
                requires
                    -10_000_000_000_000_000_000 <= secs <= 10_000_000_000_000_000_000,
            ;
            let length = secs * NANOS_PER_SEC + d.1 as i128;
            if length < 0 {
                None
            } else {
                Some((start, start + length))
            }
        },
    }
}

/// An interval of machine integers read as mathematical integers.
pub open spec fn widen(r: Option<(i128, i128)>) -> Option<(int, int)> {
    match r {
        Some(p) => Some((p.0 as int, p.1 as int)),
        None => None,
    }
}

/// The clock time that a time text gives: `Some(None)` when it has no first
/// word, `None` when that word does not read as a clock time.
pub open spec fn clock_of_text(s: Seq<char>) -> Option<Option<(u32, u32)>> {
    match first_word(s) {
        None => Some(None),
        Some(w) => match clock_reading(w) {
            Some(c) => Some(Some(c)),
            None => None,
        },
    }
}

/// The date that a time text gives: `Some(None)` when it has no second word,
/// `None` when that word does not read as a date.
pub open spec fn date_of_text(s: Seq<char>) -> Option<Option<CivilDate>> {
    match second_word(s) {
        None => Some(None),
        Some(w) => match date_reading(w) {
            Some(d) => Some(Some(d)),
            None => None,
        },
    }
}

/// The duration that an optional duration text gives, `None` when it does
/// not read as one.
pub open spec fn duration_of_text(s: Option<Seq<char>>) -> Option<Option<(i64, i32)>> {
    match s {
        None => Some(None),
        Some(t) => match duration_reading(t) {
            Some(d) => Some(Some(d)),
            None => None,
        },
    }
}

/// The interval that a time text and an optional duration text resolve to
/// against `now`, `None` when one of them does not read or the duration is
/// negative.
pub open spec fn resolution(text: Seq<char>, duration: Option<Seq<char>>, now: LocalDateTime) -> Option<(int, int)> {
    let clock = clock_of_text(text);
    let date = date_of_text(text);
    let span = duration_of_text(duration);
    if clock is Some && date is Some && span is Some {
        interval_of(clock->0, date->0, span->0, now)
    } else {
        None
    }
}

pub open spec fn opt_view(s: Option<&str>) -> Option<Seq<char>> {
    match s {
        Some(t) => Some(t@),
        None => None,
    }
}

/// Resolves the time text `utc8_time` (a clock time `HH:MM`, then
/// optionally a date `DD/MM/YYYY`, separated by whitespace and read at
/// UTC+8) and the optional duration text against the reference `now` into
/// a UTC start and end, in nanoseconds since the Unix epoch.
pub fn parse_time_to_utc(utc8_time: &str, duration: Option<&str>, now: LocalDateTime) -> (r: Result<
    (i128, i128),
    TimeParseError,
>)
    requires
        now.wf(),
        valid_date(next_day(now.date)),
    ensures
        ({
            let clock = clock_of_text(utc8_time@);
            let date = date_of_text(utc8_time@);
            let span = duration_of_text(opt_view(duration));
            &&& (r matches Err(TimeParseError::TimeError(_))) <==> clock is None || date is None
            &&& (r matches Err(TimeParseError::DurationError(_))) <==> clock is Some && date is Some
                && span is None
            &&& (r matches Err(TimeParseError::NegativeDuration)) <==> clock is Some && date is Some
                && span is Some && interval_of(clock->0, date->0, span->0, now) is None
            &&& r matches Ok(p) ==> clock is Some && date is Some && span is Some && interval_of(
                clock->0,
                date->0,
                span->0,
                now,
            ) == Some((p.0 as int, p.1 as int))
        }),
        r is Ok <==> resolution(utc8_time@, opt_view(duration), now) is Some,
        r matches Ok(p) ==> resolution(utc8_time@, opt_view(duration), now) == Some(
            (p.0 as int, p.1 as int),
        ),
{
    let s = utc8_time;
    let len = s.unicode_len();
    assert(s@.skip(0) =~= s@);
    let a = skip_space(s, 0, len);
    let b = skip_word(s, a, len);
    if a < len {
        assert(s@.subrange(a as int, b as int) =~= s@.skip(a as int).take(b - a));
    }
    let clock = if a == len {
        None
    } else {
        match read_clock(s.substring_char(a, b)) {
            Ok(c) => Some(c),
            Err(e) => {
                return Err(TimeParseError::TimeError(e));
            },
        }
    };
    assert(s@.skip(a as int).skip(b - a) =~= s@.skip(b as int));
    let c = skip_space(s, b, len);
    let e = skip_word(s, c, len);
    if c < len {
        assert(s@.subrange(c as int, e as int) =~= s@.skip(c as int).take(e - c));
    }
    let date = if c == len {
        None
    } else {
        match read_date(s.substring_char(c, e)) {
            Ok(d) => Some(d),
            Err(err) => {
                return Err(TimeParseError::TimeError(err));
            },
        }
    };
    let span = match duration {
        None => None,
        Some(t) => match read_duration(t) {
            Ok(d) => Some(d),
            Err(err) => {
                return Err(TimeParseError::DurationError(err));
            },
        },
    };
    match resolve_interval(clock, date, span, now) {
        Some(p) => Ok(p),
        None => Err(TimeParseError::NegativeDuration),
    }
}

/// The current wall-clock reading at UTC+8.
pub fn utc8_now() -> (r: LocalDateTime)
    ensures
        r.wf(),
{
    wall_clock_now(LOCAL_OFFSET_SECS)
}


/// A clock time given without date or duration yields an empty interval
/// whose start reads that clock time on the UTC+8 wall clock.
pub proof fn lemma_clock_time_kept(h: u32, m: u32, now: LocalDateTime)
    requires
        resolvable(Some((h, m)), None, now),
    ensures
        ({
            let start = start_instant(Some((h, m)), None, now);
            &&& interval_of(Some((h, m)), None, None, now) == Some((start, start))
            &&& (start + LOCAL_OFFSET_NANOS) % (NANOS_PER_DAY as int) == (h * 3600 + m * 60) * NANOS_PER_SEC
        }),
{
    let c = clock_time(h, m);
    let d = resolved_date(c, None, now);
    let start = start_instant(Some((h, m)), None, now);
    let tod = (h * 3600 + m * 60) * NANOS_PER_SEC;
    assert(c.secs == h * 3600 + m * 60);
    assert(0 <= tod < NANOS_PER_DAY) by (nonlinear_arith)
        requires
            h < 24,
            m < 60,
            tod == (h * 3600 + m * 60) * NANOS_PER_SEC,
    ;
    assert(start + LOCAL_OFFSET_NANOS == (day_number(d) - UNIX_EPOCH_DAY) * NANOS_PER_DAY + tod);
    lemma_fundamental_div_mod_converse(
        start + LOCAL_OFFSET_NANOS,
        NANOS_PER_DAY as int,
        day_number(d) - UNIX_EPOCH_DAY,
        tod,
    );
}

/// The day after a date is numbered one more.
pub proof fn lemma_next_day_number(d: CivilDate)
    requires
        valid_date(d),
    ensures
        day_number(next_day(d)) == day_number(d) + 1,
{
    let y = d.year as int;
    if (d.day as int) < days_in_month(y, d.month as int) {
    } else if d.month < 12 {
        assert(days_before_month(y, d.month + 1) == days_before_month(y, d.month as int)
            + days_in_month(y, d.month as int));
    } else {
        reveal_with_fuel(days_before_month, 13);
        assert(days_before_month(y, 12) + 31 == year_length(y));
        assert(days_before_year(y + 1) == days_before_year(y) + year_length(y));
    }
}

/// Rollover: without a date, an event falls on the reference's date when
/// its clock time is not earlier than the reference's time of day, and on
/// the day after (numbered one more, starting one day later) otherwise.
pub proof fn lemma_rollover(h: u32, m: u32, now: LocalDateTime)
    requires
        resolvable(Some((h, m)), None, now),
    ensures
        ({
            let c = clock_time(h, m);
            let day = if c.before(now.time) { next_day(now.date) } else { now.date };
            &&& resolved_date(c, None, now) == day
            &&& day_number(day) == day_number(now.date) + if c.before(now.time) { 1int } else { 0 }
            &&& start_instant(Some((h, m)), None, now) == utc8_instant(now.date, c) + if c.before(
                now.time,
            ) {
                NANOS_PER_DAY as int
            } else {
                0
            }
        }),
{
    lemma_next_day_number(now.date);
    let c = clock_time(h, m);
    let e = day_number(now.date) - UNIX_EPOCH_DAY;
    assert((e + 1) * NANOS_PER_DAY == e * NANOS_PER_DAY + NANOS_PER_DAY) by (nonlinear_arith);
}

/// Duration: a non-negative duration is exactly the distance from start to
/// end; a negative one yields no interval.
pub proof fn lemma_duration(
    clock: Option<(u32, u32)>,
    date: Option<CivilDate>,
    d: (i64, i32),
    now: LocalDateTime,
)
    requires
        resolvable(clock, date, now),
    ensures
        duration_nanos(d) >= 0 ==> (interval_of(clock, date, Some(d), now) matches Some(p) && p.1
            - p.0 == duration_nanos(d)),
        duration_nanos(d) < 0 ==> interval_of(clock, date, Some(d), now) is None,
{
}

} // verus!
