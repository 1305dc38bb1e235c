//! All things time-related.
//!
//! An instant is a Unix timestamp in whole seconds. A local time is an
//! instant together with the offset of the local time zone at that instant
//! ([`LocalTime`]); its wall-clock time is the instant shifted by the offset.

use chrono::{Offset, TimeZone};
use crate::text::decimal;
use relativetime::NegativeRelativeTime;
use vstd::prelude::*;

verus! {

broadcast use vstd::string::group_string_axioms;

/// The earliest instant that `chrono::DateTime<Utc>` can hold
/// (January 1 of the year -262143, midnight).
pub const MIN_TIMESTAMP: i64 = -8_334_601_315_200;

/// The latest instant that `chrono::DateTime<Utc>` can hold
/// (December 31 of the year 262142, 23:59:59).
pub const MAX_TIMESTAMP: i64 = 8_210_266_876_799;

/// Seconds in a day.
pub const SECONDS_PER_DAY: i64 = 86_400;

/// True if `chrono` can represent the instant `t`.
pub open spec fn representable(t: int) -> bool {
    MIN_TIMESTAMP <= t <= MAX_TIMESTAMP
}

/// True if `t` is representable with a day to spare on either side, so that
/// its wall-clock time in every time zone is representable too.
pub open spec fn localizable(t: int) -> bool {
    MIN_TIMESTAMP + SECONDS_PER_DAY <= t <= MAX_TIMESTAMP - SECONDS_PER_DAY
}

/// The day of the week of the wall-clock time `t`, counted from Monday
/// (0) to Sunday (6); the Unix epoch fell on a Thursday.
pub open spec fn weekday_of(t: int) -> int {
    (t / (SECONDS_PER_DAY as int) + 3) % 7
}

/// The hour of the day (0 to 23) of the wall-clock time `t`.
pub open spec fn hour_of(t: int) -> int {
    (t % (SECONDS_PER_DAY as int)) / 3600
}

/// Tells time and returns the time.
///
/// Generally you will want to retrieve time using [`SystemClock`], but in
/// tests you may want to implement a `Clock` with a fixed time.
pub trait Clock {
    /// The current time, as a Unix timestamp.
    fn now(&self) -> (t: i64)
        ensures
            representable(t as int),
    ;
}

/// Reads the system clock (`chrono::Utc::now`), in whole seconds.
///
/// Claimed: the instant is at or after the Unix epoch and representable;
/// `Utc::now` builds it with `DateTime::from_timestamp` from the time since
/// the epoch. Not stated: which instant it is. `Utc::now` panics if the
/// system clock is set before the epoch.
#[verifier::external_body]
fn system_now() -> (t: i64)
    ensures
        0 <= t <= MAX_TIMESTAMP,
{
    chrono::Utc::now().timestamp()
}

/// Interacts with the system clock to get the current time.
pub struct SystemClock;

impl SystemClock {
    /// A handle on the system clock.
    pub fn new() -> (c: Self) {
        SystemClock
    }
}

impl Default for SystemClock {
    fn default() -> (c: Self) {
        SystemClock
    }
}

impl Clock for SystemClock {
    /// The current instant, which is never before the Unix epoch.
    fn now(&self) -> (t: i64)
        ensures
            0 <= t,
    {
        system_now()
    }
}

/// The offset, in seconds east of UTC, of the machine's local time zone at
/// the instant `t` (`chrono::Local::offset_from_utc_datetime`).
///
/// Claimed: the offset is less than a day either way, as every
/// `chrono::FixedOffset` is. Not stated: which offset it is; that depends on
/// the machine's time zone. `chrono` panics if the machine's time zone data
/// cannot place the instant at all; this is not ruled out here.
#[verifier::external_body]
fn local_offset(t: i64) -> (offset: i32)
    requires
        representable(t as int),
    ensures
        -SECONDS_PER_DAY < offset < SECONDS_PER_DAY,
{
    let utc = chrono::DateTime::from_timestamp(t, 0).unwrap().naive_utc();
    chrono::Local.offset_from_utc_datetime(&utc).fix().local_minus_utc()
}

/// The date formats that local times are shown in.
pub open spec fn known_format(fmt: Seq<char>) -> bool {
    ||| fmt == "%a, %-d %b %Y"@
    ||| fmt == "%l:%M %p"@
    ||| fmt == "%b %d, %Y %H:%M %p"@
}

/// What `chrono` prints for the wall-clock time `t` (a timestamp read as a
/// naive date and time) under the format string `fmt`.
pub uninterp spec fn wall_clock_formatted(t: i64, fmt: Seq<char>) -> Seq<char>;

/// Formats the wall-clock time `t` with `chrono`'s `NaiveDateTime::format`.
///
/// Claimed: the result is `wall_clock_formatted(t, fmt)`, a function of the
/// arguments alone (chrono's own English month and day names). The format
/// strings are those of [`known_format`], on which `format` cannot fail.
#[verifier::external_body]
fn format_wall_clock(t: i64, fmt: &str) -> (r: String)
    requires
        representable(t as int),
        known_format(fmt@),
    ensures
        r@ == wall_clock_formatted(t, fmt@),
{
    chrono::DateTime::from_timestamp(t, 0).unwrap().naive_utc().format(fmt).to_string()
}

/// A whole number of weeks, in seconds, larger than any representable
/// instant is before the epoch.
const WEEKS_OF_SECONDS: i64 = 12_096_000_000_000;

/// Shifting a wall-clock time by [`WEEKS_OF_SECONDS`] changes neither its
/// day of the week nor its time of day.
proof fn lemma_shift_by_weeks(t: int)
    requires
        MIN_TIMESTAMP <= t,
    ensures
        t + WEEKS_OF_SECONDS >= 0,
        ((t + WEEKS_OF_SECONDS) / (SECONDS_PER_DAY as int) + 3) % 7 == weekday_of(t),
        (t + WEEKS_OF_SECONDS) % (SECONDS_PER_DAY as int) == t % (SECONDS_PER_DAY as int),
{
    let d = SECONDS_PER_DAY as int;
    let w = WEEKS_OF_SECONDS as int;
    assert(w == d * 140_000_000);
    assert((t + w) / d == t / d + 140_000_000) by (nonlinear_arith)
        requires
            d == 86_400,
            w == d * 140_000_000,
    ;
    assert((t + w) % d == t % d) by (nonlinear_arith)
        requires
            d == 86_400,
            w == d * 140_000_000,
    ;
    assert((t / d + 140_000_000 + 3) % 7 == (t / d + 3) % 7) by (nonlinear_arith);
}

/// An instant in the machine's local time zone.
pub struct LocalTime {
    /// The instant, as a Unix timestamp.
    pub utc: i64,
    /// The local time zone's offset from UTC at that instant, in seconds.
    pub offset: i32,
}

impl LocalTime {
    /// The wall-clock time, as seconds since the Unix epoch.
    pub open spec fn wall_clock(&self) -> int {
        self.utc + self.offset
    }

    /// True for a local time with an offset of less than a day.
    pub open spec fn wf(&self) -> bool {
        -SECONDS_PER_DAY < self.offset < SECONDS_PER_DAY
    }

    /// The instant `t` in the machine's local time zone.
    pub fn of(t: i64) -> (l: LocalTime)
        requires
            representable(t as int),
        ensures
            l.utc == t,
            l.wf(),
    {
        LocalTime { utc: t, offset: local_offset(t) }
    }

    /// The day of the week, counted from Monday (0) to Sunday (6).
    pub fn weekday(&self) -> (d: u32)
        requires
            self.wf(),
            localizable(self.utc as int),
        ensures
            d == weekday_of(self.wall_clock()),
    {
        let shifted: i64 = self.utc + self.offset as i64 + WEEKS_OF_SECONDS;
        let days: i64 = shifted / SECONDS_PER_DAY;
        let d: i64 = (days + 3) % 7;
        proof {
            lemma_shift_by_weeks(self.wall_clock());
        }
        d as u32
    }

    /// The hour of the day, from 0 to 23.
    pub fn hour(&self) -> (h: u32)
        requires
            self.wf(),
            localizable(self.utc as int),
        ensures
            h == hour_of(self.wall_clock()),
            h < 24,
    {
        let shifted: i64 = self.utc + self.offset as i64 + WEEKS_OF_SECONDS;
        let secs: i64 = shifted % SECONDS_PER_DAY;
        proof {
            lemma_shift_by_weeks(self.wall_clock());
        }
        (secs / 3600) as u32
    }

    /// The wall-clock time printed with one of the [known formats](known_format).
    pub fn format(&self, fmt: &str) -> (r: String)
        requires
            self.wf(),
            localizable(self.utc as int),
            known_format(fmt@),
        ensures
            r@ == wall_clock_formatted((self.utc + self.offset) as i64, fmt@),
    {
        let wall: i64 = self.utc + self.offset as i64;
        format_wall_clock(wall, fmt)
    }
}

/// `n` in decimal followed by a space and `unit`, such as "3 hours".
pub open spec fn counted_units(n: nat, unit: Seq<char>) -> Seq<char> {
    decimal(n) + seq![' '] + unit
}

/// How `relativetime` words a duration of `secs` seconds: the day.js
/// thresholds, each unit counted in whole units of the one below it, and
/// years as months divided by twelve, rounded half up.
pub open spec fn english_relative_time(secs: nat) -> Seq<char> {
    let mins = secs / 60;
    let hours = mins / 60;
    let days = hours / 24;
    let months = days / 30;
    if secs <= 44 {
        "a few seconds"@
    } else if secs <= 89 {
        "a minute"@
    } else if mins <= 44 {
        counted_units(mins, "minutes"@)
    } else if mins <= 89 {
        "an hour"@
    } else if hours <= 21 {
        counted_units(hours, "hours"@)
    } else if hours <= 35 {
        "a day"@
    } else if days <= 25 {
        counted_units(days, "days"@)
    } else if days <= 45 {
        "a month"@
    } else if months <= 10 {
        counted_units(months, "months"@)
    } else if months <= 17 {
        "a year"@
    } else {
        counted_units((months + 6) / 12, "years"@)
    }
}

/// What `relativetime`'s `to_relative_in_past` says of a duration of `secs`
/// seconds: its wording followed by " ago", such as "3 hours ago".
pub open spec fn relative_in_past(secs: u64) -> Seq<char> {
    english_relative_time(secs as nat) + " ago"@
}

/// Describes a duration of `secs` seconds as a time in the past
/// (`relativetime::NegativeRelativeTime::to_relative_in_past` on a
/// `std::time::Duration`, which words it with `english_relative_time` on
/// the seconds as an `i64`).
///
/// Claimed: the result is `relative_in_past(secs)`, the threshold table of
/// `relativetime::english_relative_time` followed by " ago". The years are
/// computed there as `(months as f64 / 12.0).round()`, which for the whole
/// numbers of months that fit below `i64::MAX` seconds is `(months + 6) / 12`
/// exactly, and printed with `{:.0}`, which an integer ignores. `secs` is
/// kept within `i64`, where the crate's cast to `i64` keeps it unchanged.
#[verifier::external_body]
fn describe_past(secs: u64) -> (r: String)
    requires
        secs <= i64::MAX,
    ensures
        r@ == relative_in_past(secs),
{
    std::time::Duration::from_secs(secs).to_relative_in_past()
}

/// What `regex::Regex::new(pattern)` followed by `Regex::replace(haystack,
/// rep)` gives: `None` if `Regex::new` refuses `pattern` (it is not a valid
/// regular expression, or too large), else `haystack` with its first match
/// replaced by `rep` (in which `$name` stands for a capture group).
pub uninterp spec fn regex_first_replaced(pattern: Seq<char>, haystack: Seq<char>, rep: Seq<char>) -> Option<Seq<char>>;

/// Compiles `pattern` with `regex::Regex::new` and, if it is valid, replaces
/// its first match in `haystack` with `rep` (`Regex::replace`).
///
/// Claimed: the result is `regex_first_replaced(pattern, haystack, rep)`, a
/// function of the three strings alone.
#[verifier::external_body]
fn regex_replace_first(pattern: &str, haystack: &str, rep: &str) -> (r: Option<String>)
    ensures
        r matches Some(s) ==> regex_first_replaced(pattern@, haystack@, rep@) == Some(s@),
        r is None ==> regex_first_replaced(pattern@, haystack@, rep@) is None,
{
    match regex::Regex::new(pattern) {
        Ok(re) => Some(re.replace(haystack, rep).to_string()),
        Err(_) => None,
    }
}

/// The pattern of a description in a plural unit of exactly one, such as
/// "1 months ago".
pub open spec fn singular_pattern() -> Seq<char> {
    "^1 (?<unit>[a-z]+)s ago$"@
}

/// The replacement that puts such a unit in the singular.
pub open spec fn singular_replacement() -> Seq<char> {
    "1 $unit ago"@
}

/// `description` with "1 <unit>s ago" put in the singular ("1 month ago").
pub open spec fn singularized(description: Seq<char>) -> Seq<char> {
    match regex_first_replaced(singular_pattern(), description, singular_replacement()) {
        Some(r) => r,
        None => description,
    }
}

/// How long ago something of age `age` seconds happened, in words; an age
/// below zero counts as zero.
pub open spec fn relative_age_text(age: int) -> Seq<char> {
    singularized(relative_in_past(if age < 0 { 0 } else { age as u64 }))
}

/// Describes an age of `age` seconds in words, such as "2 months ago".
pub fn describe_age(age: i64) -> (s: String)
    ensures
        s@ == relative_age_text(age as int),
{
    let secs: u64 = if age < 0 { 0 } else { age as u64 };
    let description = describe_past(secs);
    let pattern = "^1 (?<unit>[a-z]+)s ago$";
    let replacement = "1 $unit ago";
    match regex_replace_first(pattern, description.as_str(), replacement) {
        Some(r) => r,
        None => description,
    }
}

/// Marks a thing that has a notion of its age.
pub trait HasAge {
    /// The instant the item was created.
    spec fn created_view(&self) -> i64;

    /// The instant the item was created, as a Unix timestamp in UTC.
    fn created_utc(&self) -> (t: i64)
        ensures
            t == self.created_view(),
    ;

    /// The instant the item was created, in local time.
    fn created_local(&self) -> (l: LocalTime)
        requires
            representable(self.created_view() as int),
        ensures
            l.utc == self.created_view(),
            l.wf(),
    {
        LocalTime::of(self.created_utc())
    }

    /// The age of the item, in seconds, at the instant `now`.
    ///
    /// `now` is usually what a [`Clock`] says.
    fn age(&self, now: i64) -> (a: i64)
        requires
            representable(now as int),
            representable(self.created_view() as int),
        ensures
            a == now - self.created_view(),
    {
        now - self.created_utc()
    }

    /// The age of the item at the instant `now`, relative to `now`, as a
    /// human-readable string.
    fn relative_age(&self, now: i64) -> (s: String)
        requires
            representable(now as int),
            representable(self.created_view() as int),
        ensures
            s@ == relative_age_text(now - self.created_view()),
    {
        describe_age(self.age(now))
    }
}

} // verus!
