//! Points in time: time stamps, local labels and refresh intervals.
use crate::calendar;
use crate::text;
use chrono::{DateTime, FixedOffset, Local};
use vstd::prelude::*;

verus! {

/// Nanoseconds between two looks at the container list.
pub const REFRESH_INTERVAL: u64 = 500_000_000;

/// Nanoseconds between two readings of a container's log.
pub const LOG_INTERVAL: u64 = 1_000_000_000;

/// Nanoseconds between two readings of a container's statistics.
pub const STATS_INTERVAL: u64 = 2_000_000_000;

/// Nanoseconds in one second.
pub const NANOS_PER_SECOND: u32 = 1_000_000_000;

/// Earliest second that a time stamp can name: the year 0000 begins, a day less a minute east.
pub const EARLIEST_SECOND: i64 = -62_167_305_540;

/// Latest second that a time stamp can name: the year 9999 ends, a day less a minute west.
pub const LATEST_SECOND: i64 = 253_402_387_139;

/// Seconds that a local clock can differ from UTC, exclusive.
pub const OFFSET_LIMIT: i32 = 86_400;

/// Whether `nanos` is a fraction of the second `secs`: below one second, or below two in a
/// minute's last second, which may be followed by a leap second.
pub open spec fn valid_fraction(secs: int, nanos: int) -> bool {
    0 <= nanos < NANOS_PER_SECOND || (secs % 60 == 59 && NANOS_PER_SECOND <= nanos < 2
        * NANOS_PER_SECOND)
}

/// Whether `offset` is a difference, in seconds, of a local clock from UTC.
pub open spec fn valid_offset(offset: int) -> bool {
    -OFFSET_LIMIT < offset < OFFSET_LIMIT
}

/// The instant on a clock without leap seconds: a leap second becomes the beginning of the next
/// second.
pub open spec fn settle(instant: (i64, u32)) -> (i64, u32) {
    (
        (instant.0 + instant.1 / NANOS_PER_SECOND) as i64,
        (instant.1 % NANOS_PER_SECOND) as u32,
    )
}

/// The clock reading `secs` seconds after a midnight: hours, minutes and seconds. A fraction
/// beyond one second shows as one second more.
pub open spec fn clock_text(secs: int, nanos: nat) -> Seq<char> {
    let s = (secs % 86_400) as nat;
    text::two_digits(s / 3600) + seq![':'] + text::two_digits(s / 60 % 60) + seq![':']
        + text::two_digits(s % 60 + nanos / 1_000_000_000)
}

/// The date and the clock reading `secs` seconds after the midnight that began the year 1970.
pub open spec fn date_text(secs: int, nanos: nat) -> Seq<char> {
    calendar::date_of(secs / 86_400).written() + seq![' '] + clock_text(secs, nanos)
}

/// The second since the Unix epoch and the fraction, in nanoseconds, that an RFC 3339 time stamp
/// names, as `chrono::DateTime::parse_from_rfc3339` reads it; `None` for any other text.
pub uninterp spec fn rfc3339_instant(stamp: Seq<char>) -> Option<(i64, u32)>;

/// `chrono::DateTime::parse_from_rfc3339`. The result is a function of the text. A stamp that is
/// accepted has a year of four digits and a zone less than a day from UTC, so its second lies
/// between the two bounds; seconds run to 60, the last of them a leap second.
#[verifier::external_body]
fn parse_from_rfc3339(stamp: &str) -> (instant: Option<(i64, u32)>)
    ensures
        instant == rfc3339_instant(stamp@),
        instant matches Some(i) ==> EARLIEST_SECOND <= i.0 <= LATEST_SECOND && valid_fraction(
            i.0 as int,
            i.1 as int,
        ),
{
    match DateTime::parse_from_rfc3339(stamp) {
        Ok(dt) => Some((dt.timestamp(), dt.timestamp_subsec_nanos())),
        Err(_) => None,
    }
}

/// `chrono::DateTime::with_timezone` to `chrono::Local`: the seconds by which the machine's local
/// clock differs from UTC at an instant. It depends on the machine's time zone; it is always less
/// than a day. With zone data that names a greater difference the call does not return.
#[verifier::external_body]
fn local_offset(secs: i64, nanos: u32) -> (offset: i32)
    requires
        EARLIEST_SECOND <= secs <= LATEST_SECOND + 1,
        valid_fraction(secs as int, nanos as int),
    ensures
        valid_offset(offset as int),
{
    let utc = DateTime::from_timestamp(secs, nanos).unwrap();
    utc.with_timezone(&Local).offset().local_minus_utc()
}

/// Whether the pattern is one of the two that labels are made with.
pub open spec fn known_pattern(pattern: Seq<char>) -> bool {
    pattern == "%H:%M:%S"@ || pattern == "%Y-%m-%d %H:%M:%S"@
}

/// `chrono::DateTime::format` on a fixed offset from UTC. `%H`, `%M` and `%S` are the hour, the
/// minute and the second of the local clock in two digits each, where a leap second counts as
/// second 60. `%Y`, `%m` and `%d` are the year, the month and the day of the local date in the
/// proleptic Gregorian calendar: at least four digits for the year, with a sign before 0 and after
/// 9999, and two digits each for the others.
#[verifier::external_body]
fn format_instant(secs: i64, nanos: u32, offset: i32, pattern: &str) -> (label: String)
    requires
        EARLIEST_SECOND <= secs <= LATEST_SECOND + 1,
        valid_fraction(secs as int, nanos as int),
        valid_offset(offset as int),
        known_pattern(pattern@),
    ensures
        pattern@ == "%H:%M:%S"@ ==> label@ == clock_text(secs + offset, nanos as nat),
        pattern@ == "%Y-%m-%d %H:%M:%S"@ ==> label@ == date_text(secs + offset, nanos as nat),
{
    let utc = DateTime::from_timestamp(secs, nanos).unwrap();
    let zone = FixedOffset::east_opt(offset).unwrap();
    utc.with_timezone(&zone).format(pattern).to_string()
}

/// An instant: whole seconds since the Unix epoch and a fraction in nanoseconds.
#[derive(Clone, Copy, Debug, PartialEq, Eq)]
pub struct Moment {
    secs: i64,
    nanos: u32,
}

impl Moment {
    /// Whole seconds since the Unix epoch.
    pub closed spec fn secs(self) -> i64 {
        self.secs
    }

    /// The fraction, in nanoseconds. A leap second is the second before it and a fraction of one
    /// second or more.
    pub closed spec fn nanos(self) -> u32 {
        self.nanos
    }

    /// The second and the fraction.
    pub open spec fn instant(self) -> (i64, u32) {
        (self.secs(), self.nanos())
    }

    #[verifier::type_invariant]
    spec fn valid(self) -> bool {
        &&& EARLIEST_SECOND <= self.secs <= LATEST_SECOND + 1
        &&& valid_fraction(self.secs as int, self.nanos as int)
    }

    /// The Unix epoch.
    pub fn epoch() -> (m: Moment)
        ensures
            m.instant() == (0i64, 0u32),
    {
        Moment { secs: 0, nanos: 0 }
    }

    /// The instant of an RFC 3339 time stamp, or `None` for any other text.
    pub fn parse(stamp: &str) -> (m: Option<Moment>)
        ensures
            m is Some <==> rfc3339_instant(stamp@) is Some,
            m matches Some(m) ==> rfc3339_instant(stamp@) == Some(m.instant()),
    {
        match parse_from_rfc3339(stamp) {
            Some((secs, nanos)) => Some(Moment { secs, nanos }),
            None => None,
        }
    }

    /// The instant `secs` seconds and `nanos` nanoseconds after the Unix epoch, where a time
    /// stamp can name it.
    pub fn new(secs: i64, nanos: u32) -> (m: Option<Moment>)
        ensures
            m is Some <==> EARLIEST_SECOND <= secs <= LATEST_SECOND && valid_fraction(
                secs as int,
                nanos as int,
            ),
            m matches Some(m) ==> m.instant() == (secs, nanos),
    {
        if secs < EARLIEST_SECOND || secs > LATEST_SECOND {
            return None;
        }
        let in_minute: i64 = (secs - EARLIEST_SECOND) % 60;
        assert(in_minute == secs % 60);
        if nanos < NANOS_PER_SECOND || (in_minute == 59 && nanos < 2 * NANOS_PER_SECOND) {
            Some(Moment { secs, nanos })
        } else {
            None
        }
    }

    /// The same instant on a clock without leap seconds: a leap second becomes the beginning of
    /// the next second.
    pub fn settled(self) -> (m: Moment)
        ensures
            m.instant() == settle(self.instant()),
    {
        proof {
            use_type_invariant(&self);
        }
        if self.nanos < NANOS_PER_SECOND {
            self
        } else {
            Moment { secs: self.secs + 1, nanos: self.nanos - NANOS_PER_SECOND }
        }
    }

    /// The seconds by which the machine's local clock differs from UTC at this instant.
    pub fn local_offset(self) -> (offset: i32)
        ensures
            valid_offset(offset as int),
    {
        proof {
            use_type_invariant(&self);
        }
        local_offset(self.secs, self.nanos)
    }

    /// The time of day on a clock `offset` seconds ahead of UTC.
    pub fn clock_label(self, offset: i32) -> (label: String)
        requires
            valid_offset(offset as int),
        ensures
            label@ == clock_text(self.secs() + offset, self.nanos() as nat),
    {
        proof {
            use_type_invariant(&self);
        }
        format_instant(self.secs, self.nanos, offset, "%H:%M:%S")
    }

    /// The date and the time of day on a clock `offset` seconds ahead of UTC.
    pub fn date_label(self, offset: i32) -> (label: String)
        requires
            valid_offset(offset as int),
        ensures
            label@ == date_text(self.secs() + offset, self.nanos() as nat),
    {
        proof {
            use_type_invariant(&self);
        }
        format_instant(self.secs, self.nanos, offset, "%Y-%m-%d %H:%M:%S")
    }
}

/// Nanoseconds that have passed at `now` since `last`, none where the clock reads less.
pub open spec fn elapsed(last: u64, now: u64) -> int {
    if now >= last {
        now - last
    } else {
        0
    }
}

/// Whether `interval` has passed at `now` since the last time, which is so where there was none.
pub open spec fn due(last: Option<u64>, now: u64, interval: u64) -> bool {
    last matches Some(t) ==> elapsed(t, now) >= interval
}

/// Whether it is time to act again.
pub fn is_due(last: Option<u64>, now: u64, interval: u64) -> (b: bool)
    ensures
        b == due(last, now, interval),
{
    match last {
        None => true,
        Some(t) => {
            let passed: u64 = if now >= t {
                now - t
            } else {
                0
            };
            passed >= interval
        },
    }
}

/// What is due stays due as time goes on.
pub proof fn due_stays_due(last: Option<u64>, now: u64, later: u64, interval: u64)
    requires
        due(last, now, interval),
        now <= later,
    ensures
        due(last, later, interval),
{
}

/// A clock reading has eight characters: three numbers of two digits between colons.
pub proof fn clock_text_shape(secs: int, nanos: nat)
    requires
        nanos < 2 * NANOS_PER_SECOND,
    ensures
        clock_text(secs, nanos).len() == 8,
        clock_text(secs, nanos)[2] == ':',
        clock_text(secs, nanos)[5] == ':',
        forall|i: int|
            0 <= i < 8 && i != 2 && i != 5 ==> text::is_digit(#[trigger] clock_text(secs, nanos)[i]),
{
    let s = (secs % 86_400) as nat;
    assert(0 <= s < 86_400);
    assert(s / 3600 < 24);
    assert(s % 60 + nanos / 1_000_000_000 < 61);
}

/// What has not happened yet is due at once. What happened at some time is due again as soon as
/// the interval has passed since, and not before.
pub proof fn due_when_the_interval_has_passed(last: Option<u64>, now: u64, interval: u64, b: bool)
    requires
        call_ensures(is_due, (last, now, interval), b),
    ensures
        last is None ==> b,
        last matches Some(t) ==> interval > 0 ==> (b <==> now >= t + interval),
        interval == 0 ==> b,
{
}

/// The time of day is shown hour, minute and second in two digits each, on a clock that is
/// `offset` seconds ahead; a leap second counts as one second more.
pub proof fn time_of_day_is_shown(
    moment: Moment,
    offset: i32,
    day: int,
    hour: int,
    minute: int,
    second: int,
    label: String,
)
    requires
        call_ensures(Moment::clock_label, (moment, offset), label),
        0 <= hour < 24,
        0 <= minute < 60,
        0 <= second < 60,
        moment.secs() + offset == day * 86_400 + hour * 3600 + minute * 60 + second,
        moment.nanos() < 2_000_000_000,
    ensures
        label@.len() == 8,
        label@[0] == (48 + hour / 10) as char,
        label@[1] == (48 + hour % 10) as char,
        label@[2] == ':',
        label@[3] == (48 + minute / 10) as char,
        label@[4] == (48 + minute % 10) as char,
        label@[5] == ':',
        ({
            let shown = if moment.nanos() < 1_000_000_000 {
                second
            } else {
                second + 1
            };
            label@[6] == (48 + shown / 10) as char && label@[7] == (48 + shown % 10) as char
        }),
{
    clock_reading(moment.secs() + offset, moment.nanos() as nat, day, hour, minute, second);
}

/// A clock reading shows the hour, the minute and the second in two digits each, between colons;
/// a fraction beyond one second counts as one second more.
pub proof fn clock_reading(secs: int, nanos: nat, day: int, hour: int, minute: int, second: int)
    requires
        0 <= hour < 24,
        0 <= minute < 60,
        0 <= second < 60,
        secs == day * 86_400 + hour * 3600 + minute * 60 + second,
        nanos < 2_000_000_000,
    ensures
        clock_text(secs, nanos) == text::two_digits(hour as nat) + seq![':'] + text::two_digits(
            minute as nat,
        ) + seq![':'] + text::two_digits(
            (second + if nanos < 1_000_000_000 {
                0int
            } else {
                1
            }) as nat,
        ),
{
    let s = (secs % 86_400) as nat;
    assert(s == hour * 3600 + minute * 60 + second);
    assert(s / 3600 == hour);
    assert(s / 60 % 60 == minute);
    assert(s % 60 == second);
}

/// A date label is the date of the local day, then a space and the time of day.
pub proof fn date_and_time_are_shown(
    moment: Moment,
    offset: i32,
    date: calendar::Date,
    label: String,
    time: String,
)
    requires
        call_ensures(Moment::date_label, (moment, offset), label),
        call_ensures(Moment::clock_label, (moment, offset), time),
        date.valid(),
        date.number() * 86_400 <= moment.secs() + offset < (date.number() + 1) * 86_400,
    ensures
        label@ == date.written() + " "@ + time@,
{
    let secs = moment.secs() + offset;
    assert(secs / 86_400 == date.number());
    calendar::dates_and_days_correspond(date);
    reveal_strlit(" ");
    assert(seq![' '] =~= " "@);
}

/// An instant keeps its place in time when its leap second is settled, and has a fraction below
/// one second then.
pub proof fn settling_keeps_the_instant(moment: Moment, settled: Moment)
    requires
        call_ensures(Moment::settled, (moment,), settled),
        EARLIEST_SECOND <= moment.secs() <= LATEST_SECOND,
        moment.nanos() < 2_000_000_000,
    ensures
        settled.secs() * 1_000_000_000 + settled.nanos() == moment.secs() * 1_000_000_000
            + moment.nanos(),
        settled.nanos() < 1_000_000_000,
        moment.nanos() < 1_000_000_000 ==> settled.instant() == moment.instant(),
{
}

/// The instant of a time stamp is the one that the stamp names, and no other text has one.
pub proof fn stamps_give_their_instant(stamp: &str, moment: Option<Moment>)
    requires
        call_ensures(Moment::parse, (stamp,), moment),
    ensures
        moment is None <==> rfc3339_instant(stamp@) is None,
        moment matches Some(m) ==> rfc3339_instant(stamp@) == Some((m.secs(), m.nanos())),
{
}

/// Every second that a time stamp can name makes an instant with every fraction below one second,
/// and what is made has the second and the fraction that were given.
pub proof fn seconds_and_fractions_make_instants(secs: i64, nanos: u32, moment: Option<Moment>)
    requires
        call_ensures(Moment::new, (secs, nanos), moment),
    ensures
        -62_167_305_540 <= secs <= 253_402_387_139 && nanos < 1_000_000_000 ==> moment is Some,
        moment matches Some(m) ==> m.secs() == secs && m.nanos() == nanos,
{
}

} // verus!
