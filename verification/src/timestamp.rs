//! Points in time as plain integers, and the calls into `chrono` that read,
//! print and compare them.

use chrono::{DateTime, FixedOffset, Local, SecondsFormat};
use vstd::prelude::*;

verus! {

/// Unix time of the first second `chrono` can hold: -262143-01-01T00:00:00Z.
pub const MIN_SECS: i64 = -8_334_601_228_800;

/// Unix time of the last second `chrono` can hold: +262142-12-31T23:59:59Z.
pub const MAX_SECS: i64 = 8_210_266_876_799;

/// Unix time of 0000-01-01T00:00:00, the first second of a four-digit year.
pub const YEAR_0_SECS: i64 = -62_167_219_200;

/// Unix time of 9999-12-31T23:59:59, the last second of a four-digit year.
pub const YEAR_9999_SECS: i64 = 253_402_300_799;

/// The nanoseconds of one second.
pub const NANOS_PER_SEC: u32 = 1_000_000_000;

/// The seconds of one day.
pub const SECS_PER_DAY: i32 = 86_400;

/// An instant with the UTC offset it was published under.
///
/// `secs` and `nanos` fix the instant: whole seconds since the Unix epoch in
/// UTC, and the nanoseconds into that second. `nanos` of a billion or more
/// stands for a leap second, which can only follow second 59 of a minute.
/// `offset` is the local time minus UTC, in seconds.
#[derive(Clone, Copy, Debug, PartialEq, Eq, Structural)]
pub struct Timestamp {
    pub secs: i64,
    pub nanos: u32,
    pub offset: i32,
}

/// What `DateTime::parse_from_rfc3339` makes of a text: the instant and
/// offset it reads, or `None` where it reports an error.
pub uninterp spec fn rfc3339_parse(text: Seq<char>) -> Option<Timestamp>;

/// The text that `DateTime::to_rfc3339_opts` writes for a timestamp, with
/// whole seconds and `Z` for a zero offset.
pub uninterp spec fn rfc3339_text(stamp: Timestamp) -> Seq<char>;

/// No character of `text` is a tab or a line feed.
pub open spec fn single_field(text: Seq<char>) -> bool {
    forall|i: int| 0 <= i < text.len() ==> text[i] != '\t' && text[i] != '\n'
}

impl Timestamp {
    /// The timestamp is one that a `DateTime<FixedOffset>` can hold.
    pub open spec fn wf(&self) -> bool {
        &&& MIN_SECS <= self.secs <= MAX_SECS
        &&& self.nanos < 2 * NANOS_PER_SEC
        &&& self.nanos >= NANOS_PER_SEC ==> self.secs % 60 == 59
        &&& -SECS_PER_DAY < self.offset < SECS_PER_DAY
    }

    /// The wall-clock time under `offset` is itself within what `chrono` can
    /// hold, which printing needs.
    pub open spec fn local_at(&self, offset: i32) -> bool {
        MIN_SECS <= self.secs + offset <= MAX_SECS
    }

    /// The wall-clock time falls in a year of four digits, 0000 to 9999.
    pub open spec fn four_digit_year(&self) -> bool {
        YEAR_0_SECS <= self.secs + self.offset <= YEAR_9999_SECS
    }

    /// The timestamp is written out in full by its text: a four-digit year,
    /// no fraction of a second, no leap second, an offset of whole minutes.
    pub open spec fn survives_text(&self) -> bool {
        &&& self.four_digit_year()
        &&& self.nanos == 0
        &&& self.offset % 60 == 0
    }

    /// The same instant seen under another offset.
    pub open spec fn at_offset(&self, offset: i32) -> Timestamp {
        Timestamp { secs: self.secs, nanos: self.nanos, offset }
    }

    /// `self` is an earlier instant than `other`. The offset plays no part.
    pub open spec fn before(&self, other: &Timestamp) -> bool {
        self.secs < other.secs || (self.secs == other.secs && self.nanos < other.nanos)
    }

    /// A timestamp from its parts, where they describe one.
    pub fn new(secs: i64, nanos: u32, offset: i32) -> (r: Option<Timestamp>)
        ensures
            r == if (Timestamp { secs, nanos, offset }).wf() {
                Some(Timestamp { secs, nanos, offset })
            } else {
                None
            },
    {
        if secs < MIN_SECS || secs > MAX_SECS {
            return None;
        }
        if offset <= -SECS_PER_DAY || offset >= SECS_PER_DAY {
            return None;
        }
        if nanos >= 2 * NANOS_PER_SEC {
            return None;
        }
        // MIN_SECS is a whole number of minutes, so the distance from it has
        // the same second of the minute as `secs`.
        let since_min: i64 = secs - MIN_SECS;
        if nanos >= NANOS_PER_SEC && since_min % 60 != 59 {
            return None;
        }
        Some(Timestamp { secs, nanos, offset })
    }

    /// The current time under the machine's time zone.
    pub fn now() -> (stamp: Timestamp)
        ensures
            stamp.wf(),
    {
        local_now()
    }

    /// Whether the wall-clock time under `offset` can be written down.
    pub fn is_local_at(&self, offset: i32) -> (r: bool)
        ensures
            r == self.local_at(offset),
    {
        let local: i128 = self.secs as i128 + offset as i128;
        MIN_SECS as i128 <= local && local <= MAX_SECS as i128
    }

    /// The whole seconds elapsed from `earlier` to `self`, rounded toward
    /// zero; negative where `self` is the earlier one.
    pub fn seconds_since(&self, earlier: &Timestamp) -> (secs: i64)
        requires
            self.wf(),
            earlier.wf(),
        ensures
            secs == elapsed_seconds(*self, *earlier),
    {
        seconds_between(self, earlier)
    }

    /// Whether `self` is an earlier instant than `other`.
    pub fn is_before(&self, other: &Timestamp) -> (r: bool)
        ensures
            r == self.before(other),
    {
        self.secs < other.secs || (self.secs == other.secs && self.nanos < other.nanos)
    }
}

/// `before` orders instants strictly: none is before itself, it carries
/// over from one pair to the next, and of two timestamps one is before the
/// other unless both stand for the same instant.
pub proof fn lemma_before_orders(a: Timestamp, b: Timestamp, c: Timestamp)
    ensures
        !a.before(&a),
        !(a.before(&b) && b.before(&a)),
        a.before(&b) && b.before(&c) ==> a.before(&c),
        a.before(&b) || b.before(&a) || (a.secs == b.secs && a.nanos == b.nanos),
{
}

/// Whole seconds in a span of `nanos` nanoseconds, rounded toward zero.
pub open spec fn whole_seconds(nanos: int) -> int {
    if nanos >= 0 {
        nanos / (NANOS_PER_SEC as int)
    } else {
        -((-nanos) / (NANOS_PER_SEC as int))
    }
}

/// The one second that `chrono` adds to, or takes from, a difference when
/// one end of it is a leap second and the other lies elsewhere in the day.
pub open spec fn leap_shift(later: Timestamp, earlier: Timestamp) -> int {
    let later_of_day = (later.secs as int) % 86_400;
    let earlier_of_day = (earlier.secs as int) % 86_400;
    if later_of_day > earlier_of_day && earlier.nanos >= NANOS_PER_SEC {
        1
    } else if later_of_day < earlier_of_day && later.nanos >= NANOS_PER_SEC {
        -1
    } else {
        0
    }
}

/// The nanoseconds from `earlier` to `later`, negative where `later` comes
/// first.
pub open spec fn nanos_between(later: Timestamp, earlier: Timestamp) -> int {
    (later.secs - earlier.secs + leap_shift(later, earlier)) * (NANOS_PER_SEC as int) + (
    later.nanos - earlier.nanos)
}

/// The whole seconds from `earlier` to `later`, rounded toward zero.
pub open spec fn elapsed_seconds(later: Timestamp, earlier: Timestamp) -> int {
    whole_seconds(nanos_between(later, earlier))
}

/// Reads an RFC 3339 date and time with `DateTime::parse_from_rfc3339`.
///
/// Trusted: the result is what `chrono` returns, taken apart into its Unix
/// seconds, nanoseconds and offset. What is read is a value `chrono` can
/// hold, and its wall-clock year has four digits, as the grammar admits no
/// other.
#[verifier::external_body]
pub(crate) fn parse_rfc3339(text: &str) -> (r: Option<Timestamp>)
    ensures
        r == rfc3339_parse(text@),
        r matches Some(stamp) ==> stamp.wf() && stamp.four_digit_year(),
{
    match DateTime::parse_from_rfc3339(text) {
        Ok(read) => Some(
            Timestamp {
                secs: read.timestamp(),
                nanos: read.timestamp_subsec_nanos(),
                offset: read.offset().local_minus_utc(),
            },
        ),
        Err(_) => None,
    }
}

/// Writes a timestamp with `DateTime::to_rfc3339_opts`, to the second and
/// with `Z` for a zero offset.
///
/// Trusted: the result is what `chrono` writes for this instant under this
/// offset. It holds digits, signs, colons, `T` and `Z` only, so no tab and no
/// line feed. For a timestamp that `survives_text`, reading the text back
/// with `DateTime::parse_from_rfc3339` gives the same timestamp.
#[verifier::external_body]
pub(crate) fn format_rfc3339(stamp: &Timestamp) -> (text: String)
    requires
        stamp.wf(),
        stamp.local_at(stamp.offset),
    ensures
        text@ == rfc3339_text(*stamp),
        single_field(text@),
        stamp.survives_text() ==> rfc3339_parse(text@) == Some(*stamp),
{
    let zone = FixedOffset::east_opt(stamp.offset).unwrap();
    let instant = DateTime::from_timestamp(stamp.secs, stamp.nanos).unwrap();
    instant.with_timezone(&zone).to_rfc3339_opts(SecondsFormat::Secs, true)
}

/// The current time under the machine's time zone, from `Local::now`.
///
/// Trusted: whatever the clock says, the result is a value `chrono` can hold.
#[verifier::external_body]
pub(crate) fn local_now() -> (stamp: Timestamp)
    ensures
        stamp.wf(),
{
    let now: DateTime<FixedOffset> = Local::now().into();
    Timestamp {
        secs: now.timestamp(),
        nanos: now.timestamp_subsec_nanos(),
        offset: now.offset().local_minus_utc(),
    }
}

/// The whole seconds from `earlier` to `later`, from
/// `DateTime::signed_duration_since` and `TimeDelta::num_seconds`.
///
/// Trusted: `chrono` subtracts the two UTC instants, counts a leap second
/// as `leap_shift` says, and rounds the difference toward zero.
#[verifier::external_body]
pub(crate) fn seconds_between(later: &Timestamp, earlier: &Timestamp) -> (secs: i64)
    requires
        later.wf(),
        earlier.wf(),
    ensures
        secs == elapsed_seconds(*later, *earlier),
{
    let end = DateTime::from_timestamp(later.secs, later.nanos).unwrap();
    let start = DateTime::from_timestamp(earlier.secs, earlier.nanos).unwrap();
    end.signed_duration_since(start).num_seconds()
}

} // verus!
