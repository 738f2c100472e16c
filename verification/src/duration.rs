//! Elapsed time and its coarsest whole unit.

use vstd::prelude::*;
use vstd::string::StringExecFns;

verus! {

/// A span of time in whole seconds; negative where it runs backwards.
#[derive(Clone, Copy, Debug, PartialEq, Eq, Structural)]
pub struct Duration {
    pub secs: i64,
}

impl Duration {
    /// A span of `n` seconds.
    pub fn seconds(n: i64) -> (span: Duration)
        ensures
            span.secs == n,
    {
        Duration { secs: n }
    }

    /// A span of `n` minutes.
    pub fn minutes(n: i64) -> (span: Duration)
        requires
            i64::MIN <= n * 60 <= i64::MAX,
        ensures
            span.secs == n * 60,
    {
        Duration { secs: n * 60 }
    }

    /// A span of `n` hours.
    pub fn hours(n: i64) -> (span: Duration)
        requires
            i64::MIN <= n * 3_600 <= i64::MAX,
        ensures
            span.secs == n * 3_600,
    {
        Duration { secs: n * 3_600 }
    }

    /// A span of `n` days.
    pub fn days(n: i64) -> (span: Duration)
        requires
            i64::MIN <= n * 86_400 <= i64::MAX,
        ensures
            span.secs == n * 86_400,
    {
        Duration { secs: n * 86_400 }
    }

    /// A span of `n` weeks.
    pub fn weeks(n: i64) -> (span: Duration)
        requires
            i64::MIN <= n * 604_800 <= i64::MAX,
        ensures
            span.secs == n * 604_800,
    {
        Duration { secs: n * 604_800 }
    }
}

/// The units a span is told in, coarsest first.
#[derive(Clone, Copy, Debug, PartialEq, Eq, Structural)]
pub enum Unit {
    Year,
    Month,
    Week,
    Day,
    Hour,
    Minute,
}

impl Unit {
    /// The length of the unit in seconds: a year is 365 days, a month 30.
    pub open spec fn seconds(self) -> int {
        match self {
            Unit::Year => 31_536_000,
            Unit::Month => 2_592_000,
            Unit::Week => 604_800,
            Unit::Day => 86_400,
            Unit::Hour => 3_600,
            Unit::Minute => 60,
        }
    }

    /// The unit's name in the singular.
    pub open spec fn name(self) -> Seq<char> {
        match self {
            Unit::Year => "year"@,
            Unit::Month => "month"@,
            Unit::Week => "week"@,
            Unit::Day => "day"@,
            Unit::Hour => "hour"@,
            Unit::Minute => "minute"@,
        }
    }

    /// The units coarser than this one.
    pub open spec fn coarser(self) -> Seq<Unit> {
        match self {
            Unit::Year => seq![],
            Unit::Month => seq![Unit::Year],
            Unit::Week => seq![Unit::Year, Unit::Month],
            Unit::Day => seq![Unit::Year, Unit::Month, Unit::Week],
            Unit::Hour => seq![Unit::Year, Unit::Month, Unit::Week, Unit::Day],
            Unit::Minute => seq![Unit::Year, Unit::Month, Unit::Week, Unit::Day, Unit::Hour],
        }
    }

    /// The length of the unit in seconds.
    pub fn length(self) -> (secs: i64)
        ensures
            secs == self.seconds(),
    {
        match self {
            Unit::Year => 31_536_000,
            Unit::Month => 2_592_000,
            Unit::Week => 604_800,
            Unit::Day => 86_400,
            Unit::Hour => 3_600,
            Unit::Minute => 60,
        }
    }

    /// The unit's name in the singular.
    pub fn label(self) -> (name: &'static str)
        ensures
            name@ == self.name(),
    {
        match self {
            Unit::Year => "year",
            Unit::Month => "month",
            Unit::Week => "week",
            Unit::Day => "day",
            Unit::Hour => "hour",
            Unit::Minute => "minute",
        }
    }
}

/// The coarsest unit that fits into `secs` at least once, with the number of
/// times it fits; `None` below one minute, and so for every negative span.
pub open spec fn bucket(secs: int) -> Option<(nat, Unit)> {
    if secs >= Unit::Year.seconds() {
        Some(((secs / Unit::Year.seconds()) as nat, Unit::Year))
    } else if secs >= Unit::Month.seconds() {
        Some(((secs / Unit::Month.seconds()) as nat, Unit::Month))
    } else if secs >= Unit::Week.seconds() {
        Some(((secs / Unit::Week.seconds()) as nat, Unit::Week))
    } else if secs >= Unit::Day.seconds() {
        Some(((secs / Unit::Day.seconds()) as nat, Unit::Day))
    } else if secs >= Unit::Hour.seconds() {
        Some(((secs / Unit::Hour.seconds()) as nat, Unit::Hour))
    } else if secs >= Unit::Minute.seconds() {
        Some(((secs / Unit::Minute.seconds()) as nat, Unit::Minute))
    } else {
        None
    }
}

/// The character of one decimal digit.
pub open spec fn digit_char(d: nat) -> char {
    if d == 0 {
        '0'
    } else if d == 1 {
        '1'
    } else if d == 2 {
        '2'
    } else if d == 3 {
        '3'
    } else if d == 4 {
        '4'
    } else if d == 5 {
        '5'
    } else if d == 6 {
        '6'
    } else if d == 7 {
        '7'
    } else if d == 8 {
        '8'
    } else {
        '9'
    }
}

/// A number in decimal, without leading zeros.
pub open spec fn decimal(n: nat) -> Seq<char>
    decreases n,
{
    if n < 10 {
        seq![digit_char(n)]
    } else {
        decimal(n / 10).push(digit_char(n % 10))
    }
}

/// A span in words: `just now`, or the count and its unit, in the plural
/// above one, followed by `ago`.
pub open spec fn duration_text(secs: int) -> Seq<char> {
    match bucket(secs) {
        None => "just now"@,
        Some((n, unit)) => decimal(n) + " "@ + unit.name() + if n > 1 {
            "s ago"@
        } else {
            " ago"@
        },
    }
}

/// The bucket holds the coarsest unit that fits: the count is at least one,
/// it is the whole quotient, and no coarser unit fits even once.
pub proof fn lemma_bucket_is_coarsest(secs: int)
    ensures
        bucket(secs) is None <==> secs < 60,
        bucket(secs) matches Some((n, unit)) ==> {
            &&& n >= 1
            &&& n * unit.seconds() <= secs < (n + 1) * unit.seconds()
            &&& forall|i: int|
                0 <= i < unit.coarser().len() ==> secs < (#[trigger] unit.coarser()[i]).seconds()
        },
{
    if secs >= 60 {
        let (n, unit) = bucket(secs)->0;
        let len = unit.seconds();
        assert(n == secs / len);
        assert(n * len <= secs < (n + 1) * len && n >= 1) by (nonlinear_arith)
            requires
                len > 0,
                secs >= len,
                n == secs / len,
        ;
    }
}

/// The one-character text of a decimal digit.
fn digit_text(d: u64) -> (text: &'static str)
    requires
        d < 10,
    ensures
        text@ == seq![digit_char(d as nat)],
{
    proof {
        reveal_strlit("0");
        reveal_strlit("1");
        reveal_strlit("2");
        reveal_strlit("3");
        reveal_strlit("4");
        reveal_strlit("5");
        reveal_strlit("6");
        reveal_strlit("7");
        reveal_strlit("8");
        reveal_strlit("9");
    }
    let text = if d == 0 {
        "0"
    } else if d == 1 {
        "1"
    } else if d == 2 {
        "2"
    } else if d == 3 {
        "3"
    } else if d == 4 {
        "4"
    } else if d == 5 {
        "5"
    } else if d == 6 {
        "6"
    } else if d == 7 {
        "7"
    } else if d == 8 {
        "8"
    } else {
        "9"
    };
    assert(text@ =~= seq![digit_char(d as nat)]);
    text
}

/// Appends `n` in decimal to `out`.
pub fn append_decimal(out: &mut String, n: u64)
    ensures
        final(out)@ == old(out)@ + decimal(n as nat),
    decreases n,
{
    if n >= 10 {
        append_decimal(out, n / 10);
    }
    out.append(digit_text(n % 10));
    assert(final(out)@ =~= old(out)@ + decimal(n as nat));
}

/// Finds the coarsest unit that fits into a span, and how often it fits.
pub fn bucket_of(secs: i64) -> (r: Option<(u64, Unit)>)
    ensures
        match r {
            Some((n, unit)) => bucket(secs as int) == Some((n as nat, unit)),
            None => bucket(secs as int) is None,
        },
{
    let unit = if secs >= Unit::Year.length() {
        Unit::Year
    } else if secs >= Unit::Month.length() {
        Unit::Month
    } else if secs >= Unit::Week.length() {
        Unit::Week
    } else if secs >= Unit::Day.length() {
        Unit::Day
    } else if secs >= Unit::Hour.length() {
        Unit::Hour
    } else if secs >= Unit::Minute.length() {
        Unit::Minute
    } else {
        return None;
    };
    let count: i64 = secs / unit.length();
    Some((count as u64, unit))
}

/// Tells a span in words.
pub fn format_seconds(secs: i64) -> (text: String)
    ensures
        text@ == duration_text(secs as int),
{
    match bucket_of(secs) {
        None => String::from_str("just now"),
        Some((n, unit)) => {
            let mut text = String::new();
            append_decimal(&mut text, n);
            text.append(" ");
            text.append(unit.label());
            if n > 1 {
                text.append("s ago");
            } else {
                text.append(" ago");
            }
            assert(text@ =~= duration_text(secs as int));
            text
        },
    }
}

} // verus!
