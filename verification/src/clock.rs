//! Clock arithmetic: naming the output formats, turning a calendar time
//! into the fields the operating system takes when the clock is set, and
//! the bounded step by which an NTP offset adjusts the clock.
use vstd::prelude::*;
use crate::ntp::div_toward_zero;

verus! {

/// The formats in which the time can be shown or read.
#[derive(Debug, Copy, Clone, PartialEq, Eq, Structural)]
pub enum OutputStandard {
    Timestamp,
    Rfc2822,
    Rfc3339,
}

impl OutputStandard {
    /// The format's name, as it is shown to the user.
    pub fn to_string(&self) -> (s: String)
        ensures
            s@ == match self {
                OutputStandard::Timestamp => "Timestamp"@,
                OutputStandard::Rfc2822 => "Rfc2822"@,
                OutputStandard::Rfc3339 => "Rfc3339"@,
            },
    {
        match self {
            OutputStandard::Timestamp => String::from_str("Timestamp"),
            OutputStandard::Rfc2822 => String::from_str("Rfc2822"),
            OutputStandard::Rfc3339 => String::from_str("Rfc3339"),
        }
    }
}

/// A day of the week.
#[derive(Debug, Copy, Clone, PartialEq, Eq, Structural)]
pub enum Weekday {
    Mon,
    Tue,
    Wed,
    Thu,
    Fri,
    Sat,
    Sun,
}

/// A local calendar time, field by field.
#[derive(Debug, Copy, Clone)]
pub struct CalendarTime {
    pub year: i32,
    pub month: u32,
    pub day: u32,
    pub weekday: Weekday,
    pub hour: u32,
    pub minute: u32,
    pub second: u32,
    /// Nanoseconds within the second; from one second up during a leap second.
    pub nanosecond: u32,
}

/// The fields of a Windows `SYSTEMTIME`.
#[derive(Debug, Copy, Clone, PartialEq, Eq, Structural)]
pub struct SystemTime {
    pub year: u16,
    pub month: u16,
    pub day_of_week: u16,
    pub day: u16,
    pub hour: u16,
    pub minute: u16,
    pub second: u16,
    pub milliseconds: u16,
}

/// The number of a weekday, counting from Sunday as 0.
pub open spec fn day_number(d: Weekday) -> u16 {
    match d {
        Weekday::Mon => 1,
        Weekday::Tue => 2,
        Weekday::Wed => 3,
        Weekday::Thu => 4,
        Weekday::Fri => 5,
        Weekday::Sat => 6,
        Weekday::Sun => 0,
    }
}

/// The milliseconds field: the nanoseconds less one second when they are
/// more than one second, in whole milliseconds.
pub open spec fn spec_milliseconds(nanosecond: u32) -> int {
    let ns: int = if nanosecond > 1_000_000_000 {
        nanosecond - 1_000_000_000
    } else {
        nanosecond as int
    };
    ns / 1_000_000
}

/// The `SYSTEMTIME` for a calendar time: each field converted to 16 bits,
/// Sunday counted as day 0.
pub open spec fn spec_system_time(t: CalendarTime) -> SystemTime {
    SystemTime {
        year: t.year as u16,
        month: t.month as u16,
        day_of_week: day_number(t.weekday),
        day: t.day as u16,
        hour: t.hour as u16,
        minute: t.minute as u16,
        second: t.second as u16,
        milliseconds: spec_milliseconds(t.nanosecond) as u16,
    }
}

/// Each `SYSTEMTIME` field is the matching calendar field in 16 bits; the
/// day of the week counts from Sunday as 0; the milliseconds are the whole
/// milliseconds of the nanoseconds, less one second during a leap second.
pub proof fn lemma_system_time_fields(t: CalendarTime)
    ensures
        ({
            let st = spec_system_time(t);
            &&& st.year == t.year as u16
            &&& st.month == t.month as u16
            &&& st.day == t.day as u16
            &&& st.hour == t.hour as u16
            &&& st.minute == t.minute as u16
            &&& st.second == t.second as u16
            &&& t.weekday == Weekday::Sun ==> st.day_of_week == 0
            &&& t.weekday == Weekday::Mon ==> st.day_of_week == 1
            &&& t.weekday == Weekday::Tue ==> st.day_of_week == 2
            &&& t.weekday == Weekday::Wed ==> st.day_of_week == 3
            &&& t.weekday == Weekday::Thu ==> st.day_of_week == 4
            &&& t.weekday == Weekday::Fri ==> st.day_of_week == 5
            &&& t.weekday == Weekday::Sat ==> st.day_of_week == 6
            &&& t.nanosecond <= 1_000_000_000 ==> st.milliseconds == t.nanosecond / 1_000_000
            &&& t.nanosecond > 1_000_000_000 ==> st.milliseconds == (t.nanosecond - 1_000_000_000)
            / 1_000_000
        }),
{
}

/// The fields of a `timeval`: whole seconds and microseconds.
#[derive(Debug, Copy, Clone, PartialEq, Eq, Structural)]
pub struct TimeVal {
    pub tv_sec: i64,
    pub tv_usec: i64,
}

/// The number of a weekday, counting from Sunday as 0.
fn weekday_number(d: Weekday) -> (n: u16)
    ensures
        n == day_number(d),
{
    match d {
        Weekday::Mon => 1,
        Weekday::Tue => 2,
        Weekday::Wed => 3,
        Weekday::Thu => 4,
        Weekday::Fri => 5,
        Weekday::Sat => 6,
        Weekday::Sun => 0,
    }
}

/// The `SYSTEMTIME` fields that set the clock to `t`.
pub fn system_time(t: CalendarTime) -> (st: SystemTime)
    ensures
        st == spec_system_time(t),
        st.year == t.year as u16,
        st.month == t.month as u16,
        st.day == t.day as u16,
        st.hour == t.hour as u16,
        st.minute == t.minute as u16,
        st.second == t.second as u16,
        t.weekday == Weekday::Sun ==> st.day_of_week == 0,
        t.weekday == Weekday::Mon ==> st.day_of_week == 1,
        t.weekday == Weekday::Tue ==> st.day_of_week == 2,
        t.weekday == Weekday::Wed ==> st.day_of_week == 3,
        t.weekday == Weekday::Thu ==> st.day_of_week == 4,
        t.weekday == Weekday::Fri ==> st.day_of_week == 5,
        t.weekday == Weekday::Sat ==> st.day_of_week == 6,
        t.nanosecond <= 1_000_000_000 ==> st.milliseconds == t.nanosecond / 1_000_000,
        t.nanosecond > 1_000_000_000 ==> st.milliseconds == (t.nanosecond - 1_000_000_000)
            / 1_000_000,
{
    let dow = weekday_number(t.weekday);
    let mut ns = t.nanosecond;
    let is_leap_second = ns > 1_000_000_000;
    if is_leap_second {
        ns = ns - 1_000_000_000;
    }
    SystemTime {
        year: #[verifier::truncate] (t.year as u16),
        month: #[verifier::truncate] (t.month as u16),
        day_of_week: dow,
        day: #[verifier::truncate] (t.day as u16),
        hour: #[verifier::truncate] (t.hour as u16),
        minute: #[verifier::truncate] (t.minute as u16),
        second: #[verifier::truncate] (t.second as u16),
        milliseconds: #[verifier::truncate] ((ns / 1_000_000) as u16),
    }
}

/// The `timeval` that sets the clock to `timestamp` seconds and
/// `subsec_micros` microseconds since the UNIX epoch.
pub fn timeval(timestamp: i64, subsec_micros: u32) -> (tv: TimeVal)
    ensures
        tv.tv_sec == timestamp,
        tv.tv_usec == subsec_micros,
{
    TimeVal { tv_sec: timestamp, tv_usec: subsec_micros as i64 }
}

/// The largest step, in milliseconds, that one adjustment considers.
pub const MAX_ADJUSTMENT_BASIS_MS: i64 = 200;

/// The sign of `x`: -1, 0 or 1.
pub open spec fn sign(x: int) -> int {
    if x > 0 {
        1
    } else if x < 0 {
        -1
    } else {
        0
    }
}

/// The step, in milliseconds, by which an offset of `offset` milliseconds
/// adjusts the clock: a fifth of the offset capped at 200 ms either way,
/// rounded toward zero.
pub open spec fn spec_adjustment(offset: int) -> int {
    let magnitude = if offset >= 0 {
        offset
    } else {
        -offset
    };
    let capped = if magnitude < 200 {
        magnitude
    } else {
        200
    };
    div_toward_zero(sign(offset) * capped, 5)
}

/// The step, in milliseconds, by which an offset of `offset` milliseconds
/// adjusts the clock.
pub fn clock_adjustment_ms(offset: isize) -> (adj: i64)
    requires
        offset != isize::MIN,
    ensures
        adj == spec_adjustment(offset as int),
{
    let magnitude: isize = if offset >= 0 {
        offset
    } else {
        -offset
    };
    let capped: i64 = if magnitude < 200 {
        magnitude as i64
    } else {
        200
    };
    if offset > 0 {
        capped / 5
    } else if offset < 0 {
        -(capped / 5)
    } else {
        0
    }
}

/// An adjustment moves the clock the way the offset points, never by more
/// than 40 ms, and by exactly a fifth of the offset, rounded toward zero,
/// when the offset is within 200 ms.
pub proof fn lemma_adjustment_bounded(offset: int)
    ensures
        -40 <= spec_adjustment(offset) <= 40,
        offset >= 0 ==> spec_adjustment(offset) >= 0,
        offset <= 0 ==> spec_adjustment(offset) <= 0,
        -200 <= offset <= 200 ==> spec_adjustment(offset) == div_toward_zero(offset, 5),
{
}


/// The instant that `DateTime::parse_from_rfc2822` reads in `text`, as UNIX
/// seconds and microseconds within the second; `None` where it reads none.
pub uninterp spec fn rfc2822_instant(text: Seq<char>) -> Option<(i64, u32)>;

/// `chrono::DateTime::parse_from_rfc2822`, with the result read through
/// `timestamp` and `timestamp_subsec_micros`. The contract names the
/// instant without saying what it is.
#[verifier::external_body]
fn parse_rfc2822(text: &str) -> (r: Option<(i64, u32)>)
    ensures
        r == rfc2822_instant(text@),
{
    match chrono::DateTime::parse_from_rfc2822(text) {
        Ok(t) => Some((t.timestamp(), t.timestamp_subsec_micros())),
        Err(_) => None,
    }
}

/// Why a time given to be set is refused.
#[derive(Debug, Clone, Copy, PartialEq, Eq, Structural)]
pub enum SetTimeError {
    /// Times cannot be set from this format.
    Unsupported,
    /// The text is not a time in the format.
    Unparsable,
}

/// The instant, as UNIX seconds and microseconds within the second, that
/// `text` gives in format `standard`. Both date formats are read as RFC 2822
/// dates; a bare timestamp is not read.
pub fn parse_set_time(standard: OutputStandard, text: &str) -> (r: Result<(i64, u32), SetTimeError>)
    ensures
        standard == OutputStandard::Timestamp ==> r == Err::<(i64, u32), SetTimeError>(
            SetTimeError::Unsupported,
        ),
        standard != OutputStandard::Timestamp ==> match rfc2822_instant(text@) {
            Some(t) => r == Ok::<(i64, u32), SetTimeError>(t),
            None => r == Err::<(i64, u32), SetTimeError>(SetTimeError::Unparsable),
        },
{
    match standard {
        OutputStandard::Rfc2822 | OutputStandard::Rfc3339 => match parse_rfc2822(text) {
            Some(t) => Ok(t),
            None => Err(SetTimeError::Unparsable),
        },
        OutputStandard::Timestamp => Err(SetTimeError::Unsupported),
    }
}

} // verus!
