//! Points in time, and how they are written.

use crate::text;
use vstd::prelude::*;

verus! {

/// A point in time: seconds since the Unix epoch and the nanoseconds after them.
#[derive(Clone, Copy, Debug, PartialEq, Eq, Structural)]
pub struct Timestamp {
    pub secs: i64,
    pub subsec_nanos: u32,
}

impl Timestamp {
    /// Nanoseconds since the Unix epoch.
    pub open spec fn nanos(self) -> int {
        self.secs * 1_000_000_000 + self.subsec_nanos
    }

    /// The Unix epoch.
    pub fn epoch() -> (epoch: Timestamp)
        ensures
            epoch == (Timestamp { secs: 0, subsec_nanos: 0 }),
    {
        Timestamp { secs: 0, subsec_nanos: 0 }
    }

    /// Whether this point in time is not later than another one.
    pub fn is_at_most(&self, other: &Timestamp) -> (at_most: bool)
        ensures
            at_most == (self.nanos() <= other.nanos()),
    {
        let left: i128 = self.secs as i128 * 1_000_000_000 + self.subsec_nanos as i128;
        let right: i128 = other.secs as i128 * 1_000_000_000 + other.subsec_nanos as i128;
        left <= right
    }

    /// The point in time as it is shown to people.
    pub open spec fn shown(self) -> Seq<char> {
        match rfc3339(self.secs, self.subsec_nanos) {
            Some(text) => text,
            None => epoch_seconds(self.secs, self.subsec_nanos),
        }
    }

    /// The point in time in RFC 3339, in UTC, if it lies in the years that the format covers.
    pub fn to_rfc3339(&self) -> (written: Option<String>)
        ensures
            written.deep_view() == rfc3339(self.secs, self.subsec_nanos),
    {
        format_date_time(self.secs, self.subsec_nanos)
    }

    /// The point in time as it is shown to people.
    pub fn to_text(&self) -> (shown: String)
        ensures
            shown@ == self.shown(),
    {
        display_date_time(self.secs, self.subsec_nanos)
    }

    /// Whether the point in time is one that this machine can hold as a file's time. The
    /// nanoseconds have to be less than a second.
    pub fn is_local_time(&self) -> (local: bool)
        ensures
            local ==> self.subsec_nanos < 1_000_000_000,
    {
        self.subsec_nanos < 1_000_000_000 && converts_to_system_time(self.secs, self.subsec_nanos)
    }

    /// The point in time that an HTTP date names, if it is one.
    pub fn from_http_date(date: &str) -> (parsed: Option<Timestamp>)
        ensures
            match parsed {
                Some(time) => http_date(date@) == Some((time.secs, time.subsec_nanos)),
                None => http_date(date@) is None,
            },
    {
        match parse_http_date(date) {
            Some((secs, subsec_nanos)) => Some(Timestamp { secs, subsec_nanos }),
            None => None,
        }
    }
}

/// What `aws_sdk_s3::primitives::DateTime::from_str` makes of a text in the format
/// `DateTimeFormat::HttpDate`: the seconds and nanoseconds of the date, or nothing if the text is
/// no such date.
pub uninterp spec fn http_date(text: Seq<char>) -> Option<(i64, u32)>;

/// What `aws_sdk_s3::primitives::DateTime::fmt` writes in the format `DateTimeFormat::DateTime`
/// (RFC 3339 in UTC), or nothing if the format does not cover the date.
pub uninterp spec fn rfc3339(secs: i64, subsec_nanos: u32) -> Option<Seq<char>>;

/// `text` with zeros in front of it, up to `width` characters.
pub open spec fn zero_padded(text: Seq<char>, width: nat) -> Seq<char> {
    if text.len() >= width {
        text
    } else {
        Seq::new((width - text.len()) as nat, |i: int| '0') + text
    }
}

/// `text` without the zeros at its end.
pub open spec fn without_trailing_zeros(text: Seq<char>) -> Seq<char>
    decreases text.len(),
{
    if text.len() > 0 && text.last() == '0' {
        without_trailing_zeros(text.drop_last())
    } else {
        text
    }
}

/// Seconds since the Unix epoch, with a decimal fraction where there is one.
pub open spec fn epoch_seconds(secs: i64, subsec_nanos: u32) -> Seq<char> {
    if subsec_nanos == 0 {
        text::signed_decimal(secs as int)
    } else {
        without_trailing_zeros(
            text::signed_decimal(secs as int) + "."@ + zero_padded(
                text::decimal(subsec_nanos as nat),
                9,
            ),
        )
    }
}

/// Calls `aws_sdk_s3::primitives::DateTime::from_str` with `DateTimeFormat::HttpDate`. The result
/// is a function of the text; it is absent where the call reports an error.
#[verifier::external_body]
fn parse_http_date(date: &str) -> (parsed: Option<(i64, u32)>)
    ensures
        parsed == http_date(date@),
{
    let parsed = aws_sdk_s3::primitives::DateTime::from_str(
        date,
        aws_sdk_s3::primitives::DateTimeFormat::HttpDate,
    );
    match parsed {
        Ok(time) => Some((time.secs(), time.subsec_nanos())),
        Err(_) => None,
    }
}

/// Calls `aws_sdk_s3::primitives::DateTime::fmt` with `DateTimeFormat::DateTime`. The result is a
/// function of the seconds and nanoseconds; it is absent where the call reports an error.
#[verifier::external_body]
fn format_date_time(secs: i64, subsec_nanos: u32) -> (written: Option<String>)
    ensures
        written.deep_view() == rfc3339(secs, subsec_nanos),
{
    let mut time = aws_sdk_s3::primitives::DateTime::from_secs(secs);
    time.set_subsec_nanos(subsec_nanos);
    time.fmt(aws_sdk_s3::primitives::DateTimeFormat::DateTime).ok()
}

/// Calls `SystemTime::try_from` on an `aws_sdk_s3::primitives::DateTime`, and tells whether it
/// succeeds. Which dates a `SystemTime` can hold depends on the machine, so nothing is said of the
/// result.
#[verifier::external_body]
fn converts_to_system_time(secs: i64, subsec_nanos: u32) -> (converts: bool)
    requires
        subsec_nanos < 1_000_000_000,
{
    let mut time = aws_sdk_s3::primitives::DateTime::from_secs(secs);
    time.set_subsec_nanos(subsec_nanos);
    std::time::SystemTime::try_from(time).is_ok()
}

/// Calls `to_string` on an `aws_sdk_s3::primitives::DateTime`. It writes the date as `fmt` does
/// with `DateTimeFormat::DateTime`, or, where that format does not cover the date, as seconds
/// since the epoch.
#[verifier::external_body]
fn display_date_time(secs: i64, subsec_nanos: u32) -> (shown: String)
    ensures
        shown@ == (match rfc3339(secs, subsec_nanos) {
            Some(text) => text,
            None => epoch_seconds(secs, subsec_nanos),
        }),
{
    let mut time = aws_sdk_s3::primitives::DateTime::from_secs(secs);
    time.set_subsec_nanos(subsec_nanos);
    time.to_string()
}

/// Points in time are ordered by their seconds, and within one second by their nanoseconds.
pub proof fn lemma_times_are_ordered_by_seconds_and_nanoseconds(a: Timestamp, b: Timestamp)
    requires
        a.subsec_nanos < 1_000_000_000,
        b.subsec_nanos < 1_000_000_000,
    ensures
        a.nanos() <= b.nanos() <==> a.secs < b.secs || (a.secs == b.secs && a.subsec_nanos
            <= b.subsec_nanos),
        a.nanos() == b.nanos() <==> a == b,
        (Timestamp { secs: 0, subsec_nanos: 0 }).nanos() == 0,
{
}

} // verus!
