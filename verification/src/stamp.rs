//! Modification times: a moment as the filesystem reports it, and the
//! text it is shown as.

use std::fmt::Write;
use vstd::prelude::*;
use vstd::string::*;

verus! {

/// A moment in time: seconds and nanoseconds since the Unix epoch, and
/// the offset of local time from UTC at that moment, in seconds.
#[derive(Debug, Clone, Copy, PartialEq, Eq, Structural)]
pub struct Timestamp {
    pub secs: i64,
    pub nanos: u32,
    pub offset: i32,
}

/// What `chrono` writes for the moment `secs`, `nanos` in a zone `offset`
/// seconds east of UTC under the format `pattern`, or `None` where the
/// moment or the offset is out of chrono's range or the format is not
/// one of chrono's.
pub uninterp spec fn formatted_time(secs: i64, nanos: u32, offset: i32, pattern: Seq<char>) -> Option<
    Seq<char>,
>;

/// The format of a modification time: month name, day, year, hour and
/// minute.
pub open spec fn time_pattern() -> Seq<char> {
    "%b %e %Y %H:%M"@
}

/// The text of an optional text: empty where there is none.
pub open spec fn text_or_empty(text: Option<Seq<char>>) -> Seq<char> {
    match text {
        Some(t) => t,
        None => Seq::empty(),
    }
}

/// The text shown for a modification time: the formatted local time, or
/// nothing where no time is reported or it cannot be formatted.
pub open spec fn modified_text(modified: Option<Timestamp>) -> Seq<char> {
    match modified {
        Some(stamp) => text_or_empty(
            formatted_time(stamp.secs, stamp.nanos, stamp.offset, time_pattern()),
        ),
        None => Seq::empty(),
    }
}

/// The moment `secs`, `nanos` written under `pattern` in the zone
/// `offset` seconds east of UTC: `chrono::FixedOffset::east_opt` makes
/// the zone, `DateTime::from_timestamp` and `with_timezone` the local
/// time, and `format` writes it. The contract names the result, a
/// failure of any of the three included, and states nothing else of it.
#[verifier::external_body]
fn format_time(secs: i64, nanos: u32, offset: i32, pattern: &str) -> (out: Option<String>)
    ensures
        match out {
            Some(text) => formatted_time(secs, nanos, offset, pattern@) == Some(text@),
            None => formatted_time(secs, nanos, offset, pattern@) is None,
        },
{
    let zone = chrono::FixedOffset::east_opt(offset)?;
    let time = chrono::DateTime::from_timestamp(secs, nanos)?.with_timezone(&zone);
    let mut text = String::new();
    write!(text, "{}", time.format(pattern)).ok()?;
    Some(text)
}

/// The text of an optional text, empty where there is none.
pub fn display_or_empty(text: Option<String>) -> (out: String)
    ensures
        out@ == text_or_empty(
            match text {
                Some(t) => Some(t@),
                None => None,
            },
        ),
{
    match text {
        Some(t) => t,
        None => String::new(),
    }
}

/// The text shown for a modification time.
pub fn modified_display(modified: Option<Timestamp>) -> (out: String)
    ensures
        out@ == modified_text(modified),
{
    match modified {
        Some(stamp) => display_or_empty(
            format_time(stamp.secs, stamp.nanos, stamp.offset, "%b %e %Y %H:%M"),
        ),
        None => String::new(),
    }
}

} // verus!
