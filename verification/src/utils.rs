//! The clock and the filesystem as the rest of the library uses them, the
//! comparison of texts, and the names of log levels.

use std::fmt::Write;
use std::time::{Duration, SystemTime, SystemTimeError};
use vstd::prelude::*;
use vstd::utf8::{encode_utf8, encode_utf8_decode_utf8};

verus! {

/// How the table of tailed files writes a moment: year, month and day, then
/// hour, minute and second.
pub const DATETIME_FORMAT: &'static str = "%Y-%m-%d %H:%M:%S";

/// `std::time::SystemTime`, a reading of the system clock.
#[verifier::external_type_specification]
#[verifier::external_body]
pub struct ExSystemTime(std::time::SystemTime);

/// `std::time::SystemTimeError`, the failure of `SystemTime::duration_since`.
#[verifier::external_type_specification]
#[verifier::external_body]
pub struct ExSystemTimeError(std::time::SystemTimeError);

/// `SystemTime::now`: whatever the clock shows.
pub assume_specification[ SystemTime::now ]() -> SystemTime;

/// `SystemTime::duration_since`: the time from `earlier` to `later`, or an
/// error where `later` lies before `earlier`.
pub assume_specification[ SystemTime::duration_since ](
    later: &SystemTime,
    earlier: SystemTime,
) -> Result<Duration, SystemTimeError>;

/// `Duration::as_secs`: the whole seconds of a span of time.
pub assume_specification[ Duration::as_secs ](span: &Duration) -> u64;

/// `Duration::as_millis`: the whole milliseconds of a span of time.
pub assume_specification[ Duration::as_millis ](span: &Duration) -> u128;

/// `Duration::as_nanos`: the nanoseconds of a span of time.
pub assume_specification[ Duration::as_nanos ](span: &Duration) -> u128;

/// `std::time::UNIX_EPOCH`, the moment from which timestamps count.
#[verifier::external_body]
pub(crate) fn unix_epoch() -> SystemTime {
    std::time::UNIX_EPOCH
}

/// The text of a string that may be missing.
pub open spec fn text_of(string: Option<String>) -> Option<Seq<char>> {
    match string {
        Some(s) => Some(s@),
        None => None,
    }
}

/// How `chrono` writes, as `format` asks, the moment in UTC that lies `secs`
/// seconds after the Unix epoch. `None` where chrono has no date for that
/// moment or cannot follow `format`.
pub uninterp spec fn utc_formatted(secs: u64, format: Seq<char>) -> Option<Seq<char>>;

/// What `str::to_lowercase` makes of `text`: its lowercase equivalent as
/// Unicode defines it.
pub uninterp spec fn lowercase(text: Seq<char>) -> Seq<char>;

/// chrono's `DateTime::from_timestamp` and `DateTime::format`: the moment
/// `secs` seconds after the Unix epoch, in UTC, written as `format` asks.
/// Nothing comes back where chrono has no date for that moment or cannot
/// follow `format`.
#[verifier::external_body]
fn format_utc(secs: u64, format: &str) -> (r: Option<String>)
    ensures
        text_of(r) == utc_formatted(secs, format@),
{
    let moment = chrono::DateTime::from_timestamp(i64::try_from(secs).ok()?, 0)?;
    let mut text = String::new();
    match write!(text, "{}", moment.format(format)) {
        Ok(_) => Some(text),
        Err(_) => None,
    }
}

/// Milliseconds since the Unix epoch, or 0 where the clock stands before it.
pub fn get_unix_time_ms() -> u128 {
    match SystemTime::now().duration_since(unix_epoch()) {
        Ok(elapsed) => elapsed.as_millis(),
        Err(_) => 0,
    }
}

/// The moment that lies `secs` seconds after the Unix epoch, in UTC and
/// written in [`DATETIME_FORMAT`]; the empty text for a moment that has no
/// date.
pub fn datetime_str_at(secs: u64) -> (r: String)
    ensures
        r@ == match utc_formatted(secs, DATETIME_FORMAT@) {
            Some(text) => text,
            None => Seq::empty(),
        },
{
    match format_utc(secs, DATETIME_FORMAT) {
        Some(text) => text,
        None => String::new(),
    }
}

/// The present moment in UTC, written in [`DATETIME_FORMAT`]. A clock that
/// stands before the Unix epoch is read as the epoch.
pub fn get_datetime_str() -> (r: String)
    ensures
        is_datetime(r@),
{
    let secs = match SystemTime::now().duration_since(unix_epoch()) {
        Ok(elapsed) => elapsed.as_secs(),
        Err(_) => 0,
    };
    let text = datetime_str_at(secs);
    proof {
        assert(text@ == datetime_text(secs));
    }
    text
}

/// What [`datetime_str_at`] writes for the moment that lies `secs` seconds
/// after the Unix epoch.
pub open spec fn datetime_text(secs: u64) -> Seq<char> {
    match utc_formatted(secs, DATETIME_FORMAT@) {
        Some(text) => text,
        None => Seq::empty(),
    }
}

/// `text` is some moment, written as [`datetime_str_at`] writes it.
pub open spec fn is_datetime(text: Seq<char>) -> bool {
    exists|secs: u64| text == #[trigger] datetime_text(secs)
}

/// `Path::exists`: whether something can be reached under `file_name` right
/// now. The answer belongs to the moment of the call.
#[verifier::external_body]
pub fn file_exists(file_name: &str) -> bool {
    std::path::Path::new(file_name).exists()
}

/// `str::to_lowercase`: `text` in lowercase.
#[verifier::external_body]
fn to_lowercase(text: &str) -> (r: String)
    ensures
        r@ == lowercase(text@),
{
    text.to_lowercase()
}

/// Whether two texts are the same, character for character.
pub fn same_text(a: &str, b: &str) -> (r: bool)
    ensures
        r == (a@ == b@),
{
    let left = a.as_bytes();
    let right = b.as_bytes();
    proof {
        encode_utf8_decode_utf8(a@);
        encode_utf8_decode_utf8(b@);
    }
    if left.len() != right.len() {
        return false;
    }
    let mut i: usize = 0;
    while i < left.len()
        invariant
            i <= left@.len(),
            left@.len() == right@.len(),
            left@ == encode_utf8(a@),
            right@ == encode_utf8(b@),
            forall|j: int| 0 <= j < i ==> left@[j] == right@[j],
        decreases left@.len() - i,
    {
        if left[i] != right[i] {
            return false;
        }
        i += 1;
    }
    proof {
        assert(left@ =~= right@);
    }
    true
}

/// How much the agent tells about its own work.
#[derive(Clone, Copy, Debug, PartialEq, Eq, Structural)]
pub enum LogLevel {
    Trace,
    Debug,
    Info,
    Warn,
    Error,
}

/// The level that a name in lowercase stands for; a name that is none of the
/// five stands for `Info`.
pub open spec fn level_named(name: Seq<char>) -> LogLevel {
    if name == "trace"@ {
        LogLevel::Trace
    } else if name == "debug"@ {
        LogLevel::Debug
    } else if name == "info"@ {
        LogLevel::Info
    } else if name == "warn"@ {
        LogLevel::Warn
    } else if name == "error"@ {
        LogLevel::Error
    } else {
        LogLevel::Info
    }
}

impl LogLevel {
    /// The level that `name`, which is taken as it is written, stands for.
    pub fn from_lowercase(name: &str) -> (r: Self)
        ensures
            r == level_named(name@),
    {
        if same_text(name, "trace") {
            LogLevel::Trace
        } else if same_text(name, "debug") {
            LogLevel::Debug
        } else if same_text(name, "info") {
            LogLevel::Info
        } else if same_text(name, "warn") {
            LogLevel::Warn
        } else if same_text(name, "error") {
            LogLevel::Error
        } else {
            LogLevel::Info
        }
    }

    /// The level that `name` stands for, in whatever case it is written.
    pub fn from_name(name: &str) -> (r: Self)
        ensures
            r == level_named(lowercase(name@)),
    {
        let lowered = to_lowercase(name);
        LogLevel::from_lowercase(lowered.as_str())
    }
}

} // verus!
