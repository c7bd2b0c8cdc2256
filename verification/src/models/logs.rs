//! What a read hands out, and the records that are forwarded.

use crate::utils::{text_of, unix_epoch};
use std::str::FromStr;
use std::time::SystemTime;
use vstd::prelude::*;

verus! {

/// What a timestamp looks like within a line: `YYYY-MM-DDTHH:MM:SSZ`.
pub const TIMESTAMP_PATTERN: &'static str = r"\d{4}-\d{2}-\d{2}T\d{2}:\d{2}:\d{2}Z";

/// The text of each string of a sequence, in order.
pub open spec fn texts(strings: Seq<String>) -> Seq<Seq<char>> {
    strings.map_values(|s: String| s@)
}

/// What the `regex` crate finds for `pattern` in `text`: the part of `text`
/// that the leftmost match covers. `None` where nothing in `text` matches, or
/// where `pattern` is not a regular expression that the crate accepts.
pub uninterp spec fn regex_first_match(pattern: Seq<char>, text: Seq<char>) -> Option<Seq<char>>;

/// What `chrono` reads out of `text` as a date and time in UTC: the
/// nanoseconds from the Unix epoch to that moment. `None` where `text` is not
/// a date and time in chrono's relaxed RFC 3339, or the count does not fit.
pub uninterp spec fn utc_timestamp_nanos(text: Seq<char>) -> Option<i64>;

/// `Regex::new` and `Regex::find` of the `regex` crate: compiles `pattern`
/// and hands out the first match in `text`, as `Match::as_str` gives it.
#[verifier::external_body]
fn regex_find(pattern: &str, text: &str) -> (r: Option<String>)
    ensures
        text_of(r) == regex_first_match(pattern@, text@),
{
    match regex::Regex::new(pattern) {
        Ok(compiled) => compiled.find(text).map(|found| found.as_str().to_string()),
        Err(_) => None,
    }
}

/// chrono's `DateTime::<Utc>::from_str` and `DateTime::timestamp_nanos_opt`:
/// parses `text` and counts the nanoseconds from the Unix epoch.
#[verifier::external_body]
fn parse_utc_nanos(text: &str) -> (r: Option<i64>)
    ensures
        r == utc_timestamp_nanos(text@),
{
    match chrono::DateTime::<chrono::Utc>::from_str(text) {
        Ok(moment) => moment.timestamp_nanos_opt(),
        Err(_) => None,
    }
}

/// When a line says it was written: the first thing in it that looks like a
/// timestamp, read as a moment in UTC. `None` where nothing looks like one,
/// or where what does is no moment.
pub open spec fn timestamp_of(line: Seq<char>) -> Option<i64> {
    match regex_first_match(TIMESTAMP_PATTERN@, line) {
        Some(found) => utc_timestamp_nanos(found),
        None => None,
    }
}

/// The record that is forwarded for `line`.
pub open spec fn record_of(line: Seq<char>) -> LogView {
    LogView { message: line, timestamp_nanos: timestamp_of(line) }
}

/// The records that are forwarded for `lines`: one for each, in order.
pub open spec fn records_of(lines: Seq<Seq<char>>) -> Seq<LogView> {
    lines.map_values(|line: Seq<char>| record_of(line))
}

/// What a [`FileRead`] stands for in contracts.
pub struct FileReadView {
    pub lines: Seq<Seq<char>>,
    pub new_pos: u64,
}

/// The outcome of one read of a tailed file.
pub struct FileRead {
    /// full lines that were read, without their newline
    pub lines: Vec<String>,
    /// where the next read starts: the offset this read started at plus the
    /// bytes it consumed
    pub new_pos: u64,
}

impl View for FileRead {
    type V = FileReadView;

    open spec fn view(&self) -> FileReadView {
        FileReadView { lines: texts(self.lines@), new_pos: self.new_pos }
    }
}

/// What a [`Log`] stands for in contracts.
pub struct LogView {
    pub message: Seq<char>,
    pub timestamp_nanos: Option<i64>,
}

/// One forwarded line.
#[derive(Debug)]
pub struct Log {
    /// the line as it was read
    pub message: String,
    /// when the line says it was written, in nanoseconds since the Unix
    /// epoch, where it says so
    pub timestamp_nanos: Option<i64>,
}

impl View for Log {
    type V = LogView;

    open spec fn view(&self) -> LogView {
        LogView { message: self.message@, timestamp_nanos: self.timestamp_nanos }
    }
}

/// What a [`Logs`] stands for in contracts.
pub struct LogsView {
    pub system_time_nanoseconds: u128,
    pub logs: Seq<LogView>,
}

/// A batch of lines on its way to the collector.
#[derive(Debug)]
pub struct Logs {
    /// when the batch was put together, in nanoseconds since the Unix epoch
    pub system_time_nanoseconds: u128,
    pub logs: Vec<Log>,
}

impl View for Logs {
    type V = LogsView;

    open spec fn view(&self) -> LogsView {
        LogsView {
            system_time_nanoseconds: self.system_time_nanoseconds,
            logs: self.logs@.map_values(|log: Log| log@),
        }
    }
}

impl Log {
    pub fn new(timestamp_nanos: Option<i64>, message: &str) -> (r: Self)
        ensures
            r@ == (LogView { message: message@, timestamp_nanos }),
    {
        Log { message: message.to_string(), timestamp_nanos }
    }

    /// The record for `line`: the line itself, with the moment that its
    /// first timestamp denotes where it has one.
    pub fn from_str(line: &str) -> (r: Self)
        ensures
            r@ == record_of(line@),
    {
        let timestamp_nanos = match regex_find(TIMESTAMP_PATTERN, line) {
            Some(found) => parse_utc_nanos(found.as_str()),
            None => None,
        };
        Log::new(timestamp_nanos, line)
    }
}

impl Logs {
    /// The batch for `lines`, put together at `system_time_nanoseconds`: one
    /// record for each line, in the order of the lines.
    pub fn from_lines_at(lines: Vec<String>, system_time_nanoseconds: u128) -> (r: Self)
        ensures
            r@ == (LogsView { system_time_nanoseconds, logs: records_of(texts(lines@)) }),
    {
        let mut logs: Vec<Log> = Vec::new();
        let mut i: usize = 0;
        while i < lines.len()
            invariant
                i <= lines@.len(),
                logs@.map_values(|log: Log| log@) == records_of(texts(lines@).take(i as int)),
            decreases lines@.len() - i,
        {
            let log = Log::from_str(lines[i].as_str());
            proof {
                let done = texts(lines@).take(i as int);
                assert(texts(lines@).take(i + 1) =~= done.push(lines@[i as int]@));
                assert(records_of(done.push(lines@[i as int]@)) =~= records_of(done).push(log@));
                assert(logs@.push(log).map_values(|log: Log| log@) =~= logs@.map_values(
                    |log: Log| log@,
                ).push(log@));
            }
            logs.push(log);
            i += 1;
        }
        proof {
            assert(texts(lines@).take(i as int) =~= texts(lines@));
        }
        Logs { system_time_nanoseconds, logs }
    }

    /// The batch for `lines`, put together now: one record for each line, in
    /// the order of the lines. A clock that stands before the Unix epoch is
    /// read as 0.
    pub fn from_lines(lines: Vec<String>) -> (r: Self)
        ensures
            r@.logs == records_of(texts(lines@)),
    {
        let now = match SystemTime::now().duration_since(unix_epoch()) {
            Ok(elapsed) => elapsed.as_nanos(),
            Err(_) => 0,
        };
        Logs::from_lines_at(lines, now)
    }
}

} // verus!
