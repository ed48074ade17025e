//! Points in time, and how one is read off the start of a log line.

use crate::text::white_space;
use chrono::{DateTime, NaiveDateTime, Utc};
use vstd::prelude::*;
use vstd::string::*;

verus! {

/// The largest distance from the epoch, in milliseconds, that a timestamp
/// may have. The difference of two timestamps then fits an `i64`.
pub const MAX_MILLIS: i64 = 0x3fff_ffff_ffff_ffff;

/// The pattern of the fixed-width timestamp that starts a line.
pub const TIMESTAMP_FORMAT: &'static str = "%Y-%m-%d %H:%M:%S.%3fZ";

/// The number of characters that the fixed-width timestamp takes.
pub const TIMESTAMP_WIDTH: usize = 24;

/// An absolute point in time with millisecond resolution, counted from the
/// Unix epoch.
#[derive(Copy, Clone, Debug, PartialEq, Eq, Structural)]
pub struct Timestamp {
    pub millis: i64,
}

impl Timestamp {
    /// The timestamp lies within `MAX_MILLIS` of the epoch.
    pub open spec fn wf(self) -> bool {
        -MAX_MILLIS <= self.millis <= MAX_MILLIS
    }

    /// The timestamp of a millisecond count, for a count in range.
    pub open spec fn checked(millis: Option<i64>) -> Option<Timestamp> {
        match millis {
            Some(m) => if -MAX_MILLIS <= m <= MAX_MILLIS {
                Some(Timestamp { millis: m })
            } else {
                None
            },
            None => None,
        }
    }

    /// The timestamp `millis` milliseconds after the epoch, unless that is
    /// further from it than `MAX_MILLIS`.
    pub fn from_millis(millis: i64) -> (timestamp: Option<Timestamp>)
        ensures
            timestamp == Timestamp::checked(Some(millis)),
            timestamp matches Some(t) ==> t.wf(),
    {
        if -MAX_MILLIS <= millis && millis <= MAX_MILLIS {
            Some(Timestamp { millis })
        } else {
            None
        }
    }

    /// The time from `earlier` to `self` in milliseconds, negative where
    /// `self` is the earlier one.
    pub fn since(self, earlier: Timestamp) -> (elapsed: i64)
        requires
            self.wf(),
            earlier.wf(),
        ensures
            elapsed == self.millis - earlier.millis,
    {
        self.millis - earlier.millis
    }
}

/// What `NaiveDateTime::parse_from_str` makes of `text` under `format`, read
/// as UTC and counted in milliseconds from the epoch; `None` where it
/// reports an error.
pub uninterp spec fn naive_datetime_millis(text: Seq<char>, format: Seq<char>) -> Option<i64>;

/// What parsing `text` as a `DateTime<Utc>` gives, counted in milliseconds
/// from the epoch; `None` where it reports an error.
pub uninterp spec fn datetime_millis(text: Seq<char>) -> Option<i64>;

/// Calls `NaiveDateTime::parse_from_str` of chrono and, where it succeeds,
/// `and_utc` and `timestamp_millis` on the value. The contract only names
/// the result.
#[verifier::external_body]
fn parse_naive_datetime(text: &str, format: &str) -> (millis: Option<i64>)
    ensures
        millis == naive_datetime_millis(text@, format@),
{
    NaiveDateTime::parse_from_str(text, format).ok().map(|t| t.and_utc().timestamp_millis())
}

/// Calls chrono's `FromStr` for `DateTime<Utc>` and, where it succeeds,
/// `timestamp_millis` on the value. The contract only names the result.
#[verifier::external_body]
fn parse_datetime(text: &str) -> (millis: Option<i64>)
    ensures
        millis == datetime_millis(text@),
{
    text.parse::<DateTime<Utc>>().ok().map(|t| t.timestamp_millis())
}

/// The first index at or after `from` whose character is white space if
/// `white` is false, and is not if `white` is true; the length of `line` if
/// there is none.
pub open spec fn run_end(line: Seq<char>, from: int, white: bool) -> int
    decreases line.len() - from,
{
    if from < 0 || from >= line.len() {
        line.len() as int
    } else if white_space(line[from]) != white {
        from
    } else {
        run_end(line, from + 1, white)
    }
}

/// Where the first token of `line` starts: behind the leading white space.
pub open spec fn token_start(line: Seq<char>) -> int {
    run_end(line, 0, true)
}

/// Where the first token of `line` ends: at the next white space.
pub open spec fn token_end(line: Seq<char>) -> int {
    run_end(line, token_start(line), false)
}

/// The timestamp that a line carries.
///
/// The first 24 characters are tried against `TIMESTAMP_FORMAT`; failing
/// that, the first token delimited by white space is tried as a date and
/// time in general. A reading further than `MAX_MILLIS` from the epoch
/// counts as a failure.
pub open spec fn extracted(line: Seq<char>) -> Option<Timestamp> {
    let fixed = if line.len() >= TIMESTAMP_WIDTH {
        Timestamp::checked(
            naive_datetime_millis(line.subrange(0, TIMESTAMP_WIDTH as int), TIMESTAMP_FORMAT@),
        )
    } else {
        None
    };
    if fixed is Some {
        fixed
    } else if token_start(line) < token_end(line) {
        Timestamp::checked(datetime_millis(line.subrange(token_start(line), token_end(line))))
    } else {
        None
    }
}

proof fn lemma_run_end_bounds(line: Seq<char>, from: int, white: bool)
    requires
        0 <= from <= line.len(),
    ensures
        from <= run_end(line, from, white) <= line.len(),
    decreases line.len() - from,
{
    if from < line.len() && white_space(line[from]) == white {
        lemma_run_end_bounds(line, from + 1, white);
    }
}

/// Finds the first token of `line`: the length of the line in characters,
/// and the character positions at which the token starts and ends.
pub fn first_token_bounds(line: &str) -> (bounds: (usize, usize, usize))
    ensures
        bounds.0 == line@.len(),
        bounds.1 == token_start(line@),
        bounds.2 == token_end(line@),
        bounds.1 <= bounds.2 <= bounds.0,
{
    let length = line.unicode_len();
    let mut index: usize = 0;
    let mut start: usize = 0;
    let mut end: usize = 0;
    let mut in_token = false;
    let mut done = false;
    for c in it: line.chars()
        invariant
            it.seq() == line@,
            length == line@.len(),
            index == it.index(),
            index <= length,
            done ==> start == token_start(line@) && end == token_end(line@),
            !done && in_token ==> start == token_start(line@) && start <= index && token_end(
                line@,
            ) == run_end(line@, index as int, false),
            !done && !in_token ==> token_start(line@) == run_end(line@, index as int, true),
    {
        if !done {
            let white = c.is_whitespace();
            if in_token {
                if white {
                    end = index;
                    done = true;
                }
            } else if !white {
                start = index;
                in_token = true;
            }
        }
        index = index + 1;
    }
    if !done {
        if !in_token {
            start = length;
        }
        end = length;
    }
    proof {
        lemma_run_end_bounds(line@, 0, true);
        lemma_run_end_bounds(line@, token_start(line@), false);
    }
    (length, start, end)
}

/// Reads the timestamp off the start of a line, if it has one.
pub fn extract_timestamp(line: &str) -> (timestamp: Option<Timestamp>)
    ensures
        timestamp == extracted(line@),
        timestamp matches Some(t) ==> t.wf(),
{
    let (length, start, end) = first_token_bounds(line);
    if length >= TIMESTAMP_WIDTH {
        let prefix = line.substring_char(0, TIMESTAMP_WIDTH);
        let fixed = Timestamp::accept(parse_naive_datetime(prefix, TIMESTAMP_FORMAT));
        if fixed.is_some() {
            return fixed;
        }
    }
    if start < end {
        Timestamp::accept(parse_datetime(line.substring_char(start, end)))
    } else {
        None
    }
}

impl Timestamp {
    /// Takes a millisecond count that a parser gave, if it gave one and it
    /// is in range.
    pub fn accept(millis: Option<i64>) -> (timestamp: Option<Timestamp>)
        ensures
            timestamp == Timestamp::checked(millis),
            timestamp matches Some(t) ==> t.wf(),
    {
        match millis {
            Some(m) => Timestamp::from_millis(m),
            None => None,
        }
    }
}

} // verus!
