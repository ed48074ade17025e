//! Pairing each log line with its timestamp and the time since the line
//! before it.

use crate::chart::{prefix_sum, sums_fit};
use crate::timestamp::Timestamp;
use vstd::prelude::*;
use vstd::string::*;

verus! {

/// The index of the first entry that holds a timestamp, or the length of
/// `timestamps` if none does.
pub open spec fn first_resolved(timestamps: Seq<Option<Timestamp>>) -> int
    decreases timestamps.len(),
{
    if timestamps.len() == 0 {
        0
    } else if timestamps[0] is Some {
        0
    } else {
        1 + first_resolved(timestamps.skip(1))
    }
}

/// `filled` resolves `timestamps`: it keeps every timestamp that is there,
/// gives an entry without one the timestamp of the entry before it, and
/// gives the entries before the first timestamp that first timestamp.
pub open spec fn resolves(filled: Seq<Timestamp>, timestamps: Seq<Option<Timestamp>>) -> bool {
    &&& filled.len() == timestamps.len()
    &&& forall|i: int|
        0 <= i < timestamps.len() && timestamps[i] is Some ==> #[trigger] filled[i]
            == timestamps[i]->0
    &&& forall|i: int|
        first_resolved(timestamps) < i < timestamps.len() && timestamps[i] is None
            ==> #[trigger] filled[i] == filled[i - 1]
    &&& forall|i: int|
        0 <= i < first_resolved(timestamps) && i < timestamps.len() ==> #[trigger] filled[i]
            == timestamps[first_resolved(timestamps)]->0
}

/// Before the first entry with a timestamp no entry has one.
pub proof fn lemma_first_resolved(timestamps: Seq<Option<Timestamp>>)
    ensures
        0 <= first_resolved(timestamps) <= timestamps.len(),
        forall|i: int| 0 <= i < first_resolved(timestamps) ==> timestamps[i] is None,
        first_resolved(timestamps) < timestamps.len() ==> timestamps[first_resolved(
            timestamps,
        )] is Some,
    decreases timestamps.len(),
{
    if timestamps.len() > 0 && timestamps[0] is None {
        let rest = timestamps.skip(1);
        lemma_first_resolved(rest);
        assert forall|i: int| 0 <= i < first_resolved(timestamps) implies timestamps[i] is None by {
            if i > 0 {
                assert(rest[i - 1] == timestamps[i]);
            }
        }
        if first_resolved(timestamps) < timestamps.len() {
            assert(rest[first_resolved(rest)] == timestamps[first_resolved(timestamps)]);
        }
    }
}

/// Finds the first entry that holds a timestamp.
fn find_first(lines: &Vec<Option<Timestamp>>) -> (first: usize)
    ensures
        first == first_resolved(lines@),
        first <= lines.len(),
        first < lines.len() ==> lines[first as int] is Some,
        forall|i: int| 0 <= i < first ==> lines[i] is None,
{
    let mut first: usize = 0;
    proof {
        lemma_first_resolved(lines@);
    }
    while first < lines.len() && lines[first].is_none()
        invariant
            first <= lines.len(),
            first <= first_resolved(lines@) <= lines.len(),
            forall|i: int| 0 <= i < first_resolved(lines@) ==> lines@[i] is None,
            first_resolved(lines@) < lines.len() ==> lines@[first_resolved(lines@)] is Some,
        decreases lines.len() - first,
    {
        first = first + 1;
    }
    first
}

/// Handles lines without timestamps by using keep-last.
/// If there are leading lines without timestamps then gives them all the
/// first timestamp encountered. Without any timestamp there is nothing to
/// fill in from, and the result is `None`.
pub fn fill_in_timestamps(lines: &Vec<Option<Timestamp>>) -> (filled: Option<Vec<Timestamp>>)
    ensures
        filled is None <==> (forall|i: int| 0 <= i < lines.len() ==> lines[i] is None),
        filled matches Some(f) ==> resolves(f@, lines@),
{
    let first_index = find_first(lines);
    if first_index >= lines.len() {
        return None;
    }
    let first = lines[first_index].unwrap();
    let mut prev = first;
    let mut result: Vec<Timestamp> = Vec::with_capacity(lines.len());
    for i in 0..lines.len()
        invariant
            first_index == first_resolved(lines@),
            first_index < lines.len(),
            lines@[first_index as int] == Some(first),
            forall|j: int| 0 <= j < first_index ==> lines@[j] is None,
            result.len() == i,
            i == 0 || i <= first_index ==> prev == first,
            i > 0 ==> prev == result@[i - 1],
            forall|j: int|
                0 <= j < i && lines@[j] is Some ==> #[trigger] result@[j] == lines@[j]->0,
            forall|j: int|
                first_index < j < i && lines@[j] is None ==> #[trigger] result@[j] == result@[j
                    - 1],
            forall|j: int| 0 <= j < first_index && j < i ==> #[trigger] result@[j] == first,
    {
        match lines[i] {
            Some(t) => {
                result.push(t);
                prev = t;
            },
            None => {
                result.push(prev);
            },
        }
    }
    Some(result)
}

/// How `chrono::Duration` displays a span of `millis` milliseconds.
pub uninterp spec fn duration_display(millis: int) -> Seq<char>;

/// Makes a `chrono::Duration` with `Duration::milliseconds` and formats it
/// by its `Display`. The contract only names the text. The count `i64::MIN`
/// is left out: chrono does not take it.
#[verifier::external_body]
fn display_duration(millis: i64) -> (text: String)
    requires
        millis > i64::MIN,
    ensures
        text@ == duration_display(millis as int),
{
    chrono::Duration::milliseconds(millis).to_string()
}

/// The number of characters at the start of a displayed duration that are
/// its sign and the designators `P` and `T`.
pub open spec fn designators(rendered: Seq<char>) -> int {
    let sign: int = if rendered.len() > 0 && rendered[0] == '-' {
        1
    } else {
        0
    };
    let period: int = if sign < rendered.len() && rendered[sign] == 'P' {
        sign + 1
    } else {
        sign
    };
    if period < rendered.len() && rendered[period] == 'T' {
        period + 1
    } else {
        period
    }
}

/// A displayed duration without its designators: the sign, if it has one,
/// and what follows `P` and `T`.
pub open spec fn label_of(rendered: Seq<char>) -> Seq<char> {
    let rest = rendered.subrange(designators(rendered), rendered.len() as int);
    if rendered.len() > 0 && rendered[0] == '-' {
        seq!['-'] + rest
    } else {
        rest
    }
}

/// Takes the designators `P` and `T` off a displayed duration and keeps
/// its sign.
pub fn without_designators(rendered: &str) -> (label: String)
    ensures
        label@ == label_of(rendered@),
{
    let length = rendered.unicode_len();
    let negative = length > 0 && rendered.get_char(0) == '-';
    let mut from: usize = if negative {
        1
    } else {
        0
    };
    if from < length && rendered.get_char(from) == 'P' {
        from = from + 1;
    }
    if from < length && rendered.get_char(from) == 'T' {
        from = from + 1;
    }
    let rest = rendered.substring_char(from, length);
    if negative {
        proof {
            reveal_strlit("-");
            assert("-"@ =~= seq!['-']);
        }
        String::from_str("-").concat(rest)
    } else {
        String::from_str(rest)
    }
}

/// The label of a span of `millis` milliseconds.
pub open spec fn duration_label(millis: int) -> Seq<char> {
    label_of(duration_display(millis))
}

/// Renders a span of time for reading: as chrono displays it, less the
/// designators.
pub fn render_duration(millis: i64) -> (label: String)
    requires
        millis > i64::MIN,
    ensures
        label@ == duration_label(millis as int),
{
    let rendered = display_duration(millis);
    without_designators(rendered.as_str())
}

/// A line of the log with what is known of its timing.
#[derive(Debug)]
pub struct AnnotatedLine<'a> {
    /// The position of the line in the log, from zero
    pub line_number: usize,
    /// The text of the line
    pub line: &'a str,
    /// The timestamp of the line, or the one it was given
    pub timestamp: Timestamp,
    /// The label that shows `elapsed_millis`
    pub elapsed_string: String,
    /// The time since the timestamp of the line before, in milliseconds
    pub elapsed_millis: i64,
}

/// The time between entry `i` of `timestamps` and the entry before it, in
/// milliseconds; zero for the first entry.
pub open spec fn elapsed_at(timestamps: Seq<Timestamp>, i: int) -> int {
    if i <= 0 {
        0
    } else {
        timestamps[i].millis - timestamps[i - 1].millis
    }
}

/// The timestamps of a sequence of lines.
pub open spec fn timestamps_of(lines: Seq<AnnotatedLine>) -> Seq<Timestamp> {
    Seq::new(lines.len(), |i: int| lines[i].timestamp)
}

/// `annotated` is the log `lines` with `timestamps`: line `i` carries its
/// number, its text, its timestamp, the time since the line before and the
/// label of that time.
pub open spec fn annotates(
    annotated: Seq<AnnotatedLine>,
    lines: Seq<&str>,
    timestamps: Seq<Timestamp>,
) -> bool {
    &&& annotated.len() == lines.len()
    &&& forall|i: int|
        0 <= i < annotated.len() ==> {
            &&& (#[trigger] annotated[i]).line_number == i
            &&& annotated[i].line == lines[i]
            &&& annotated[i].timestamp == timestamps[i]
            &&& annotated[i].elapsed_millis == elapsed_at(timestamps, i)
            &&& annotated[i].elapsed_string@ == duration_label(elapsed_at(timestamps, i))
        }
}

impl<'a> AnnotatedLine<'a> {
    /// A line with the label of its elapsed time made out.
    pub fn new(line_number: usize, line: &'a str, timestamp: Timestamp, elapsed: i64) -> (annotated:
        AnnotatedLine<'a>)
        requires
            elapsed > i64::MIN,
        ensures
            annotated.line_number == line_number,
            annotated.line == line,
            annotated.timestamp == timestamp,
            annotated.elapsed_millis == elapsed,
            annotated.elapsed_string@ == duration_label(elapsed as int),
    {
        AnnotatedLine {
            line_number,
            line,
            timestamp,
            elapsed_string: render_duration(elapsed),
            elapsed_millis: elapsed,
        }
    }

    /// The label of the elapsed time.
    pub fn elapsed_string(&self) -> (label: &str)
        ensures
            label@ == self.elapsed_string@,
    {
        self.elapsed_string.as_str()
    }

    /// A copy of the line.
    pub fn duplicate(&self) -> (copy: AnnotatedLine<'a>)
        ensures
            copy == *self,
    {
        AnnotatedLine {
            line_number: self.line_number,
            line: self.line,
            timestamp: self.timestamp,
            elapsed_string: self.elapsed_string.clone(),
            elapsed_millis: self.elapsed_millis,
        }
    }
}

/// Annotates each line with its timestamp and the time since the line
/// before it; the first line has no time before it.
pub fn create_annotated_lines<'a>(lines: &[&'a str], timestamps: &[Timestamp]) -> (annotated: Vec<
    AnnotatedLine<'a>,
>)
    requires
        lines.len() == timestamps.len(),
        forall|i: int| 0 <= i < timestamps.len() ==> (#[trigger] timestamps[i]).wf(),
    ensures
        annotates(annotated@, lines@, timestamps@),
{
    let mut annotated: Vec<AnnotatedLine<'a>> = Vec::with_capacity(lines.len());
    for i in 0..lines.len()
        invariant
            lines.len() == timestamps.len(),
            forall|j: int| 0 <= j < timestamps.len() ==> (#[trigger] timestamps[j]).wf(),
            annotated.len() == i,
            forall|j: int|
                0 <= j < i ==> {
                    &&& (#[trigger] annotated@[j]).line_number == j
                    &&& annotated@[j].line == lines@[j]
                    &&& annotated@[j].timestamp == timestamps@[j]
                    &&& annotated@[j].elapsed_millis == elapsed_at(timestamps@, j)
                    &&& annotated@[j].elapsed_string@ == duration_label(
                        elapsed_at(timestamps@, j),
                    )
                },
    {
        let timestamp = timestamps[i];
        let diff: i64 = if i == 0 {
            0
        } else {
            assert(timestamps[i - 1].wf());
            timestamp.since(timestamps[i - 1])
        };
        annotated.push(AnnotatedLine::new(i, lines[i], timestamp, diff));
    }
    annotated
}

/// Every line has a timestamp in range and the elapsed time that the
/// timestamps give it.
pub open spec fn well_timed(lines: Seq<AnnotatedLine>) -> bool {
    forall|i: int|
        0 <= i < lines.len() ==> (#[trigger] lines[i]).timestamp.wf() && lines[i].elapsed_millis
            == elapsed_at(timestamps_of(lines), i)
}

/// The time from the first line to the last, in milliseconds.
pub open spec fn total_span(lines: Seq<AnnotatedLine>) -> int {
    if lines.len() == 0 {
        0
    } else {
        lines.last().timestamp.millis - lines[0].timestamp.millis
    }
}

/// The numerator of `elapsed / span` over the denominator
/// `delta_denominator(span)`: the sign goes to the numerator, and over a
/// span of zero every fraction is zero.
pub open spec fn delta_numerator(elapsed: int, span: int) -> int {
    if span > 0 {
        elapsed
    } else if span < 0 {
        -elapsed
    } else {
        0
    }
}

/// The denominator that the fractions of a span share: its size, or one
/// for a span of zero.
pub open spec fn delta_denominator(span: int) -> int {
    if span > 0 {
        span
    } else if span < 0 {
        -span
    } else {
        1
    }
}

/// The elapsed time of each line as a fraction of the time that the log
/// spans: entry `i` is `numerators[i] / denominator`.
#[derive(Debug)]
pub struct DeltaSeries {
    pub numerators: Vec<i64>,
    pub denominator: i64,
}

/// The sum of the first `n` fractions is the fraction of the span that lies
/// between the first line and line `n - 1`.
proof fn lemma_prefix_is_distance(lines: Seq<AnnotatedLine>, numerators: Seq<i64>, n: int)
    requires
        well_timed(lines),
        numerators.len() == lines.len(),
        forall|i: int|
            0 <= i < lines.len() ==> #[trigger] numerators[i] == delta_numerator(
                lines[i].elapsed_millis as int,
                total_span(lines),
            ),
        0 < n <= lines.len(),
    ensures
        prefix_sum(numerators, n) == delta_numerator(
            lines[n - 1].timestamp.millis - lines[0].timestamp.millis,
            total_span(lines),
        ),
    decreases n,
{
    let timestamps = timestamps_of(lines);
    assert(lines[n - 1].elapsed_millis == elapsed_at(timestamps, n - 1));
    if n > 1 {
        lemma_prefix_is_distance(lines, numerators, n - 1);
        assert(timestamps[n - 1] == lines[n - 1].timestamp);
        assert(timestamps[n - 2] == lines[n - 2].timestamp);
    } else {
        assert(prefix_sum(numerators, 0) == 0);
    }
}

/// Over a log whose last line is later than its first, the fractions sum
/// to one: the numerators add up to the denominator.
pub proof fn lemma_series_sums_to_one(lines: Seq<AnnotatedLine>, series: DeltaSeries)
    requires
        well_timed(lines),
        total_span(lines) > 0,
        series.numerators.len() == lines.len(),
        series.denominator == delta_denominator(total_span(lines)),
        forall|i: int|
            0 <= i < lines.len() ==> #[trigger] series.numerators[i] == delta_numerator(
                lines[i].elapsed_millis as int,
                total_span(lines),
            ),
    ensures
        prefix_sum(series.numerators@, lines.len() as int) == series.denominator,
{
    lemma_prefix_is_distance(lines, series.numerators@, lines.len() as int);
}

/// Expresses each elapsed time as a fraction of the time between the first
/// and the last line. Where that time is zero every fraction is zero.
pub fn normalize(lines: &Vec<AnnotatedLine>) -> (series: DeltaSeries)
    requires
        well_timed(lines@),
    ensures
        series.numerators.len() == lines.len(),
        series.denominator == delta_denominator(total_span(lines@)),
        forall|i: int|
            0 <= i < lines.len() ==> #[trigger] series.numerators[i] == delta_numerator(
                lines[i].elapsed_millis as int,
                total_span(lines@),
            ),
        sums_fit(series.numerators@),
{
    let len = lines.len();
    if len == 0 {
        return DeltaSeries { numerators: Vec::new(), denominator: 1 };
    }
    assert(lines@[0].timestamp.wf() && lines@[len - 1].timestamp.wf());
    let span = lines[len - 1].timestamp.since(lines[0].timestamp);
    let mut numerators: Vec<i64> = Vec::with_capacity(len);
    for i in 0..len
        invariant
            len == lines.len(),
            well_timed(lines@),
            span == total_span(lines@),
            numerators.len() == i,
            forall|j: int|
                0 <= j < i ==> #[trigger] numerators@[j] == delta_numerator(
                    lines@[j].elapsed_millis as int,
                    span as int,
                ),
    {
        proof {
            let timestamps = timestamps_of(lines@);
            assert(lines@[i as int].elapsed_millis == elapsed_at(timestamps, i as int));
            if i > 0 {
                assert(lines@[i as int].timestamp.wf() && lines@[i - 1].timestamp.wf());
                assert(timestamps[i as int] == lines@[i as int].timestamp);
                assert(timestamps[i - 1] == lines@[i - 1].timestamp);
            }
        }
        let elapsed = lines[i].elapsed_millis;
        let numerator: i64 = if span > 0 {
            elapsed
        } else if span < 0 {
            -elapsed
        } else {
            0
        };
        numerators.push(numerator);
    }
    let denominator: i64 = if span > 0 {
        span
    } else if span < 0 {
        -span
    } else {
        1
    };
    proof {
        assert forall|n: int| 0 < n <= numerators@.len() implies i64::MIN <= #[trigger] prefix_sum(
            numerators@,
            n,
        ) <= i64::MAX by {
            lemma_prefix_is_distance(lines@, numerators@, n);
            assert(lines@[n - 1].timestamp.wf() && lines@[0].timestamp.wf());
        }
    }
    DeltaSeries { numerators, denominator }
}

} // verus!
