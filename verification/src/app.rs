//! The state of a viewing session and what each key does to it.

use crate::annotate::{
    annotates, create_annotated_lines, delta_denominator, delta_numerator, fill_in_timestamps,
    normalize, resolves, timestamps_of, total_span, well_timed, AnnotatedLine,
};
use crate::chart::ChartState;
use crate::gaugagraph::{Alignment, Fraction, Gaugagraph, Layout};
use crate::reflow::{plain_all, styled_symbols, texts_symbols, Text};
use crate::style::Style;
use crate::cursor::Cursor;
use crate::ranking::{is_ranking, numbered, rank};
use crate::timestamp::{extract_timestamp, extracted, Timestamp};
use vstd::prelude::*;
use vstd::string::*;

verus! {

/// A panel of the screen.
#[derive(Copy, Clone, Debug, PartialEq, Eq, Structural)]
pub enum Cell {
    Log,
    Chart,
    List,
}

impl Cell {
    /// The panel that Tab moves to.
    pub open spec fn following(self) -> Cell {
        match self {
            Cell::Log => Cell::Chart,
            Cell::Chart => Cell::List,
            Cell::List => Cell::Log,
        }
    }

    pub fn next(self) -> (cell: Cell)
        ensures
            cell == self.following(),
    {
        match self {
            Cell::Log => Cell::Chart,
            Cell::Chart => Cell::List,
            Cell::List => Cell::Log,
        }
    }
}

#[derive(Copy, Clone, Debug, PartialEq, Eq, Structural)]
pub enum Status {
    Active,
    Inactive,
}

/// What the main loop waits for.
pub enum Event<I> {
    Input(I),
    Tick,
}

/// Why a log cannot be viewed.
#[derive(Copy, Clone, Debug, PartialEq, Eq, Structural)]
pub enum LoadError {
    /// The log has no lines.
    EmptyInput,
    /// No line of the log has a timestamp.
    NoTimestamp,
}

/// How many of the lines with the largest gaps are kept.
pub const LARGEST_DIFFS: usize = 1000;

/// The zoom of the bars of the log at which the largest gap fills a row,
/// in thousandths.
pub const MIN_BAR_ZOOM: u32 = 1000;

/// The largest zoom of the bars of the log, in thousandths.
pub const MAX_BAR_ZOOM: u32 = 1_000_000;

/// The number of lines that a page key scrolls by, and the number of
/// sample columns that Home and End move by in the chart.
pub const PAGE: isize = 15;

#[derive(Debug)]
pub struct App<'a> {
    pub lines: Vec<AnnotatedLine<'a>>,
    /// The top 1000 lines by decreasing elapsed time
    pub largest_diffs: Vec<AnnotatedLine<'a>>,
    pub log_cursor: Cursor,
    pub diff_cursor: Cursor,
    pub active: Cell,
    pub chart_state: ChartState,
    /// The zoom of the bars of the log, in thousandths
    pub log_bar_zoom: u32,
}

/// The number of characters of the longest of `lines`.
pub open spec fn longest(lines: Seq<&str>) -> nat
    decreases lines.len(),
{
    if lines.len() == 0 {
        0
    } else if lines.last()@.len() > longest(lines.drop_last()) {
        lines.last()@.len()
    } else {
        longest(lines.drop_last())
    }
}

/// The texts of annotated lines.
pub open spec fn texts_of<'a>(lines: Seq<AnnotatedLine<'a>>) -> Seq<&'a str> {
    Seq::new(lines.len(), |i: int| lines[i].line)
}

/// The timestamps that `extract_timestamp` reads off the lines of a log.
pub open spec fn extracted_all(log: Seq<&str>) -> Seq<Option<Timestamp>> {
    Seq::new(log.len(), |i: int| extracted(log[i]@))
}

/// Reads the timestamp off each line of a log.
pub fn extract_timestamps(log: &[&str]) -> (timestamps: Vec<Option<Timestamp>>)
    ensures
        timestamps@ == extracted_all(log@),
        forall|i: int|
            0 <= i < timestamps.len() ==> (#[trigger] timestamps[i] matches Some(t) ==> t.wf()),
{
    let mut timestamps: Vec<Option<Timestamp>> = Vec::with_capacity(log.len());
    for i in 0..log.len()
        invariant
            timestamps.len() == i,
            forall|j: int| 0 <= j < i ==> #[trigger] timestamps@[j] == extracted(log@[j]@),
            forall|j: int|
                0 <= j < i ==> (#[trigger] timestamps@[j] matches Some(t) ==> t.wf()),
    {
        timestamps.push(extract_timestamp(log[i]));
    }
    assert(timestamps@ =~= extracted_all(log@));
    timestamps
}

/// Finds the length in characters of the longest line.
fn longest_line(log: &[&str]) -> (length: usize)
    ensures
        length == longest(log@),
{
    let mut length: usize = 0;
    assert(log@.take(0) =~= Seq::empty());
    for i in 0..log.len()
        invariant
            length == longest(log@.take(i as int)),
    {
        proof {
            assert(log@.take(i + 1).drop_last() =~= log@.take(i as int));
            assert(log@.take(i + 1).last() == log@[i as int]);
        }
        let n = log[i].unicode_len();
        if n > length {
            length = n;
        }
    }
    assert(log@.take(log.len() as int) =~= log@);
    length
}

impl<'a> App<'a> {
    /// The lines carry their numbers and times, the ranking is that of the
    /// lines, both cursors lie within their panes and over entries that
    /// exist, the chart plots the lines, and the zoom of the bars is within
    /// its limits.
    pub open spec fn wf(self) -> bool {
        &&& self.lines.len() > 0
        &&& numbered(self.lines@)
        &&& well_timed(self.lines@)
        &&& is_ranking(self.largest_diffs@, self.lines@, LARGEST_DIFFS as nat)
        &&& self.log_cursor.wf()
        &&& self.log_cursor.max_y == self.lines.len() - 1
        &&& self.diff_cursor.wf()
        &&& self.diff_cursor.max_y == self.largest_diffs.len() - 1
        &&& self.chart_state.wf()
        &&& self.chart_state.deltas.len() == self.lines.len()
        &&& MIN_BAR_ZOOM <= self.log_bar_zoom <= MAX_BAR_ZOOM
    }

    /// The session as it starts over `log`, whose lines have the
    /// timestamps `timestamps` where they have any: the lines are
    /// annotated, the largest gaps ranked and the gaps expressed as
    /// fractions of the whole span; both cursors stand at the origin, the
    /// log panel is active, the chart shows the whole log and the bars are
    /// not zoomed.
    pub open spec fn starts(self, log: Seq<&str>, timestamps: Seq<Option<Timestamp>>) -> bool {
        &&& self.wf()
        &&& resolves(timestamps_of(self.lines@), timestamps)
        &&& annotates(self.lines@, log, timestamps_of(self.lines@))
        &&& self.log_cursor == (Cursor {
            max_x: if longest(log) > 0 {
                (longest(log) - 1) as usize
            } else {
                0
            },
            max_y: (log.len() - 1) as usize,
            x: 0,
            y: 0,
        })
        &&& self.diff_cursor == (Cursor {
            max_y: (self.largest_diffs.len() - 1) as usize,
            ..self.log_cursor
        })
        &&& self.active == Cell::Log
        &&& self.chart_state.denominator == delta_denominator(total_span(self.lines@))
        &&& forall|i: int|
            0 <= i < self.lines.len() ==> #[trigger] self.chart_state.deltas[i] == delta_numerator(
                self.lines[i].elapsed_millis as int,
                total_span(self.lines@),
            )
        &&& self.chart_state.interval == (0usize, self.lines.len())
        &&& self.chart_state.zoom_factor == 3
        &&& self.chart_state.horizontal_resolution == 100
        &&& self.log_bar_zoom == MIN_BAR_ZOOM
    }

    /// Starts a session over a log whose timestamps have been read off
    /// already. A log without lines, and one without any timestamp, cannot
    /// be viewed.
    pub fn from_timestamps(log: &[&'a str], timestamps: &Vec<Option<Timestamp>>) -> (app: Result<
        App<'a>,
        LoadError,
    >)
        requires
            timestamps.len() == log.len(),
            forall|i: int|
                0 <= i < timestamps.len() ==> (#[trigger] timestamps[i] matches Some(t)
                    ==> t.wf()),
        ensures
            app == Err::<App<'a>, LoadError>(LoadError::EmptyInput) <==> log.len() == 0,
            app == Err::<App<'a>, LoadError>(LoadError::NoTimestamp) <==> log.len() > 0 && forall|
                i: int,
            |
                0 <= i < timestamps.len() ==> timestamps[i] is None,
            app matches Ok(a) ==> a.starts(log@, timestamps@),
    {
        let num_lines = log.len();
        if num_lines == 0 {
            return Err(LoadError::EmptyInput);
        }
        let filled = match fill_in_timestamps(timestamps) {
            Some(filled) => filled,
            None => {
                return Err(LoadError::NoTimestamp);
            },
        };
        proof {
            assert forall|i: int| 0 <= i < filled.len() implies (#[trigger] filled[i]).wf() by {
                lemma_filled_in_range(timestamps@, filled@, i);
            }
        }
        let max_len = longest_line(log);
        let lines = create_annotated_lines(log, filled.as_slice());
        proof {
            assert(timestamps_of(lines@) =~= filled@);
        }
        let largest_diffs = rank(&lines, LARGEST_DIFFS);
        let series = normalize(&lines);
        let max_x = if max_len > 0 {
            max_len - 1
        } else {
            0
        };
        let diffs = largest_diffs.len();
        Ok(
            App {
                lines,
                largest_diffs,
                log_cursor: Cursor::new(max_x, num_lines - 1),
                diff_cursor: Cursor::new(max_x, diffs - 1),
                active: Cell::Log,
                chart_state: ChartState::new(series.numerators, series.denominator),
                log_bar_zoom: MIN_BAR_ZOOM,
            },
        )
    }

    /// Starts a session over a log: reads the timestamp off each line and
    /// goes on as `from_timestamps` does.
    pub fn new(log: &[&'a str]) -> (app: Result<App<'a>, LoadError>)
        ensures
            app == Err::<App<'a>, LoadError>(LoadError::EmptyInput) <==> log.len() == 0,
            app == Err::<App<'a>, LoadError>(LoadError::NoTimestamp) <==> log.len() > 0 && forall|
                i: int,
            |
                0 <= i < log.len() ==> extracted(#[trigger] log[i]@) is None,
            app matches Ok(a) ==> a.starts(log@, extracted_all(log@)),
    {
        let timestamps = extract_timestamps(log);
        proof {
            assert forall|i: int| 0 <= i < log.len() implies timestamps@[i] == extracted(
                #[trigger] log[i]@,
            ) by {}
            assert((forall|i: int| 0 <= i < timestamps.len() ==> timestamps[i] is None) <==> (
            forall|i: int| 0 <= i < log.len() ==> extracted(#[trigger] log[i]@) is None)) by {
                if forall|i: int| 0 <= i < log.len() ==> extracted(#[trigger] log[i]@) is None {
                    assert forall|i: int| 0 <= i < timestamps.len() implies timestamps[i] is None by {
                        assert(extracted(log[i]@) is None);
                    }
                }
            }
        }
        App::from_timestamps(log, &timestamps)
    }
}

/// `value` held within the range of `isize`.
pub open spec fn within_isize(value: int) -> int {
    if value < isize::MIN {
        isize::MIN as int
    } else if value > isize::MAX {
        isize::MAX as int
    } else {
        value
    }
}

/// The zoom of the bars after one step up: half as much again, and
/// `MAX_BAR_ZOOM` at most.
pub open spec fn stretched(zoom: u32) -> u32 {
    if zoom * 3 / 2 > MAX_BAR_ZOOM {
        MAX_BAR_ZOOM
    } else {
        (zoom * 3 / 2) as u32
    }
}

/// The zoom of the bars after one step down: two thirds, and
/// `MIN_BAR_ZOOM` at least.
pub open spec fn shrunk(zoom: u32) -> u32 {
    if zoom * 2 / 3 < MIN_BAR_ZOOM {
        MIN_BAR_ZOOM
    } else {
        (zoom * 2 / 3) as u32
    }
}

/// A key of the keyboard, as far as the session knows keys.
#[derive(Copy, Clone, Debug, PartialEq, Eq, Structural)]
pub enum Key {
    Char(char),
    Down,
    Up,
    PageDown,
    PageUp,
    Home,
    End,
    Left,
    Right,
    Tab,
    Enter,
    Esc,
    /// Any other key
    Other,
}

proof fn lemma_step_fits(columns: int, stride: int)
    by (nonlinear_arith)
    requires
        -15 <= columns <= 15,
        0 <= stride <= 0xffff_ffff_ffff_ffff,
    ensures
        -15 * 0xffff_ffff_ffff_ffff <= columns * stride <= 15 * 0xffff_ffff_ffff_ffff,
{
}

impl<'a> App<'a> {
    pub fn vertical_log_scroll(&self) -> (row: usize)
        ensures
            row == self.log_cursor.y,
    {
        self.log_cursor.y
    }

    pub fn horizontal_log_scroll(&self) -> (column: usize)
        ensures
            column == self.log_cursor.x,
    {
        self.log_cursor.x
    }

    pub fn vertical_diff_scroll(&self) -> (row: usize)
        ensures
            row == self.diff_cursor.y,
    {
        self.diff_cursor.y
    }

    pub fn horizontal_diff_scroll(&self) -> (column: usize)
        ensures
            column == self.diff_cursor.x,
    {
        self.diff_cursor.x
    }

    /// The number of lines that one sample column of the chart stands for.
    pub fn lines_per_pixel(&self) -> (lines: usize)
        requires
            self.chart_state.wf(),
        ensures
            lines == self.chart_state.stride(),
    {
        self.chart_state.interval_length() / self.chart_state.horizontal_resolution
    }

    /// The ratio of line `i`: its elapsed time over the largest there is.
    pub open spec fn ratio_of(self, i: int) -> Fraction {
        Fraction { num: self.lines[i].elapsed_millis, den: self.largest_diffs[0].elapsed_millis }
    }

    /// The number of lines from `from` to `to`, both counted, that exist.
    pub open spec fn lines_within(self, from: int, to: int) -> int {
        let end = if to < self.lines.len() {
            to + 1
        } else {
            self.lines.len() as int
        };
        if from < end {
            end - from
        } else {
            0
        }
    }

    /// The elapsed times of the lines from `from` to `to`, as far as they
    /// exist, as ratios of the largest elapsed time.
    pub fn elapsed_time_ratios(&self, from: usize, to: usize) -> (ratios: Vec<Fraction>)
        requires
            self.wf(),
        ensures
            ratios.len() == self.lines_within(from as int, to as int),
            forall|i: int| 0 <= i < ratios.len() ==> #[trigger] ratios[i] == self.ratio_of(from + i),
    {
        let max_diff = self.largest_diffs[0].elapsed_millis;
        let end = if to < self.lines.len() {
            to + 1
        } else {
            self.lines.len()
        };
        let mut ratios: Vec<Fraction> = Vec::new();
        let mut i = from;
        while i < end
            invariant
                end <= self.lines.len(),
                self.largest_diffs.len() > 0,
                max_diff == self.largest_diffs[0].elapsed_millis,
                from <= i,
                from < end ==> i <= end && ratios.len() == i - from,
                from >= end ==> ratios.len() == 0,
                forall|k: int|
                    0 <= k < ratios.len() ==> #[trigger] ratios[k] == self.ratio_of(from + k),
            decreases end - i,
        {
            ratios.push(Fraction { num: self.lines[i].elapsed_millis, den: max_diff });
            i = i + 1;
        }
        ratios
    }

    pub fn line_numbers(&self) -> (numbers: std::ops::Range<usize>)
        ensures
            numbers.start == 0,
            numbers.end == self.lines.len(),
    {
        0..self.lines.len()
    }

    /// The session with the log scrolled by `n` lines and the chart
    /// following the row that the cursor comes to.
    pub open spec fn scrolled(self, n: int) -> App<'a> {
        let log_cursor = self.log_cursor.moved_y(n);
        App { log_cursor, chart_state: self.chart_state.updated(log_cursor.y as int), ..self }
    }

    /// The number of lines that `columns` sample columns of the chart
    /// stand for, held within `isize`.
    pub open spec fn chart_step(self, columns: int) -> int {
        within_isize(columns * self.chart_state.stride())
    }

    fn scroll_log(&mut self, n: isize)
        requires
            old(self).wf(),
        ensures
            final(self).wf(),
            *final(self) == old(self).scrolled(n as int),
    {
        self.log_cursor.move_y(n);
        self.chart_state.update(self.log_cursor.y);
    }

    fn step_of(&self, columns: isize) -> (step: isize)
        requires
            self.wf(),
            -15 <= columns <= 15,
        ensures
            step == self.chart_step(columns as int),
    {
        let stride = self.lines_per_pixel();
        proof {
            lemma_step_fits(columns as int, stride as int);
        }
        let exact: i128 = columns as i128 * stride as i128;
        if exact < isize::MIN as i128 {
            isize::MIN
        } else if exact > isize::MAX as i128 {
            isize::MAX
        } else {
            exact as isize
        }
    }

    /// The session after Up: the log scrolls up a line, the chart zooms in
    /// about the row of the log cursor, the list moves up an entry.
    pub open spec fn after_up(self) -> App<'a> {
        match self.active {
            Cell::Log => self.scrolled(-1),
            Cell::Chart => App {
                chart_state: self.chart_state.zoomed_in(self.log_cursor.y as int),
                ..self
            },
            Cell::List => App { diff_cursor: self.diff_cursor.moved_y(-1), ..self },
        }
    }

    pub fn on_up(&mut self)
        requires
            old(self).wf(),
        ensures
            final(self).wf(),
            *final(self) == old(self).after_up(),
    {
        match self.active {
            Cell::Log => self.scroll_log(-1),
            Cell::Chart => self.chart_state.zoom_in(self.log_cursor.y),
            Cell::List => self.diff_cursor.move_y(-1),
        }
    }

    /// The session after Down: the log scrolls down a line, the chart
    /// zooms out about the row of the log cursor, the list moves down an
    /// entry.
    pub open spec fn after_down(self) -> App<'a> {
        match self.active {
            Cell::Log => self.scrolled(1),
            Cell::Chart => App {
                chart_state: self.chart_state.zoomed_out(self.log_cursor.y as int),
                ..self
            },
            Cell::List => App { diff_cursor: self.diff_cursor.moved_y(1), ..self },
        }
    }

    pub fn on_down(&mut self)
        requires
            old(self).wf(),
        ensures
            final(self).wf(),
            *final(self) == old(self).after_down(),
    {
        match self.active {
            Cell::Log => self.scroll_log(1),
            Cell::Chart => self.chart_state.zoom_out(self.log_cursor.y),
            Cell::List => self.diff_cursor.move_y(1),
        }
    }

    /// The session after PageUp: a page up in the log and in the list,
    /// three zooms in about the row of the log cursor in the chart.
    pub open spec fn after_page_up(self) -> App<'a> {
        let row = self.log_cursor.y as int;
        match self.active {
            Cell::Log => self.scrolled(-PAGE),
            Cell::Chart => App {
                chart_state: self.chart_state.zoomed_in(row).zoomed_in(row).zoomed_in(row),
                ..self
            },
            Cell::List => App { diff_cursor: self.diff_cursor.moved_y(-PAGE), ..self },
        }
    }

    pub fn on_page_up(&mut self)
        requires
            old(self).wf(),
        ensures
            final(self).wf(),
            *final(self) == old(self).after_page_up(),
    {
        match self.active {
            Cell::Log => self.scroll_log(-PAGE),
            Cell::Chart => {
                self.chart_state.zoom_in(self.log_cursor.y);
                self.chart_state.zoom_in(self.log_cursor.y);
                self.chart_state.zoom_in(self.log_cursor.y);
            },
            Cell::List => self.diff_cursor.move_y(-PAGE),
        }
    }

    /// The session after PageDown: a page down in the log and in the list,
    /// three zooms out about the row of the log cursor in the chart.
    pub open spec fn after_page_down(self) -> App<'a> {
        let row = self.log_cursor.y as int;
        match self.active {
            Cell::Log => self.scrolled(PAGE as int),
            Cell::Chart => App {
                chart_state: self.chart_state.zoomed_out(row).zoomed_out(row).zoomed_out(row),
                ..self
            },
            Cell::List => App { diff_cursor: self.diff_cursor.moved_y(PAGE as int), ..self },
        }
    }

    pub fn on_page_down(&mut self)
        requires
            old(self).wf(),
        ensures
            final(self).wf(),
            *final(self) == old(self).after_page_down(),
    {
        match self.active {
            Cell::Log => self.scroll_log(PAGE),
            Cell::Chart => {
                self.chart_state.zoom_out(self.log_cursor.y);
                self.chart_state.zoom_out(self.log_cursor.y);
                self.chart_state.zoom_out(self.log_cursor.y);
            },
            Cell::List => self.diff_cursor.move_y(PAGE),
        }
    }

    /// The session after Right: three columns right in the log and in the
    /// list, one sample column on in the chart.
    pub open spec fn after_right(self) -> App<'a> {
        match self.active {
            Cell::Log => App { log_cursor: self.log_cursor.moved_x(3), ..self },
            Cell::Chart => self.scrolled(self.chart_step(1)),
            Cell::List => App { diff_cursor: self.diff_cursor.moved_x(3), ..self },
        }
    }

    pub fn on_right(&mut self)
        requires
            old(self).wf(),
        ensures
            final(self).wf(),
            *final(self) == old(self).after_right(),
    {
        match self.active {
            Cell::Log => self.log_cursor.move_x(3),
            Cell::Chart => {
                let step = self.step_of(1);
                self.scroll_log(step)
            },
            Cell::List => self.diff_cursor.move_x(3),
        }
    }

    /// The session after Left: three columns left in the log and in the
    /// list, one sample column back in the chart.
    pub open spec fn after_left(self) -> App<'a> {
        match self.active {
            Cell::Log => App { log_cursor: self.log_cursor.moved_x(-3), ..self },
            Cell::Chart => self.scrolled(self.chart_step(-1)),
            Cell::List => App { diff_cursor: self.diff_cursor.moved_x(-3), ..self },
        }
    }

    pub fn on_left(&mut self)
        requires
            old(self).wf(),
        ensures
            final(self).wf(),
            *final(self) == old(self).after_left(),
    {
        match self.active {
            Cell::Log => self.log_cursor.move_x(-3),
            Cell::Chart => {
                let step = self.step_of(-1);
                self.scroll_log(step)
            },
            Cell::List => self.diff_cursor.move_x(-3),
        }
    }

    /// The session after Home: the left edge in the log and in the list, a
    /// page of sample columns back in the chart.
    pub open spec fn after_home(self) -> App<'a> {
        match self.active {
            Cell::Log => App { log_cursor: self.log_cursor.at_left(), ..self },
            Cell::Chart => self.scrolled(self.chart_step(-PAGE)),
            Cell::List => App { diff_cursor: self.diff_cursor.at_left(), ..self },
        }
    }

    pub fn on_home(&mut self)
        requires
            old(self).wf(),
        ensures
            final(self).wf(),
            *final(self) == old(self).after_home(),
    {
        match self.active {
            Cell::Log => self.log_cursor.move_to_left_boundary(),
            Cell::Chart => {
                let step = self.step_of(-PAGE);
                self.scroll_log(step)
            },
            Cell::List => self.diff_cursor.move_to_left_boundary(),
        }
    }

    /// The session after End: the right edge in the log and in the list, a
    /// page of sample columns on in the chart.
    pub open spec fn after_end(self) -> App<'a> {
        match self.active {
            Cell::Log => App { log_cursor: self.log_cursor.at_right(), ..self },
            Cell::Chart => self.scrolled(self.chart_step(PAGE as int)),
            Cell::List => App { diff_cursor: self.diff_cursor.at_right(), ..self },
        }
    }

    pub fn on_end(&mut self)
        requires
            old(self).wf(),
        ensures
            final(self).wf(),
            *final(self) == old(self).after_end(),
    {
        match self.active {
            Cell::Log => self.log_cursor.move_to_right_boundary(),
            Cell::Chart => {
                let step = self.step_of(PAGE);
                self.scroll_log(step)
            },
            Cell::List => self.diff_cursor.move_to_right_boundary(),
        }
    }

    /// The session after Tab: the next panel is active.
    pub open spec fn after_tab(self) -> App<'a> {
        App { active: self.active.following(), ..self }
    }

    pub fn on_tab(&mut self)
        ensures
            *final(self) == old(self).after_tab(),
            old(self).wf() ==> final(self).wf(),
    {
        self.active = self.active.next();
    }

    /// The row that the log cursor jumps to for a line: the row above it,
    /// so that the gap before the line is in view.
    pub open spec fn jump_row(line_number: usize) -> usize {
        if line_number == 0 {
            0
        } else {
            (line_number - 1) as usize
        }
    }

    /// The session after Enter: in the list, the log cursor jumps to the
    /// line of the entry under the list cursor.
    pub open spec fn after_enter(self) -> App<'a> {
        if self.active == Cell::List {
            App {
                log_cursor: Cursor {
                    y: Self::jump_row(self.largest_diffs[self.diff_cursor.y as int].line_number),
                    ..self.log_cursor
                },
                ..self
            }
        } else {
            self
        }
    }

    pub fn on_enter(&mut self)
        requires
            old(self).wf(),
        ensures
            final(self).wf(),
            *final(self) == old(self).after_enter(),
    {
        if self.active == Cell::List {
            let selected_line = self.diff_cursor.y;
            let target_line = self.largest_diffs[selected_line].line_number;
            self.log_cursor.y = if target_line == 0 {
                0
            } else {
                target_line - 1
            };
        }
    }

    /// The session after Escape: the bars of the log are unzoomed, the
    /// chart shows the whole log again; nothing changes in the list.
    pub open spec fn after_escape(self) -> App<'a> {
        match self.active {
            Cell::Log => App { log_bar_zoom: MIN_BAR_ZOOM, ..self },
            Cell::Chart => App { chart_state: self.chart_state.reset_view(), ..self },
            Cell::List => self,
        }
    }

    pub fn on_escape(&mut self)
        requires
            old(self).wf(),
        ensures
            final(self).wf(),
            *final(self) == old(self).after_escape(),
    {
        match self.active {
            Cell::Log => {
                self.log_bar_zoom = MIN_BAR_ZOOM;
            },
            Cell::Chart => self.chart_state.reset(),
            Cell::List => {},
        }
    }

    /// The session after the character `c`: a tab acts as Tab and a line
    /// feed as Enter; in the log `+` stretches the bars and `-` shrinks
    /// them; any other character changes nothing.
    pub open spec fn after_char(self, c: char) -> App<'a> {
        if c == '\t' {
            self.after_tab()
        } else if c == '\n' {
            self.after_enter()
        } else if self.active == Cell::Log && c == '+' {
            App { log_bar_zoom: stretched(self.log_bar_zoom), ..self }
        } else if self.active == Cell::Log && c == '-' {
            App { log_bar_zoom: shrunk(self.log_bar_zoom), ..self }
        } else {
            self
        }
    }

    pub fn on_char(&mut self, c: char)
        requires
            old(self).wf(),
        ensures
            final(self).wf(),
            *final(self) == old(self).after_char(c),
    {
        // Tab
        if c == '\t' {
            self.on_tab();
        }
        // Enter

        if c == '\n' {
            self.on_enter();
        }
        // +/-

        if self.active == Cell::Log {
            if c == '+' {
                let stretched = self.log_bar_zoom * 3 / 2;
                self.log_bar_zoom = if stretched > MAX_BAR_ZOOM {
                    MAX_BAR_ZOOM
                } else {
                    stretched
                };
            }
            if c == '-' {
                let shrunk = self.log_bar_zoom * 2 / 3;
                self.log_bar_zoom = if shrunk < MIN_BAR_ZOOM {
                    MIN_BAR_ZOOM
                } else {
                    shrunk
                };
            }
        }
    }

    pub fn status(&self, cell: Cell) -> (status: Status)
        ensures
            status == if cell == self.active {
                Status::Active
            } else {
                Status::Inactive
            },
    {
        if cell == self.active {
            Status::Active
        } else {
            Status::Inactive
        }
    }

    /// The session after a key.
    pub open spec fn after_key(self, key: Key) -> App<'a> {
        match key {
            Key::Char(c) => if c == 'q' {
                self
            } else {
                self.after_char(c)
            },
            Key::Down => self.after_down(),
            Key::Up => self.after_up(),
            Key::PageDown => self.after_page_down(),
            Key::PageUp => self.after_page_up(),
            Key::Home => self.after_home(),
            Key::End => self.after_end(),
            Key::Left => self.after_left(),
            Key::Right => self.after_right(),
            Key::Tab => self.after_tab(),
            Key::Enter => self.after_enter(),
            Key::Esc => self.after_escape(),
            Key::Other => self,
        }
    }
}

/// Applies a key to the session. The result says whether the key ends the
/// session, which `q` does and no other key.
pub fn handle_key(key: Key, app: &mut App) -> (quit: bool)
    requires
        old(app).wf(),
    ensures
        final(app).wf(),
        quit == (key == Key::Char('q')),
        *final(app) == old(app).after_key(key),
{
    match key {
        Key::Char(c) => {
            if c == 'q' {
                return true;
            }
            app.on_char(c)
        },
        Key::Down => app.on_down(),
        Key::Up => app.on_up(),
        Key::PageDown => app.on_page_down(),
        Key::PageUp => app.on_page_up(),
        Key::Home => app.on_home(),
        Key::End => app.on_end(),
        Key::Left => app.on_left(),
        Key::Right => app.on_right(),
        Key::Tab => app.on_tab(),
        Key::Enter => app.on_enter(),
        Key::Esc => app.on_escape(),
        Key::Other => {},
    }
    false
}

/// The part of a line that shows when the pane is scrolled `offset`
/// columns to the right: the line from that character on, and from its
/// last character on where the line is shorter.
pub open spec fn scrolled_line(line: Seq<char>, offset: int) -> Seq<char> {
    if line.len() == 0 {
        line
    } else if offset < line.len() - 1 {
        line.skip(offset)
    } else {
        line.skip(line.len() - 1)
    }
}

/// Cuts off the part of a line that is scrolled out of the log pane.
pub fn scroll_line<'a>(line: &'a str, offset: usize) -> (shown: &'a str)
    ensures
        shown@ == scrolled_line(line@, offset as int),
{
    let length = line.unicode_len();
    if length == 0 {
        return line;
    }
    let from = if offset < length - 1 {
        offset
    } else {
        length - 1
    };
    let shown = line.substring_char(from, length);
    assert(shown@ =~= line@.skip(from as int));
    shown
}

/// An entry of the list of largest gaps.
#[derive(Copy, Clone, Debug)]
pub struct DiffItem<'s> {
    /// The number of the line, which Enter jumps to
    pub line_number: usize,
    /// The label of the time before the line
    pub elapsed: &'s str,
    /// The text of the line from the scroll offset on
    pub contents: &'s str,
}

/// The part of a line that shows in the list when it is scrolled `offset`
/// columns to the right: nothing where the line is no longer than that.
pub open spec fn list_line(line: Seq<char>, offset: int) -> Seq<char> {
    if offset >= line.len() {
        Seq::empty()
    } else {
        line.skip(offset)
    }
}

/// Makes the entry of a line in the list of largest gaps.
pub fn render_diff_list_item<'s>(line: &'s AnnotatedLine<'s>, offset: usize) -> (item: DiffItem<'s>)
    ensures
        item.line_number == line.line_number,
        item.elapsed@ == line.elapsed_string@,
        item.contents@ == list_line(line.line@, offset as int),
{
    let length = line.line.unicode_len();
    let from = if offset >= length {
        length
    } else {
        offset
    };
    let contents = line.line.substring_char(from, length);
    assert(contents@ =~= list_line(line.line@, offset as int));
    DiffItem { line_number: line.line_number, elapsed: line.elapsed_string(), contents }
}

impl<'a> App<'a> {
    /// The number of the line behind the last one that shows in a log pane
    /// of `height` rows.
    pub open spec fn window_end(self, height: int) -> int {
        if self.log_cursor.y + height < self.lines.len() {
            self.log_cursor.y + height
        } else {
            self.lines.len() as int
        }
    }

    /// The numbers of the lines that show in a log pane of `height` rows:
    /// from the row of the cursor on.
    pub fn visible_lines(&self, height: usize) -> (rows: std::ops::Range<usize>)
        requires
            self.wf(),
        ensures
            rows.start == self.log_cursor.y,
            rows.end == self.window_end(height as int),
            rows.start <= rows.end <= self.lines.len(),
            rows.start < rows.end || height == 0,
    {
        let start = self.log_cursor.y;
        let end = if height < self.lines.len() - start {
            start + height
        } else {
            self.lines.len()
        };
        start..end
    }

    /// The labels of the elapsed times of the lines that show in a log
    /// pane of `height` rows.
    pub fn elapsed_labels<'s>(&'s self, height: usize) -> (labels: Vec<&'s str>)
        requires
            self.wf(),
        ensures
            labels.len() == self.window_end(height as int) - self.log_cursor.y,
            forall|k: int|
                0 <= k < labels.len() ==> (#[trigger] labels[k])@ == self.lines[self.log_cursor.y
                    + k].elapsed_string@,
    {
        let rows = self.visible_lines(height);
        let mut labels: Vec<&'s str> = Vec::new();
        let mut i = rows.start;
        while i < rows.end
            invariant
                rows.start == self.log_cursor.y,
                rows.start <= i <= rows.end <= self.lines.len(),
                labels.len() == i - rows.start,
                forall|k: int|
                    0 <= k < labels.len() ==> (#[trigger] labels[k])@ == self.lines[rows.start
                        + k].elapsed_string@,
            decreases rows.end - i,
        {
            labels.push(self.lines[i].elapsed_string());
            i = i + 1;
        }
        labels
    }

    /// The text of a log pane of `height` rows as characters and styles:
    /// each line that shows, cut at the column of the cursor, and a line
    /// feed behind it.
    pub open spec fn log_pieces(self, height: int, style: Style) -> Seq<(Seq<char>, Style)> {
        Seq::new(
            (2 * (self.window_end(height) - self.log_cursor.y)) as nat,
            |k: int|
                if k % 2 == 0 {
                    (
                        scrolled_line(
                            self.lines[self.log_cursor.y + k / 2].line@,
                            self.log_cursor.x as int,
                        ),
                        style,
                    )
                } else {
                    (seq!['\n'], style)
                },
        )
    }

    /// The ratios of the rows of a log pane of `height` rows: those of the
    /// lines from the row of the cursor on, one more than the pane has
    /// rows.
    pub open spec fn log_ratios(self, height: int) -> Seq<Fraction> {
        Seq::new(
            self.lines_within(self.log_cursor.y as int, self.log_cursor.y + height) as nat,
            |k: int| self.ratio_of(self.log_cursor.y + k),
        )
    }

    /// The widget that shows the log in a pane of `height` rows: the lines
    /// from the row of the cursor on, each from the column of the cursor
    /// on, truncated at the width of the pane, over bars that show the
    /// elapsed time of each line as a share of the largest, at the zoom of
    /// the session.
    pub fn log_widget(&self, height: u16, style: Style, bar_style: Style) -> (widget: Gaugagraph<
        'a,
    >)
        requires
            self.wf(),
        ensures
            plain_all(widget.text()) == texts_symbols(self.log_pieces(height as int, style)),
            widget.ratios() == self.log_ratios(height as int),
            widget.base_style() == style,
            !widget.wraps(),
            forall|width: u16|
                #[trigger] widget.layout(width) == (Layout {
                    width,
                    alignment: Alignment::Left,
                    bar_style,
                    zoom: self.log_bar_zoom,
                }),
    {
        let rows = self.visible_lines(height as usize);
        let offset = self.horizontal_log_scroll();
        let mut texts: Vec<Text<'a>> = Vec::new();
        let mut i = rows.start;
        let ghost pieces = self.log_pieces(height as int, style);
        while i < rows.end
            invariant
                rows.start == self.log_cursor.y,
                rows.end == self.window_end(height as int),
                rows.start <= i <= rows.end <= self.lines.len(),
                offset == self.log_cursor.x,
                texts.len() == 2 * (i - rows.start),
                pieces == self.log_pieces(height as int, style),
                forall|k: int|
                    0 <= k < texts.len() ==> ((#[trigger] texts[k]).content(), texts[k].style_over(
                        style,
                    )) == pieces[k],
            decreases rows.end - i,
        {
            proof {
                reveal_strlit("\n");
                assert("\n"@ =~= seq!['\n']);
            }
            let ghost n = texts.len() as int;
            texts.push(Text::Raw(scroll_line(self.lines[i].line, offset)));
            texts.push(Text::Raw("\n"));
            proof {
                assert(n == 2 * (i - rows.start));
                assert(n % 2 == 0 && n / 2 == i - rows.start);
                assert((n + 1) % 2 == 1);
            }
            i = i + 1;
        }
        let symbols = styled_symbols(&texts, style);
        assert(crate::reflow::pieces_of(texts@, style) =~= pieces);
        let to = if (height as usize) < usize::MAX - rows.start {
            rows.start + height as usize
        } else {
            usize::MAX
        };
        let ratios = self.elapsed_time_ratios(rows.start, to);
        assert(ratios@ =~= self.log_ratios(height as int));
        Gaugagraph::new(symbols, ratios).style(style).bar_style(bar_style).zoom(self.log_bar_zoom)
    }

    /// The entries of the list of largest gaps, each cut at the column of
    /// the list cursor.
    pub fn diff_list<'s>(&'s self) -> (items: Vec<DiffItem<'s>>)
        ensures
            items.len() == self.largest_diffs.len(),
            forall|i: int|
                0 <= i < items.len() ==> {
                    &&& (#[trigger] items[i]).line_number == self.largest_diffs[i].line_number
                    &&& items[i].elapsed@ == self.largest_diffs[i].elapsed_string@
                    &&& items[i].contents@ == list_line(
                        self.largest_diffs[i].line@,
                        self.diff_cursor.x as int,
                    )
                },
    {
        let offset = self.horizontal_diff_scroll();
        let mut items: Vec<DiffItem<'s>> = Vec::with_capacity(self.largest_diffs.len());
        for i in 0..self.largest_diffs.len()
            invariant
                offset == self.diff_cursor.x,
                items.len() == i,
                forall|k: int|
                    0 <= k < i ==> {
                        &&& (#[trigger] items[k]).line_number == self.largest_diffs[k].line_number
                        &&& items[k].elapsed@ == self.largest_diffs[k].elapsed_string@
                        &&& items[k].contents@ == list_line(
                            self.largest_diffs[k].line@,
                            self.diff_cursor.x as int,
                        )
                    },
        {
            items.push(render_diff_list_item(&self.largest_diffs[i], offset));
        }
        items
    }
}

/// A timestamp that was filled in is one of those that were there, and so
/// is in range if they are.
proof fn lemma_filled_in_range(
    timestamps: Seq<Option<Timestamp>>,
    filled: Seq<Timestamp>,
    i: int,
)
    requires
        resolves(filled, timestamps),
        exists|k: int| 0 <= k < timestamps.len() && timestamps[k] is Some,
        forall|k: int|
            0 <= k < timestamps.len() ==> (#[trigger] timestamps[k] matches Some(t) ==> t.wf()),
        0 <= i < filled.len(),
    ensures
        filled[i].wf(),
    decreases i,
{
    crate::annotate::lemma_first_resolved(timestamps);
    let first = crate::annotate::first_resolved(timestamps);
    if timestamps[i] is Some {
        assert(filled[i] == timestamps[i]->0);
    } else if i < first {
        assert(filled[i] == timestamps[first]->0);
    } else {
        assert(i > first);
        lemma_filled_in_range(timestamps, filled, i - 1);
        assert(filled[i] == filled[i - 1]);
    }
}

} // verus!
