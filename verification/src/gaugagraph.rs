//! Text rows with a bar laid under them whose length shows a ratio.

use crate::reflow::{
    end_at, lemma_total_width_push, row_at, row_starts, rows_at, symbol_width, total_width,
    LineComposer, LineTruncator, Styled, WordWrapper,
};
use crate::style::Style;
use vstd::prelude::*;

verus! {

/// Where a row stands within the width of its area.
#[derive(Copy, Clone, Debug, PartialEq, Eq, Structural)]
pub enum Alignment {
    Left,
    Center,
    Right,
}

/// A signed ratio `num / den`. A denominator that is not positive makes the
/// ratio count as zero.
#[derive(Copy, Clone, Debug, PartialEq, Eq, Structural)]
pub struct Fraction {
    pub num: i64,
    pub den: i64,
}

/// One cell to draw: a symbol at a column of a row, and its style.
#[derive(Copy, Clone, Debug)]
pub struct Painted<'t> {
    pub x: u16,
    pub y: u16,
    pub symbol: &'t str,
    pub style: Style,
}

/// The zoom of the bars at which a ratio of one fills the row, in
/// thousandths.
pub const UNIT_ZOOM: u32 = 1000;

/// The column at which a row of `line_width` columns starts in an area of
/// `text_area_width` columns.
pub open spec fn line_offset(line_width: nat, text_area_width: nat, alignment: Alignment) -> nat {
    match alignment {
        Alignment::Center => if text_area_width / 2 >= line_width / 2 {
            (text_area_width / 2 - line_width / 2) as nat
        } else {
            0
        },
        Alignment::Right => if text_area_width >= line_width {
            (text_area_width - line_width) as nat
        } else {
            0
        },
        Alignment::Left => 0,
    }
}

pub fn get_line_offset(line_width: u16, text_area_width: u16, alignment: Alignment) -> (offset:
    u16)
    ensures
        offset == line_offset(line_width as nat, text_area_width as nat, alignment),
        line_width <= text_area_width ==> offset + line_width <= text_area_width,
{
    match alignment {
        Alignment::Center => {
            let half_area = text_area_width / 2;
            let half_line = line_width / 2;
            if half_area >= half_line {
                half_area - half_line
            } else {
                0
            }
        },
        Alignment::Right => if text_area_width >= line_width {
            text_area_width - line_width
        } else {
            0
        },
        Alignment::Left => 0,
    }
}

/// The number of columns, from the left of a row of `width` columns, that
/// the bar of `ratio` covers at `zoom` thousandths: `ratio * zoom / 1000`
/// of the row, rounded down and held within the row. A ratio that is not
/// positive has no bar.
pub open spec fn bar_cutoff(ratio: Fraction, zoom: nat, width: nat) -> nat {
    if ratio.num <= 0 || ratio.den <= 0 {
        0
    } else {
        let columns = (ratio.num * zoom * width) / (ratio.den * 1000);
        if columns > width {
            width
        } else {
            columns as nat
        }
    }
}

proof fn lemma_cutoff_fits(num: int, zoom: int, width: int, den: int)
    by (nonlinear_arith)
    requires
        0 < num <= 0x7fff_ffff_ffff_ffff,
        0 <= zoom <= 0xffff_ffff,
        0 <= width <= 0xffff,
        0 < den <= 0x7fff_ffff_ffff_ffff,
    ensures
        0 <= num * zoom <= 0x7fff_ffff_ffff_ffff * 0xffff_ffff,
        0 <= num * zoom * width <= 0x7fff_ffff_ffff_ffff * 0xffff_ffff * 0xffff,
        0 < den * 1000 <= 0x7fff_ffff_ffff_ffff * 1000,
        0 <= (num * zoom * width) / (den * 1000),
{
}

/// Computes the column at which the bar of a row ends.
pub fn cutoff_column(ratio: Fraction, zoom: u32, width: u16) -> (cutoff: u16)
    ensures
        cutoff == bar_cutoff(ratio, zoom as nat, width as nat),
        cutoff <= width,
{
    if ratio.num <= 0 || ratio.den <= 0 {
        return 0;
    }
    proof {
        lemma_cutoff_fits(ratio.num as int, zoom as int, width as int, ratio.den as int);
    }
    let scaled: u128 = ratio.num as u128 * zoom as u128 * width as u128;
    let columns: u128 = scaled / (ratio.den as u128 * 1000);
    if columns > width as u128 {
        width
    } else {
        columns as u16
    }
}

/// The cell of symbol `i` of a row that starts at column `offset`: it
/// stands behind the symbols before it, and it is shown in the style of
/// the bar where its column lies before `cutoff`, in its own elsewhere.
pub open spec fn symbol_cell<'t>(
    line: Seq<Styled<'t>>,
    i: int,
    offset: nat,
    y: u16,
    cutoff: nat,
    bar_style: Style,
) -> Painted<'t> {
    let x = offset + total_width(line.take(i));
    Painted {
        x: x as u16,
        y,
        symbol: line[i].0,
        style: if x < cutoff {
            bar_style
        } else {
            line[i].1
        },
    }
}

/// The blank cell that carries the bar over column `x`.
pub open spec fn blank_cell<'t>(x: nat, y: u16, bar_style: Style) -> Painted<'t> {
    Painted { x: x as u16, y, symbol: " ", style: bar_style }
}

/// The cells of a row with its bar: one for each symbol, and behind the
/// last symbol one blank for each column that the bar still has to cover.
pub open spec fn overlaid<'t>(
    line: Seq<Styled<'t>>,
    offset: nat,
    y: u16,
    cutoff: nat,
    bar_style: Style,
) -> Seq<Painted<'t>> {
    let end = offset + total_width(line);
    Seq::new(line.len(), |i: int| symbol_cell(line, i, offset, y, cutoff, bar_style)) + Seq::new(
        if cutoff > end {
            (cutoff - end) as nat
        } else {
            0
        },
        |j: int| blank_cell((end + j) as nat, y, bar_style),
    )
}

/// Lays the bar under one composed row.
pub fn overlay_row<'t>(
    line: &[Styled<'t>],
    offset: u16,
    y: u16,
    cutoff: u16,
    bar_style: Style,
) -> (cells: Vec<Painted<'t>>)
    requires
        offset + total_width(line@) <= u16::MAX,
    ensures
        cells@ == overlaid(line@, offset as nat, y, cutoff as nat, bar_style),
{
    let mut cells: Vec<Painted<'t>> = Vec::new();
    let mut x: u16 = offset;
    let mut i: usize = 0;
    assert(line@.take(0) =~= Seq::empty());
    while i < line.len()
        invariant
            i <= line.len(),
            offset + total_width(line@) <= u16::MAX,
            x == offset + total_width(line@.take(i as int)),
            total_width(line@.take(i as int)) <= total_width(line@),
            cells@ == Seq::new(
                i as nat,
                |k: int| symbol_cell(line@, k, offset as nat, y, cutoff as nat, bar_style),
            ),
        decreases line.len() - i,
    {
        let Styled(symbol, style) = line[i];
        let width = symbol_width(symbol);
        proof {
            assert(line@.take(i + 1) =~= line@.take(i as int).push(line@[i as int]));
            lemma_total_width_push(line@.take(i as int), line@[i as int]);
            lemma_width_of_prefix(line@, i + 1);
        }
        let shown = if x < cutoff {
            bar_style
        } else {
            style
        };
        let ghost before = cells@;
        cells.push(Painted { x, y, symbol, style: shown });
        assert(cells@ =~= Seq::new(
            (i + 1) as nat,
            |k: int| symbol_cell(line@, k, offset as nat, y, cutoff as nat, bar_style),
        ));
        x = x + width as u16;
        i = i + 1;
    }
    assert(line@.take(line.len() as int) =~= line@);
    let ghost symbols = cells@;
    let end = x;
    while x < cutoff
        invariant
            end <= x,
            end == offset + total_width(line@),
            x <= cutoff || x == end,
            cells@ == symbols + Seq::new(
                (x - end) as nat,
                |j: int| blank_cell((end + j) as nat, y, bar_style),
            ),
        decreases cutoff - x,
    {
        cells.push(Painted { x, y, symbol: " ", style: bar_style });
        x = x + 1;
        assert(cells@ =~= symbols + Seq::new(
            (x - end) as nat,
            |j: int| blank_cell((end + j) as nat, y, bar_style),
        ));
    }
    assert(cells@ =~= overlaid(line@, offset as nat, y, cutoff as nat, bar_style));
    cells
}

/// A prefix of a row is no wider than the row.
proof fn lemma_width_of_prefix(line: Seq<Styled>, n: int)
    requires
        0 <= n <= line.len(),
    ensures
        total_width(line.take(n)) <= total_width(line),
    decreases line.len() - n,
{
    if n < line.len() {
        lemma_width_of_prefix(line, n + 1);
        assert(line.take(n + 1) =~= line.take(n).push(line[n]));
        lemma_total_width_push(line.take(n), line[n]);
    } else {
        assert(line.take(n) =~= line);
    }
}

/// The ratio of row `y`, or zero where `ratios` has no entry for it.
pub open spec fn ratio_at(ratios: Seq<Fraction>, y: int) -> Fraction {
    if 0 <= y < ratios.len() {
        ratios[y]
    } else {
        Fraction { num: 0, den: 1 }
    }
}

/// How rows are laid out and overlaid.
#[derive(Copy, Clone, Debug)]
pub struct Layout {
    /// The width of the area
    pub width: u16,
    /// Where a row stands within the width
    pub alignment: Alignment,
    /// The style of the bar
    pub bar_style: Style,
    /// The zoom of the bars in thousandths
    pub zoom: u32,
}

/// The cells of row `y`, which holds the symbols `line`.
pub open spec fn painted_row<'t>(
    line: Seq<Styled<'t>>,
    y: int,
    ratios: Seq<Fraction>,
    layout: Layout,
) -> Seq<Painted<'t>> {
    overlaid(
        line,
        line_offset(total_width(line), layout.width as nat, layout.alignment),
        y as u16,
        bar_cutoff(ratio_at(ratios, y), layout.zoom as nat, layout.width as nat),
        layout.bar_style,
    )
}

/// Composes up to `height` rows and lays the bar of its ratio under each.
fn paint_rows<'t, C: LineComposer<'t>>(
    composer: &mut C,
    height: u16,
    ratios: &Vec<Fraction>,
    layout: Layout,
) -> (rows: Vec<Vec<Painted<'t>>>)
    requires
        old(composer).wf(),
        old(composer).max_width() == layout.width,
    ensures
        rows@.len() == rows_at(
            old(composer).wraps(),
            old(composer).source(),
            layout.width as nat,
            old(composer).position(),
            height as nat,
        ).len(),
        forall|y: int|
            0 <= y < rows@.len() ==> (#[trigger] rows@[y])@ == painted_row(
                rows_at(
                    old(composer).wraps(),
                    old(composer).source(),
                    layout.width as nat,
                    old(composer).position(),
                    height as nat,
                )[y],
                y,
                ratios@,
                layout,
            ),
{
    let mut rows: Vec<Vec<Painted<'t>>> = Vec::new();
    let mut y: u16 = 0;
    let mut more = true;
    let ghost wraps = composer.wraps();
    let ghost source = composer.source();
    let ghost max = layout.width as nat;
    let ghost goal = rows_at(wraps, source, max, composer.position(), height as nat);
    let ghost done: Seq<Seq<Styled<'t>>> = Seq::empty();
    assert(goal =~= done + goal);
    while more && y < height
        invariant
            composer.wf(),
            composer.wraps() == wraps,
            composer.source() == source,
            composer.max_width() == max,
            max == layout.width,
            y <= height,
            rows@.len() == y,
            done.len() == y,
            more ==> goal == done + rows_at(
                wraps,
                source,
                max,
                composer.position(),
                (height - y) as nat,
            ),
            !more ==> goal == done,
            forall|j: int|
                0 <= j < y ==> (#[trigger] rows@[j])@ == painted_row(done[j], j, ratios@, layout),
        decreases
                (if more {
                    1int
                } else {
                    0int
                }),
                height - y,
    {
        let ghost position = composer.position();
        let ghost rest = rows_at(wraps, source, max, position, (height - y) as nat);
        match composer.next_line() {
            Some((line, line_width)) => {
                let ratio = if (y as usize) < ratios.len() {
                    ratios[y as usize]
                } else {
                    Fraction { num: 0, den: 1 }
                };
                let cutoff = cutoff_column(ratio, layout.zoom, layout.width);
                let offset = get_line_offset(line_width, layout.width, layout.alignment);
                let cells = overlay_row(line, offset, y, cutoff, layout.bar_style);
                proof {
                    let next = rows_at(
                        wraps,
                        source,
                        max,
                        end_at(wraps, source, max, position),
                        (height - y - 1) as nat,
                    );
                    assert(rest == seq![line@] + next);
                    assert(done + rest =~= done.push(line@) + next);
                    done = done.push(line@);
                }
                rows.push(cells);
                y = y + 1;
            },
            None => {
                proof {
                    assert(rest =~= Seq::empty());
                    assert(done + rest =~= done);
                }
                more = false;
            },
        }
    }
    proof {
        if more {
            assert(rows_at(wraps, source, max, composer.position(), 0) =~= Seq::empty());
            assert(goal =~= done);
        }
    }
    rows
}

/// A block of text whose rows carry bars: the bar of a row covers the
/// share of the width that the ratio of the row gives it.
pub struct Gaugagraph<'t> {
    /// Widget style
    style: Style,
    /// The style of the part of a row that the bar covers
    bar_style: Style,
    /// The text to display
    text: Vec<Styled<'t>>,
    /// Should we parse the text for embedded commands
    raw: bool,
    /// Should rows be wrapped at word boundaries
    wrap: bool,
    /// Alignment of the text
    alignment: Alignment,
    /// The ratio of each row
    ratios: Vec<Fraction>,
    /// The zoom of the bars in thousandths
    zoom: u32,
}

impl<'t> Gaugagraph<'t> {
    /// The symbols of the text.
    pub closed spec fn text(self) -> Seq<Styled<'t>> {
        self.text@
    }

    /// The ratios of the rows.
    pub closed spec fn ratios(self) -> Seq<Fraction> {
        self.ratios@
    }

    /// The style of the widget.
    pub closed spec fn base_style(self) -> Style {
        self.style
    }

    /// Whether text is taken as it is.
    pub closed spec fn is_raw(self) -> bool {
        self.raw
    }

    /// Whether rows are wrapped.
    pub closed spec fn wraps(self) -> bool {
        self.wrap
    }

    /// How rows are laid out in an area of `width` columns.
    pub closed spec fn layout(self, width: u16) -> Layout {
        Layout { width, alignment: self.alignment, bar_style: self.bar_style, zoom: self.zoom }
    }

    /// A widget that truncates its rows, aligns them left and draws its
    /// bars unzoomed in the plain style.
    pub fn new(text: Vec<Styled<'t>>, ratios: Vec<Fraction>) -> (widget: Gaugagraph<'t>)
        ensures
            widget.text() == text@,
            widget.ratios() == ratios@,
            widget.base_style() == Style::plain(),
            !widget.is_raw(),
            !widget.wraps(),
            forall|width: u16|
                #[trigger] widget.layout(width) == (Layout {
                    width,
                    alignment: Alignment::Left,
                    bar_style: Style::plain(),
                    zoom: UNIT_ZOOM,
                }),
    {
        Gaugagraph {
            style: Style::new(),
            bar_style: Style::new(),
            text,
            raw: false,
            wrap: false,
            alignment: Alignment::Left,
            ratios,
            zoom: UNIT_ZOOM,
        }
    }

    pub fn style(self, style: Style) -> (widget: Gaugagraph<'t>)
        ensures
            widget.base_style() == style,
            widget.text() == self.text(),
            widget.ratios() == self.ratios(),
            widget.is_raw() == self.is_raw(),
            widget.wraps() == self.wraps(),
            forall|width: u16| #[trigger] widget.layout(width) == self.layout(width),
    {
        let mut widget = self;
        widget.style = style;
        widget
    }

    pub fn bar_style(self, style: Style) -> (widget: Gaugagraph<'t>)
        ensures
            widget.base_style() == self.base_style(),
            widget.text() == self.text(),
            widget.ratios() == self.ratios(),
            widget.is_raw() == self.is_raw(),
            widget.wraps() == self.wraps(),
            forall|width: u16|
                #[trigger] widget.layout(width) == (Layout { bar_style: style, ..self.layout(width) }),
    {
        let mut widget = self;
        widget.bar_style = style;
        widget
    }

    pub fn raw(self, flag: bool) -> (widget: Gaugagraph<'t>)
        ensures
            widget.is_raw() == flag,
            widget.base_style() == self.base_style(),
            widget.text() == self.text(),
            widget.ratios() == self.ratios(),
            widget.wraps() == self.wraps(),
            forall|width: u16| #[trigger] widget.layout(width) == self.layout(width),
    {
        let mut widget = self;
        widget.raw = flag;
        widget
    }

    pub fn wrap(self, flag: bool) -> (widget: Gaugagraph<'t>)
        ensures
            widget.wraps() == flag,
            widget.base_style() == self.base_style(),
            widget.text() == self.text(),
            widget.ratios() == self.ratios(),
            widget.is_raw() == self.is_raw(),
            forall|width: u16| #[trigger] widget.layout(width) == self.layout(width),
    {
        let mut widget = self;
        widget.wrap = flag;
        widget
    }

    pub fn alignment(self, alignment: Alignment) -> (widget: Gaugagraph<'t>)
        ensures
            widget.base_style() == self.base_style(),
            widget.text() == self.text(),
            widget.ratios() == self.ratios(),
            widget.is_raw() == self.is_raw(),
            widget.wraps() == self.wraps(),
            forall|width: u16|
                #[trigger] widget.layout(width) == (Layout { alignment, ..self.layout(width) }),
    {
        let mut widget = self;
        widget.alignment = alignment;
        widget
    }

    pub fn zoom(self, zoom: u32) -> (widget: Gaugagraph<'t>)
        ensures
            widget.base_style() == self.base_style(),
            widget.text() == self.text(),
            widget.ratios() == self.ratios(),
            widget.is_raw() == self.is_raw(),
            widget.wraps() == self.wraps(),
            forall|width: u16|
                #[trigger] widget.layout(width) == (Layout { zoom, ..self.layout(width) }),
    {
        let mut widget = self;
        widget.zoom = zoom;
        widget
    }

    /// The cells of the widget in an area of `width` by `height`: row `y`
    /// of the result holds the cells of the row that is composed as number
    /// `y`, with the bar of ratio `y` under it. There are as many rows as
    /// the text gives, and `height` at most.
    pub fn draw(self, width: u16, height: u16) -> (rows: Vec<Vec<Painted<'t>>>)
        ensures
            rows@.len() == rows_at(self.wraps(), self.text(), width as nat, 0, height as nat).len(),
            rows@.len() <= height,
            forall|y: int|
                0 <= y < rows@.len() ==> (#[trigger] rows@[y])@ == painted_row(
                    rows_at(self.wraps(), self.text(), width as nat, 0, height as nat)[y],
                    y,
                    self.ratios(),
                    self.layout(width),
                ),
    {
        let layout = Layout {
            width,
            alignment: self.alignment,
            bar_style: self.bar_style,
            zoom: self.zoom,
        };
        proof {
            lemma_rows_within_limit(self.wrap, self.text@, width as nat, 0, height as nat);
        }
        if self.wrap {
            let mut composer = WordWrapper::new(self.text, width);
            paint_rows(&mut composer, height, &self.ratios, layout)
        } else {
            let mut composer = LineTruncator::new(self.text, width);
            paint_rows(&mut composer, height, &self.ratios, layout)
        }
    }
}

/// No more rows are composed than the limit allows.
pub proof fn lemma_rows_within_limit(
    wraps: bool,
    symbols: Seq<Styled>,
    max: nat,
    from: int,
    limit: nat,
)
    ensures
        rows_at(wraps, symbols, max, from, limit).len() <= limit,
    decreases limit,
{
    if limit > 0 && row_starts(symbols, max, from) {
        lemma_rows_within_limit(
            wraps,
            symbols,
            max,
            end_at(wraps, symbols, max, from),
            (limit - 1) as nat,
        );
    }
}

} // verus!
