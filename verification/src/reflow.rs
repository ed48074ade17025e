//! Packing a stream of styled symbols into rows of bounded display width.

use crate::style::Style;
use crate::text::{is_breaking_space, is_line_feed, is_newline, is_space};
use unicode_segmentation::UnicodeSegmentation;
use unicode_width::UnicodeWidthStr;
use vstd::prelude::*;

verus! {

/// One grapheme cluster and the style it is shown in.
#[derive(Copy, Clone, Debug)]
pub struct Styled<'a>(pub &'a str, pub Style);

/// The number of terminal columns that `UnicodeWidthStr::width` gives a string.
pub uninterp spec fn display_width(symbol: Seq<char>) -> nat;

/// The extended grapheme clusters of a text, in order, as
/// `UnicodeSegmentation::graphemes` yields them.
pub uninterp spec fn grapheme_clusters(text: Seq<char>) -> Seq<Seq<char>>;

/// Calls `UnicodeWidthStr::width` of the unicode-width crate. The contract
/// only gives the result its name: nothing is claimed of its size.
#[verifier::external_body]
pub(crate) fn symbol_width(symbol: &str) -> (width: usize)
    ensures
        width == display_width(symbol@),
{
    UnicodeWidthStr::width(symbol)
}

/// Calls `UnicodeSegmentation::graphemes` of the unicode-segmentation crate
/// for extended clusters and collects what the iterator yields. The contract
/// only names the clusters.
#[verifier::external_body]
fn split_graphemes<'t>(text: &'t str) -> (clusters: Vec<&'t str>)
    ensures
        clusters@.len() == grapheme_clusters(text@).len(),
        forall|i: int|
            0 <= i < clusters@.len() ==> (#[trigger] clusters@[i])@ == grapheme_clusters(text@)[i],
{
    UnicodeSegmentation::graphemes(text, true).collect()
}

/// A piece of text, in the style of the widget or in one of its own.
#[derive(Copy, Clone, Debug)]
pub enum Text<'t> {
    Raw(&'t str),
    Styled(&'t str, Style),
}

impl<'t> Text<'t> {
    /// The characters of the piece.
    pub open spec fn content(self) -> Seq<char> {
        match self {
            Text::Raw(data) => data@,
            Text::Styled(data, _) => data@,
        }
    }

    /// The style of the piece where the widget has the style `base`.
    pub open spec fn style_over(self, base: Style) -> Style {
        match self {
            Text::Raw(_) => base,
            Text::Styled(_, style) => style,
        }
    }
}

/// A symbol without the place it is stored at: its characters and style.
pub open spec fn plain(symbol: Styled) -> (Seq<char>, Style) {
    (symbol.0@, symbol.1)
}

/// A run of symbols without the places they are stored at.
pub open spec fn plain_all(symbols: Seq<Styled>) -> Seq<(Seq<char>, Style)> {
    Seq::new(symbols.len(), |i: int| plain(symbols[i]))
}

/// Pieces of text as characters and styles, where the widget has the
/// style `base`.
pub open spec fn pieces_of(texts: Seq<Text>, base: Style) -> Seq<(Seq<char>, Style)> {
    Seq::new(texts.len(), |i: int| (texts[i].content(), texts[i].style_over(base)))
}

/// The symbols of one piece of text: its grapheme clusters, each in the
/// style of the piece.
pub open spec fn text_symbols(piece: (Seq<char>, Style)) -> Seq<(Seq<char>, Style)> {
    Seq::new(
        grapheme_clusters(piece.0).len(),
        |i: int| (grapheme_clusters(piece.0)[i], piece.1),
    )
}

/// The symbols of a run of pieces, one piece after the other.
pub open spec fn texts_symbols(pieces: Seq<(Seq<char>, Style)>) -> Seq<(Seq<char>, Style)>
    decreases pieces.len(),
{
    if pieces.len() == 0 {
        Seq::empty()
    } else {
        texts_symbols(pieces.drop_last()) + text_symbols(pieces.last())
    }
}

/// Splits pieces of text into styled symbols, one for each grapheme
/// cluster.
pub fn styled_symbols<'t>(texts: &Vec<Text<'t>>, base: Style) -> (symbols: Vec<Styled<'t>>)
    ensures
        plain_all(symbols@) == texts_symbols(pieces_of(texts@, base)),
{
    let mut symbols: Vec<Styled<'t>> = Vec::new();
    let ghost pieces = pieces_of(texts@, base);
    assert(pieces.take(0) =~= Seq::empty());
    for n in 0..texts.len()
        invariant
            pieces == pieces_of(texts@, base),
            plain_all(symbols@) == texts_symbols(pieces.take(n as int)),
    {
        let (data, style) = match texts[n] {
            Text::Raw(data) => (data, base),
            Text::Styled(data, style) => (data, style),
        };
        let clusters = split_graphemes(data);
        let ghost done = symbols@;
        let ghost piece = text_symbols(pieces[n as int]);
        proof {
            assert(pieces.take(n + 1).drop_last() =~= pieces.take(n as int));
            assert(pieces.take(n + 1).last() == pieces[n as int]);
        }
        for k in 0..clusters.len()
            invariant
                0 <= n < texts.len(),
                piece.len() == clusters@.len(),
                forall|i: int|
                    0 <= i < clusters@.len() ==> (#[trigger] clusters@[i])@ == piece[i].0,
                forall|i: int| 0 <= i < piece.len() ==> (#[trigger] piece[i]).1 == style,
                plain_all(symbols@) == plain_all(done) + piece.take(k as int),
        {
            let ghost before = symbols@;
            symbols.push(Styled(clusters[k], style));
            assert(plain_all(symbols@) =~= plain_all(before).push(piece[k as int]));
            assert(plain_all(done) + piece.take(k + 1) =~= (plain_all(done) + piece.take(
                k as int,
            )).push(piece[k as int]));
        }
        assert(piece.take(clusters.len() as int) =~= piece);
    }
    assert(pieces.take(texts.len() as int) =~= pieces);
    symbols
}

/// The columns taken by a run of symbols.
pub open spec fn total_width(line: Seq<Styled>) -> nat
    decreases line.len(),
{
    if line.len() == 0 {
        0
    } else {
        total_width(line.drop_last()) + display_width(line.last().0@)
    }
}

/// What the composer does with one symbol.
#[derive(Copy, Clone, Debug, PartialEq, Eq, Structural)]
pub enum Placement {
    /// Wider than a whole row: dropped.
    Skip,
    /// A line feed: the row ends and the symbol is dropped.
    Break,
    /// No room left on this row.
    Overflow,
    /// Appended to the row.
    Append,
}

/// The placement of a symbol of `width` columns on a row of `max` columns
/// of which `used` are taken.
pub open spec fn placement(line_feed: bool, width: nat, used: nat, max: nat) -> Placement {
    if width > max {
        Placement::Skip
    } else if line_feed {
        Placement::Break
    } else if used + width > max {
        Placement::Overflow
    } else {
        Placement::Append
    }
}

/// Decides where a measured symbol goes.
pub fn place_symbol(line_feed: bool, width: usize, used: u16, max: u16) -> (p: Placement)
    ensures
        p == placement(line_feed, width as nat, used as nat, max as nat),
{
    if width > max as usize {
        Placement::Skip
    } else if line_feed {
        Placement::Break
    } else if used as usize + width > max as usize {
        Placement::Overflow
    } else {
        Placement::Append
    }
}

/// The symbols that the truncating composer puts on a row of `max` columns,
/// reading `symbols` from index `from` with `used` columns already taken.
pub open spec fn truncated_row(symbols: Seq<Styled>, max: nat, from: int, used: nat) -> Seq<Styled>
    decreases symbols.len() - from,
{
    if from < 0 || from >= symbols.len() {
        Seq::empty()
    } else {
        let width = display_width(symbols[from].0@);
        match placement(is_line_feed(symbols[from].0@), width, used, max) {
            Placement::Skip => truncated_row(symbols, max, from + 1, used),
            Placement::Break => Seq::empty(),
            Placement::Overflow => Seq::empty(),
            Placement::Append => seq![symbols[from]] + truncated_row(
                symbols,
                max,
                from + 1,
                used + width,
            ),
        }
    }
}

/// The index just behind the first line feed at or after `from`, or the
/// length of `symbols` if there is none.
pub open spec fn after_line_feed(symbols: Seq<Styled>, from: int) -> int
    decreases symbols.len() - from,
{
    if from < 0 || from >= symbols.len() {
        symbols.len() as int
    } else if is_line_feed(symbols[from].0@) {
        from + 1
    } else {
        after_line_feed(symbols, from + 1)
    }
}

/// The index from which the row after `truncated_row` starts: behind the
/// line feed that ended the row, or, where a symbol did not fit, behind the
/// line feed that ends the logical line.
pub open spec fn truncated_end(symbols: Seq<Styled>, max: nat, from: int, used: nat) -> int
    decreases symbols.len() - from,
{
    if from < 0 || from >= symbols.len() {
        symbols.len() as int
    } else {
        let width = display_width(symbols[from].0@);
        match placement(is_line_feed(symbols[from].0@), width, used, max) {
            Placement::Skip => truncated_end(symbols, max, from + 1, used),
            Placement::Break => from + 1,
            Placement::Overflow => after_line_feed(symbols, from + 1),
            Placement::Append => truncated_end(symbols, max, from + 1, used + width),
        }
    }
}

/// A state machine that truncates overhanging lines.
pub struct LineTruncator<'a> {
    symbols: Vec<Styled<'a>>,
    taken: usize,
    max_line_width: u16,
    current_line: Vec<Styled<'a>>,
}

/// The placement of a symbol by the wrapping composer: as by the
/// truncating one, but that breaking white space is dropped while the row
/// has no width yet.
pub open spec fn wrap_placement(
    line_feed: bool,
    space: bool,
    width: nat,
    used: nat,
    max: nat,
) -> Placement {
    if width > max {
        Placement::Skip
    } else if line_feed {
        Placement::Break
    } else if space && used == 0 {
        Placement::Skip
    } else if used + width > max {
        Placement::Overflow
    } else {
        Placement::Append
    }
}

/// Decides where the wrapping composer puts a measured symbol.
pub fn place_wrapped(line_feed: bool, space: bool, width: usize, used: u16, max: u16) -> (p:
    Placement)
    ensures
        p == wrap_placement(line_feed, space, width as nat, used as nat, max as nat),
{
    if width > max as usize {
        Placement::Skip
    } else if line_feed {
        Placement::Break
    } else if space && used == 0 {
        Placement::Skip
    } else if used as usize + width > max as usize {
        Placement::Overflow
    } else {
        Placement::Append
    }
}

/// The row that the wrapping composer is building.
pub struct Pending<'a> {
    /// The symbols on the row so far
    pub line: Seq<Styled<'a>>,
    /// The columns they take
    pub used: nat,
    /// How many symbols stood on the row when the latest run of breaking
    /// white space began; zero while there has been none
    pub word_end: int,
    /// The index in the source of the first symbol of that run
    pub resume: int,
    /// Whether the last symbol on the row is breaking white space
    pub in_space: bool,
}

/// An empty row.
pub open spec fn nothing_pending<'a>() -> Pending<'a> {
    Pending { line: Seq::empty(), used: 0, word_end: 0, resume: 0, in_space: false }
}

/// The row that the wrapping composer makes of `pending` and the symbols
/// from index `from` on, and the index at which the row after it starts.
///
/// Symbols wider than a row are dropped, and so is breaking white space
/// while the row has no width. A line feed ends the row, which then loses
/// the white space it ends in. A symbol that does not fit ends the row too:
/// the row is cut back to the start of its latest run of white space and
/// the next row starts from that run; without such a run the row stays as
/// it is and the next row starts with the symbol. At the end of the source
/// the row is what has been gathered.
pub open spec fn wrapped<'a>(
    symbols: Seq<Styled<'a>>,
    max: nat,
    from: int,
    pending: Pending<'a>,
) -> (Seq<Styled<'a>>, int)
    decreases symbols.len() - from,
{
    if from < 0 || from >= symbols.len() {
        (pending.line, symbols.len() as int)
    } else {
        let symbol = symbols[from];
        let width = display_width(symbol.0@);
        let space = is_breaking_space(symbol.0@);
        let starts_run = space && !pending.in_space;
        let word_end = if starts_run {
            pending.line.len() as int
        } else {
            pending.word_end
        };
        let resume = if starts_run {
            from
        } else {
            pending.resume
        };
        match wrap_placement(is_line_feed(symbol.0@), space, width, pending.used, max) {
            Placement::Skip => wrapped(symbols, max, from + 1, pending),
            Placement::Break => (
                if pending.in_space {
                    pending.line.take(pending.word_end)
                } else {
                    pending.line
                },
                from + 1,
            ),
            Placement::Overflow => if word_end != 0 {
                (pending.line.take(word_end), resume)
            } else {
                (pending.line, from)
            },
            Placement::Append => wrapped(
                symbols,
                max,
                from + 1,
                Pending {
                    line: pending.line.push(symbol),
                    used: pending.used + width,
                    word_end,
                    resume,
                    in_space: space,
                },
            ),
        }
    }
}

/// The row that the wrapping composer makes of the symbols from `from` on.
pub open spec fn wrapped_row<'a>(symbols: Seq<Styled<'a>>, max: nat, from: int) -> Seq<
    Styled<'a>,
> {
    wrapped(symbols, max, from, nothing_pending()).0
}

/// The index from which the row after `wrapped_row` starts.
pub open spec fn wrapped_end(symbols: Seq<Styled>, max: nat, from: int) -> int {
    wrapped(symbols, max, from, nothing_pending()).1
}

/// A symbol put behind a row adds its width to that of the row.
pub proof fn lemma_total_width_push(line: Seq<Styled>, symbol: Styled)
    ensures
        total_width(line.push(symbol)) == total_width(line) + display_width(symbol.0@),
{
    assert(line.push(symbol).drop_last() =~= line);
}

/// The row that a composer makes of the symbols from `from` on: by
/// wrapping where `wraps` holds, by truncating where it does not.
pub open spec fn row_at<'a>(wraps: bool, symbols: Seq<Styled<'a>>, max: nat, from: int) -> Seq<
    Styled<'a>,
> {
    if wraps {
        wrapped_row(symbols, max, from)
    } else {
        truncated_row(symbols, max, from, 0)
    }
}

/// The index from which the row after `row_at` starts.
pub open spec fn end_at(wraps: bool, symbols: Seq<Styled>, max: nat, from: int) -> int {
    if wraps {
        wrapped_end(symbols, max, from)
    } else {
        truncated_end(symbols, max, from, 0)
    }
}

/// Whether a row starts at `from`: rows have a width and the source has a
/// symbol there. Once the source is used up no row follows.
pub open spec fn row_starts(symbols: Seq<Styled>, max: nat, from: int) -> bool {
    max > 0 && from < symbols.len()
}

/// The first `limit` rows that a composer makes of the symbols from `from`
/// on, or all of them where there are fewer.
pub open spec fn rows_at<'a>(
    wraps: bool,
    symbols: Seq<Styled<'a>>,
    max: nat,
    from: int,
    limit: nat,
) -> Seq<Seq<Styled<'a>>>
    decreases limit,
{
    if limit == 0 || !row_starts(symbols, max, from) {
        Seq::empty()
    } else {
        seq![row_at(wraps, symbols, max, from)] + rows_at(
            wraps,
            symbols,
            max,
            end_at(wraps, symbols, max, from),
            (limit - 1) as nat,
        )
    }
}

/// A state machine to pack styled symbols into lines.
/// It is no iterator since it yields slices of its internal buffer.
pub trait LineComposer<'a>: Sized {
    /// The read position lies within the source.
    spec fn wf(&self) -> bool;

    /// Whether rows are wrapped at word boundaries or truncated.
    spec fn wraps(&self) -> bool;

    /// All symbols of the source, read or not.
    spec fn source(&self) -> Seq<Styled<'a>>;

    /// The index of the symbol that the next row starts from.
    spec fn position(&self) -> int;

    /// The width that no row exceeds.
    spec fn max_width(&self) -> nat;

    /// Composes the next row and its width, or reports that none is left.
    /// A row that is yielded takes at least one symbol off the source.
    fn next_line(&mut self) -> (row: Option<(&[Styled<'a>], u16)>)
        requires
            old(self).wf(),
        ensures
            final(self).wf(),
            final(self).wraps() == old(self).wraps(),
            final(self).source() == old(self).source(),
            final(self).max_width() == old(self).max_width(),
            row is Some <==> row_starts(
                old(self).source(),
                old(self).max_width(),
                old(self).position(),
            ),
            row is None ==> final(self).position() == old(self).position(),
            row is Some ==> final(self).position() == end_at(
                old(self).wraps(),
                old(self).source(),
                old(self).max_width(),
                old(self).position(),
            ),
            row is Some ==> old(self).position() < final(self).position() <= old(
                self,
            ).source().len(),
            row matches Some((line, width)) ==> line@ == row_at(
                old(self).wraps(),
                old(self).source(),
                old(self).max_width(),
                old(self).position(),
            ) && width == total_width(line@) && width <= old(self).max_width(),
    ;
}

impl<'a> LineTruncator<'a> {
    pub fn new(symbols: Vec<Styled<'a>>, max_line_width: u16) -> (composer: LineTruncator<'a>)
        ensures
            composer.wf(),
            !composer.wraps(),
            composer.source() == symbols@,
            composer.position() == 0,
            composer.max_width() == max_line_width,
    {
        LineTruncator { symbols, taken: 0, max_line_width, current_line: Vec::new() }
    }
}

impl<'a> LineComposer<'a> for LineTruncator<'a> {
    closed spec fn wf(&self) -> bool {
        self.taken <= self.symbols.len()
    }

    open spec fn wraps(&self) -> bool {
        false
    }

    closed spec fn source(&self) -> Seq<Styled<'a>> {
        self.symbols@
    }

    closed spec fn position(&self) -> int {
        self.taken as int
    }

    closed spec fn max_width(&self) -> nat {
        self.max_line_width as nat
    }

    fn next_line(&mut self) -> (row: Option<(&[Styled<'a>], u16)>) {
        if self.max_line_width == 0 || self.taken >= self.symbols.len() {
            return None;
        }
        self.current_line.truncate(0);
        let mut used: u16 = 0;
        let mut skip_rest = false;
        let mut ended = false;
        let ghost start = self.taken as int;
        while !ended && self.taken < self.symbols.len()
            invariant
                self.symbols == old(self).symbols,
                self.max_line_width == old(self).max_line_width,
                self.max_line_width > 0,
                start <= self.taken <= self.symbols.len(),
                start < self.symbols.len(),
                ended ==> start < self.taken,
                used == total_width(self.current_line@),
                used <= self.max_line_width,
                skip_rest ==> ended,
                !ended ==> truncated_row(self.symbols@, self.max_line_width as nat, start, 0)
                    == self.current_line@ + truncated_row(
                    self.symbols@,
                    self.max_line_width as nat,
                    self.taken as int,
                    used as nat,
                ),
                !ended ==> truncated_end(self.symbols@, self.max_line_width as nat, start, 0)
                    == truncated_end(
                    self.symbols@,
                    self.max_line_width as nat,
                    self.taken as int,
                    used as nat,
                ),
                ended ==> truncated_row(self.symbols@, self.max_line_width as nat, start, 0)
                    == self.current_line@,
                ended && !skip_rest ==> truncated_end(
                    self.symbols@,
                    self.max_line_width as nat,
                    start,
                    0,
                ) == self.taken,
                ended && skip_rest ==> truncated_end(
                    self.symbols@,
                    self.max_line_width as nat,
                    start,
                    0,
                ) == after_line_feed(self.symbols@, self.taken as int),
            decreases self.symbols.len() - self.taken + if ended { 0int } else { 1int },
        {
            let Styled(symbol, style) = self.symbols[self.taken];
            let ghost before = self.current_line@;
            self.taken = self.taken + 1;
            let width = symbol_width(symbol);
            match place_symbol(is_newline(symbol), width, used, self.max_line_width) {
                Placement::Skip => {},
                Placement::Break => {
                    ended = true;
                },
                Placement::Overflow => {
                    skip_rest = true;
                    ended = true;
                },
                Placement::Append => {
                    used = used + width as u16;
                    self.current_line.push(Styled(symbol, style));
                    proof {
                        assert(self.current_line@.drop_last() =~= before);
                        assert(self.current_line@.last() == self.symbols@[self.taken - 1]);
                        assert(before + (seq![self.symbols@[self.taken - 1]] + truncated_row(
                            self.symbols@,
                            self.max_line_width as nat,
                            self.taken as int,
                            used as nat,
                        )) =~= self.current_line@ + truncated_row(
                            self.symbols@,
                            self.max_line_width as nat,
                            self.taken as int,
                            used as nat,
                        ));
                    }
                },
            }
        }
        if skip_rest {
            let mut found = false;
            while !found && self.taken < self.symbols.len()
                invariant
                    self.symbols == old(self).symbols,
                    self.max_line_width == old(self).max_line_width,
                    self.current_line@ == truncated_row(
                        self.symbols@,
                        self.max_line_width as nat,
                        start,
                        0,
                    ),
                    used == total_width(self.current_line@),
                    start < self.taken <= self.symbols.len(),
                    !found ==> truncated_end(self.symbols@, self.max_line_width as nat, start, 0)
                        == after_line_feed(self.symbols@, self.taken as int),
                    found ==> truncated_end(self.symbols@, self.max_line_width as nat, start, 0)
                        == self.taken,
                decreases self.symbols.len() - self.taken + if found { 0int } else { 1int },
            {
                let Styled(symbol, _) = self.symbols[self.taken];
                self.taken = self.taken + 1;
                if is_newline(symbol) {
                    found = true;
                }
            }
        }
        Some((self.current_line.as_slice(), used))
    }
}

/// A state machine that wraps lines on word boundaries.
pub struct WordWrapper<'a> {
    symbols: Vec<Styled<'a>>,
    taken: usize,
    max_line_width: u16,
    current_line: Vec<Styled<'a>>,
}

impl<'a> WordWrapper<'a> {
    pub fn new(symbols: Vec<Styled<'a>>, max_line_width: u16) -> (composer: WordWrapper<'a>)
        ensures
            composer.wf(),
            composer.wraps(),
            composer.source() == symbols@,
            composer.position() == 0,
            composer.max_width() == max_line_width,
    {
        WordWrapper { symbols, taken: 0, max_line_width, current_line: Vec::new() }
    }
}

impl<'a> LineComposer<'a> for WordWrapper<'a> {
    closed spec fn wf(&self) -> bool {
        self.taken <= self.symbols.len()
    }

    open spec fn wraps(&self) -> bool {
        true
    }

    closed spec fn source(&self) -> Seq<Styled<'a>> {
        self.symbols@
    }

    closed spec fn position(&self) -> int {
        self.taken as int
    }

    closed spec fn max_width(&self) -> nat {
        self.max_line_width as nat
    }

    fn next_line(&mut self) -> (row: Option<(&[Styled<'a>], u16)>) {
        if self.max_line_width == 0 || self.taken >= self.symbols.len() {
            return None;
        }
        self.current_line.truncate(0);
        let max = self.max_line_width;
        let mut used: u16 = 0;
        let mut word_end: usize = 0;
        let mut width_at_word_end: u16 = 0;
        let mut resume: usize = 0;
        let mut in_space = false;
        let mut ended = false;
        let ghost start = self.taken as int;
        let ghost source = self.symbols@;
        let ghost goal = wrapped(source, max as nat, start, nothing_pending());
        assert(self.current_line@ =~= Seq::empty());
        while !ended && self.taken < self.symbols.len()
            invariant
                self.symbols@ == source,
                source == old(self).symbols@,
                self.max_line_width == max,
                max == old(self).max_line_width,
                max > 0,
                start == old(self).taken,
                start < source.len(),
                start <= self.taken <= source.len(),
                used == total_width(self.current_line@),
                used <= max,
                goal == wrapped(source, max as nat, start, nothing_pending()),
                !ended ==> {
                    &&& goal == wrapped(
                        source,
                        max as nat,
                        self.taken as int,
                        Pending {
                            line: self.current_line@,
                            used: used as nat,
                            word_end: word_end as int,
                            resume: resume as int,
                            in_space,
                        },
                    )
                    &&& word_end <= self.current_line@.len()
                    &&& (word_end != 0 ==> start < resume < self.taken && width_at_word_end
                        == total_width(self.current_line@.take(word_end as int))
                        && width_at_word_end <= max)
                    &&& (in_space ==> word_end != 0)
                    &&& (used > 0 ==> start < self.taken)
                },
                ended ==> goal == (self.current_line@, self.taken as int) && start < self.taken,
            decreases
                    (if ended {
                        0int
                    } else {
                        1int
                    }),
                    source.len() - self.taken,
        {
            let Styled(symbol, style) = self.symbols[self.taken];
            let width = symbol_width(symbol);
            let space = is_space(symbol);
            let ghost before = self.current_line@;
            match place_wrapped(is_newline(symbol), space, width, used, max) {
                Placement::Skip => {
                    self.taken = self.taken + 1;
                },
                Placement::Break => {
                    self.taken = self.taken + 1;
                    if in_space {
                        self.current_line.truncate(word_end);
                        used = width_at_word_end;
                    }
                    ended = true;
                },
                Placement::Overflow => {
                    if space && !in_space {
                        word_end = self.current_line.len();
                        width_at_word_end = used;
                        resume = self.taken;
                        assert(before.take(word_end as int) =~= before);
                    }
                    if word_end != 0 {
                        self.current_line.truncate(word_end);
                        used = width_at_word_end;
                        self.taken = resume;
                    }
                    ended = true;
                },
                Placement::Append => {
                    if space && !in_space {
                        word_end = self.current_line.len();
                        width_at_word_end = used;
                        resume = self.taken;
                        assert(before.take(word_end as int) =~= before);
                    }
                    self.current_line.push(Styled(symbol, style));
                    used = used + width as u16;
                    in_space = space;
                    self.taken = self.taken + 1;
                    proof {
                        lemma_total_width_push(before, source[self.taken - 1]);
                        assert(self.current_line@ == before.push(source[self.taken - 1]));
                        assert(self.current_line@.take(word_end as int) =~= before.take(
                            word_end as int,
                        ));
                    }
                },
            }
        }
        Some((self.current_line.as_slice(), used))
    }
}

} // verus!
