use lag::reflow::{
    place_symbol, place_wrapped, styled_symbols, LineComposer, LineTruncator, Placement, Styled,
    Text, WordWrapper,
};
use lag::style::{Color, Style};

fn symbols_of(text: &str) -> Vec<Styled<'_>> {
    styled_symbols(&vec![Text::Raw(text)], Style::new())
}

fn text_of(line: &[Styled<'_>]) -> String {
    line.iter().map(|s| s.0).collect()
}

fn compose<'a, C: LineComposer<'a>>(composer: &mut C) -> Vec<(String, u16)> {
    let mut rows = Vec::new();
    while let Some((line, width)) = composer.next_line() {
        rows.push((text_of(line), width));
        assert!(rows.len() < 1000);
    }
    assert!(composer.next_line().is_none());
    rows
}

fn truncate(text: &str, width: u16) -> Vec<(String, u16)> {
    compose(&mut LineTruncator::new(symbols_of(text), width))
}

fn wrap(text: &str, width: u16) -> Vec<(String, u16)> {
    compose(&mut WordWrapper::new(symbols_of(text), width))
}

fn rows(lines: &[(&str, u16)]) -> Vec<(String, u16)> {
    lines.iter().map(|(text, width)| (text.to_string(), *width)).collect()
}

#[test]
fn truncator_cuts_each_line_at_the_width() {
    assert_eq!(truncate("abc\ndef", 2), rows(&[("ab", 2), ("de", 2)]));
}

#[test]
fn wrapper_breaks_at_the_space() {
    assert_eq!(wrap("hello world", 7), rows(&[("hello", 5), ("world", 5)]));
}

#[test]
fn truncator_keeps_short_lines_and_empty_ones() {
    assert_eq!(truncate("ab\n\ncd\n", 5), rows(&[("ab", 2), ("", 0), ("cd", 2)]));
}

#[test]
fn truncator_yields_one_last_line_at_the_end() {
    assert_eq!(truncate("ab\ncd", 5), rows(&[("ab", 2), ("cd", 2)]));
    assert_eq!(truncate("", 5), rows(&[]));
}

#[test]
fn composers_of_no_width_yield_nothing() {
    assert_eq!(truncate("abc", 0), rows(&[]));
    assert_eq!(wrap("abc", 0), rows(&[]));
}

#[test]
fn truncator_skips_symbols_wider_than_the_row() {
    // Each ideograph takes two columns.
    assert_eq!(truncate("a\u{4e16}b\u{754c}c", 1), rows(&[("a", 1)]));
    assert_eq!(truncate("\u{4e16}\u{754c}", 1), rows(&[("", 0)]));
}

#[test]
fn truncator_measures_wide_symbols() {
    assert_eq!(truncate("\u{4e16}\u{754c}x", 4), rows(&[("\u{4e16}\u{754c}", 4)]));
    assert_eq!(truncate("a\u{4e16}\u{754c}", 4), rows(&[("a\u{4e16}", 3)]));
}

#[test]
fn symbols_are_grapheme_clusters() {
    let symbols = symbols_of("e\u{301}a\r\nb");
    let texts: Vec<&str> = symbols.iter().map(|s| s.0).collect();
    assert_eq!(texts, vec!["e\u{301}", "a", "\r\n", "b"]);
}

#[test]
fn symbols_carry_the_style_of_their_piece() {
    let red = Style::new().fg(Color::Rgb(255, 0, 0));
    let plain = Style::new().bg(Color::Rgb(1, 2, 3));
    let symbols = styled_symbols(&vec![Text::Raw("ab"), Text::Styled("c", red), Text::Raw("")], plain);
    assert_eq!(symbols.len(), 3);
    assert_eq!((symbols[0].0, symbols[0].1), ("a", plain));
    assert_eq!((symbols[1].0, symbols[1].1), ("b", plain));
    assert_eq!((symbols[2].0, symbols[2].1), ("c", red));
}

#[test]
fn wrapper_loses_no_word() {
    assert_eq!(
        wrap("the quick brown fox", 10),
        rows(&[("the quick", 9), ("brown fox", 9)])
    );
    assert_eq!(wrap("ab cd e", 5), rows(&[("ab cd", 5), ("e", 1)]));
}

#[test]
fn wrapper_cuts_a_word_longer_than_the_row() {
    assert_eq!(wrap("abcdefgh", 3), rows(&[("abc", 3), ("def", 3), ("gh", 2)]));
    assert_eq!(wrap("ab cdefgh i", 4), rows(&[("ab", 2), ("cdef", 4), ("gh i", 4)]));
}

#[test]
fn wrapper_skips_leading_space_and_trims_before_a_line_feed() {
    assert_eq!(wrap("  ab  \n cd", 10), rows(&[("ab", 2), ("cd", 2)]));
    assert_eq!(wrap("ab\n\ncd", 10), rows(&[("ab", 2), ("", 0), ("cd", 2)]));
}

#[test]
fn wrapper_never_breaks_at_a_no_break_space() {
    assert_eq!(wrap("ab\u{a0}cd ef", 6), rows(&[("ab\u{a0}cd", 5), ("ef", 2)]));
    assert_eq!(wrap("\u{a0}ab", 6), rows(&[("\u{a0}ab", 3)]));
    assert_eq!(wrap("ab\u{a0}\ncd", 6), rows(&[("ab\u{a0}", 3), ("cd", 2)]));
}

#[test]
fn wrapper_keeps_rows_within_the_width_with_wide_symbols() {
    assert_eq!(
        wrap("a\tbc\u{4e16}", 3),
        rows(&[("a", 1), ("bc", 2), ("\u{4e16}", 2)])
    );
}

#[test]
fn placement_of_a_measured_symbol() {
    assert_eq!(place_symbol(false, 3, 0, 2), Placement::Skip);
    assert_eq!(place_symbol(true, 1, 1, 2), Placement::Break);
    assert_eq!(place_symbol(false, 2, 1, 2), Placement::Overflow);
    assert_eq!(place_symbol(false, 1, 1, 2), Placement::Append);
    assert_eq!(place_symbol(true, 3, 0, 2), Placement::Skip);
}

#[test]
fn wrapped_placement_of_a_measured_symbol() {
    assert_eq!(place_wrapped(false, false, 3, 0, 2), Placement::Skip);
    assert_eq!(place_wrapped(false, true, 1, 0, 2), Placement::Skip);
    assert_eq!(place_wrapped(true, true, 1, 0, 2), Placement::Break);
    assert_eq!(place_wrapped(false, true, 1, 1, 2), Placement::Append);
    assert_eq!(place_wrapped(false, false, 2, 1, 2), Placement::Overflow);
    assert_eq!(place_wrapped(false, false, 2, 0, 2), Placement::Append);
}
