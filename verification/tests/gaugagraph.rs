use lag::gaugagraph::{
    cutoff_column, get_line_offset, overlay_row, Alignment, Fraction, Gaugagraph,
};
use lag::reflow::{styled_symbols, Styled, Text};
use lag::style::{Color, Style};

fn bar() -> Style {
    Style::new().bg(Color::Rgb(255, 184, 108)).fg(Color::Rgb(40, 42, 54))
}

fn symbols(text: &str) -> Vec<Styled<'_>> {
    styled_symbols(&vec![Text::Raw(text)], Style::new())
}

fn half() -> Fraction {
    Fraction { num: 1, den: 2 }
}

#[test]
fn rows_are_aligned() {
    assert_eq!(get_line_offset(4, 10, Alignment::Left), 0);
    assert_eq!(get_line_offset(4, 10, Alignment::Right), 6);
    assert_eq!(get_line_offset(4, 10, Alignment::Center), 3);
    assert_eq!(get_line_offset(5, 10, Alignment::Center), 3);
    assert_eq!(get_line_offset(5, 11, Alignment::Center), 3);
    assert_eq!(get_line_offset(12, 10, Alignment::Right), 0);
    assert_eq!(get_line_offset(12, 10, Alignment::Center), 0);
}

#[test]
fn the_bar_covers_its_share_of_the_row() {
    assert_eq!(cutoff_column(half(), 1000, 10), 5);
    assert_eq!(cutoff_column(half(), 1500, 10), 7);
    assert_eq!(cutoff_column(half(), 3000, 10), 10);
    assert_eq!(cutoff_column(Fraction { num: 1, den: 3 }, 1000, 100), 33);
    assert_eq!(cutoff_column(Fraction { num: 500, den: 500 }, 1000, 80), 80);
    assert_eq!(cutoff_column(Fraction { num: 0, den: 5 }, 1000, 80), 0);
    assert_eq!(cutoff_column(Fraction { num: -3, den: 5 }, 1000, 80), 0);
    assert_eq!(cutoff_column(Fraction { num: 3, den: 0 }, 1000, 80), 0);
    assert_eq!(cutoff_column(Fraction { num: 3, den: -4 }, 1000, 80), 0);
    assert_eq!(cutoff_column(Fraction { num: i64::MAX, den: 1 }, u32::MAX, u16::MAX), u16::MAX);
    assert_eq!(cutoff_column(Fraction { num: 1, den: i64::MAX }, 1000, u16::MAX), 0);
}

#[test]
fn symbols_before_the_cutoff_take_the_style_of_the_bar() {
    let red = Style::new().fg(Color::Rgb(255, 0, 0));
    let line = vec![Styled("a", red), Styled("\u{4e16}", red), Styled("b", red), Styled("c", red)];
    let cells = overlay_row(&line, 1, 7, 3, bar());
    let shown: Vec<(u16, u16, &str, Style)> =
        cells.iter().map(|c| (c.x, c.y, c.symbol, c.style)).collect();
    assert_eq!(
        shown,
        vec![
            (1, 7, "a", bar()),
            (2, 7, "\u{4e16}", bar()),
            (4, 7, "b", red),
            (5, 7, "c", red)
        ]
    );
}

#[test]
fn the_bar_goes_on_behind_the_text() {
    let red = Style::new().fg(Color::Rgb(255, 0, 0));
    let line = vec![Styled("a", red), Styled("b", red)];
    let cells = overlay_row(&line, 0, 0, 5, bar());
    let shown: Vec<(u16, &str, Style)> = cells.iter().map(|c| (c.x, c.symbol, c.style)).collect();
    assert_eq!(
        shown,
        vec![(0, "a", bar()), (1, "b", bar()), (2, " ", bar()), (3, " ", bar()), (4, " ", bar())]
    );
    assert_eq!(overlay_row(&[], 0, 0, 2, bar()).len(), 2);
    assert_eq!(overlay_row(&[], 3, 0, 2, bar()).len(), 0);
}

#[test]
fn the_widget_draws_one_row_for_each_line() {
    let ratios = vec![half(), Fraction { num: 0, den: 2 }, Fraction { num: 2, den: 2 }];
    let rows = Gaugagraph::new(symbols("abcdef\nxy\n\nlast"), ratios).bar_style(bar()).draw(4, 10);
    let shown: Vec<Vec<(u16, &str, bool)>> = rows
        .iter()
        .map(|row| row.iter().map(|c| (c.x, c.symbol, c.style == bar())).collect())
        .collect();
    assert_eq!(
        shown,
        vec![
            vec![(0, "a", true), (1, "b", true), (2, "c", false), (3, "d", false)],
            vec![(0, "x", false), (1, "y", false)],
            vec![(0, " ", true), (1, " ", true), (2, " ", true), (3, " ", true)],
            // no ratio is left for the last row
            vec![(0, "l", false), (1, "a", false), (2, "s", false), (3, "t", false)],
        ]
    );
    for (y, row) in rows.iter().enumerate() {
        assert!(row.iter().all(|c| c.y as usize == y));
    }
}

#[test]
fn the_widget_stops_at_the_height_of_the_area() {
    let text = "a\nb\nc\nd";
    assert_eq!(Gaugagraph::new(symbols(text), vec![]).draw(4, 2).len(), 2);
    assert_eq!(Gaugagraph::new(symbols(text), vec![]).draw(4, 0).len(), 0);
    assert_eq!(Gaugagraph::new(symbols(text), vec![]).draw(0, 5).len(), 0);
    assert_eq!(Gaugagraph::new(symbols(text), vec![]).draw(4, 9).len(), 4);
}

#[test]
fn the_widget_wraps_when_told_to() {
    let ratios = vec![half(), half()];
    let draw = |wrap: bool| {
        Gaugagraph::new(symbols("hello world"), ratios.clone())
            .wrap(wrap)
            .raw(true)
            .style(Style::new())
            .bar_style(bar())
            .draw(7, 5)
            .iter()
            .map(|row| row.iter().map(|c| c.symbol).collect::<String>())
            .collect::<Vec<String>>()
    };
    assert_eq!(draw(true), vec!["hello", "world"]);
    assert_eq!(draw(false), vec!["hello w"]);
}

#[test]
fn the_widget_aligns_and_zooms() {
    let rows = Gaugagraph::new(symbols("ab"), vec![Fraction { num: 1, den: 4 }])
        .alignment(Alignment::Right)
        .zoom(2000)
        .bar_style(bar())
        .draw(8, 1);
    let shown: Vec<(u16, &str, bool)> =
        rows[0].iter().map(|c| (c.x, c.symbol, c.style == bar())).collect();
    // the bar covers four columns, the text stands in columns 6 and 7
    assert_eq!(shown, vec![(6, "a", false), (7, "b", false)]);
    let rows = Gaugagraph::new(symbols("ab"), vec![Fraction { num: 1, den: 1 }])
        .alignment(Alignment::Center)
        .bar_style(bar())
        .draw(8, 1);
    let shown: Vec<(u16, &str, bool)> =
        rows[0].iter().map(|c| (c.x, c.symbol, c.style == bar())).collect();
    assert_eq!(
        shown,
        vec![(3, "a", true), (4, "b", true), (5, " ", true), (6, " ", true), (7, " ", true)]
    );
}
