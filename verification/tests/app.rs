use lag::app::{
    extract_timestamps, handle_key, render_diff_list_item, scroll_line, App, Cell, Key, LoadError,
    Status,
};
use lag::gaugagraph::Fraction;
use lag::style::{Color, Style};
use lag::timestamp::Timestamp;

const LOG: [&str; 5] = [
    "1970-01-01 00:00:00.000Z start",
    "1970-01-01 00:00:00.100Z first step",
    "1970-01-01 00:00:00.100Z second step, at once",
    "1970-01-01 00:00:00.600Z third step",
    "1970-01-01 00:00:00.650Z done",
];

fn long_log(count: usize) -> Vec<String> {
    (0..count)
        .map(|i| {
            let millis = i * 10 + if i == 250 { 5000 } else { 0 };
            format!(
                "1970-01-01 00:{:02}:{:02}.{:03}Z line {}",
                millis / 60_000,
                (millis / 1000) % 60,
                millis % 1000,
                i
            )
        })
        .collect()
}

#[test]
fn five_lines_end_to_end() {
    let app = App::new(&LOG).unwrap();
    let elapsed: Vec<i64> = app.lines.iter().map(|l| l.elapsed_millis).collect();
    assert_eq!(elapsed, vec![0, 100, 0, 500, 50]);
    assert_eq!(app.largest_diffs.len(), 5);
    assert_eq!(app.largest_diffs[0].line_number, 3);
    assert_eq!(app.largest_diffs[0].elapsed_millis, 500);
    assert_eq!(app.chart_state.deltas, vec![0, 100, 0, 500, 50]);
    assert_eq!(app.chart_state.denominator, 650);
    assert_eq!(app.chart_state.cumulative_deltas, vec![0, 100, 100, 600, 650]);
    assert_eq!(app.chart_state.deltas.iter().sum::<i64>(), app.chart_state.denominator);
    assert_eq!(app.chart_state.interval, (0, 5));
    assert_eq!(app.active, Cell::Log);
    assert_eq!(app.log_bar_zoom, 1000);
    assert_eq!((app.log_cursor.x, app.log_cursor.y), (0, 0));
    assert_eq!((app.log_cursor.max_x, app.log_cursor.max_y), (44, 4));
    assert_eq!((app.diff_cursor.max_x, app.diff_cursor.max_y), (44, 4));
}

#[test]
fn lines_without_timestamps_take_the_one_before() {
    let log = ["no timestamp", LOG[1], "nor here", LOG[3], "  "];
    let app = App::new(&log).unwrap();
    let millis: Vec<i64> = app.lines.iter().map(|l| l.timestamp.millis).collect();
    assert_eq!(millis, vec![100, 100, 100, 600, 600]);
    let elapsed: Vec<i64> = app.lines.iter().map(|l| l.elapsed_millis).collect();
    assert_eq!(elapsed, vec![0, 0, 0, 500, 0]);
    assert_eq!(extract_timestamps(&log)[0], None);
    assert_eq!(extract_timestamps(&log)[3], Timestamp::from_millis(600));
}

#[test]
fn an_empty_log_cannot_be_viewed() {
    assert_eq!(App::new(&[]).err(), Some(LoadError::EmptyInput));
    assert_eq!(App::from_timestamps(&[], &vec![]).err(), Some(LoadError::EmptyInput));
}

#[test]
fn a_log_without_timestamps_cannot_be_viewed() {
    assert_eq!(App::new(&["a", "b"]).err(), Some(LoadError::NoTimestamp));
    assert_eq!(
        App::from_timestamps(&["a", "b"], &vec![None, None]).err(),
        Some(LoadError::NoTimestamp)
    );
}

#[test]
fn timestamps_can_be_handed_in() {
    let at = |m| Timestamp::from_millis(m);
    let app = App::from_timestamps(&["a", "b", "c"], &vec![None, at(40), at(10)]).unwrap();
    let elapsed: Vec<i64> = app.lines.iter().map(|l| l.elapsed_millis).collect();
    assert_eq!(elapsed, vec![0, 0, -30]);
    assert_eq!(app.chart_state.deltas, vec![0, 0, 30]);
    assert_eq!(app.chart_state.denominator, 30);
}

#[test]
fn tab_goes_round_the_panels() {
    let mut app = App::new(&LOG).unwrap();
    assert_eq!(app.status(Cell::Log), Status::Active);
    assert_eq!(app.status(Cell::Chart), Status::Inactive);
    app.on_char('\t');
    assert_eq!(app.active, Cell::Chart);
    app.on_tab();
    assert_eq!(app.active, Cell::List);
    assert_eq!(app.status(Cell::List), Status::Active);
    assert!(!handle_key(Key::Tab, &mut app));
    assert_eq!(app.active, Cell::Log);
    assert_eq!(Cell::Chart.next(), Cell::List);
}

#[test]
fn keys_scroll_the_log() {
    let mut app = App::new(&LOG).unwrap();
    app.on_down();
    app.on_down();
    assert_eq!(app.vertical_log_scroll(), 2);
    app.on_up();
    assert_eq!(app.vertical_log_scroll(), 1);
    app.on_page_down();
    assert_eq!(app.vertical_log_scroll(), 4);
    app.on_page_up();
    assert_eq!(app.vertical_log_scroll(), 0);
    app.on_up();
    assert_eq!(app.vertical_log_scroll(), 0);
    app.on_right();
    assert_eq!(app.horizontal_log_scroll(), 3);
    app.on_end();
    assert_eq!(app.horizontal_log_scroll(), 44);
    app.on_right();
    assert_eq!(app.horizontal_log_scroll(), 44);
    app.on_left();
    assert_eq!(app.horizontal_log_scroll(), 41);
    app.on_home();
    assert_eq!(app.horizontal_log_scroll(), 0);
    app.on_left();
    assert_eq!(app.horizontal_log_scroll(), 0);
    assert_eq!((app.vertical_diff_scroll(), app.horizontal_diff_scroll()), (0, 0));
}

#[test]
fn keys_move_in_the_list_and_enter_jumps() {
    let mut app = App::new(&LOG).unwrap();
    app.on_enter();
    assert_eq!(app.vertical_log_scroll(), 0);
    app.on_tab();
    app.on_tab();
    app.on_down();
    assert_eq!(app.vertical_diff_scroll(), 1);
    app.on_up();
    app.on_char('\n');
    // the largest gap stands before line 3: the cursor goes to line 2
    assert_eq!(app.vertical_log_scroll(), 2);
    app.on_page_down();
    assert_eq!(app.vertical_diff_scroll(), 4);
    assert!(!handle_key(Key::Enter, &mut app));
    // the last entry is line 2, which has no gap before it
    assert_eq!(app.largest_diffs[4].line_number, 2);
    assert_eq!(app.vertical_log_scroll(), 1);
    app.on_page_up();
    app.on_right();
    app.on_right();
    assert_eq!(app.horizontal_diff_scroll(), 6);
    app.on_left();
    app.on_end();
    assert_eq!(app.horizontal_diff_scroll(), 44);
    app.on_home();
    assert_eq!(app.horizontal_diff_scroll(), 0);
    app.on_escape();
    assert_eq!(app.active, Cell::List);
}

#[test]
fn plus_and_minus_zoom_the_bars() {
    let mut app = App::new(&LOG).unwrap();
    app.on_char('-');
    assert_eq!(app.log_bar_zoom, 1000);
    app.on_char('+');
    assert_eq!(app.log_bar_zoom, 1500);
    app.on_char('+');
    assert_eq!(app.log_bar_zoom, 2250);
    app.on_char('-');
    assert_eq!(app.log_bar_zoom, 1500);
    for _ in 0..20 {
        app.on_char('+');
    }
    assert_eq!(app.log_bar_zoom, 1_000_000);
    app.on_char('-');
    assert_eq!(app.log_bar_zoom, 666_666);
    app.on_escape();
    assert_eq!(app.log_bar_zoom, 1000);
    app.on_tab();
    app.on_char('+');
    assert_eq!(app.log_bar_zoom, 1000);
    app.on_char('x');
    assert_eq!(app.active, Cell::Chart);
}

#[test]
fn q_quits_and_nothing_else_does() {
    let mut app = App::new(&LOG).unwrap();
    assert!(handle_key(Key::Char('q'), &mut app));
    assert!(!handle_key(Key::Char('+'), &mut app));
    assert_eq!(app.log_bar_zoom, 1500);
    assert!(!handle_key(Key::Esc, &mut app));
    assert_eq!(app.log_bar_zoom, 1000);
    assert!(!handle_key(Key::Other, &mut app));
    assert!(!handle_key(Key::Down, &mut app));
    assert!(!handle_key(Key::PageDown, &mut app));
    assert_eq!(app.vertical_log_scroll(), 4);
    assert!(!handle_key(Key::Up, &mut app));
    assert!(!handle_key(Key::PageUp, &mut app));
    assert!(!handle_key(Key::Right, &mut app));
    assert!(!handle_key(Key::End, &mut app));
    assert!(!handle_key(Key::Left, &mut app));
    assert_eq!(app.horizontal_log_scroll(), 41);
    assert!(!handle_key(Key::Home, &mut app));
    assert_eq!((app.horizontal_log_scroll(), app.vertical_log_scroll()), (0, 0));
}

#[test]
fn the_chart_zooms_and_follows_the_cursor() {
    let log = long_log(900);
    let lines: Vec<&str> = log.iter().map(|l| l.as_str()).collect();
    let mut app = App::new(&lines).unwrap();
    assert_eq!(app.largest_diffs[0].line_number, 250);
    assert_eq!(app.largest_diffs[0].elapsed_millis, 5010);
    assert_eq!(app.lines_per_pixel(), 9);
    app.on_tab();
    app.on_up();
    assert_eq!(app.chart_state.interval, (0, 300));
    assert_eq!(app.lines_per_pixel(), 3);
    // one sample column to the right is three lines down
    app.on_right();
    assert_eq!(app.vertical_log_scroll(), 3);
    app.on_end();
    assert_eq!(app.vertical_log_scroll(), 48);
    app.on_left();
    assert_eq!(app.vertical_log_scroll(), 45);
    // scrolling on drags the interval along: the margin is 37 lines
    for _ in 0..6 {
        app.on_end();
    }
    assert_eq!(app.vertical_log_scroll(), 315);
    assert_eq!(app.chart_state.interval, (52, 352));
    app.on_home();
    assert_eq!(app.vertical_log_scroll(), 270);
    assert_eq!(app.chart_state.interval, (52, 352));
    app.on_down();
    assert_eq!(app.chart_state.interval, (0, 900));
    app.on_page_up();
    assert_eq!(app.chart_state.interval, (240, 340));
    app.on_escape();
    assert_eq!(app.chart_state.interval, (0, 900));
    app.on_page_down();
    assert_eq!(app.chart_state.interval, (0, 900));
}

#[test]
fn ratios_are_taken_of_the_largest_gap() {
    let app = App::new(&LOG).unwrap();
    assert_eq!(
        app.elapsed_time_ratios(1, 3),
        vec![
            Fraction { num: 100, den: 500 },
            Fraction { num: 0, den: 500 },
            Fraction { num: 500, den: 500 }
        ]
    );
    assert_eq!(app.elapsed_time_ratios(4, 9), vec![Fraction { num: 50, den: 500 }]);
    assert_eq!(app.elapsed_time_ratios(3, 2), vec![]);
    assert_eq!(app.elapsed_time_ratios(7, 9), vec![]);
    assert_eq!(app.line_numbers(), 0..5);
}

#[test]
fn the_window_of_the_log_is_cut_at_its_end() {
    let mut app = App::new(&LOG).unwrap();
    assert_eq!(app.visible_lines(3), 0..3);
    assert_eq!(app.visible_lines(0), 0..0);
    assert_eq!(app.elapsed_labels(3), vec!["0D", "0.1S", "0D"]);
    app.on_page_down();
    assert_eq!(app.visible_lines(3), 4..5);
    assert_eq!(app.visible_lines(usize::MAX), 4..5);
    assert_eq!(app.elapsed_labels(3), vec!["0.05S"]);
}

#[test]
fn lines_are_cut_at_the_scroll_offset() {
    assert_eq!(scroll_line("hello", 0), "hello");
    assert_eq!(scroll_line("hello", 2), "llo");
    assert_eq!(scroll_line("hello", 4), "o");
    assert_eq!(scroll_line("hello", 9), "o");
    assert_eq!(scroll_line("", 3), "");
    assert_eq!(scroll_line("\u{e9}t\u{e9}", 1), "t\u{e9}");
}

#[test]
fn list_entries_carry_their_jump_target() {
    let mut app = App::new(&LOG).unwrap();
    let item = render_diff_list_item(&app.largest_diffs[0], 25);
    assert_eq!((item.line_number, item.elapsed, item.contents), (3, "0.5S", "third step"));
    let item = render_diff_list_item(&app.largest_diffs[1], 100);
    assert_eq!((item.line_number, item.elapsed, item.contents), (1, "0.1S", ""));
    app.on_tab();
    app.on_tab();
    app.on_end();
    let items = app.diff_list();
    let shown: Vec<(usize, &str, &str)> =
        items.iter().map(|i| (i.line_number, i.elapsed, i.contents)).collect();
    assert_eq!(
        shown,
        vec![(3, "0.5S", ""), (1, "0.1S", ""), (4, "0.05S", ""), (0, "0D", ""), (2, "0D", "e")]
    );
}

#[test]
fn the_log_widget_draws_bars_under_the_lines() {
    let mut app = App::new(&LOG).unwrap();
    app.on_down();
    for _ in 0..9 {
        app.on_right();
    }
    app.on_char('+');
    let style = Style::new();
    let bar = Style::new().bg(Color::Rgb(255, 184, 108));
    let rows = app.log_widget(3, style, bar).draw(10, 3);
    assert_eq!(rows.len(), 3);
    let text = |y: usize| rows[y].iter().map(|c| c.symbol).collect::<String>();
    let bars = |y: usize| rows[y].iter().filter(|c| c.style == bar).count();
    // "1970-01-01 00:00:00.100Z first step" from column 27 on, ten columns
    assert_eq!(text(0), "rst step");
    assert_eq!(text(1), "cond step,");
    assert_eq!(text(2), "ird step  ");
    // 100 / 500 at a zoom of 1.5 are three columns of ten
    assert_eq!(bars(0), 3);
    assert_eq!(bars(1), 0);
    assert_eq!(bars(2), 10);
    assert!(rows[0].iter().all(|c| c.y == 0));
    assert!(rows[2].iter().all(|c| c.y == 2));
    let columns: Vec<u16> = rows[2].iter().map(|c| c.x).collect();
    assert_eq!(columns, (0..10).collect::<Vec<u16>>());
}
