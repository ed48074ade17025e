use lag::chart::{zoom, ChartState, Scale};

#[test]
fn chart_state_new() {
    // Tenths of the total time: 0.0, 0.1, 0.4, 0.5.
    let deltas = vec![0, 1, 4, 5];
    let state = ChartState::new(deltas.clone(), 10);
    assert_eq!(
        state,
        ChartState {
            deltas,
            cumulative_deltas: vec![0, 1, 5, 10],
            denominator: 10,
            interval: (0, 4),
            zoom_factor: 3,
            horizontal_resolution: 100,
        }
    );
}

#[derive(Debug)]
struct ZoomTestCase {
    description: Option<String>,
    current_line: usize,
    num_lines: usize,
    interval: (usize, usize),
    horizontal_resolution: usize,
    zoom_factor: Scale,
    expected_interval: (usize, usize),
}

impl ZoomTestCase {
    fn run(&self) {
        assert_eq!(
            zoom(
                self.current_line,
                self.num_lines,
                self.interval,
                self.horizontal_resolution,
                self.zoom_factor
            ),
            self.expected_interval,
            "{:?}",
            &self
        );
    }
}

#[test]
fn test_zoom() {
    let half = Scale { num: 1, den: 2 };
    let test_cases = vec![
        ZoomTestCase {
            description: Some("Below zoom cutoff".into()),
            current_line: 10,
            num_lines: 200,
            interval: (0, 199),
            horizontal_resolution: 100,
            zoom_factor: half,
            expected_interval: (0, 199),
        },
        ZoomTestCase {
            description: Some("Above zoom cutoff".into()),
            current_line: 10,
            num_lines: 200,
            interval: (0, 200),
            horizontal_resolution: 100,
            zoom_factor: half,
            expected_interval: (5, 105),
        },
        ZoomTestCase {
            description: None,
            current_line: 280,
            num_lines: 2100,
            interval: (0, 2100),
            horizontal_resolution: 100,
            zoom_factor: half,
            expected_interval: (150, 1140),
        },
    ];
    for test_case in test_cases {
        assert!(test_case.description.is_some() || test_case.num_lines == 2100);
        test_case.run();
    }
}

fn chart(num_lines: usize) -> ChartState {
    ChartState::new(vec![1; num_lines], num_lines as i64)
}

#[test]
fn zoom_out_beyond_the_log_gives_the_full_range() {
    let triple = Scale { num: 3, den: 1 };
    assert_eq!(zoom(500, 1000, (300, 700), 100, triple), (0, 1000));
}

#[test]
fn zoom_out_snaps_to_the_lower_end() {
    // length 200, step 2, target 600, target step 6; 50 lines above the
    // lower edge are 25 steps, laid out again as 150 lines: more than the
    // 100 lines there are below the focus line.
    let triple = Scale { num: 3, den: 1 };
    assert_eq!(zoom(100, 1000, (50, 250), 100, triple), (0, 600));
}

#[test]
fn zoom_out_snaps_to_the_upper_end() {
    // 100 lines below the upper edge are 50 steps, laid out again as 300
    // lines: 900 + 300 is beyond the 1000 lines of the log.
    let triple = Scale { num: 3, den: 1 };
    assert_eq!(zoom(900, 1000, (800, 1000), 100, triple), (400, 1000));
}

#[test]
fn zoom_in_can_fall_one_column_short_of_the_resolution() {
    let half = Scale { num: 1, den: 2 };
    assert_eq!(zoom(1, 200, (0, 200), 100, half), (1, 100));
}

#[test]
fn zoom_without_a_step_size_changes_nothing() {
    let double = Scale { num: 2, den: 1 };
    assert_eq!(zoom(50, 1000, (1, 100), 100, double), (1, 100));
}

#[test]
fn zoom_counts_a_focus_beyond_an_edge_as_on_it() {
    let half = Scale { num: 1, den: 2 };
    // The focus line lies 100 lines above the interval: no distance from
    // the upper edge, 300 lines and so 150 steps from the lower one.
    assert_eq!(zoom(400, 1000, (100, 300), 100, half), (250, 400));
}

#[test]
fn zoom_in_and_out_on_the_state() {
    let mut state = chart(900);
    state.zoom_in(450);
    assert_eq!(state.interval, (300, 600));
    state.zoom_out(450);
    assert_eq!(state.interval, (0, 900));
    state.zoom_in(450);
    state.zoom_in(450);
    assert_eq!(state.interval, (400, 500));
    state.zoom_in(450);
    assert_eq!(state.interval, (400, 500));
    state.reset();
    assert_eq!(state.interval, (0, 900));
}

#[test]
fn zoom_in_then_out_returns_an_aligned_interval() {
    let mut state = chart(1200);
    state.interval = (300, 900);
    state.zoom_in(420);
    assert_eq!(state.interval, (380, 580));
    state.zoom_out(420);
    assert_eq!(state.interval, (300, 900));
}

#[test]
fn zoom_level_is_lines_over_interval() {
    let mut state = chart(900);
    assert_eq!(state.current_zoom_level(), Scale { num: 900, den: 900 });
    state.zoom_in(450);
    assert_eq!(state.current_zoom_level(), Scale { num: 900, den: 300 });
    assert_eq!(state.interval_length(), 300);
}

#[test]
fn update_leaves_the_full_range() {
    let mut state = chart(900);
    state.update(899);
    assert_eq!(state.interval, (0, 900));
}

#[test]
fn update_slides_right_and_left() {
    let mut state = chart(1000);
    state.interval = (200, 600);
    // margin 50: line 580 wants the upper edge at 630
    state.update(580);
    assert_eq!(state.interval, (230, 630));
    // line 240 wants the lower edge at 190
    state.update(240);
    assert_eq!(state.interval, (190, 590));
    // within the margins nothing moves
    state.update(400);
    assert_eq!(state.interval, (190, 590));
    // the upper edge stops at the end of the log
    state.update(990);
    assert_eq!(state.interval, (600, 1000));
    // and the lower edge at its start
    state.update(10);
    assert_eq!(state.interval, (0, 400));
}

#[test]
fn section_samples_every_stride() {
    let mut state = ChartState::new((0..1000).collect(), 499_500);
    state.interval = (100, 450);
    let section = state.section();
    assert_eq!(section.points.len(), 100);
    // stride 3: lines 100, 103, ..., 397
    assert_eq!(section.points[0], (100, 5050));
    assert_eq!(section.points[1], (103, 103 * 104 / 2));
    assert_eq!(section.points[99], (397, 397 * 398 / 2));
    assert_eq!(section.x_bounds, (100, 397));
    assert_eq!(section.y_bounds, (5050, 397 * 398 / 2));
}

#[test]
fn section_of_a_short_interval_repeats_its_lower_edge() {
    let mut state = ChartState::new(vec![2, 3, 5, 7], 17);
    state.interval = (1, 4);
    let section = state.section();
    assert_eq!(section.points, vec![(1, 5); 100]);
    assert_eq!(section.x_bounds, (1, 1));
    assert_eq!(section.y_bounds, (5, 5));
}
