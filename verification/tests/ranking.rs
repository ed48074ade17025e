use lag::annotate::{create_annotated_lines, AnnotatedLine};
use lag::ranking::rank;
use lag::timestamp::Timestamp;

fn annotated(elapsed: &[i64]) -> Vec<AnnotatedLine<'static>> {
    let mut now = 1_000_000;
    let mut timestamps = Vec::new();
    let mut lines = Vec::new();
    for (i, e) in elapsed.iter().enumerate() {
        if i > 0 {
            now += e;
        }
        timestamps.push(Timestamp::from_millis(now).unwrap());
        lines.push("line");
    }
    create_annotated_lines(&lines, &timestamps)
}

fn numbers(ranking: &[AnnotatedLine<'_>]) -> Vec<usize> {
    ranking.iter().map(|l| l.line_number).collect()
}

#[test]
fn ranking_puts_the_largest_gap_first() {
    let lines = annotated(&[0, 100, 0, 500, 50]);
    let ranking = rank(&lines, 5);
    assert_eq!(numbers(&ranking), vec![3, 1, 4, 0, 2]);
    assert_eq!(ranking[0].elapsed_millis, 500);
    assert_eq!(ranking[0].elapsed_string(), "0.5S");
}

#[test]
fn ranking_is_cut_at_k() {
    let lines = annotated(&[0, 100, 0, 500, 50]);
    assert_eq!(numbers(&rank(&lines, 2)), vec![3, 1]);
    assert_eq!(numbers(&rank(&lines, 0)), Vec::<usize>::new());
    assert_eq!(numbers(&rank(&lines, 1000)), vec![3, 1, 4, 0, 2]);
}

#[test]
fn ranking_orders_equal_gaps_by_line_number() {
    let lines = annotated(&[0, 7, 7, 3, 7, 3, 0, 7]);
    assert_eq!(numbers(&rank(&lines, 8)), vec![1, 2, 4, 7, 3, 5, 0, 6]);
    assert_eq!(numbers(&rank(&lines, 3)), vec![1, 2, 4]);
}

#[test]
fn ranking_puts_negative_gaps_last() {
    let lines = annotated(&[0, -5, 10, -20]);
    assert_eq!(numbers(&rank(&lines, 4)), vec![2, 0, 1, 3]);
}

#[test]
fn ranking_of_many_lines_is_sorted() {
    let elapsed: Vec<i64> = (0..5000).map(|i: i64| (i * 7919) % 1009).collect();
    let lines = annotated(&elapsed);
    let ranking = rank(&lines, 1000);
    assert_eq!(ranking.len(), 1000);
    for pair in ranking.windows(2) {
        assert!(
            pair[0].elapsed_millis > pair[1].elapsed_millis
                || (pair[0].elapsed_millis == pair[1].elapsed_millis
                    && pair[0].line_number < pair[1].line_number)
        );
    }
    for entry in &ranking {
        assert_eq!(entry.elapsed_millis, lines[entry.line_number].elapsed_millis);
    }
    let least = ranking[999].elapsed_millis;
    let left_out = lines.iter().filter(|l| l.elapsed_millis > least).count();
    assert!(left_out < 1000);
}
