//! What holds of zooming whatever the interval and the focus line.

use crate::chart::{target_length, zoomed, Scale};
use vstd::arithmetic::div_mod::{
    lemma_div_is_ordered, lemma_div_multiples_vanish, lemma_fundamental_div_mod,
    lemma_fundamental_div_mod_converse, lemma_mod_bound,
};
use vstd::prelude::*;

verus! {

/// The scale of a zoom in by `factor`.
pub open spec fn scale_in(factor: usize) -> Scale {
    Scale { num: 1, den: factor }
}

/// The scale of a zoom out by `factor`.
pub open spec fn scale_out(factor: usize) -> Scale {
    Scale { num: factor, den: 1 }
}

/// Whether a zoom in about `current_line` rounds a column away: the target
/// has one line to a column, the interval holds exactly as many whole
/// steps as there are columns, and what the two distances of
/// `current_line` from the edges leave over when counted in steps adds up
/// to a step.
pub open spec fn rounds_a_column_away(
    current_line: int,
    interval: (int, int),
    resolution: int,
    factor: usize,
) -> bool {
    let length = interval.1 - interval.0;
    let step = length / resolution;
    let target = target_length(length, scale_in(factor));
    &&& target >= resolution
    &&& target / resolution == 1
    &&& length / step == resolution
    &&& (current_line - interval.0) % step + (interval.1 - current_line) % step >= step
}

/// Two distances counted in whole steps give the whole steps of their sum,
/// or one less where what they leave over adds up to a step.
proof fn lemma_split_quotient(a: int, b: int, s: int)
    requires
        a >= 0,
        b >= 0,
        s > 0,
    ensures
        (a % s) + (b % s) < s ==> a / s + b / s == (a + b) / s,
        (a % s) + (b % s) >= s ==> a / s + b / s + 1 == (a + b) / s,
{
    lemma_fundamental_div_mod(a, s);
    lemma_fundamental_div_mod(b, s);
    lemma_mod_bound(a, s);
    lemma_mod_bound(b, s);
    let q = a / s + b / s;
    let r = a % s + b % s;
    assert(s * (a / s) + s * (b / s) == q * s) by (nonlinear_arith)
        requires
            q == a / s + b / s,
    ;
    if r < s {
        lemma_fundamental_div_mod_converse(a + b, s, q, r);
    } else {
        assert((q + 1) * s == q * s + s) by (nonlinear_arith);
        lemma_fundamental_div_mod_converse(a + b, s, q + 1, r - s);
    }
}

/// An interval of at least `resolution` lines has a step of at least one
/// line, and holds at least `resolution` whole steps.
proof fn lemma_steps_cover(length: int, resolution: int)
    requires
        length >= resolution >= 1,
    ensures
        length / resolution >= 1,
        length / (length / resolution) >= resolution,
        (length / resolution) * resolution <= length,
{
    let s = length / resolution;
    lemma_fundamental_div_mod(length, resolution);
    lemma_mod_bound(length, resolution);
    assert(s >= 1) by (nonlinear_arith)
        requires
            length == resolution * s + length % resolution,
            0 <= length % resolution < resolution,
            length >= resolution >= 1,
    ;
    assert(s * resolution <= length) by (nonlinear_arith)
        requires
            length == resolution * s + length % resolution,
            0 <= length % resolution,
    ;
    lemma_div_is_ordered(s * resolution, length, s);
    lemma_div_multiples_vanish(resolution, s);
}

/// A zoom in about a line of the interval, by a factor of at least one,
/// neither pins the interval to an end of the log nor widens it: both
/// edges move towards the line.
proof fn lemma_zoom_in_recentres(
    current_line: int,
    num_lines: int,
    interval: (int, int),
    resolution: int,
    factor: usize,
)
    requires
        0 <= interval.0 <= current_line <= interval.1 <= num_lines,
        interval.1 - interval.0 >= resolution >= 2,
        factor >= 1,
        target_length(interval.1 - interval.0, scale_in(factor)) >= resolution,
    ensures
        ({
            let length = interval.1 - interval.0;
            let step = length / resolution;
            let target_step = target_length(length, scale_in(factor)) / resolution;
            &&& step >= 1
            &&& 1 <= target_step <= step
            &&& zoomed(current_line, num_lines, interval, resolution, scale_in(factor)) == (
                current_line - target_step * ((current_line - interval.0) / step),
                current_line + target_step * ((interval.1 - current_line) / step),
            )
        }),
{
    let length = interval.1 - interval.0;
    let step = length / resolution;
    let target = target_length(length, scale_in(factor));
    let target_step = target / resolution;
    let a = current_line - interval.0;
    let b = interval.1 - current_line;
    assert(length * 1 == length) by (nonlinear_arith);
    lemma_fundamental_div_mod(length, factor as int);
    lemma_mod_bound(length, factor as int);
    assert(target <= length) by (nonlinear_arith)
        requires
            length == factor * target + length % (factor as int),
            0 <= length % (factor as int),
            factor >= 1,
            target >= 0,
    ;
    lemma_steps_cover(length, resolution);
    lemma_steps_cover(target, resolution);
    lemma_div_is_ordered(target, length, resolution);
    lemma_fundamental_div_mod(a, step);
    lemma_mod_bound(a, step);
    lemma_fundamental_div_mod(b, step);
    lemma_mod_bound(b, step);
    assert(0 <= target_step * (a / step) <= a) by (nonlinear_arith)
        requires
            a == step * (a / step) + a % step,
            0 <= a % step,
            1 <= target_step <= step,
            a >= 0,
            a / step >= 0,
    ;
    assert(0 <= target_step * (b / step) <= b) by (nonlinear_arith)
        requires
            b == step * (b / step) + b % step,
            0 <= b % step,
            1 <= target_step <= step,
            b >= 0,
            b / step >= 0,
    ;
    assert(a / step >= 0 && b / step >= 0) by (nonlinear_arith)
        requires
            a >= 0,
            b >= 0,
            step >= 1,
    ;
}

/// A zoom in about a line of the interval leaves at least one line for
/// each sample column, unless it rounds a column away.
pub proof fn lemma_zoom_in_keeps_resolution(
    current_line: int,
    num_lines: int,
    interval: (int, int),
    resolution: int,
    factor: usize,
)
    requires
        0 <= interval.0 <= current_line <= interval.1 <= num_lines,
        interval.1 - interval.0 >= resolution >= 2,
        factor >= 1,
        !rounds_a_column_away(current_line, interval, resolution, factor),
    ensures
        zoomed(current_line, num_lines, interval, resolution, scale_in(factor)).1 - zoomed(
            current_line,
            num_lines,
            interval,
            resolution,
            scale_in(factor),
        ).0 >= resolution,
{
    let length = interval.1 - interval.0;
    let target = target_length(length, scale_in(factor));
    if target >= resolution {
        let step = length / resolution;
        let target_step = target / resolution;
        let a = current_line - interval.0;
        let b = interval.1 - current_line;
        lemma_zoom_in_recentres(current_line, num_lines, interval, resolution, factor);
        lemma_steps_cover(length, resolution);
        lemma_split_quotient(a, b, step);
        let columns = a / step + b / step;
        assert(columns >= resolution - 1);
        assert(target_step * (a / step) + target_step * (b / step) == target_step * columns)
            by (nonlinear_arith)
            requires
                columns == a / step + b / step,
        ;
        if columns >= resolution {
            assert(target_step * columns >= resolution) by (nonlinear_arith)
                requires
                    target_step >= 1,
                    columns >= resolution,
                    resolution >= 2,
            ;
        } else {
            assert(target_step >= 2);
            assert(target_step * columns >= resolution) by (nonlinear_arith)
                requires
                    target_step >= 2,
                    columns == resolution - 1,
                    resolution >= 2,
            ;
        }
    }
}

/// A zoom in that rounds a column away leaves an interval one line
/// shorter than the resolution.
pub proof fn lemma_zoom_in_one_column_short(
    current_line: int,
    num_lines: int,
    interval: (int, int),
    resolution: int,
    factor: usize,
)
    requires
        0 <= interval.0 <= current_line <= interval.1 <= num_lines,
        interval.1 - interval.0 >= resolution >= 2,
        factor >= 1,
        rounds_a_column_away(current_line, interval, resolution, factor),
    ensures
        zoomed(current_line, num_lines, interval, resolution, scale_in(factor)).1 - zoomed(
            current_line,
            num_lines,
            interval,
            resolution,
            scale_in(factor),
        ).0 == resolution - 1,
{
    let length = interval.1 - interval.0;
    let step = length / resolution;
    let a = current_line - interval.0;
    let b = interval.1 - current_line;
    lemma_zoom_in_recentres(current_line, num_lines, interval, resolution, factor);
    lemma_split_quotient(a, b, step);
    let columns = a / step + b / step;
    assert(1 * (a / step) + 1 * (b / step) == columns) by (nonlinear_arith)
        requires
            columns == a / step + b / step,
    ;
}

/// Zooming in and then out again, by the same factor and about the same
/// line, gives the interval back where nothing is rounded: where the
/// interval has a whole number of lines to a column, that number is a
/// multiple of the factor, and the line lies a whole number of steps above
/// the lower edge.
pub proof fn lemma_zoom_round_trip(
    current_line: int,
    num_lines: int,
    interval: (int, int),
    resolution: int,
    factor: usize,
)
    requires
        0 <= interval.0 <= current_line <= interval.1 <= num_lines,
        interval.0 < interval.1,
        resolution >= 2,
        factor >= 1,
        (interval.1 - interval.0) % (resolution * factor) == 0,
        (current_line - interval.0) % ((interval.1 - interval.0) / resolution) == 0,
    ensures
        zoomed(
            current_line,
            num_lines,
            zoomed(current_line, num_lines, interval, resolution, scale_in(factor)),
            resolution,
            scale_out(factor),
        ) == interval,
{
    let length = interval.1 - interval.0;
    let f = factor as int;
    let a = current_line - interval.0;
    let b = interval.1 - current_line;
    // the lines to a column after the zoom in
    let t = length / (resolution * f);
    assert(resolution * f >= 2) by (nonlinear_arith)
        requires
            resolution >= 2,
            f >= 1,
    ;
    lemma_fundamental_div_mod(length, resolution * f);
    assert(length == resolution * f * t);
    assert(t >= 1) by (nonlinear_arith)
        requires
            length == resolution * f * t,
            length > 0,
            resolution * f >= 2,
    ;
    // the lines to a column before it
    let step = f * t;
    assert(length == step * resolution + 0) by (nonlinear_arith)
        requires
            length == resolution * f * t,
            step == f * t,
    ;
    lemma_fundamental_div_mod_converse(length, resolution, step, 0);
    assert(length / resolution == step);
    assert(step >= 1 && step >= t) by (nonlinear_arith)
        requires
            step == f * t,
            f >= 1,
            t >= 1,
    ;
    assert(length >= resolution) by (nonlinear_arith)
        requires
            length == step * resolution + 0,
            step >= 1,
            resolution >= 2,
    ;
    let target = target_length(length, scale_in(factor));
    assert(length * 1 == length) by (nonlinear_arith);
    assert(length == (resolution * t) * f + 0) by (nonlinear_arith)
        requires
            length == resolution * f * t,
    ;
    lemma_fundamental_div_mod_converse(length, f, resolution * t, 0);
    assert(target == resolution * t);
    assert(target >= resolution) by (nonlinear_arith)
        requires
            target == resolution * t,
            t >= 1,
            resolution >= 2,
    ;
    assert(target == t * resolution + 0) by (nonlinear_arith)
        requires
            target == resolution * t,
    ;
    lemma_fundamental_div_mod_converse(target, resolution, t, 0);
    lemma_zoom_in_recentres(current_line, num_lines, interval, resolution, factor);
    // the distances in steps
    let below = a / step;
    lemma_fundamental_div_mod(a, step);
    assert(a == step * below);
    assert(below >= 0) by (nonlinear_arith)
        requires
            a == step * below,
            a >= 0,
            step >= 1,
    ;
    let above = resolution - below;
    assert(b == above * step + 0) by (nonlinear_arith)
        requires
            b == length - a,
            length == step * resolution + 0,
            a == step * below,
            above == resolution - below,
    ;
    lemma_fundamental_div_mod_converse(b, step, above, 0);
    assert(b / step == above);
    assert(above >= 0) by (nonlinear_arith)
        requires
            b == above * step + 0,
            b >= 0,
            step >= 1,
    ;
    let inner = zoomed(current_line, num_lines, interval, resolution, scale_in(factor));
    assert(inner == (current_line - t * below, current_line + t * above));
    assert(t * below >= 0 && t * above >= 0 && t * below + t * above == t * resolution
        && t * below <= a && t * above <= b) by (nonlinear_arith)
        requires
            t >= 1,
            below >= 0,
            above >= 0,
            above == resolution - below,
            step >= t,
            a == step * below,
            b == above * step + 0,
    ;
    // the zoom out
    let inner_length = inner.1 - inner.0;
    assert(inner_length == t * resolution);
    let back = target_length(inner_length, scale_out(factor));
    assert(inner_length * f == length) by (nonlinear_arith)
        requires
            inner_length == t * resolution,
            length == resolution * f * t,
    ;
    assert(length / 1 == length);
    assert(back == length);
    assert(inner_length == t * resolution + 0);
    lemma_fundamental_div_mod_converse(inner_length, resolution, t, 0);
    assert(inner_length / resolution == t);
    lemma_div_multiples_vanish(below, t);
    lemma_div_multiples_vanish(above, t);
    assert((t * below) / t == below);
    assert((t * above) / t == above);
    assert(step * below == a && step * above == b) by (nonlinear_arith)
        requires
            a == step * below,
            b == above * step + 0,
    ;
}

} // verus!
