//! Scaling and scrolling of the chart of elapsed time against line count.

use vstd::prelude::*;

verus! {

/// A non-negative ratio `num / den`.
#[derive(Copy, Clone, Debug, PartialEq, Eq, Structural)]
pub struct Scale {
    pub num: usize,
    pub den: usize,
}

/// `value` less `floor`, or zero where `value` lies below `floor`.
pub open spec fn distance_above(value: int, floor: int) -> int {
    if value >= floor {
        value - floor
    } else {
        0
    }
}

/// The length that scaling aims for: `len * scale`, rounded down.
pub open spec fn target_length(len: int, scale: Scale) -> int {
    len * scale.num / (scale.den as int)
}

/// The interval that a zoom about `current_line` leaves.
///
/// The request is dropped where the target length falls below the
/// resolution, and also where the interval is already too short to have a
/// step size. A target beyond the number of lines gives the full range.
/// Otherwise the distance of `current_line` from each edge is counted in
/// steps of the current size and laid out again in steps of the target
/// size, rounding down both times; an edge that would leave `[0, num_lines]`
/// pins an interval of the target length to that end. The distance from an
/// edge that `current_line` lies beyond counts as zero.
pub open spec fn zoomed(
    current_line: int,
    num_lines: int,
    interval: (int, int),
    resolution: int,
    scale: Scale,
) -> (int, int) {
    let length = interval.1 - interval.0;
    let target = target_length(length, scale);
    let step = length / resolution;
    if target < resolution || (target <= num_lines && step == 0) {
        interval
    } else if target > num_lines {
        (0, num_lines)
    } else {
        let target_step = target / resolution;
        let below = target_step * (distance_above(current_line, interval.0) / step);
        let above = target_step * (distance_above(interval.1, current_line) / step);
        if below > current_line {
            (0, target)
        } else if current_line + above > num_lines {
            (num_lines - target, num_lines)
        } else {
            (current_line - below, current_line + above)
        }
    }
}

proof fn lemma_product_fits(a: int, b: int)
    by (nonlinear_arith)
    requires
        0 <= a <= 0xffff_ffff_ffff_ffff,
        0 <= b <= 0xffff_ffff_ffff_ffff,
    ensures
        0 <= a * b <= 0xffff_ffff_ffff_fffe_0000_0000_0000_0001,
{
}

proof fn lemma_quotient_bounds(x: int, d: int)
    by (nonlinear_arith)
    requires
        0 <= x,
        0 < d,
    ensures
        0 <= x / d,
        (x / d) * d <= x,
        x < (x / d) * d + d,
        x >= d ==> x / d >= 1,
{
}

proof fn lemma_product_positive(a: int, b: int, c: int)
    by (nonlinear_arith)
    requires
        a >= 1,
        b >= 0,
        c >= 0,
        b + c >= 1,
    ensures
        a * b >= 0,
        a * c >= 0,
        a * b + a * c >= 1,
{
}

/// A zoom never leaves the line range and never empties the interval:
/// whatever the focus line and the scale, the interval it gives is a
/// non-empty part of `[0, num_lines]`.
pub proof fn lemma_zoomed_in_range(
    current_line: int,
    num_lines: int,
    interval: (int, int),
    resolution: int,
    scale: Scale,
)
    requires
        0 <= current_line,
        0 <= interval.0 < interval.1 <= num_lines,
        resolution >= 2,
        scale.den > 0,
    ensures
        0 <= zoomed(current_line, num_lines, interval, resolution, scale).0,
        zoomed(current_line, num_lines, interval, resolution, scale).0 < zoomed(
            current_line,
            num_lines,
            interval,
            resolution,
            scale,
        ).1,
        zoomed(current_line, num_lines, interval, resolution, scale).1 <= num_lines,
{
    let length = interval.1 - interval.0;
    let target = target_length(length, scale);
    let step = length / resolution;
    if target < resolution || (target <= num_lines && step == 0) {
    } else if target > num_lines {
    } else {
        let target_step = target / resolution;
        let lower = distance_above(current_line, interval.0);
        let upper = distance_above(interval.1, current_line);
        lemma_quotient_bounds(length, resolution);
        lemma_quotient_bounds(target, resolution);
        lemma_quotient_bounds(lower, step);
        lemma_quotient_bounds(upper, step);
        assert(step * 2 <= step * resolution) by (nonlinear_arith)
            requires
                step >= 0,
                resolution >= 2,
        ;
        assert(step * resolution == (length / resolution) * resolution) by (nonlinear_arith)
            requires
                step == length / resolution,
        ;
        assert(lower + upper >= length);
        assert(lower >= step || upper >= step);
        lemma_product_positive(target_step, lower / step, upper / step);
    }
}

/// Scales `interval` about `current_line`. A `scale` below one shortens the
/// interval, that is, zooms in.
pub fn zoom(
    current_line: usize,
    num_lines: usize,
    interval: (usize, usize),
    horizontal_resolution: usize,
    scale: Scale,
) -> (zoomed_interval: (usize, usize))
    requires
        interval.0 <= interval.1,
        horizontal_resolution > 0,
        scale.den > 0,
    ensures
        (zoomed_interval.0 as int, zoomed_interval.1 as int) == zoomed(
            current_line as int,
            num_lines as int,
            (interval.0 as int, interval.1 as int),
            horizontal_resolution as int,
            scale,
        ),
{
    let length: usize = interval.1 - interval.0;
    proof {
        lemma_product_fits(length as int, scale.num as int);
    }
    let target: u128 = (length as u128 * scale.num as u128) / scale.den as u128;
    let step: usize = length / horizontal_resolution;
    if target < horizontal_resolution as u128 || (target <= num_lines as u128 && step == 0) {
        return interval;
    }
    if target > num_lines as u128 {
        return (0, num_lines);
    }
    let target: usize = target as usize;
    let target_step: usize = target / horizontal_resolution;
    let lower_offset: usize = if current_line >= interval.0 {
        (current_line - interval.0) / step
    } else {
        0
    };
    let upper_offset: usize = if interval.1 >= current_line {
        (interval.1 - current_line) / step
    } else {
        0
    };
    proof {
        lemma_product_fits(target_step as int, lower_offset as int);
        lemma_product_fits(target_step as int, upper_offset as int);
    }
    let below: u128 = target_step as u128 * lower_offset as u128;
    let above: u128 = target_step as u128 * upper_offset as u128;
    if below > current_line as u128 {
        (0, target)
    } else if current_line as u128 + above > num_lines as u128 {
        (num_lines - target, num_lines)
    } else {
        (current_line - below as usize, current_line + above as usize)
    }
}

/// The interval after following `current_line`.
///
/// An interval over the full range stays. Otherwise a margin of an eighth of
/// its length is kept between `current_line` and either edge: the interval
/// slides right until its upper edge is `current_line + margin`, or the
/// number of lines if that is less, or left until its lower edge is
/// `current_line - margin`, or zero. Its length never changes.
pub open spec fn followed(current_line: int, num_lines: int, interval: (int, int)) -> (int, int) {
    let margin = (interval.1 - interval.0) / 8;
    let target_upper = if current_line + margin < num_lines {
        current_line + margin
    } else {
        num_lines
    };
    let target_lower = if current_line < margin {
        0
    } else {
        current_line - margin
    };
    if interval == (0int, num_lines) {
        interval
    } else if interval.1 < target_upper {
        (interval.0 + (target_upper - interval.1), target_upper)
    } else if target_lower < interval.0 {
        (target_lower, interval.1 - (interval.0 - target_lower))
    } else {
        interval
    }
}

/// The sum of the first `n` entries of `deltas`.
pub open spec fn prefix_sum(deltas: Seq<i64>, n: int) -> int
    decreases n,
{
    if n <= 0 {
        0
    } else {
        prefix_sum(deltas, n - 1) + deltas[n - 1]
    }
}

/// Every partial sum of `deltas` is an `i64`.
pub open spec fn sums_fit(deltas: Seq<i64>) -> bool {
    forall|n: int| 0 < n <= deltas.len() ==> i64::MIN <= #[trigger] prefix_sum(deltas, n) <= i64::MAX
}

/// The sample lines lie `stride` apart and stay below the end of the
/// stretch that `resolution` strides cover.
proof fn lemma_sample_lines(lower: int, stride: int, resolution: int, k: int)
    by (nonlinear_arith)
    requires
        0 <= k < resolution,
        stride >= 0,
        lower >= 0,
    ensures
        lower + (k + 1) * stride == lower + k * stride + stride,
        lower <= lower + k * stride,
        lower + k * stride + stride <= lower + resolution * stride,
        stride == 0 ==> lower + k * stride == lower,
{
}

/// The state of the chart: the series it plots and the part of it in view.
#[derive(Debug, PartialEq)]
pub struct ChartState {
    /// Elapsed time between log lines, in units of `1 / denominator` of the
    /// total time
    pub deltas: Vec<i64>,
    /// Prefix sum of `deltas`
    pub cumulative_deltas: Vec<i64>,
    /// The number of units that make up the total time
    pub denominator: i64,
    /// Inclusive lower and exclusive upper bounds on the lines
    /// included in the currently visible chart region
    pub interval: (usize, usize),
    /// How much to try to multiply interval length by when zooming
    pub zoom_factor: usize,
    /// The number of horizontal "pixels" available to plot the chart
    pub horizontal_resolution: usize,
}

/// The data for a zoomed section of the elapsed time chart: line numbers
/// against cumulative time in units of `1 / denominator` of the total.
#[derive(Debug, PartialEq)]
pub struct ChartSection {
    pub points: Vec<(usize, i64)>,
    pub x_bounds: (usize, usize),
    pub y_bounds: (i64, i64),
}

impl ChartState {
    /// The series is not empty and its sums are in place, the interval is a
    /// non-empty part of the line range, and the settings allow zooming.
    pub open spec fn wf(self) -> bool {
        &&& self.deltas.len() > 0
        &&& self.cumulative_deltas.len() == self.deltas.len()
        &&& forall|i: int|
            0 <= i < self.deltas.len() ==> #[trigger] self.cumulative_deltas[i] == prefix_sum(
                self.deltas@,
                i + 1,
            )
        &&& self.denominator > 0
        &&& self.interval.0 < self.interval.1 <= self.deltas.len()
        &&& self.zoom_factor >= 1
        &&& self.horizontal_resolution >= 2
    }

    /// The interval as a pair of mathematical integers.
    pub open spec fn view_interval(self) -> (int, int) {
        (self.interval.0 as int, self.interval.1 as int)
    }

    /// The number of lines of the log.
    pub open spec fn num_lines(self) -> int {
        self.deltas.len() as int
    }

    /// The scale that zooming in applies.
    pub open spec fn scale_in(self) -> Scale {
        Scale { num: 1, den: self.zoom_factor }
    }

    /// The scale that zooming out applies.
    pub open spec fn scale_out(self) -> Scale {
        Scale { num: self.zoom_factor, den: 1 }
    }

    /// The chart with `interval` in view.
    pub open spec fn showing(self, interval: (int, int)) -> ChartState {
        ChartState { interval: (interval.0 as usize, interval.1 as usize), ..self }
    }

    /// The chart after it has followed `current_line`.
    pub open spec fn updated(self, current_line: int) -> ChartState {
        self.showing(followed(current_line, self.num_lines(), self.view_interval()))
    }

    /// The chart after zooming in about `current_line`.
    pub open spec fn zoomed_in(self, current_line: int) -> ChartState {
        self.showing(
            zoomed(
                current_line,
                self.num_lines(),
                self.view_interval(),
                self.horizontal_resolution as int,
                self.scale_in(),
            ),
        )
    }

    /// The chart after zooming out about `current_line`.
    pub open spec fn zoomed_out(self, current_line: int) -> ChartState {
        self.showing(
            zoomed(
                current_line,
                self.num_lines(),
                self.view_interval(),
                self.horizontal_resolution as int,
                self.scale_out(),
            ),
        )
    }

    /// The chart with the whole log in view.
    pub open spec fn reset_view(self) -> ChartState {
        self.showing((0, self.num_lines()))
    }

    /// A chart over the whole of `deltas`, with a zoom factor of 3 and 100
    /// sample columns.
    pub fn new(deltas: Vec<i64>, denominator: i64) -> (state: ChartState)
        requires
            deltas.len() > 0,
            denominator > 0,
            sums_fit(deltas@),
        ensures
            state.wf(),
            state.deltas@ == deltas@,
            state.denominator == denominator,
            state.interval == (0usize, deltas.len()),
            state.zoom_factor == 3,
            state.horizontal_resolution == 100,
    {
        let len = deltas.len();
        let mut cumulative_deltas: Vec<i64> = Vec::with_capacity(len);
        let mut sum: i64 = 0;
        for i in 0..len
            invariant
                len == deltas.len(),
                sums_fit(deltas@),
                sum == prefix_sum(deltas@, i as int),
                cumulative_deltas.len() == i,
                forall|k: int|
                    0 <= k < i ==> #[trigger] cumulative_deltas[k] == prefix_sum(deltas@, k + 1),
        {
            assert(i64::MIN <= prefix_sum(deltas@, i + 1) <= i64::MAX);
            sum = sum + deltas[i];
            cumulative_deltas.push(sum);
        }
        ChartState {
            deltas,
            cumulative_deltas,
            denominator,
            interval: (0, len),
            zoom_factor: 3,
            horizontal_resolution: 100,
        }
    }

    /// The number of lines per line in view, as a ratio: if the entire log
    /// is visible in the chart then the zoom level is one.
    pub fn current_zoom_level(&self) -> (level: Scale)
        requires
            self.wf(),
        ensures
            level.num == self.deltas.len(),
            level.den == self.interval.1 - self.interval.0,
            level.den > 0,
    {
        Scale { num: self.deltas.len(), den: self.interval_length() }
    }

    /// Update the current interval if `current_line` is outside it, or close to leaving it.
    pub fn update(&mut self, current_line: usize)
        requires
            old(self).wf(),
        ensures
            final(self).wf(),
            final(self).view_interval() == followed(
                current_line as int,
                old(self).num_lines(),
                old(self).view_interval(),
            ),
            final(self).interval.1 - final(self).interval.0 == old(self).interval.1 - old(
                self,
            ).interval.0,
            *final(self) == old(self).updated(current_line as int),
    {
        let num_lines = self.deltas.len();
        let (lower, upper) = self.interval;
        // We cannot slide the interval if it already covers the entire log
        if lower == 0 && upper == num_lines {
            return ;
        }
        // When the cursor moves within either the left or right margins we will
        // slide the interval if possible

        let margin = (upper - lower) / 8;
        // Slide right if necessary
        let target_upper = if current_line < num_lines - margin {
            current_line + margin
        } else {
            num_lines
        };
        if upper < target_upper {
            let offset = target_upper - upper;
            self.interval = (lower + offset, upper + offset);
            return ;
        }
        // Slide left if necessary

        let target_lower = if current_line < margin {
            0
        } else {
            current_line - margin
        };
        if target_lower < lower {
            let offset = lower - target_lower;
            self.interval = (lower - offset, upper - offset);
        }
    }

    pub fn interval_length(&self) -> (length: usize)
        requires
            self.interval.0 <= self.interval.1,
        ensures
            length == self.interval.1 - self.interval.0,
    {
        self.interval.1 - self.interval.0
    }

    /// Shows the whole log again.
    pub fn reset(&mut self)
        ensures
            final(self).interval == (0usize, old(self).deltas.len()),
            *final(self) == old(self).reset_view(),
            old(self).wf() ==> final(self).wf(),
    {
        self.interval = (0, self.deltas.len());
    }

    pub fn zoom_in(&mut self, current_line: usize)
        requires
            old(self).wf(),
        ensures
            final(self).wf(),
            final(self).view_interval() == zoomed(
                current_line as int,
                old(self).num_lines(),
                old(self).view_interval(),
                old(self).horizontal_resolution as int,
                old(self).scale_in(),
            ),
            *final(self) == old(self).zoomed_in(current_line as int),
    {
        proof {
            lemma_zoomed_in_range(
                current_line as int,
                self.num_lines(),
                self.view_interval(),
                self.horizontal_resolution as int,
                self.scale_in(),
            );
        }
        self.interval = zoom(
            current_line,
            self.deltas.len(),
            self.interval,
            self.horizontal_resolution,
            Scale { num: 1, den: self.zoom_factor },
        );
    }

    pub fn zoom_out(&mut self, current_line: usize)
        requires
            old(self).wf(),
        ensures
            final(self).wf(),
            final(self).view_interval() == zoomed(
                current_line as int,
                old(self).num_lines(),
                old(self).view_interval(),
                old(self).horizontal_resolution as int,
                old(self).scale_out(),
            ),
            *final(self) == old(self).zoomed_out(current_line as int),
    {
        proof {
            lemma_zoomed_in_range(
                current_line as int,
                self.num_lines(),
                self.view_interval(),
                self.horizontal_resolution as int,
                self.scale_out(),
            );
        }
        self.interval = zoom(
            current_line,
            self.deltas.len(),
            self.interval,
            self.horizontal_resolution,
            Scale { num: self.zoom_factor, den: 1 },
        );
    }

    /// The distance in lines between two neighbouring sample points.
    pub open spec fn stride(self) -> int {
        (self.interval.1 - self.interval.0) / (self.horizontal_resolution as int)
    }

    /// The line that the sample point of column `k` stands for.
    pub open spec fn sample_line(self, k: int) -> int {
        self.interval.0 + k * self.stride()
    }

    /// The sample point of column `k`: its line and the cumulative time there.
    pub open spec fn sample_point(self, k: int) -> (usize, i64) {
        (self.sample_line(k) as usize, self.cumulative_deltas[self.sample_line(k)])
    }

    /// One point for each sample column, from the lower edge of the
    /// interval on, with the lines and the cumulative times that bound them.
    /// Where the interval has fewer lines than there are columns the stride
    /// is zero, and every point is that of the lower edge.
    pub fn section(&self) -> (section: ChartSection)
        requires
            self.wf(),
        ensures
            section.points.len() == self.horizontal_resolution,
            forall|k: int|
                0 <= k < self.horizontal_resolution ==> self.interval.0 <= #[trigger] self.sample_line(
                    k,
                ) < self.interval.1,
            forall|k: int|
                0 <= k < self.horizontal_resolution ==> #[trigger] section.points[k]
                    == self.sample_point(k),
            section.x_bounds == (
                section.points[0].0,
                section.points[self.horizontal_resolution - 1].0,
            ),
            section.y_bounds == (
                section.points[0].1,
                section.points[self.horizontal_resolution - 1].1,
            ),
    {
        let resolution = self.horizontal_resolution;
        let stride = self.interval_length() / resolution;
        let mut points: Vec<(usize, i64)> = Vec::with_capacity(resolution);
        let mut line = self.interval.0;
        let mut k: usize = 0;
        proof {
            lemma_quotient_bounds(
                self.interval.1 - self.interval.0,
                self.horizontal_resolution as int,
            );
            assert(self.sample_line(0) == self.interval.0) by (nonlinear_arith)
                requires
                    self.sample_line(0) == self.interval.0 + 0 * self.stride(),
            ;
            assert(self.interval.0 + resolution * stride <= self.interval.1) by (nonlinear_arith)
                requires
                    stride * resolution <= self.interval.1 - self.interval.0,
            ;
            assert forall|j: int| 0 <= j < resolution implies self.interval.0
                <= #[trigger] self.sample_line(j) < self.interval.1 by {
                lemma_sample_lines(self.interval.0 as int, self.stride(), resolution as int, j);
            }
        }
        while k < resolution
            invariant
                self.wf(),
                resolution == self.horizontal_resolution,
                stride == self.stride(),
                forall|j: int|
                    0 <= j < resolution ==> self.interval.0 <= #[trigger] self.sample_line(j)
                        < self.interval.1,
                k <= resolution,
                points.len() == k,
                k < resolution ==> line == self.sample_line(k as int),
                forall|j: int| 0 <= j < k ==> #[trigger] points@[j] == self.sample_point(j),
            decreases resolution - k,
        {
            proof {
                lemma_sample_lines(
                    self.interval.0 as int,
                    self.stride(),
                    resolution as int,
                    k as int,
                );
                assert(self.interval.0 <= self.sample_line(k as int) < self.interval.1);
                if k + 1 < resolution {
                    assert(self.interval.0 <= self.sample_line(k + 1) < self.interval.1);
                }
            }
            points.push((line, self.cumulative_deltas[line]));
            if k + 1 < resolution {
                line = line + stride;
            }
            k = k + 1;
        }
        let first = points[0];
        let last = points[resolution - 1];
        ChartSection { points, x_bounds: (first.0, last.0), y_bounds: (first.1, last.1) }
    }
}

} // verus!
