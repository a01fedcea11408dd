//! Closed smooth curves through control points of the map plane.

use crate::map::{MapPoint, Position, MILLI};
use vstd::prelude::*;

verus! {

/// Steps of progress in one segment of a curve.
pub const PROGRESS_PER_SEGMENT: u64 = 100_000_000;

/// Fewest different control points that make a curve.
pub const MIN_DISTINCT_POINTS: usize = 4;

/// Most control points that a curve takes.
pub const MAX_CONTROL_POINTS: usize = 0xFFFF_FFFF;

/// Height at which every curve runs, in thousandths of a map unit.
pub const CURVE_HEIGHT: i64 = -200;

/// Why no curve was made of a set of control points.
#[derive(Clone, Copy, Debug, PartialEq, Eq, Structural)]
pub enum CurveConstructionError {
    /// Fewer than four of the points differ from one another.
    TooFewDistinctPoints { distinct: usize },
}

/// How many different points the sequence holds.
pub open spec fn distinct_points(points: Seq<MapPoint>) -> nat {
    points.to_set().len()
}

/// The points can carry a curve.
pub open spec fn can_carry_curve(points: Seq<MapPoint>) -> bool {
    distinct_points(points) >= MIN_DISTINCT_POINTS
}

/// A closed curve that runs through its control points in order and from
/// the last one back to the first. Segment `i` leads from point `i` to the
/// next one.
#[derive(Debug, PartialEq, Eq)]
pub struct Curve {
    points: Vec<MapPoint>,
}

impl View for Curve {
    type V = Seq<MapPoint>;

    closed spec fn view(&self) -> Seq<MapPoint> {
        self.points@
    }
}

impl Clone for Curve {
    fn clone(&self) -> (copy: Curve)
        ensures
            copy@ == self@,
    {
        proof {
            use_type_invariant(self);
        }
        let mut points: Vec<MapPoint> = Vec::new();
        let mut i: usize = 0;
        while i < self.points.len()
            invariant
                i <= self.points.len(),
                points@ == self.points@.take(i as int),
            decreases self.points.len() - i,
        {
            points.push(self.points[i]);
            assert(points@ =~= self.points@.take(i + 1));
            i = i + 1;
        }
        assert(self.points@.take(self.points.len() as int) =~= self.points@);
        Curve { points }
    }
}

/// Tells whether `point` is among the first `upto` of `points`.
fn seen_before(points: &Vec<MapPoint>, upto: usize, point: MapPoint) -> (found: bool)
    requires
        upto <= points.len(),
    ensures
        found == points@.take(upto as int).contains(point),
{
    let mut k: usize = 0;
    while k < upto
        invariant
            k <= upto <= points.len(),
            !points@.take(k as int).contains(point),
        decreases upto - k,
    {
        if points[k] == point {
            assert(points@.take(upto as int)[k as int] == point);
            return true;
        }
        assert(points@.take(k + 1) =~= points@.take(k as int).push(points@[k as int]));
        k = k + 1;
    }
    false
}

/// Counts the different points of a sequence.
pub fn count_distinct(points: &Vec<MapPoint>) -> (count: usize)
    ensures
        count == distinct_points(points@),
{
    let mut count: usize = 0;
    let mut i: usize = 0;
    assert(points@.take(0).to_set() =~= Set::<MapPoint>::empty());
    while i < points.len()
        invariant
            i <= points.len(),
            count <= i,
            count == distinct_points(points@.take(i as int)),
        decreases points.len() - i,
    {
        let fresh: bool = !seen_before(points, i, points[i]);
        proof {
            let head = points@.take(i as int);
            let point = points@[i as int];
            assert(points@.take(i + 1) =~= head.push(point));
            head.lemma_push_to_set_commute(point);
            vstd::seq_lib::seq_to_set_is_finite(head);
            assert(head.contains(point) <==> head.to_set().contains(point));
        }
        if fresh {
            count = count + 1;
        }
        i = i + 1;
    }
    assert(points@.take(points.len() as int) =~= points@);
    count
}

/// Twice the cube of [`PROGRESS_PER_SEGMENT`]: what the numerator of a
/// point of a segment is divided by.
pub open spec fn spline_denominator() -> int {
    2 * (PROGRESS_PER_SEGMENT as int) * (PROGRESS_PER_SEGMENT as int) * (PROGRESS_PER_SEGMENT as int)
}

/// Numerator of one coordinate of the cubic that leads from `p1` to `p2`,
/// `k` steps into the segment, with `p0` before and `p3` behind them. With
/// `u = k / PROGRESS_PER_SEGMENT` the cubic is
/// `p1 + (p2 - p0) u / 2 + (2 p0 - 5 p1 + 4 p2 - p3) u^2 / 2 + (3 p1 - p0 - 3 p2 + p3) u^3 / 2`.
pub open spec fn spline_numerator(p0: int, p1: int, p2: int, p3: int, k: int) -> int {
    let unit = PROGRESS_PER_SEGMENT as int;
    2 * p1 * unit * unit * unit + (p2 - p0) * k * unit * unit + (2 * p0 - 5 * p1 + 4 * p2 - p3) * k
        * k * unit + (3 * p1 - p0 - 3 * p2 + p3) * k * k * k
}

/// One coordinate of a point of a segment, in thousandths of a map unit,
/// rounded down.
pub open spec fn spline_coordinate(p0: int, p1: int, p2: int, p3: int, k: int) -> int {
    (MILLI as int * spline_numerator(p0, p1, p2, p3, k)) / spline_denominator()
}

/// The index behind `i` on a ring of `n`.
pub open spec fn ring_next(i: int, n: int) -> int {
    if i + 1 >= n {
        0
    } else {
        i + 1
    }
}

/// The index before `i` on a ring of `n`.
pub open spec fn ring_prior(i: int, n: int) -> int {
    if i <= 0 {
        n - 1
    } else {
        i - 1
    }
}

/// The segment that a progress value falls into. Progress beyond the last
/// segment goes round the curve again.
pub open spec fn segment_at(progress: int, segments: int) -> int {
    (progress / (PROGRESS_PER_SEGMENT as int)) % segments
}

/// How many steps into its segment a progress value is.
pub open spec fn steps_into_segment(progress: int) -> int {
    progress % (PROGRESS_PER_SEGMENT as int)
}

/// The `x` and `z` of the point of the closed curve through `points` at a
/// progress value, in thousandths of a map unit.
pub open spec fn planar_at(points: Seq<MapPoint>, progress: int) -> (int, int) {
    let n = points.len() as int;
    let segment = segment_at(progress, n);
    let k = steps_into_segment(progress);
    let p0 = points[ring_prior(segment, n)];
    let p1 = points[segment];
    let p2 = points[ring_next(segment, n)];
    let p3 = points[ring_next(ring_next(segment, n), n)];
    (
        spline_coordinate(p0.x as int, p1.x as int, p2.x as int, p3.x as int, k),
        spline_coordinate(p0.z as int, p1.z as int, p2.z as int, p3.z as int, k),
    )
}

/// The point of the closed curve through `points` at a progress value.
pub open spec fn point_at(points: Seq<MapPoint>, progress: int) -> Position {
    Position {
        x: planar_at(points, progress).0 as i64,
        y: CURVE_HEIGHT,
        z: planar_at(points, progress).1 as i64,
    }
}

proof fn lemma_product_bound(a: int, bound: int, k: int, limit: int)
    requires
        -bound <= a <= bound,
        0 <= k <= limit,
    ensures
        -bound * limit <= a * k <= bound * limit,
{
    assert(-bound * limit <= a * k <= bound * limit) by (nonlinear_arith)
        requires
            -bound <= a <= bound,
            0 <= k <= limit,
    ;
}

/// Computes one coordinate of a point of a segment.
fn spline_value(p0: i32, p1: i32, p2: i32, p3: i32, k: u64) -> (value: i64)
    requires
        k < PROGRESS_PER_SEGMENT,
    ensures
        value == spline_coordinate(p0 as int, p1 as int, p2 as int, p3 as int, k as int),
{
    let unit: i128 = 100_000_000;
    let unit2: i128 = 10_000_000_000_000_000;
    let unit3: i128 = 1_000_000_000_000_000_000_000_000;
    let steps: i128 = k as i128;
    let c1: i128 = p2 as i128 - p0 as i128;
    let c2: i128 = 2 * (p0 as i128) - 5 * (p1 as i128) + 4 * (p2 as i128) - p3 as i128;
    let c3: i128 = 3 * (p1 as i128) - p0 as i128 - 3 * (p2 as i128) + p3 as i128;
    proof {
        lemma_product_bound(c3 as int, 0x4_0000_0000, steps as int, unit as int);
    }
    let h1: i128 = c3 * steps + c2 * unit;
    proof {
        lemma_product_bound(h1 as int, 0xA_0000_0000 * unit, steps as int, unit as int);
        assert(0xA_0000_0000 * unit * unit == 0xA_0000_0000 * unit2);
    }
    let h2: i128 = h1 * steps + c1 * unit2;
    proof {
        lemma_product_bound(h2 as int, 0xB_0000_0000 * unit2, steps as int, unit as int);
        assert(0xB_0000_0000 * unit2 * unit == 0xB_0000_0000 * unit3);
    }
    let numerator: i128 = h2 * steps + 2 * (p1 as i128) * unit3;
    assert(numerator == spline_numerator(
        p0 as int,
        p1 as int,
        p2 as int,
        p3 as int,
        k as int,
    )) by (nonlinear_arith)
        requires
            unit == PROGRESS_PER_SEGMENT,
            unit2 == unit * unit,
            unit3 == unit * unit * unit,
            steps == k,
            c1 == p2 - p0,
            c2 == 2 * p0 - 5 * p1 + 4 * p2 - p3,
            c3 == 3 * p1 - p0 - 3 * p2 + p3,
            h1 == c3 * steps + c2 * unit,
            h2 == h1 * steps + c1 * unit2,
            numerator == h2 * steps + 2 * p1 * unit3,
    ;
    let lift: i128 = 12_000 * 0x8000_0000;
    let denominator: i128 = 2 * unit3;
    let lifted: i128 = 1000 * numerator + lift * denominator;
    let quotient: i128 = lifted / denominator;
    proof {
        assert(denominator == spline_denominator());
        vstd::arithmetic::div_mod::lemma_hoist_over_denominator(
            1000 * numerator,
            lift as int,
            denominator as nat,
        );
        assert(0 <= quotient <= 2 * lift) by {
            vstd::arithmetic::div_mod::lemma_div_pos_is_pos(lifted as int, denominator as int);
            vstd::arithmetic::div_mod::lemma_div_is_ordered(
                lifted as int,
                2 * lift * denominator,
                denominator as int,
            );
            vstd::arithmetic::div_mod::lemma_div_multiples_vanish(2 * lift, denominator as int);
        }
    }
    (quotient - lift) as i64
}

impl Curve {
    /// The curve can be walked: it has enough different points, and few
    /// enough points for its span to be counted.
    #[verifier::type_invariant]
    closed spec fn well_formed(&self) -> bool {
        can_carry_curve(self.points@) && self.points.len() <= MAX_CONTROL_POINTS
    }

    /// Makes the closed curve through `points`, or says why there is none:
    /// a curve needs four points that differ from one another. Points on
    /// one line are as good as any.
    pub fn new(points: Vec<MapPoint>) -> (made: Result<Curve, CurveConstructionError>)
        requires
            points.len() <= MAX_CONTROL_POINTS,
        ensures
            can_carry_curve(points@) ==> made is Ok && made->Ok_0@ == points@,
            !can_carry_curve(points@) ==> made == Err::<Curve, CurveConstructionError>(
                CurveConstructionError::TooFewDistinctPoints {
                    distinct: distinct_points(points@) as usize,
                },
            ),
    {
        let distinct: usize = count_distinct(&points);
        if distinct < MIN_DISTINCT_POINTS {
            Err(CurveConstructionError::TooFewDistinctPoints { distinct })
        } else {
            Ok(Curve { points })
        }
    }

    /// Number of segments, which is the number of control points.
    pub fn segment_count(&self) -> (count: usize)
        ensures
            count == self@.len(),
            MIN_DISTINCT_POINTS <= count <= MAX_CONTROL_POINTS,
    {
        proof {
            use_type_invariant(self);
            self.points@.lemma_cardinality_of_set();
        }
        self.points.len()
    }

    /// The control point at `index`.
    pub fn control_point(&self, index: usize) -> (point: MapPoint)
        requires
            index < self@.len(),
        ensures
            point == self@[index as int],
    {
        self.points[index]
    }

    /// Progress that one lap of the curve takes.
    pub fn lap(&self) -> (steps: u64)
        ensures
            steps == self@.len() * PROGRESS_PER_SEGMENT,
            steps <= MAX_CONTROL_POINTS * PROGRESS_PER_SEGMENT,
    {
        let count: usize = self.segment_count();
        assert(count * PROGRESS_PER_SEGMENT <= 0xFFFF_FFFF * PROGRESS_PER_SEGMENT) by (nonlinear_arith)
            requires
                count <= 0xFFFF_FFFF,
        ;
        count as u64 * PROGRESS_PER_SEGMENT
    }

    /// The point of the curve at a progress value. Every value has one:
    /// beyond the last segment the curve goes round again.
    pub fn position_at(&self, progress: u64) -> (at: Position)
        ensures
            at == point_at(self@, progress as int),
            at.x == planar_at(self@, progress as int).0,
            at.z == planar_at(self@, progress as int).1,
    {
        let n: usize = self.segment_count();
        let segment: usize = ((progress / PROGRESS_PER_SEGMENT) % (n as u64)) as usize;
        let k: u64 = progress % PROGRESS_PER_SEGMENT;
        let prior: usize = if segment == 0 { n - 1 } else { segment - 1 };
        let next: usize = if segment + 1 >= n { 0 } else { segment + 1 };
        let after: usize = if next + 1 >= n { 0 } else { next + 1 };
        let p0: MapPoint = self.points[prior];
        let p1: MapPoint = self.points[segment];
        let p2: MapPoint = self.points[next];
        let p3: MapPoint = self.points[after];
        Position {
            x: spline_value(p0.x, p1.x, p2.x, p3.x, k),
            y: CURVE_HEIGHT,
            z: spline_value(p0.z, p1.z, p2.z, p3.z, k),
        }
    }
}

proof fn lemma_coordinate_at_start(p0: int, p1: int, p2: int, p3: int)
    ensures
        spline_coordinate(p0, p1, p2, p3, 0) == MILLI * p1,
{
    let unit = PROGRESS_PER_SEGMENT as int;
    assert(spline_numerator(p0, p1, p2, p3, 0) == 2 * p1 * unit * unit * unit) by (nonlinear_arith)
        requires
            unit == PROGRESS_PER_SEGMENT,
    ;
    assert(MILLI * (2 * p1 * unit * unit * unit) == spline_denominator() * (MILLI * p1))
        by (nonlinear_arith)
        requires
            unit == PROGRESS_PER_SEGMENT,
            spline_denominator() == 2 * unit * unit * unit,
    ;
    vstd::arithmetic::div_mod::lemma_div_multiples_vanish(MILLI * p1, spline_denominator());
}

/// A curve passes through each of its control points: at the start of
/// segment `i` it is at point `i`.
pub proof fn curve_passes_through_points(points: Seq<MapPoint>, i: int)
    requires
        0 <= i < points.len(),
    ensures
        planar_at(points, i * PROGRESS_PER_SEGMENT) == (
            MILLI * points[i].x as int,
            MILLI * points[i].z as int,
        ),
{
    let n = points.len() as int;
    let unit = PROGRESS_PER_SEGMENT as int;
    vstd::arithmetic::div_mod::lemma_div_multiples_vanish(i, unit);
    vstd::arithmetic::div_mod::lemma_mod_multiples_basic(i, unit);
    vstd::arithmetic::div_mod::lemma_small_mod(i as nat, n as nat);
    assert(i * unit == unit * i) by (nonlinear_arith);
    assert(segment_at(i * unit, n) == i);
    assert(steps_into_segment(i * unit) == 0);
    let p0 = points[ring_prior(i, n)];
    let p2 = points[ring_next(i, n)];
    let p3 = points[ring_next(ring_next(i, n), n)];
    lemma_coordinate_at_start(p0.x as int, points[i].x as int, p2.x as int, p3.x as int);
    lemma_coordinate_at_start(p0.z as int, points[i].z as int, p2.z as int, p3.z as int);
}

/// A curve is closed: one lap further on it is at the same point.
pub proof fn curve_is_closed(points: Seq<MapPoint>, progress: int)
    requires
        points.len() > 0,
        progress >= 0,
    ensures
        planar_at(points, progress + points.len() * PROGRESS_PER_SEGMENT) == planar_at(
            points,
            progress,
        ),
{
    let n = points.len() as int;
    let unit = PROGRESS_PER_SEGMENT as int;
    let further = progress + n * unit;
    vstd::arithmetic::div_mod::lemma_hoist_over_denominator(progress, n, unit as nat);
    assert(further / unit == progress / unit + n);
    vstd::arithmetic::div_mod::lemma_mod_multiples_vanish(n, progress, unit);
    assert(n * unit == unit * n) by (nonlinear_arith);
    assert(further % unit == progress % unit);
    vstd::arithmetic::div_mod::lemma_mod_multiples_vanish(1, progress / unit, n);
    assert(segment_at(further, n) == segment_at(progress, n));
}

} // verus!
