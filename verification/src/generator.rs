//! Random control points and the curves made of them.

use crate::curve::{
    can_carry_curve, distinct_points, Curve, CurveConstructionError, MAX_CONTROL_POINTS,
    MIN_DISTINCT_POINTS,
};
use crate::map::MapPoint;
use crate::random::draw_up_to;
use crate::ship::{Blueprint, ShipType};
use vstd::prelude::*;

verus! {

/// Widest map that points are drawn on: half its side, in map units.
pub const MAX_MAP_BOUND: u32 = 0x7FFF_FFFF;

/// Two numbers drawn for one control point: one for `x`, one for `z`.
#[derive(Clone, Copy, Debug, PartialEq, Eq, Structural)]
pub struct Draw {
    pub x: u32,
    pub z: u32,
}

/// The coordinate that a number drawn from `0 ..= 2 * bound` stands for.
pub open spec fn coordinate_of(bound: u32, drawn: u32) -> int {
    drawn - bound
}

/// The point lies on the map: neither coordinate is further than `bound`
/// from the middle.
pub open spec fn on_map(point: MapPoint, bound: u32) -> bool {
    -bound <= point.x <= bound && -bound <= point.z <= bound
}

/// Every point lies on the map.
pub open spec fn all_on_map(points: Seq<MapPoint>, bound: u32) -> bool {
    forall|i: int| 0 <= i < points.len() ==> on_map(#[trigger] points[i], bound)
}

/// The control points that a sequence of draws stands for.
pub open spec fn points_of(bound: u32, draws: Seq<Draw>) -> Seq<MapPoint> {
    Seq::new(
        draws.len(),
        |i: int|
            MapPoint {
                x: coordinate_of(bound, draws[i].x) as i32,
                z: coordinate_of(bound, draws[i].z) as i32,
            },
    )
}

/// Every draw is a number from `0 ..= 2 * bound`.
pub open spec fn draws_in_range(bound: u32, draws: Seq<Draw>) -> bool {
    forall|i: int|
        0 <= i < draws.len() ==> (#[trigger] draws[i]).x <= 2 * bound && draws[i].z <= 2 * bound
}

/// Shifts a number drawn from `0 ..= 2 * bound` to a coordinate of the map.
pub fn shift_to_map(bound: u32, drawn: u32) -> (coordinate: i32)
    requires
        bound <= MAX_MAP_BOUND,
        drawn <= 2 * bound,
    ensures
        coordinate == coordinate_of(bound, drawn),
        -bound <= coordinate <= bound,
{
    (drawn as i64 - bound as i64) as i32
}

/// Draws one coordinate of a point of the map, between `-bound` and `bound`.
pub fn point_on_map(bound: u32) -> (coordinate: i32)
    requires
        bound <= MAX_MAP_BOUND,
    ensures
        -bound <= coordinate <= bound,
{
    let drawn: u32 = draw_up_to(2 * bound);
    shift_to_map(bound, drawn)
}

/// Turns draws into the control points they stand for.
pub fn control_points(bound: u32, draws: &Vec<Draw>) -> (points: Vec<MapPoint>)
    requires
        bound <= MAX_MAP_BOUND,
        draws_in_range(bound, draws@),
    ensures
        points@ == points_of(bound, draws@),
        all_on_map(points@, bound),
{
    let mut points: Vec<MapPoint> = Vec::new();
    let mut i: usize = 0;
    while i < draws.len()
        invariant
            bound <= MAX_MAP_BOUND,
            draws_in_range(bound, draws@),
            i <= draws.len(),
            points@ == points_of(bound, draws@.take(i as int)),
            all_on_map(points@, bound),
        decreases draws.len() - i,
    {
        let draw: Draw = draws[i];
        let point = MapPoint { x: shift_to_map(bound, draw.x), z: shift_to_map(bound, draw.z) };
        points.push(point);
        assert(points@ =~= points_of(bound, draws@.take(i + 1)));
        i = i + 1;
    }
    assert(draws@.take(draws.len() as int) =~= draws@);
    points
}

/// Makes the curve that a sequence of draws stands for, or says why there
/// is none.
pub fn curve_of_draws(bound: u32, draws: &Vec<Draw>) -> (made: Result<
    Curve,
    CurveConstructionError,
>)
    requires
        bound <= MAX_MAP_BOUND,
        draws_in_range(bound, draws@),
        draws.len() <= MAX_CONTROL_POINTS,
    ensures
        can_carry_curve(points_of(bound, draws@)) ==> made is Ok && made->Ok_0@ == points_of(
            bound,
            draws@,
        ),
        !can_carry_curve(points_of(bound, draws@)) ==> made == Err::<Curve, CurveConstructionError>(
            CurveConstructionError::TooFewDistinctPoints {
                distinct: distinct_points(points_of(bound, draws@)) as usize,
            },
        ),
{
    Curve::new(control_points(bound, draws))
}

/// Draws the numbers for `count` control points.
pub fn draw_points(bound: u32, count: u32) -> (draws: Vec<Draw>)
    requires
        bound <= MAX_MAP_BOUND,
    ensures
        draws.len() == count,
        draws_in_range(bound, draws@),
{
    let mut draws: Vec<Draw> = Vec::new();
    let mut i: u32 = 0;
    while i < count
        invariant
            bound <= MAX_MAP_BOUND,
            i <= count,
            draws.len() == i,
            draws_in_range(bound, draws@),
        decreases count - i,
    {
        let x: u32 = draw_up_to(2 * bound);
        let z: u32 = draw_up_to(2 * bound);
        draws.push(Draw { x, z });
        i = i + 1;
    }
    draws
}

/// How often a curve is drawn anew before a spawn is given up.
pub const CURVE_ATTEMPTS: u32 = 8;

/// No curve can come of the draw: fewer than four points are asked for, or
/// the map is a single point.
pub open spec fn bound_to_fail(bound: u32, count: u32) -> bool {
    count < MIN_DISTINCT_POINTS || bound == 0
}

proof fn lemma_bound_to_fail(bound: u32, draws: Seq<Draw>)
    requires
        draws_in_range(bound, draws),
        draws.len() <= u32::MAX,
        bound_to_fail(bound, draws.len() as u32),
    ensures
        !can_carry_curve(points_of(bound, draws)),
{
    let points = points_of(bound, draws);
    if draws.len() < MIN_DISTINCT_POINTS {
        points.lemma_cardinality_of_set();
    } else {
        let origin = MapPoint { x: 0, z: 0 };
        assert forall|point: MapPoint| points.to_set().contains(point) implies set![origin].contains(
            point,
        ) by {
            let i = choose|i: int| 0 <= i < points.len() && points[i] == point;
            assert(draws[i].x == 0 && draws[i].z == 0);
        }
        vstd::set_lib::lemma_len_subset(points.to_set(), set![origin]);
    }
}

/// Draws control points until a curve comes of them, `attempts` times at
/// most. A curve that is returned has `count` control points, all on the
/// map. Where no draw can give a curve, none is returned; otherwise chance
/// decides.
pub fn random_curve(bound: u32, count: u32, attempts: u32) -> (made: Option<Curve>)
    requires
        bound <= MAX_MAP_BOUND,
    ensures
        made is Some ==> made->Some_0@.len() == count && all_on_map(made->Some_0@, bound)
            && can_carry_curve(made->Some_0@),
        bound_to_fail(bound, count) || attempts == 0 ==> made is None,
{
    let mut tried: u32 = 0;
    while tried < attempts
        invariant
            bound <= MAX_MAP_BOUND,
            tried <= attempts,
        decreases attempts - tried,
    {
        let draws: Vec<Draw> = draw_points(bound, count);
        proof {
            if bound_to_fail(bound, count) {
                lemma_bound_to_fail(bound, draws@);
            }
        }
        match curve_of_draws(bound, &draws) {
            Ok(curve) => {
                return Some(curve);
            },
            Err(_) => {},
        }
        tried = tried + 1;
    }
    None
}

/// Draws what chance decides of a new vessel: a curve of `count` control
/// points on the map, four of them different at least, and a kind among
/// the first four. Nothing is returned where no curve came of
/// [`CURVE_ATTEMPTS`] draws, which is certain where no draw can give one;
/// otherwise chance decides.
pub fn random_blueprint(bound: u32, count: u32) -> (drawn: Option<Blueprint>)
    requires
        bound <= MAX_MAP_BOUND,
    ensures
        drawn is Some ==> drawn->Some_0.curve@.len() == count && all_on_map(
            drawn->Some_0.curve@,
            bound,
        ) && can_carry_curve(drawn->Some_0.curve@),
        drawn is Some ==> drawn->Some_0.kind != ShipType::ContainerShipC && exists|index: u32|
            index <= 3 && ShipType::of_index(index) == Some(drawn->Some_0.kind),
        bound_to_fail(bound, count) ==> drawn is None,
{
    match random_curve(bound, count, CURVE_ATTEMPTS) {
        Some(curve) => {
            let kind: ShipType = ShipType::sample();
            Some(Blueprint { kind, curve })
        },
        None => None,
    }
}

} // verus!
