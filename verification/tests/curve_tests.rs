use vessel_traffic::curve::{
    count_distinct, Curve, CurveConstructionError, CURVE_HEIGHT, MIN_DISTINCT_POINTS,
    PROGRESS_PER_SEGMENT,
};
use vessel_traffic::map::{get_random_point_on_map, MapPoint, Position, MAP_SIZE, MILLI};

fn points(pairs: &[(i32, i32)]) -> Vec<MapPoint> {
    pairs.iter().map(|&(x, z)| MapPoint { x, z }).collect()
}

fn square() -> Curve {
    Curve::new(points(&[(0, 0), (0, 5), (10, 5), (10, 0)])).unwrap()
}

#[test]
fn four_collinear_evenly_spaced_points_make_a_curve() {
    let made = Curve::new(points(&[(0, 0), (10, 0), (20, 0), (30, 0)]));
    let curve = made.unwrap();
    assert_eq!(curve.segment_count(), 4);
    assert_eq!(curve.lap(), 4 * PROGRESS_PER_SEGMENT);
}

#[test]
fn three_points_make_no_curve() {
    let made = Curve::new(points(&[(0, 0), (10, 0), (20, 0)]));
    assert_eq!(
        made,
        Err(CurveConstructionError::TooFewDistinctPoints { distinct: 3 })
    );
}

#[test]
fn coincident_points_make_no_curve() {
    let made = Curve::new(points(&[(3, 3), (3, 3), (3, 3), (3, 3), (3, 3)]));
    assert_eq!(
        made,
        Err(CurveConstructionError::TooFewDistinctPoints { distinct: 1 })
    );
    assert_eq!(
        Curve::new(Vec::new()),
        Err(CurveConstructionError::TooFewDistinctPoints { distinct: 0 })
    );
}

#[test]
fn repeated_points_count_once() {
    let few = points(&[(0, 0), (1, 1), (0, 0), (2, 2), (1, 1)]);
    assert_eq!(count_distinct(&few), 3);
    assert_eq!(
        Curve::new(few),
        Err(CurveConstructionError::TooFewDistinctPoints { distinct: 3 })
    );
    let enough = points(&[(0, 0), (1, 1), (0, 0), (2, 2), (3, 3)]);
    assert_eq!(count_distinct(&enough), MIN_DISTINCT_POINTS);
    let curve = Curve::new(enough).unwrap();
    assert_eq!(curve.segment_count(), 5);
    assert_eq!(curve.control_point(2), MapPoint { x: 0, z: 0 });
}

#[test]
fn points_that_differ_in_one_coordinate_are_different() {
    assert_eq!(count_distinct(&points(&[(0, 0), (0, 1), (1, 0), (1, 1)])), 4);
}

#[test]
fn curve_passes_through_each_control_point() {
    let curve = Curve::new(points(&[(-7, 3), (12, -40), (5, 5), (100, 90), (-124, 124)])).unwrap();
    for i in 0..5usize {
        let point = curve.control_point(i);
        let at = curve.position_at(i as u64 * PROGRESS_PER_SEGMENT);
        assert_eq!(
            at,
            Position { x: point.x as i64 * MILLI, y: CURVE_HEIGHT, z: point.z as i64 * MILLI }
        );
    }
}

#[test]
fn curve_goes_round_after_its_last_segment() {
    let curve = square();
    let lap = curve.lap();
    assert_eq!(curve.position_at(lap), curve.position_at(0));
    assert_eq!(curve.position_at(lap + 125_000_000), curve.position_at(125_000_000));
    assert_eq!(
        curve.position_at(7 * lap + 333_333_333),
        curve.position_at(333_333_333)
    );
    assert_eq!(curve.position_at(u64::MAX).y, CURVE_HEIGHT);
}

#[test]
fn collinear_points_give_a_straight_segment() {
    let curve = Curve::new(points(&[(0, 0), (10, 0), (20, 0), (30, 0)])).unwrap();
    let at = curve.position_at(PROGRESS_PER_SEGMENT + PROGRESS_PER_SEGMENT / 2);
    assert_eq!(at, Position { x: 15_000, y: -200, z: 0 });
    let quarter = curve.position_at(PROGRESS_PER_SEGMENT + PROGRESS_PER_SEGMENT / 4);
    assert_eq!(quarter, Position { x: 12_500, y: -200, z: 0 });
}

#[test]
fn point_of_a_bent_segment_is_exact() {
    let curve = square();
    let half = curve.position_at(PROGRESS_PER_SEGMENT + 50_000_000);
    assert_eq!(half, Position { x: 5000, y: -200, z: 5625 });
    let quarter = curve.position_at(PROGRESS_PER_SEGMENT + 25_000_000);
    assert_eq!(quarter, Position { x: 2031, y: -200, z: 5468 });
}

#[test]
fn negative_coordinates_are_rounded_down() {
    let curve = Curve::new(points(&[(0, 0), (0, -5), (-10, -5), (-10, 0)])).unwrap();
    let quarter = curve.position_at(PROGRESS_PER_SEGMENT + 25_000_000);
    assert_eq!(quarter, Position { x: -2032, y: -200, z: -5469 });
}

#[test]
fn first_segment_looks_back_at_the_last_point() {
    let curve = square();
    let half = curve.position_at(50_000_000);
    assert_eq!(half, Position { x: -1250, y: -200, z: 2500 });
}

#[test]
fn last_segment_leads_back_to_the_first_point() {
    let curve = square();
    let half = curve.position_at(3 * PROGRESS_PER_SEGMENT + 50_000_000);
    assert_eq!(half, Position { x: 5000, y: -200, z: -625 });
}

#[test]
fn widest_coordinates_are_evaluated() {
    let curve = Curve::new(points(&[
        (i32::MAX, i32::MIN),
        (i32::MIN, i32::MAX),
        (i32::MAX, i32::MAX),
        (i32::MIN, i32::MIN),
    ]))
    .unwrap();
    let start = curve.position_at(PROGRESS_PER_SEGMENT);
    assert_eq!(start.x, i32::MIN as i64 * 1000);
    assert_eq!(start.z, i32::MAX as i64 * 1000);
    let inside = curve.position_at(PROGRESS_PER_SEGMENT + 99_999_999);
    assert_eq!(inside.y, CURVE_HEIGHT);
}

#[test]
fn copy_of_a_curve_is_the_same_curve() {
    let curve = square();
    let copy = curve.clone();
    assert_eq!(copy, curve);
    assert_eq!(copy.position_at(123_456_789), curve.position_at(123_456_789));
}

#[test]
fn stand_in_points_carry_a_curve() {
    let stand_in = get_random_point_on_map();
    assert_eq!(stand_in, points(&[(-1, -20), (3, 2), (5, 3), (9, 8)]));
    let curve = Curve::new(stand_in).unwrap();
    assert_eq!(curve.position_at(0), Position { x: -1000, y: -200, z: -20_000 });
    assert_eq!(MAP_SIZE, 256);
}
