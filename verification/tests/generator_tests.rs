use vessel_traffic::curve::{count_distinct, CurveConstructionError};
use vessel_traffic::generator::{
    control_points, curve_of_draws, draw_points, point_on_map, random_blueprint, random_curve,
    shift_to_map, Draw, CURVE_ATTEMPTS, MAX_MAP_BOUND,
};
use vessel_traffic::map::MapPoint;
use vessel_traffic::ship::ShipType;

fn draws(pairs: &[(u32, u32)]) -> Vec<Draw> {
    pairs.iter().map(|&(x, z)| Draw { x, z }).collect()
}

#[test]
fn draw_is_shifted_to_the_middle_of_the_map() {
    assert_eq!(shift_to_map(124, 0), -124);
    assert_eq!(shift_to_map(124, 124), 0);
    assert_eq!(shift_to_map(124, 248), 124);
    assert_eq!(shift_to_map(0, 0), 0);
    assert_eq!(shift_to_map(MAX_MAP_BOUND, 0), -i32::MAX);
    assert_eq!(shift_to_map(MAX_MAP_BOUND, u32::MAX - 1), i32::MAX);
}

#[test]
fn draws_become_control_points() {
    let points = control_points(124, &draws(&[(0, 248), (124, 124), (130, 24)]));
    assert_eq!(
        points,
        vec![
            MapPoint { x: -124, z: 124 },
            MapPoint { x: 0, z: 0 },
            MapPoint { x: 6, z: -100 },
        ]
    );
    assert_eq!(control_points(5, &Vec::new()), vec![]);
}

#[test]
fn curve_of_given_draws_is_exact() {
    let curve = curve_of_draws(10, &draws(&[(0, 0), (20, 0), (20, 20), (0, 20), (10, 10)])).unwrap();
    assert_eq!(curve.segment_count(), 5);
    assert_eq!(curve.control_point(0), MapPoint { x: -10, z: -10 });
    assert_eq!(curve.control_point(4), MapPoint { x: 0, z: 0 });
}

#[test]
fn draws_of_too_few_different_points_give_the_error() {
    let made = curve_of_draws(10, &draws(&[(1, 1), (2, 2), (1, 1), (2, 2), (3, 3)]));
    assert_eq!(
        made,
        Err(CurveConstructionError::TooFewDistinctPoints { distinct: 3 })
    );
}

#[test]
fn drawn_coordinate_lies_on_the_map() {
    for _ in 0..500 {
        let coordinate = point_on_map(124);
        assert!((-124..=124).contains(&coordinate));
    }
    for _ in 0..20 {
        assert_eq!(point_on_map(0), 0);
    }
    let wide = point_on_map(MAX_MAP_BOUND);
    assert!(wide >= -i32::MAX);
}

#[test]
fn drawn_coordinates_are_not_all_the_bound() {
    let mut seen_other = false;
    for _ in 0..400 {
        if point_on_map(1_000_000) != 1_000_000 {
            seen_other = true;
        }
    }
    assert!(seen_other);
}

#[test]
fn drawn_points_are_in_range() {
    let drawn = draw_points(124, 50);
    assert_eq!(drawn.len(), 50);
    for draw in &drawn {
        assert!(draw.x <= 248 && draw.z <= 248);
    }
    assert_eq!(draw_points(124, 0), vec![]);
}

#[test]
fn drawn_curve_has_the_points_asked_for_on_the_map() {
    for _ in 0..50 {
        let curve = random_curve(124, 5, CURVE_ATTEMPTS).unwrap();
        assert_eq!(curve.segment_count(), 5);
        for i in 0..5 {
            let point = curve.control_point(i);
            assert!((-124..=124).contains(&point.x));
            assert!((-124..=124).contains(&point.z));
        }
    }
}

#[test]
fn no_curve_is_drawn_where_none_can_come() {
    assert_eq!(random_curve(124, 3, CURVE_ATTEMPTS), None);
    assert_eq!(random_curve(124, 0, CURVE_ATTEMPTS), None);
    assert_eq!(random_curve(0, 5, CURVE_ATTEMPTS), None);
    assert_eq!(random_curve(124, 5, 0), None);
    assert_eq!(random_blueprint(0, 5), None);
    assert_eq!(random_blueprint(124, 2), None);
}

#[test]
fn drawn_blueprint_is_never_the_third_container_ship() {
    for _ in 0..200 {
        let drawn = random_blueprint(124, 4).unwrap();
        assert_ne!(drawn.kind, ShipType::ContainerShipC);
        assert_eq!(drawn.curve.segment_count(), 4);
    }
}

#[test]
fn drawn_blueprint_has_a_curve_of_four_different_points_on_the_map() {
    for _ in 0..100 {
        let drawn = random_blueprint(3, 6).unwrap();
        let points: Vec<MapPoint> = (0..6).map(|i| drawn.curve.control_point(i)).collect();
        assert!(count_distinct(&points) >= 4);
        for point in &points {
            assert!((-3..=3).contains(&point.x));
            assert!((-3..=3).contains(&point.z));
        }
        assert!(ShipType::from_index(0) == Some(drawn.kind)
            || ShipType::from_index(1) == Some(drawn.kind)
            || ShipType::from_index(2) == Some(drawn.kind)
            || ShipType::from_index(3) == Some(drawn.kind));
    }
}
