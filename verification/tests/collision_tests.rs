use vessel_traffic::collision::{check_collision, Body, Collider, CollisionEvent};
use vessel_traffic::map::Position;

fn body(entity: u64, x: i64, z: i64, width: u32, length: u32) -> Body {
    Body {
        entity,
        position: Position { x, y: 0, z },
        collider: Collider { width, length },
    }
}

#[test]
fn identical_rectangles_at_one_place_give_one_event() {
    let bodies = vec![body(7, 1000, 2000, 4000, 6000), body(9, 1000, 2000, 4000, 6000)];
    assert!(bodies[0].overlap(&bodies[1]));
    let events = check_collision(&bodies);
    assert_eq!(events, vec![CollisionEvent { entity_a: 7, entity_b: 9 }]);
}

#[test]
fn apart_rectangles_give_no_event() {
    let bodies = vec![body(1, 0, 0, 4000, 6000), body(2, 10_000, 0, 4000, 6000)];
    assert!(!bodies[0].overlap(&bodies[1]));
    assert_eq!(check_collision(&bodies), vec![]);
}

#[test]
fn rectangles_that_touch_along_an_edge_do_not_overlap() {
    let a = body(1, 0, 0, 4000, 6000);
    let beside = body(2, 4000, 0, 4000, 6000);
    let behind = body(3, 0, 6000, 4000, 6000);
    assert!(!a.overlap(&beside));
    assert!(!a.overlap(&behind));
    assert_eq!(check_collision(&vec![a, beside, behind]), vec![]);
}

#[test]
fn rectangles_that_share_a_sliver_overlap() {
    let a = body(1, 0, 0, 4000, 6000);
    let b = body(2, 3999, 5999, 4000, 6000);
    assert!(a.overlap(&b));
    assert!(b.overlap(&a));
    assert_eq!(
        check_collision(&vec![a, b]),
        vec![CollisionEvent { entity_a: 1, entity_b: 2 }]
    );
}

#[test]
fn overlap_on_one_axis_alone_is_no_overlap() {
    let a = body(1, 0, 0, 4000, 6000);
    let same_x = body(2, 1000, 50_000, 4000, 6000);
    let same_z = body(3, 50_000, 1000, 4000, 6000);
    assert!(!a.overlap(&same_x));
    assert!(!a.overlap(&same_z));
}

#[test]
fn empty_footprint_overlaps_nothing() {
    let flat = body(1, 1000, 1000, 0, 6000);
    let thin = body(2, 1000, 1000, 4000, 0);
    let full = body(3, 0, 0, 8000, 12_000);
    assert!(!flat.overlap(&full));
    assert!(!full.overlap(&flat));
    assert!(!thin.overlap(&full));
    assert_eq!(check_collision(&vec![flat, thin, full]), vec![]);
}

#[test]
fn height_plays_no_part_in_overlap() {
    let mut high = body(1, 0, 0, 4000, 6000);
    high.position.y = 1_000_000;
    let low = body(2, 0, 0, 4000, 6000);
    assert!(high.overlap(&low));
}

#[test]
fn vessel_does_not_collide_with_itself() {
    let bodies = vec![body(5, 0, 0, 4000, 6000), body(5, 0, 0, 4000, 6000)];
    assert!(bodies[0].overlap(&bodies[1]));
    assert_eq!(check_collision(&bodies), vec![]);
    assert_eq!(check_collision(&vec![body(5, 0, 0, 4000, 6000)]), vec![]);
}

#[test]
fn each_pair_is_reported_once_in_order_of_position() {
    let bodies = vec![
        body(10, 0, 0, 8000, 12_000),
        body(20, 1000, 1000, 8000, 12_000),
        body(30, 500_000, 0, 8000, 12_000),
        body(40, 2000, 2000, 8000, 12_000),
    ];
    let events = check_collision(&bodies);
    assert_eq!(
        events,
        vec![
            CollisionEvent { entity_a: 10, entity_b: 20 },
            CollisionEvent { entity_a: 10, entity_b: 40 },
            CollisionEvent { entity_a: 20, entity_b: 40 },
        ]
    );
    for event in &events {
        assert_ne!(event.entity_a, event.entity_b);
    }
}

#[test]
fn no_vessels_no_events() {
    assert_eq!(check_collision(&Vec::new()), vec![]);
}

#[test]
fn overlap_at_the_ends_of_the_coordinate_range() {
    let far = body(1, i64::MAX, i64::MAX, u32::MAX, u32::MAX);
    let near = body(2, i64::MAX - 10, i64::MAX - 10, 11, 11);
    let short = body(3, i64::MAX - 10, i64::MAX - 10, 10, 10);
    let least = body(4, i64::MIN, i64::MIN, 1, 1);
    assert!(far.overlap(&near));
    assert!(!far.overlap(&short));
    assert!(!far.overlap(&least));
    assert!(least.overlap(&least));
}
