use vessel_traffic::collision::{Body, Collider};
use vessel_traffic::curve::{Curve, PROGRESS_PER_SEGMENT};
use vessel_traffic::map::{MapPoint, Position};
use vessel_traffic::ship::{
    clamp_sum, move_ship, spawn_ships, PathFollow, ShipSpawnManager, ShipType, Vessel,
    VesselReport, DEFAULT_RATE, LOOK_AHEAD,
};
use vessel_traffic::timer::MAX_PERIOD_MICROS;

fn square_at(x: i32, z: i32) -> Curve {
    Curve::new(vec![
        MapPoint { x, z },
        MapPoint { x, z: z + 5 },
        MapPoint { x: x + 10, z: z + 5 },
        MapPoint { x: x + 10, z },
    ])
    .unwrap()
}

#[test]
fn kinds_are_numbered_in_order() {
    assert_eq!(ShipType::from_index(0), Some(ShipType::SailShipA));
    assert_eq!(ShipType::from_index(1), Some(ShipType::SailShipB));
    assert_eq!(ShipType::from_index(2), Some(ShipType::ContainerShipA));
    assert_eq!(ShipType::from_index(3), Some(ShipType::ContainerShipB));
    assert_eq!(ShipType::from_index(4), Some(ShipType::ContainerShipC));
    assert_eq!(ShipType::from_index(5), None);
    assert_eq!(ShipType::from_index(u32::MAX), None);
}

#[test]
fn footprint_goes_by_kind() {
    let sail = Collider { width: 4000, length: 6000 };
    let container = Collider { width: 8000, length: 12_000 };
    assert_eq!(ShipType::SailShipA.collider(), sail);
    assert_eq!(ShipType::SailShipB.collider(), sail);
    assert_eq!(ShipType::ContainerShipA.collider(), container);
    assert_eq!(ShipType::ContainerShipB.collider(), container);
    assert_eq!(ShipType::ContainerShipC.collider(), container);
}

#[test]
fn sampled_kind_is_one_of_the_first_four_and_varies() {
    let mut seen = [false; 4];
    for _ in 0..400 {
        match ShipType::sample() {
            ShipType::SailShipA => seen[0] = true,
            ShipType::SailShipB => seen[1] = true,
            ShipType::ContainerShipA => seen[2] = true,
            ShipType::ContainerShipB => seen[3] = true,
            ShipType::ContainerShipC => panic!("the third container ship was drawn"),
        }
    }
    assert!(seen.iter().filter(|&&kind| kind).count() >= 2);
}

#[test]
fn follower_starts_at_the_start_of_its_curve() {
    let follow = PathFollow::new(square_at(0, 0));
    assert_eq!(follow.t, 0);
    assert_eq!(follow.curve, square_at(0, 0));
}

#[test]
fn follower_advances_by_rate_times_time() {
    let mut follow = PathFollow::new(square_at(0, 0));
    let sample = follow.advance(DEFAULT_RATE, 1_000_000);
    assert_eq!(follow.t, 10_000_000);
    assert_eq!(sample.0, follow.curve.position_at(10_000_000));
    assert_eq!(sample.1, follow.curve.position_at(10_000_000 + LOOK_AHEAD));
    follow.advance(3, 7);
    assert_eq!(follow.t, 10_000_021);
}

#[test]
fn follower_reports_the_point_of_its_curve() {
    let mut follow = PathFollow::new(square_at(0, 0));
    let sample = follow.advance(DEFAULT_RATE, 12_500_000);
    assert_eq!(follow.t, PROGRESS_PER_SEGMENT + 25_000_000);
    assert_eq!(sample.0, Position { x: 2031, y: -200, z: 5468 });
}

#[test]
fn follower_without_time_stays_where_it_is() {
    let mut follow = PathFollow::new(square_at(0, 0));
    let first = follow.advance(DEFAULT_RATE, 3_333_333);
    let progress = follow.t;
    let again = follow.advance(DEFAULT_RATE, 0);
    assert_eq!(follow.t, progress);
    assert_eq!(again, first);
    let still = follow.advance(u64::MAX, 0);
    assert_eq!(still, first);
    let idle = follow.advance(0, 1_000_000);
    assert_eq!(idle, first);
}

#[test]
fn follower_goes_back_to_the_start_beyond_the_lap() {
    let mut follow = PathFollow::new(square_at(0, 0));
    let lap = follow.curve.lap();
    assert_eq!(lap, 400_000_000);
    follow.advance(DEFAULT_RATE, 39_999_999);
    assert_eq!(follow.t, 399_999_990);
    let sample = follow.advance(1, 11);
    assert_eq!(follow.t, 0);
    assert_eq!(sample.0, Position { x: 0, y: -200, z: 0 });
}

#[test]
fn follower_at_the_very_end_of_the_lap_stays_there() {
    let mut follow = PathFollow::new(square_at(0, 0));
    let sample = follow.advance(DEFAULT_RATE, 40_000_000);
    assert_eq!(follow.t, 400_000_000);
    assert_eq!(sample.0, Position { x: 0, y: -200, z: 0 });
    follow.advance(1, 1);
    assert_eq!(follow.t, 0);
}

#[test]
fn follower_takes_the_longest_step() {
    let mut follow = PathFollow::new(square_at(0, 0));
    follow.advance(u64::MAX, u64::MAX);
    assert_eq!(follow.t, 0);
    follow.advance(1, 5);
    follow.advance(u64::MAX, 1);
    assert_eq!(follow.t, 0);
}

#[test]
fn new_vessel_is_at_the_start_of_its_curve() {
    let vessel = Vessel::new(3, ShipType::ContainerShipA, square_at(7, -9));
    assert_eq!(vessel.entity, 3);
    assert_eq!(vessel.kind, ShipType::ContainerShipA);
    assert_eq!(vessel.position, Position { x: 7000, y: -200, z: -9000 });
    assert_eq!(vessel.look_at, vessel.path.curve.position_at(LOOK_AHEAD));
    assert_eq!(vessel.collider, Collider { width: 8000, length: 12_000 });
    assert_eq!(vessel.path.t, 0);
    assert_eq!(
        vessel.body(),
        Body {
            entity: 3,
            position: Position { x: 7000, y: -200, z: -9000 },
            collider: Collider { width: 8000, length: 12_000 },
        }
    );
    assert_eq!(
        vessel.report(),
        VesselReport {
            entity: 3,
            kind: ShipType::ContainerShipA,
            position: vessel.position,
            look_at: vessel.look_at,
            progress: 0,
        }
    );
}

#[test]
fn every_vessel_is_moved_along_its_own_curve() {
    let mut ships = vec![
        Vessel::new(0, ShipType::SailShipA, square_at(0, 0)),
        Vessel::new(1, ShipType::SailShipB, square_at(50, 50)),
    ];
    move_ship(&mut ships, DEFAULT_RATE, 10_000_000);
    assert_eq!(ships[0].path.t, PROGRESS_PER_SEGMENT);
    assert_eq!(ships[1].path.t, PROGRESS_PER_SEGMENT);
    assert_eq!(ships[0].position, Position { x: 0, y: -200, z: 5000 });
    assert_eq!(ships[1].position, Position { x: 50_000, y: -200, z: 55_000 });
    assert_eq!(
        ships[1].look_at,
        ships[1].path.curve.position_at(PROGRESS_PER_SEGMENT + LOOK_AHEAD)
    );
    let before = ships.clone();
    move_ship(&mut ships, DEFAULT_RATE, 0);
    assert_eq!(ships, before);
    let mut none: Vec<Vessel> = Vec::new();
    move_ship(&mut none, DEFAULT_RATE, 5);
    assert!(none.is_empty());
}

#[test]
fn nudged_vessel_keeps_its_place_on_the_curve() {
    let mut vessel = Vessel::new(0, ShipType::SailShipA, square_at(0, 0));
    vessel.nudge(150, -300);
    assert_eq!(vessel.position, Position { x: 150, y: -200, z: -300 });
    assert_eq!(vessel.path.t, 0);
    vessel.advance(DEFAULT_RATE, 0);
    assert_eq!(vessel.position, Position { x: 0, y: -200, z: 0 });
}

#[test]
fn sum_of_coordinates_stops_at_the_ends_of_the_range() {
    assert_eq!(clamp_sum(1, 2), 3);
    assert_eq!(clamp_sum(-5, 2), -3);
    assert_eq!(clamp_sum(i64::MAX, 1), i64::MAX);
    assert_eq!(clamp_sum(i64::MAX, i64::MAX), i64::MAX);
    assert_eq!(clamp_sum(i64::MIN, -1), i64::MIN);
    assert_eq!(clamp_sum(i64::MIN, i64::MIN), i64::MIN);
    assert_eq!(clamp_sum(i64::MIN, i64::MAX), -1);
}

#[test]
fn default_manager_has_one_of_ten_vessels_and_ten_seconds() {
    let manager = ShipSpawnManager::default();
    assert_eq!(
        manager,
        ShipSpawnManager { elapsed: 0, interval: 10_000_000, current_ships: 1, max_ships: 10 }
    );
}

#[test]
fn seed_is_cut_to_the_cap() {
    assert_eq!(ShipSpawnManager::new(5, 1, 0).current_ships, 0);
    assert_eq!(ShipSpawnManager::new(5, 3, 2).current_ships, 2);
    assert_eq!(ShipSpawnManager::new(5, 3, 7).current_ships, 3);
    assert_eq!(ShipSpawnManager::new(MAX_PERIOD_MICROS, 1, 1).interval, MAX_PERIOD_MICROS);
}

#[test]
fn timer_fires_when_the_interval_is_reached_and_carries_the_rest() {
    let mut manager = ShipSpawnManager::default();
    assert!(!manager.tick(4_000_000));
    assert_eq!(manager.elapsed, 4_000_000);
    assert!(!manager.tick(5_999_999));
    assert_eq!(manager.elapsed, 9_999_999);
    assert!(manager.tick(1));
    assert_eq!(manager.elapsed, 0);
    assert!(manager.tick(17_000_000));
    assert_eq!(manager.elapsed, 7_000_000);
    assert!(manager.tick(33_000_001));
    assert_eq!(manager.elapsed, 1);
    assert!(!manager.tick(0));
    assert_eq!(manager.elapsed, 1);
    assert_eq!(manager.current_ships, 1);
}

#[test]
fn timer_without_interval_fires_on_every_tick() {
    let mut manager = ShipSpawnManager::new(0, 0, 3);
    assert!(manager.tick(0));
    assert!(manager.tick(5));
    assert_eq!(manager.elapsed, 0);
}

#[test]
fn timer_takes_the_longest_interval_and_tick() {
    let mut manager = ShipSpawnManager::new(MAX_PERIOD_MICROS, 0, 3);
    assert!(!manager.tick(MAX_PERIOD_MICROS - 1));
    assert_eq!(manager.elapsed, MAX_PERIOD_MICROS - 1);
    assert!(manager.tick(u64::MAX));
    assert_eq!(
        manager.elapsed,
        ((MAX_PERIOD_MICROS as u128 - 1 + u64::MAX as u128) % MAX_PERIOD_MICROS as u128) as u64
    );
}

#[test]
fn firing_at_the_cap_spawns_nothing() {
    let mut manager = ShipSpawnManager::new(10_000_000, 1, 1);
    let mut ships = vec![Vessel::new(0, ShipType::SailShipA, square_at(0, 0))];
    let newcomer = Vessel::new(1, ShipType::SailShipA, square_at(50, 50));
    let spawned = spawn_ships(&mut manager, &mut ships, 10_000_000, Some(newcomer));
    assert!(!spawned);
    assert_eq!(manager.current_ships, 1);
    assert_eq!(manager.elapsed, 0);
    assert_eq!(ships.len(), 1);
}

#[test]
fn count_stays_at_the_cap_however_often_the_timer_fires() {
    let mut manager = ShipSpawnManager::new(1_000_000, 1, 3);
    let mut ships: Vec<Vessel> = Vec::new();
    for round in 0..10u64 {
        let newcomer = Vessel::new(round, ShipType::SailShipA, square_at(0, 0));
        let spawned = spawn_ships(&mut manager, &mut ships, 1_000_000, Some(newcomer));
        assert_eq!(spawned, round < 2);
        assert!(manager.current_ships <= manager.max_ships);
    }
    assert_eq!(manager.current_ships, 3);
    assert_eq!(ships.len(), 2);
}

#[test]
fn newcomer_joins_when_the_timer_fires_below_the_cap() {
    let mut manager = ShipSpawnManager::default();
    let mut ships: Vec<Vessel> = Vec::new();
    let early = Vessel::new(1, ShipType::SailShipA, square_at(0, 0));
    assert!(!spawn_ships(&mut manager, &mut ships, 9_000_000, Some(early)));
    assert_eq!(manager.current_ships, 1);
    assert!(ships.is_empty());
    let newcomer = Vessel::new(2, ShipType::SailShipB, square_at(0, 0));
    assert!(spawn_ships(&mut manager, &mut ships, 2_000_000, Some(newcomer.clone())));
    assert_eq!(manager.current_ships, 2);
    assert_eq!(manager.elapsed, 1_000_000);
    assert_eq!(ships, vec![newcomer]);
}

#[test]
fn nothing_joins_and_nothing_is_counted_where_no_vessel_could_be_made() {
    let mut manager = ShipSpawnManager::default();
    let mut ships: Vec<Vessel> = Vec::new();
    assert!(!spawn_ships(&mut manager, &mut ships, 10_000_000, None));
    assert_eq!(manager.current_ships, 1);
    assert_eq!(manager.elapsed, 0);
    assert!(ships.is_empty());
}
