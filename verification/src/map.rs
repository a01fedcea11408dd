//! The map plane and places on it.

use vstd::prelude::*;

verus! {

/// Thousandths of a map unit in one map unit.
pub const MILLI: i64 = 1000;

/// Side of the square map, in map units.
pub const MAP_SIZE: u32 = 256;

/// Height of the water surface, in thousandths of a map unit.
pub const WATER_HEIGHT: i64 = 1000;

/// A place in the world, in thousandths of a map unit. `x` and `z` span the
/// map plane, `y` is the height above it.
#[derive(Clone, Copy, Debug, PartialEq, Eq, Structural)]
pub struct Position {
    pub x: i64,
    pub y: i64,
    pub z: i64,
}

/// A point of the map plane, in whole map units.
#[derive(Clone, Copy, Debug, PartialEq, Eq, Structural)]
pub struct MapPoint {
    pub x: i32,
    pub z: i32,
}

/// The four points that a curve is laid through where none are drawn:
/// (-1, -20), (3, 2), (5, 3) and (9, 8).
pub open spec fn default_points() -> Seq<MapPoint> {
    seq![
        MapPoint { x: -1i32, z: -20i32 },
        MapPoint { x: 3, z: 2 },
        MapPoint { x: 5, z: 3 },
        MapPoint { x: 9, z: 8 },
    ]
}

/// Returns the points that stand in for a draw.
pub fn get_random_point_on_map() -> (points: Vec<MapPoint>)
    ensures
        points@ == default_points(),
{
    let mut points: Vec<MapPoint> = Vec::new();
    points.push(MapPoint { x: -1, z: -20 });
    points.push(MapPoint { x: 3, z: 2 });
    points.push(MapPoint { x: 5, z: 3 });
    points.push(MapPoint { x: 9, z: 8 });
    assert(points@ =~= default_points());
    points
}

} // verus!
