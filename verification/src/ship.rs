//! Vessels: their kinds, and how they follow their curves.

use crate::collision::{Body, Collider};
use crate::curve::{point_at, Curve, PROGRESS_PER_SEGMENT};
use crate::map::Position;
use crate::random::draw_up_to;
use crate::timer::{carried, fires, tick_repeating, MAX_PERIOD_MICROS};
use vstd::prelude::*;

verus! {

/// How far ahead of itself on its curve a vessel looks, in steps of
/// progress: a hundredth of a segment.
pub const LOOK_AHEAD: u64 = 1_000_000;

/// Steps of progress that a vessel makes in a microsecond unless told
/// otherwise: a tenth of a segment in a second.
pub const DEFAULT_RATE: u64 = 10;

/// The kinds of vessel.
#[derive(Clone, Copy, Debug, PartialEq, Eq, Structural)]
pub enum ShipType {
    SailShipA,
    SailShipB,
    ContainerShipA,
    ContainerShipB,
    ContainerShipC,
}

impl ShipType {
    /// The kind with the given number, counting from 0 in the order of
    /// declaration.
    pub open spec fn of_index(index: u32) -> Option<ShipType> {
        if index == 0 {
            Some(ShipType::SailShipA)
        } else if index == 1 {
            Some(ShipType::SailShipB)
        } else if index == 2 {
            Some(ShipType::ContainerShipA)
        } else if index == 3 {
            Some(ShipType::ContainerShipB)
        } else if index == 4 {
            Some(ShipType::ContainerShipC)
        } else {
            None
        }
    }

    /// The footprint of a vessel of this kind: 4 by 6 map units for a
    /// sailing ship, 8 by 12 for a container ship.
    pub open spec fn footprint(self) -> Collider {
        match self {
            ShipType::SailShipA | ShipType::SailShipB => Collider { width: 4000, length: 6000 },
            _ => Collider { width: 8000, length: 12000 },
        }
    }

    /// The kind with the given number, if there is one.
    pub fn from_index(index: u32) -> (kind: Option<ShipType>)
        ensures
            kind == ShipType::of_index(index),
    {
        if index == 0 {
            Some(ShipType::SailShipA)
        } else if index == 1 {
            Some(ShipType::SailShipB)
        } else if index == 2 {
            Some(ShipType::ContainerShipA)
        } else if index == 3 {
            Some(ShipType::ContainerShipB)
        } else if index == 4 {
            Some(ShipType::ContainerShipC)
        } else {
            None
        }
    }

    /// Draws a kind among the first four; the third container ship is
    /// never drawn.
    pub fn sample() -> (kind: ShipType)
        ensures
            kind != ShipType::ContainerShipC,
            exists|index: u32| index <= 3 && ShipType::of_index(index) == Some(kind),
    {
        let index: u32 = draw_up_to(3);
        match ShipType::from_index(index) {
            Some(kind) => kind,
            None => ShipType::SailShipA,
        }
    }

    /// The footprint of a vessel of this kind.
    pub fn collider(&self) -> (collider: Collider)
        ensures
            collider == self.footprint(),
    {
        match self {
            ShipType::SailShipA | ShipType::SailShipB => Collider { width: 4000, length: 6000 },
            _ => Collider { width: 8000, length: 12000 },
        }
    }
}

/// Progress after `dt` microseconds at `rate` steps a microsecond, from
/// `progress` on a curve whose lap takes `lap` steps: the sum, or 0 once
/// the sum is beyond the lap.
pub open spec fn progress_after(progress: int, lap: int, rate: int, dt: int) -> int {
    if progress + rate * dt > lap {
        0
    } else {
        progress + rate * dt
    }
}

/// A vessel's place on its curve.
#[derive(Clone, Debug, PartialEq, Eq)]
pub struct PathFollow {
    pub curve: Curve,
    pub t: u64,
}

impl PathFollow {
    /// Progress is within the lap of the curve.
    pub open spec fn wf(self) -> bool {
        self.t <= self.curve@.len() * PROGRESS_PER_SEGMENT
    }

    /// The follower after `dt` microseconds at `rate`.
    pub open spec fn advanced(self, rate: u64, dt: u64) -> PathFollow {
        PathFollow {
            curve: self.curve,
            t: progress_after(
                self.t as int,
                self.curve@.len() * PROGRESS_PER_SEGMENT,
                rate as int,
                dt as int,
            ) as u64,
        }
    }

    /// Where the follower is.
    pub open spec fn place(self) -> Position {
        point_at(self.curve@, self.t as int)
    }

    /// Where the follower looks: the point of its curve a little ahead.
    pub open spec fn ahead(self) -> Position {
        point_at(self.curve@, self.t + LOOK_AHEAD)
    }

    /// A follower at the start of `curve`.
    pub fn new(curve: Curve) -> (follow: PathFollow)
        ensures
            follow.curve == curve,
            follow.t == 0,
            follow.wf(),
    {
        PathFollow { curve, t: 0 }
    }

    /// Moves the follower on by `dt` microseconds at `rate` steps a
    /// microsecond, back to the start once it is beyond the lap, and
    /// returns where it then is and where it looks.
    pub fn advance(&mut self, rate: u64, dt: u64) -> (sample: (Position, Position))
        requires
            old(self).wf(),
        ensures
            *final(self) == old(self).advanced(rate, dt),
            final(self).wf(),
            final(self).t as int == progress_after(
                old(self).t as int,
                old(self).curve@.len() * PROGRESS_PER_SEGMENT,
                rate as int,
                dt as int,
            ),
            sample.0 == final(self).place(),
            sample.1 == final(self).ahead(),
    {
        let lap: u64 = self.curve.lap();
        assert(rate * dt <= 0xFFFF_FFFF_FFFF_FFFF * 0xFFFF_FFFF_FFFF_FFFF) by (nonlinear_arith)
            requires
                0 <= rate <= 0xFFFF_FFFF_FFFF_FFFF,
                0 <= dt <= 0xFFFF_FFFF_FFFF_FFFF,
        ;
        let sum: u128 = self.t as u128 + (rate as u128) * (dt as u128);
        if sum > lap as u128 {
            self.t = 0;
        } else {
            self.t = sum as u64;
        }
        let place: Position = self.curve.position_at(self.t);
        let ahead: Position = self.curve.position_at(self.t + LOOK_AHEAD);
        (place, ahead)
    }
}

/// The value nearest to `value` that a coordinate can hold.
pub open spec fn clamped(value: int) -> i64 {
    if value < i64::MIN {
        i64::MIN
    } else if value > i64::MAX {
        i64::MAX
    } else {
        value as i64
    }
}

/// Adds two coordinates and stops at the ends of their range.
pub fn clamp_sum(a: i64, b: i64) -> (sum: i64)
    ensures
        sum == clamped(a + b),
{
    let wide: i128 = a as i128 + b as i128;
    if wide < i64::MIN as i128 {
        i64::MIN
    } else if wide > i64::MAX as i128 {
        i64::MAX
    } else {
        wide as i64
    }
}

/// What is reported of a vessel after each tick: who it is, of what kind,
/// where it is, where it looks, and how far along its curve it is.
#[derive(Clone, Copy, Debug, PartialEq, Eq, Structural)]
pub struct VesselReport {
    pub entity: u64,
    pub kind: ShipType,
    pub position: Position,
    pub look_at: Position,
    pub progress: u64,
}

/// What chance decides of a new vessel: its kind and its curve.
#[derive(Clone, Debug, PartialEq, Eq)]
pub struct Blueprint {
    pub kind: ShipType,
    pub curve: Curve,
}

/// A vessel: who it is, where it is, where it looks, what room it takes and
/// where on its curve it is.
#[derive(Clone, Debug, PartialEq, Eq)]
pub struct Vessel {
    pub entity: u64,
    pub kind: ShipType,
    pub position: Position,
    pub look_at: Position,
    pub collider: Collider,
    pub path: PathFollow,
}

impl Vessel {
    pub open spec fn wf(self) -> bool {
        self.path.wf()
    }

    /// The vessel of the given kind that starts on `curve`: it is at the
    /// start of the curve and has the footprint of its kind.
    pub open spec fn launched(entity: u64, kind: ShipType, curve: Curve) -> Vessel {
        let path = PathFollow { curve, t: 0 };
        Vessel {
            entity,
            kind,
            position: path.place(),
            look_at: path.ahead(),
            collider: kind.footprint(),
            path,
        }
    }

    /// The vessel after `dt` microseconds at `rate`: further on its curve,
    /// at the point of the curve that belongs to its progress.
    pub open spec fn moved(self, rate: u64, dt: u64) -> Vessel {
        let path = self.path.advanced(rate, dt);
        Vessel {
            entity: self.entity,
            kind: self.kind,
            position: path.place(),
            look_at: path.ahead(),
            collider: self.collider,
            path,
        }
    }

    /// The vessel pushed aside by `dx` and `dz` thousandths of a map unit.
    /// Where the sum leaves the range of a coordinate, the coordinate stops
    /// at the end of the range.
    pub open spec fn nudged(self, dx: i64, dz: i64) -> Vessel {
        Vessel {
            entity: self.entity,
            kind: self.kind,
            position: Position {
                x: clamped(self.position.x + dx),
                y: self.position.y,
                z: clamped(self.position.z + dz),
            },
            look_at: self.look_at,
            collider: self.collider,
            path: self.path,
        }
    }

    /// What is reported of the vessel after each tick.
    pub open spec fn as_report(self) -> VesselReport {
        VesselReport {
            entity: self.entity,
            kind: self.kind,
            position: self.position,
            look_at: self.look_at,
            progress: self.path.t,
        }
    }

    /// What the collision detector reads of the vessel.
    pub open spec fn as_body(self) -> Body {
        Body { entity: self.entity, position: self.position, collider: self.collider }
    }

    /// Puts a new vessel at the start of its curve.
    pub fn new(entity: u64, kind: ShipType, curve: Curve) -> (vessel: Vessel)
        ensures
            vessel == Vessel::launched(entity, kind, curve),
            vessel.wf(),
    {
        let position: Position = curve.position_at(0);
        let look_at: Position = curve.position_at(LOOK_AHEAD);
        Vessel {
            entity,
            kind,
            position,
            look_at,
            collider: kind.collider(),
            path: PathFollow::new(curve),
        }
    }

    /// Moves the vessel on along its curve.
    pub fn advance(&mut self, rate: u64, dt: u64)
        requires
            old(self).wf(),
        ensures
            *final(self) == old(self).moved(rate, dt),
            final(self).wf(),
    {
        let sample: (Position, Position) = self.path.advance(rate, dt);
        self.position = sample.0;
        self.look_at = sample.1;
    }

    /// Pushes the vessel aside. Its place on its curve stays, so the next
    /// step along the curve takes it back there.
    pub fn nudge(&mut self, dx: i64, dz: i64)
        ensures
            *final(self) == old(self).nudged(dx, dz),
            final(self).wf() == old(self).wf(),
    {
        self.position.x = clamp_sum(self.position.x, dx);
        self.position.z = clamp_sum(self.position.z, dz);
    }

    /// What is reported of the vessel after each tick.
    pub fn report(&self) -> (report: VesselReport)
        ensures
            report == self.as_report(),
    {
        VesselReport {
            entity: self.entity,
            kind: self.kind,
            position: self.position,
            look_at: self.look_at,
            progress: self.path.t,
        }
    }

    /// What the collision detector reads of the vessel.
    pub fn body(&self) -> (body: Body)
        ensures
            body == self.as_body(),
    {
        Body { entity: self.entity, position: self.position, collider: self.collider }
    }
}

/// Every vessel is well formed.
pub open spec fn all_wf(ships: Seq<Vessel>) -> bool {
    forall|i: int| 0 <= i < ships.len() ==> (#[trigger] ships[i]).wf()
}

/// The vessels after `dt` microseconds at `rate`.
pub open spec fn moved_ships(ships: Seq<Vessel>, rate: u64, dt: u64) -> Seq<Vessel> {
    Seq::new(ships.len(), |i: int| ships[i].moved(rate, dt))
}

/// Moves every vessel on along its curve by `dt` microseconds at `rate`
/// steps a microsecond.
pub fn move_ship(ships: &mut Vec<Vessel>, rate: u64, dt: u64)
    requires
        all_wf(old(ships)@),
    ensures
        final(ships)@ == moved_ships(old(ships)@, rate, dt),
        all_wf(final(ships)@),
{
    let ghost start: Seq<Vessel> = ships@;
    let mut i: usize = 0;
    while i < ships.len()
        invariant
            i <= ships.len(),
            ships.len() == start.len(),
            all_wf(start),
            forall|k: int| 0 <= k < i ==> ships@[k] == (#[trigger] start[k]).moved(rate, dt),
            forall|k: int| 0 <= k < i ==> (#[trigger] ships@[k]).wf(),
            forall|k: int| i <= k < ships.len() ==> ships@[k] == #[trigger] start[k],
        decreases ships.len() - i,
    {
        assert(ships@[i as int] == start[i as int]);
        ships[i].advance(rate, dt);
        i = i + 1;
    }
    assert(ships@ =~= moved_ships(start, rate, dt));
}

/// Paces the spawning of vessels and counts them.
#[derive(Clone, Copy, Debug, PartialEq, Eq, Structural)]
pub struct ShipSpawnManager {
    /// Microseconds on the timer.
    pub elapsed: u64,
    /// Microseconds between two firings of the timer.
    pub interval: u64,
    pub current_ships: u32,
    pub max_ships: u32,
}

impl ShipSpawnManager {
    /// The count is within the cap, and the timer's period is one that the
    /// timer takes.
    pub open spec fn wf(self) -> bool {
        self.current_ships <= self.max_ships && self.interval <= MAX_PERIOD_MICROS
    }

    /// The manager at the start of a round.
    pub open spec fn initial(interval: u64, seed: u32, max_ships: u32) -> ShipSpawnManager {
        ShipSpawnManager {
            elapsed: 0,
            interval,
            current_ships: if seed <= max_ships { seed } else { max_ships },
            max_ships,
        }
    }

    /// The timer fires after `dt` more microseconds, and there is room for
    /// one more vessel.
    pub open spec fn admits(self, dt: u64) -> bool {
        fires(self.elapsed as int, self.interval as int, dt as int) && self.current_ships
            < self.max_ships
    }

    /// The manager after `dt` more microseconds, the count left as it is.
    pub open spec fn ticked(self, dt: u64) -> ShipSpawnManager {
        ShipSpawnManager {
            elapsed: carried(self.elapsed as int, self.interval as int, dt as int) as u64,
            interval: self.interval,
            current_ships: self.current_ships,
            max_ships: self.max_ships,
        }
    }

    /// The manager with one vessel more.
    pub open spec fn with_one_more(self) -> ShipSpawnManager {
        ShipSpawnManager {
            elapsed: self.elapsed,
            interval: self.interval,
            current_ships: (self.current_ships + 1) as u32,
            max_ships: self.max_ships,
        }
    }

    /// The manager after one tick of `dt` microseconds in which a new
    /// vessel could be made (`ready`) or not.
    pub open spec fn after_tick(self, dt: u64, ready: bool) -> ShipSpawnManager {
        if self.admits(dt) && ready {
            self.ticked(dt).with_one_more()
        } else {
            self.ticked(dt)
        }
    }

    /// A manager for a round that starts with `seed` vessels, or with as
    /// many as the cap allows if that is fewer.
    pub fn new(interval: u64, seed: u32, max_ships: u32) -> (manager: ShipSpawnManager)
        requires
            interval <= MAX_PERIOD_MICROS,
        ensures
            manager == ShipSpawnManager::initial(interval, seed, max_ships),
            manager.wf(),
    {
        ShipSpawnManager {
            elapsed: 0,
            interval,
            current_ships: if seed <= max_ships { seed } else { max_ships },
            max_ships,
        }
    }

    /// Advances the timer by `dt` microseconds and tells whether a vessel
    /// is due: the timer fired and the cap is not reached. The
    /// count is left as it is.
    pub fn tick(&mut self, dt: u64) -> (due: bool)
        requires
            old(self).wf(),
        ensures
            *final(self) == old(self).ticked(dt),
            due == old(self).admits(dt),
            final(self).wf(),
    {
        let ticked: (u64, bool) = tick_repeating(self.elapsed, self.interval, dt);
        self.elapsed = ticked.0;
        ticked.1 && self.current_ships < self.max_ships
    }
}

impl Default for ShipSpawnManager {
    /// Ten seconds between spawns, one vessel to start with, ten at most.
    fn default() -> (manager: ShipSpawnManager)
        ensures
            manager == ShipSpawnManager::initial(10_000_000, 1, 10),
            manager.wf(),
    {
        ShipSpawnManager { elapsed: 0, interval: 10_000_000, current_ships: 1, max_ships: 10 }
    }
}

/// The vessels after a tick of the spawn manager in which `newcomer` was
/// on offer.
pub open spec fn ships_after_spawn(
    manager: ShipSpawnManager,
    ships: Seq<Vessel>,
    dt: u64,
    newcomer: Option<Vessel>,
) -> Seq<Vessel> {
    if manager.admits(dt) && newcomer is Some {
        ships.push(newcomer->Some_0)
    } else {
        ships
    }
}

/// Advances the spawn timer by `dt` microseconds. When it fires and the cap
/// is not reached, the newcomer on offer joins the vessels and is counted;
/// when none is on offer, nothing joins and the count stays. When the cap
/// is reached, firing changes nothing but the timer.
pub fn spawn_ships(
    manager: &mut ShipSpawnManager,
    ships: &mut Vec<Vessel>,
    dt: u64,
    newcomer: Option<Vessel>,
) -> (spawned: bool)
    requires
        old(manager).wf(),
    ensures
        spawned == (old(manager).admits(dt) && newcomer is Some),
        *final(manager) == old(manager).after_tick(dt, newcomer is Some),
        final(manager).wf(),
        final(ships)@ == ships_after_spawn(*old(manager), old(ships)@, dt, newcomer),
{
    let due: bool = manager.tick(dt);
    if due {
        match newcomer {
            Some(vessel) => {
                ships.push(vessel);
                manager.current_ships = manager.current_ships + 1;
                true
            },
            None => false,
        }
    } else {
        false
    }
}

/// After a step the progress lies within the lap, and below its end unless
/// the step ended exactly there.
pub proof fn progress_stays_on_lap(follow: PathFollow, rate: u64, dt: u64)
    requires
        follow.wf(),
    ensures
        follow.advanced(rate, dt).wf(),
        0 <= follow.advanced(rate, dt).t <= follow.curve@.len() * PROGRESS_PER_SEGMENT,
        follow.curve@.len() > 0 && follow.t + rate * dt != follow.curve@.len()
            * PROGRESS_PER_SEGMENT ==> follow.advanced(rate, dt).t < follow.curve@.len()
            * PROGRESS_PER_SEGMENT,
{
    let lap = follow.curve@.len() * PROGRESS_PER_SEGMENT;
    assert(lap >= 0 && (follow.curve@.len() > 0 ==> lap > 0)) by (nonlinear_arith)
        requires
            lap == follow.curve@.len() * PROGRESS_PER_SEGMENT,
            follow.curve@.len() >= 0,
    ;
    assert(rate * dt >= 0) by (nonlinear_arith)
        requires
            rate >= 0,
            dt >= 0,
    ;
}

/// A step that takes no time moves nothing: the follower keeps its
/// progress and its place, at whatever rate.
pub proof fn no_time_no_motion(follow: PathFollow, rate: u64)
    requires
        follow.wf(),
    ensures
        follow.advanced(rate, 0) == follow,
        follow.advanced(rate, 0).place() == follow.place(),
        follow.advanced(rate, 0).ahead() == follow.ahead(),
{
    assert(rate * 0 == 0) by (nonlinear_arith);
}

/// Moving a vessel for no time is idempotent, and leaves a vessel that is
/// at its place on the curve where it is.
pub proof fn no_time_keeps_vessel(vessel: Vessel, rate: u64)
    requires
        vessel.wf(),
    ensures
        vessel.moved(rate, 0).moved(rate, 0) == vessel.moved(rate, 0),
        vessel.moved(rate, 0).path == vessel.path,
        vessel.position == vessel.path.place() ==> vessel.moved(rate, 0).position
            == vessel.position,
{
    no_time_no_motion(vessel.path, rate);
}

impl ShipSpawnManager {
    /// The manager after a run of ticks, each given by its length in
    /// microseconds and by whether a new vessel could be made in it.
    pub open spec fn after_ticks(self, ticks: Seq<(u64, bool)>) -> ShipSpawnManager
        decreases ticks.len(),
    {
        if ticks.len() == 0 {
            self
        } else {
            self.after_ticks(ticks.drop_last()).after_tick(ticks.last().0, ticks.last().1)
        }
    }
}

/// Whatever ticks go by, the count of vessels stays within the cap, and
/// the cap stays what it was.
pub proof fn population_within_cap(manager: ShipSpawnManager, ticks: Seq<(u64, bool)>)
    requires
        manager.current_ships <= manager.max_ships,
    ensures
        manager.after_ticks(ticks).current_ships <= manager.max_ships,
        manager.after_ticks(ticks).max_ships == manager.max_ships,
        manager.after_ticks(ticks).current_ships >= manager.current_ships,
    decreases ticks.len(),
{
    if ticks.len() > 0 {
        population_within_cap(manager, ticks.drop_last());
    }
}

/// Once the cap is reached, the count stays at the cap however often the
/// timer fires.
pub proof fn population_holds_at_cap(manager: ShipSpawnManager, ticks: Seq<(u64, bool)>)
    requires
        manager.current_ships == manager.max_ships,
    ensures
        manager.after_ticks(ticks).current_ships == manager.max_ships,
{
    population_within_cap(manager, ticks);
}

} // verus!
