//! The round: its state machine, and the simulation that it starts, steps
//! and ends.

use crate::collision::{check_collision, collisions, distinct_entities, Body, CollisionEvent};
use crate::curve::{Curve, MIN_DISTINCT_POINTS};
use crate::generator::{random_blueprint, MAX_MAP_BOUND};
use crate::map::Position;
use crate::ship::{
    all_wf, move_ship, moved_ships, spawn_ships, ships_after_spawn, Blueprint, ShipSpawnManager,
    Vessel, VesselReport, DEFAULT_RATE,
};
use crate::timer::MAX_PERIOD_MICROS;
use vstd::prelude::*;

verus! {

/// Vessels that a round starts with, where the cap allows as many.
pub const SEED_POPULATION: u32 = 1;

/// Where a round stands.
#[derive(Clone, Copy, Debug, PartialEq, Eq, Hash, Structural)]
pub enum GameState {
    /// Nothing runs yet: what the round needs is still being fetched.
    Loading,
    Menu,
    /// A round runs.
    Game,
    /// The round is over, until it is started again.
    GameOver,
}

/// What moves the round from one state to another.
#[derive(Clone, Copy, Debug, PartialEq, Eq, Structural)]
pub enum RoundEvent {
    /// All that a round needs has been fetched.
    ResourcesReady,
    /// Two vessels collided.
    CollisionDetected,
    /// Another round was asked for.
    PlayAgain,
}

impl GameState {
    /// The state after an event: fetching ends in a round, a collision ends
    /// the round, and asking again starts the next. Any other event leaves
    /// the state as it is.
    pub open spec fn after(self, event: RoundEvent) -> GameState {
        match (self, event) {
            (GameState::Loading, RoundEvent::ResourcesReady) => GameState::Game,
            (GameState::Game, RoundEvent::CollisionDetected) => GameState::GameOver,
            (GameState::GameOver, RoundEvent::PlayAgain) => GameState::Game,
            _ => self,
        }
    }

    /// A round can start from this state.
    pub open spec fn starts_round(self) -> bool {
        self == GameState::Loading || self == GameState::GameOver
    }

    /// The state after an event.
    pub fn next(self, event: RoundEvent) -> (state: GameState)
        ensures
            state == self.after(event),
    {
        match (self, event) {
            (GameState::Loading, RoundEvent::ResourcesReady) => GameState::Game,
            (GameState::Game, RoundEvent::CollisionDetected) => GameState::GameOver,
            (GameState::GameOver, RoundEvent::PlayAgain) => GameState::Game,
            _ => self,
        }
    }
}

impl Default for GameState {
    fn default() -> (state: GameState)
        ensures
            state == GameState::Loading,
    {
        GameState::Loading
    }
}

/// A tick was asked for with a negative length.
#[derive(Clone, Copy, Debug, PartialEq, Eq, Structural)]
pub struct InvalidTickError {
    /// The length that was asked for, in microseconds.
    pub dt: i64,
}

/// What a simulation is set up with.
#[derive(Clone, Copy, Debug, PartialEq, Eq, Structural)]
pub struct Config {
    /// Most vessels at a time.
    pub max_population: u32,
    /// Microseconds between two spawns.
    pub spawn_interval: u64,
    /// Half the side of the map, in map units.
    pub map_bound: u32,
    /// Control points of each curve.
    pub curve_point_count: u32,
    /// Steps of progress that a vessel makes in a microsecond.
    pub rate: u64,
}

impl Config {
    /// The configuration can be run: the timer takes the interval, the map
    /// is no wider than coordinates reach, and curves get four points or
    /// more.
    pub open spec fn valid(self) -> bool {
        &&& self.spawn_interval <= MAX_PERIOD_MICROS
        &&& self.map_bound <= MAX_MAP_BOUND
        &&& self.curve_point_count >= MIN_DISTINCT_POINTS
    }

    /// Tells whether the configuration can be run.
    pub fn is_valid(&self) -> (ok: bool)
        ensures
            ok == self.valid(),
    {
        self.spawn_interval <= MAX_PERIOD_MICROS && self.map_bound <= MAX_MAP_BOUND
            && self.curve_point_count >= 4
    }
}

impl Default for Config {
    /// Ten vessels at most, one more every ten seconds, on a map that
    /// reaches 124 units each way, on curves of five points, at a tenth of
    /// a segment in a second.
    fn default() -> (config: Config)
        ensures
            config == (Config {
                max_population: 10,
                spawn_interval: 10_000_000,
                map_bound: 124,
                curve_point_count: 5,
                rate: DEFAULT_RATE,
            }),
            config.valid(),
    {
        Config {
            max_population: 10,
            spawn_interval: 10_000_000,
            map_bound: 124,
            curve_point_count: 5,
            rate: DEFAULT_RATE,
        }
    }
}

/// What the detector reads of each vessel.
pub open spec fn bodies_of(ships: Seq<Vessel>) -> Seq<Body> {
    Seq::new(ships.len(), |i: int| ships[i].as_body())
}

/// Every vessel's identifier is below `limit`.
pub open spec fn entities_below(ships: Seq<Vessel>, limit: u64) -> bool {
    forall|i: int| 0 <= i < ships.len() ==> (#[trigger] ships[i]).entity < limit
}

/// A simulation as contracts see it.
pub struct SimulationView {
    pub config: Config,
    pub state: GameState,
    pub manager: Option<ShipSpawnManager>,
    pub ships: Seq<Vessel>,
    pub next_entity: u64,
}

impl SimulationView {
    /// What holds of every simulation: vessels and a spawn manager exist
    /// only while a round runs, no two vessels share an identifier, and
    /// there are no more vessels than the manager counts, which are no more
    /// than the cap.
    pub open spec fn wf(self) -> bool {
        &&& self.config.valid()
        &&& all_wf(self.ships)
        &&& distinct_entities(bodies_of(self.ships))
        &&& entities_below(self.ships, self.next_entity)
        &&& (self.state == GameState::Game <==> self.manager is Some)
        &&& (self.state != GameState::Game ==> self.ships.len() == 0)
        &&& (self.manager matches Some(manager) ==> {
            &&& manager.wf()
            &&& self.ships.len() <= manager.current_ships
            &&& manager.max_ships == self.config.max_population
            &&& manager.interval == self.config.spawn_interval
        })
    }

    /// The count of vessels as the spawn manager keeps it, 0 outside a
    /// round.
    pub open spec fn population(self) -> u32 {
        match self.manager {
            Some(manager) => manager.current_ships,
            None => 0,
        }
    }

    /// The vessel that a blueprint gives now, if an identifier is left for
    /// it.
    pub open spec fn offer(self, blueprint: Option<Blueprint>) -> Option<Vessel> {
        if blueprint is Some && self.next_entity < u64::MAX {
            Some(Vessel::launched(self.next_entity, blueprint->Some_0.kind, blueprint->Some_0.curve))
        } else {
            None
        }
    }

    /// The simulation at the start of a round for which `seed` was drawn:
    /// the spawn manager starts anew with the seed count, and the vessels
    /// are the seed vessel alone, or none where it could not be made or the
    /// cap is 0.
    pub open spec fn round_started(self, seed: Option<Blueprint>) -> SimulationView {
        let manager = ShipSpawnManager::initial(
            self.config.spawn_interval,
            SEED_POPULATION,
            self.config.max_population,
        );
        let first = self.offer(seed);
        let seeded = first is Some && manager.current_ships > 0;
        SimulationView {
            config: self.config,
            state: GameState::Game,
            manager: Some(manager),
            ships: if seeded {
                seq![first->Some_0]
            } else {
                Seq::empty()
            },
            next_entity: if seeded {
                (self.next_entity + 1) as u64
            } else {
                self.next_entity
            },
        }
    }

    /// The simulation after its round has ended: no vessel and no spawn
    /// manager are left.
    pub open spec fn round_ended(self) -> SimulationView {
        SimulationView {
            config: self.config,
            state: GameState::GameOver,
            manager: None,
            ships: Seq::empty(),
            next_entity: self.next_entity,
        }
    }

    /// The simulation after an event. `seed` is what was drawn for the
    /// case that the event starts a round.
    pub open spec fn after_event(self, event: RoundEvent, seed: Option<Blueprint>) -> SimulationView {
        let next = self.state.after(event);
        if next == self.state {
            self
        } else if next == GameState::Game {
            self.round_started(seed)
        } else {
            self.round_ended()
        }
    }
    /// A tick of `dt` microseconds is run: `dt` is no negative length, and
    /// a round runs.
    pub open spec fn runs(self, dt: i64) -> bool {
        dt >= 0 && self.state == GameState::Game && self.manager is Some
    }

    /// Whether the newcomer joins in a tick of `dt` microseconds: the spawn
    /// timer fires, the cap is not reached, and a vessel could be made.
    pub open spec fn spawns(self, dt: i64, newcomer: Option<Blueprint>) -> bool {
        self.runs(dt) && self.manager->Some_0.admits(dt as u64) && self.offer(newcomer) is Some
    }

    /// The vessels at the end of the moves of a tick that is run: those
    /// there were and the newcomer, if it joins, each moved on along its
    /// curve.
    pub open spec fn ships_in_step(self, dt: i64, newcomer: Option<Blueprint>) -> Seq<Vessel> {
        moved_ships(
            ships_after_spawn(self.manager->Some_0, self.ships, dt as u64, self.offer(newcomer)),
            self.config.rate,
            dt as u64,
        )
    }

    /// The collisions of a tick: those of the vessels where the moves of
    /// the tick have taken them, none where the tick is not run.
    pub open spec fn step_events(self, dt: i64, newcomer: Option<Blueprint>) -> Seq<
        CollisionEvent,
    > {
        if self.runs(dt) {
            collisions(bodies_of(self.ships_in_step(dt, newcomer)))
        } else {
            Seq::empty()
        }
    }

    /// The simulation after a tick of `dt` microseconds for which
    /// `newcomer` was drawn. A tick that is not run changes nothing. One
    /// that is run advances the spawn manager, lets the newcomer join,
    /// moves every vessel, and ends the round if any two then collide.
    pub open spec fn after_step(self, dt: i64, newcomer: Option<Blueprint>) -> SimulationView {
        if !self.runs(dt) {
            self
        } else {
            let next_entity = if self.spawns(dt, newcomer) {
                (self.next_entity + 1) as u64
            } else {
                self.next_entity
            };
            if self.step_events(dt, newcomer).len() > 0 {
                SimulationView {
                    config: self.config,
                    state: GameState::GameOver,
                    manager: None,
                    ships: Seq::empty(),
                    next_entity,
                }
            } else {
                SimulationView {
                    config: self.config,
                    state: GameState::Game,
                    manager: Some(
                        self.manager->Some_0.after_tick(dt as u64, self.offer(newcomer) is Some),
                    ),
                    ships: self.ships_in_step(dt, newcomer),
                    next_entity,
                }
            }
        }
    }

    /// What a tick returns: its collisions, or the error for a negative
    /// length.
    pub open spec fn step_result(self, dt: i64, newcomer: Option<Blueprint>) -> Result<
        Seq<CollisionEvent>,
        InvalidTickError,
    > {
        if dt < 0 {
            Err(InvalidTickError { dt })
        } else {
            Ok(self.step_events(dt, newcomer))
        }
    }

    /// The simulation after the vessel `entity` was pushed aside. Where no
    /// vessel has that identifier, nothing changes.
    pub open spec fn dragged(self, entity: u64, dx: i64, dz: i64) -> SimulationView {
        SimulationView {
            config: self.config,
            state: self.state,
            manager: self.manager,
            ships: Seq::new(
                self.ships.len(),
                |i: int|
                    if self.ships[i].entity == entity {
                        self.ships[i].nudged(dx, dz)
                    } else {
                        self.ships[i]
                    },
            ),
            next_entity: self.next_entity,
        }
    }

    /// The control points of the curve of the vessel `entity`, if there is
    /// such a vessel.
    pub open spec fn course_of(self, entity: u64) -> Option<Seq<crate::map::MapPoint>> {
        if exists|i: int| 0 <= i < self.ships.len() && self.ships[i].entity == entity {
            let i = choose|i: int| 0 <= i < self.ships.len() && self.ships[i].entity == entity;
            Some(self.ships[i].path.curve@)
        } else {
            None
        }
    }

    /// What is reported of the vessels.
    pub open spec fn reports(self) -> Seq<VesselReport> {
        Seq::new(self.ships.len(), |i: int| self.ships[i].as_report())
    }
}

/// A tick's result as contracts see it: the events as a sequence.
pub open spec fn result_view(result: Result<Vec<CollisionEvent>, InvalidTickError>) -> Result<
    Seq<CollisionEvent>,
    InvalidTickError,
> {
    match result {
        Ok(events) => Ok(events@),
        Err(error) => Err(error),
    }
}

/// Collects what the detector reads of each vessel.
pub fn bodies_of_ships(ships: &Vec<Vessel>) -> (bodies: Vec<Body>)
    ensures
        bodies@ == bodies_of(ships@),
{
    let mut bodies: Vec<Body> = Vec::new();
    let mut i: usize = 0;
    while i < ships.len()
        invariant
            i <= ships.len(),
            bodies@ == bodies_of(ships@.take(i as int)),
        decreases ships.len() - i,
    {
        bodies.push(ships[i].body());
        assert(bodies@ =~= bodies_of(ships@.take(i + 1)));
        i = i + 1;
    }
    assert(ships@.take(ships.len() as int) =~= ships@);
    bodies
}

/// The simulation: a round's state, its vessels and its spawn manager.
#[derive(Debug)]
pub struct Simulation {
    config: Config,
    state: GameState,
    manager: Option<ShipSpawnManager>,
    ships: Vec<Vessel>,
    next_entity: u64,
}

impl View for Simulation {
    type V = SimulationView;

    closed spec fn view(&self) -> SimulationView {
        SimulationView {
            config: self.config,
            state: self.state,
            manager: self.manager,
            ships: self.ships@,
            next_entity: self.next_entity,
        }
    }
}

impl Simulation {
    /// A simulation that waits for what it needs, or nothing where the
    /// configuration cannot be run.
    pub fn new(config: Config) -> (made: Option<Simulation>)
        ensures
            made is Some <==> config.valid(),
            made is Some ==> made->Some_0@ == (SimulationView {
                config,
                state: GameState::Loading,
                manager: None,
                ships: Seq::empty(),
                next_entity: 0,
            }) && made->Some_0@.wf(),
    {
        if config.is_valid() {
            Some(
                Simulation {
                    config,
                    state: GameState::Loading,
                    manager: None,
                    ships: Vec::new(),
                    next_entity: 0,
                },
            )
        } else {
            None
        }
    }

    /// Where the round stands.
    pub fn state(&self) -> (state: GameState)
        ensures
            state == self@.state,
    {
        self.state
    }

    /// The count of vessels as the spawn manager keeps it, 0 outside a
    /// round.
    pub fn population(&self) -> (count: u32)
        ensures
            count == self@.population(),
    {
        match self.manager {
            Some(manager) => manager.current_ships,
            None => 0,
        }
    }

    /// Makes the vessel that a blueprint gives, if an identifier is left.
    fn make_offer(&self, blueprint: Option<Blueprint>) -> (offer: Option<Vessel>)
        ensures
            offer == self@.offer(blueprint),
            offer is Some ==> offer->Some_0.wf() && offer->Some_0.entity == self@.next_entity,
    {
        match blueprint {
            Some(drawn) => {
                if self.next_entity < u64::MAX {
                    Some(Vessel::new(self.next_entity, drawn.kind, drawn.curve))
                } else {
                    None
                }
            },
            None => None,
        }
    }

    /// Starts a round with the seed that was drawn for it.
    fn start_round(&mut self, seed: Option<Blueprint>)
        requires
            old(self)@.wf(),
        ensures
            final(self)@ == old(self)@.round_started(seed),
            final(self)@.wf(),
    {
        let manager: ShipSpawnManager = ShipSpawnManager::new(
            self.config.spawn_interval,
            SEED_POPULATION,
            self.config.max_population,
        );
        let first: Option<Vessel> = self.make_offer(seed);
        self.ships.clear();
        self.state = GameState::Game;
        self.manager = Some(manager);
        if manager.current_ships > 0 {
            match first {
                Some(vessel) => {
                    self.ships.push(vessel);
                    self.next_entity = self.next_entity + 1;
                },
                None => {},
            }
        }
        assert(self@.ships =~= old(self)@.round_started(seed).ships);
    }

    /// Ends the round: every vessel and the spawn manager go.
    fn end_round(&mut self)
        requires
            old(self)@.wf(),
        ensures
            final(self)@ == old(self)@.round_ended(),
            final(self)@.wf(),
    {
        self.ships.clear();
        self.manager = None;
        self.state = GameState::GameOver;
    }

    /// Takes an event, with the seed that was drawn for the case that it
    /// starts a round.
    pub fn apply_with(&mut self, event: RoundEvent, seed: Option<Blueprint>)
        requires
            old(self)@.wf(),
        ensures
            final(self)@ == old(self)@.after_event(event, seed),
            final(self)@.wf(),
    {
        let next: GameState = self.state.next(event);
        if next == self.state {
        } else if next == GameState::Game {
            self.start_round(seed);
        } else {
            self.end_round();
        }
    }

    /// Runs one tick of `dt` microseconds with the newcomer that was drawn
    /// for it. A negative `dt` is refused and nothing changes; outside a
    /// round nothing changes either.
    pub fn step(&mut self, dt: i64, newcomer: Option<Blueprint>) -> (result: Result<
        Vec<CollisionEvent>,
        InvalidTickError,
    >)
        requires
            old(self)@.wf(),
        ensures
            result_view(result) == old(self)@.step_result(dt, newcomer),
            final(self)@ == old(self)@.after_step(dt, newcomer),
            final(self)@.wf(),
    {
        if dt < 0 {
            return Err(InvalidTickError { dt });
        }
        let mut manager: ShipSpawnManager = match self.manager {
            Some(manager) => manager,
            None => {
                return Ok(Vec::new());
            },
        };
        let elapsed: u64 = dt as u64;
        let offer: Option<Vessel> = self.make_offer(newcomer);
        let ghost before: Seq<Vessel> = self.ships@;
        let spawned: bool = spawn_ships(&mut manager, &mut self.ships, elapsed, offer);
        if spawned {
            self.next_entity = self.next_entity + 1;
        }
        let ghost joined: Seq<Vessel> = self.ships@;
        assert(all_wf(joined) && entities_below(joined, self.next_entity) && distinct_entities(
            bodies_of(joined),
        )) by {
            assert forall|i: int| 0 <= i < joined.len() implies (#[trigger] joined[i]).wf()
                && joined[i].entity < self.next_entity by {
                if i < before.len() {
                    assert(joined[i] == before[i]);
                }
            }
            assert forall|i: int, j: int| 0 <= i < j < joined.len() implies (#[trigger] bodies_of(
                joined,
            )[i]).entity != (#[trigger] bodies_of(joined)[j]).entity by {
                assert(joined[i] == before[i]);
                if j < before.len() {
                    assert(joined[j] == before[j]);
                    assert(bodies_of(before)[i].entity != bodies_of(before)[j].entity);
                }
            }
        }
        move_ship(&mut self.ships, self.config.rate, elapsed);
        let ghost moved: Seq<Vessel> = self.ships@;
        assert(entities_below(moved, self.next_entity) && distinct_entities(bodies_of(moved))) by {
            assert forall|i: int| 0 <= i < moved.len() implies (#[trigger] moved[i]).entity
                == joined[i].entity by {}
            assert forall|i: int, j: int| 0 <= i < j < moved.len() implies (#[trigger] bodies_of(
                moved,
            )[i]).entity != (#[trigger] bodies_of(moved)[j]).entity by {
                assert(bodies_of(joined)[i].entity != bodies_of(joined)[j].entity);
            }
        }
        let bodies: Vec<Body> = bodies_of_ships(&self.ships);
        let events: Vec<CollisionEvent> = check_collision(&bodies);
        if events.len() > 0 {
            self.ships.clear();
            self.manager = None;
            self.state = GameState::GameOver;
        } else {
            self.manager = Some(manager);
        }
        Ok(events)
    }

    /// Tells whether a vessel is due in a tick of `dt` microseconds.
    fn spawn_due(&self, dt: i64) -> (due: bool)
        requires
            self@.wf(),
        ensures
            due == (self@.runs(dt) && self@.manager->Some_0.admits(dt as u64)),
    {
        if dt < 0 {
            return false;
        }
        match self.manager {
            Some(manager) => {
                let mut probe: ShipSpawnManager = manager;
                probe.tick(dt as u64)
            },
            None => false,
        }
    }

    /// Runs one tick of `dt` microseconds: the spawn manager first, then
    /// the moves, then the detector, then the round's reaction to what it
    /// found. Where a vessel is due, its curve and kind are drawn; what
    /// the tick does with them is what [`Simulation::step`] does.
    pub fn on_tick(&mut self, dt: i64) -> (result: Result<Vec<CollisionEvent>, InvalidTickError>)
        requires
            old(self)@.wf(),
        ensures
            exists|newcomer: Option<Blueprint>|
                result_view(result) == old(self)@.step_result(dt, newcomer) && final(self)@
                    == #[trigger] old(self)@.after_step(dt, newcomer),
            dt < 0 ==> result == Err::<Vec<CollisionEvent>, InvalidTickError>(
                InvalidTickError { dt },
            ) && final(self)@ == old(self)@,
            dt >= 0 ==> result is Ok,
            old(self)@.state != GameState::Game ==> final(self)@ == old(self)@,
            final(self)@.wf(),
    {
        let newcomer: Option<Blueprint> = if self.spawn_due(dt) {
            random_blueprint(self.config.map_bound, self.config.curve_point_count)
        } else {
            None
        };
        let ghost drawn: Option<Blueprint> = newcomer;
        let result = self.step(dt, newcomer);
        assert(final(self)@ == old(self)@.after_step(dt, drawn));
        result
    }

    /// Takes an event. Where it starts a round, the seed vessel's curve
    /// and kind are drawn; what comes of them is what
    /// [`Simulation::apply_with`] does.
    pub fn apply(&mut self, event: RoundEvent)
        requires
            old(self)@.wf(),
        ensures
            exists|seed: Option<Blueprint>|
                final(self)@ == #[trigger] old(self)@.after_event(event, seed),
            final(self)@.state == old(self)@.state.after(event),
            final(self)@.wf(),
    {
        let seed: Option<Blueprint> = if self.state.next(event) == GameState::Game
            && self.state != GameState::Game {
            random_blueprint(self.config.map_bound, self.config.curve_point_count)
        } else {
            None
        };
        let ghost drawn: Option<Blueprint> = seed;
        self.apply_with(event, seed);
        assert(final(self)@ == old(self)@.after_event(event, drawn));
    }

    /// Starts a round, where one can start: when all is fetched, or after
    /// a round that is over. Anywhere else nothing changes.
    pub fn on_round_start(&mut self)
        requires
            old(self)@.wf(),
        ensures
            old(self)@.state.starts_round() ==> exists|seed: Option<Blueprint>|
                final(self)@ == #[trigger] old(self)@.round_started(seed),
            !old(self)@.state.starts_round() ==> final(self)@ == old(self)@,
            final(self)@.wf(),
    {
        match self.state {
            GameState::Loading => self.apply(RoundEvent::ResourcesReady),
            GameState::GameOver => self.apply(RoundEvent::PlayAgain),
            _ => {},
        }
    }

    /// Ends the round that runs: every vessel and the spawn manager go.
    /// Outside a round nothing changes.
    pub fn on_round_end(&mut self)
        requires
            old(self)@.wf(),
        ensures
            final(self)@ == old(self)@.after_event(RoundEvent::CollisionDetected, None),
            old(self)@.state == GameState::Game ==> final(self)@ == old(self)@.round_ended(),
            old(self)@.state != GameState::Game ==> final(self)@ == old(self)@,
            final(self)@.wf(),
    {
        self.apply_with(RoundEvent::CollisionDetected, None);
    }

    /// Pushes the vessel `entity` aside by `dx` and `dz` thousandths of a
    /// map unit. An identifier that no vessel has is passed over.
    pub fn on_drag(&mut self, entity: u64, dx: i64, dz: i64)
        requires
            old(self)@.wf(),
        ensures
            final(self)@ == old(self)@.dragged(entity, dx, dz),
            final(self)@.wf(),
    {
        let ghost start: Seq<Vessel> = self.ships@;
        let mut i: usize = 0;
        while i < self.ships.len()
            invariant
                i <= self.ships.len(),
                self.ships.len() == start.len(),
                self.config == old(self).config,
                self.state == old(self).state,
                self.manager == old(self).manager,
                self.next_entity == old(self).next_entity,
                start == old(self)@.ships,
                forall|k: int|
                    0 <= k < i ==> self.ships@[k] == (if (#[trigger] start[k]).entity == entity {
                        start[k].nudged(dx, dz)
                    } else {
                        start[k]
                    }),
                forall|k: int| i <= k < self.ships.len() ==> self.ships@[k] == #[trigger] start[k],
            decreases self.ships.len() - i,
        {
            assert(self.ships@[i as int] == start[i as int]);
            if self.ships[i].entity == entity {
                self.ships[i].nudge(dx, dz);
            }
            i = i + 1;
        }
        let ghost after: Seq<Vessel> = self.ships@;
        assert(after =~= old(self)@.dragged(entity, dx, dz).ships);
        assert forall|k: int| 0 <= k < after.len() implies (#[trigger] after[k]).entity
            == start[k].entity && after[k].wf() by {}
        assert forall|i: int, j: int| 0 <= i < j < after.len() implies (#[trigger] bodies_of(
            after,
        )[i]).entity != (#[trigger] bodies_of(after)[j]).entity by {
            assert(bodies_of(start)[i].entity != bodies_of(start)[j].entity);
        }
    }

    /// The curve of the vessel `entity`, if there is such a vessel.
    pub fn curve_of(&self, entity: u64) -> (curve: Option<Curve>)
        requires
            self@.wf(),
        ensures
            curve is Some <==> self@.course_of(entity) is Some,
            curve is Some ==> curve->Some_0@ == self@.course_of(entity)->Some_0,
    {
        let mut i: usize = 0;
        while i < self.ships.len()
            invariant
                i <= self.ships.len(),
                distinct_entities(bodies_of(self.ships@)),
                forall|k: int| 0 <= k < i ==> (#[trigger] self.ships@[k]).entity != entity,
            decreases self.ships.len() - i,
        {
            if self.ships[i].entity == entity {
                proof {
                    assert(0 <= i < self.ships@.len() && self.ships@[i as int].entity == entity);
                    let found = choose|k: int|
                        0 <= k < self.ships@.len() && self.ships@[k].entity == entity;
                    if found < i {
                        assert(self.ships@[found].entity != entity);
                    } else if found > i {
                        assert(bodies_of(self.ships@)[i as int].entity != bodies_of(
                            self.ships@,
                        )[found].entity);
                    }
                }
                return Some(self.ships[i].path.curve.clone());
            }
            i = i + 1;
        }
        None
    }

    /// What is to be shown of each vessel.
    pub fn vessels(&self) -> (reports: Vec<VesselReport>)
        ensures
            reports@ == self@.reports(),
    {
        let mut reports: Vec<VesselReport> = Vec::new();
        let mut i: usize = 0;
        while i < self.ships.len()
            invariant
                i <= self.ships.len(),
                reports.len() == i,
                forall|k: int| 0 <= k < i ==> reports@[k] == (#[trigger] self.ships@[k]).as_report(),
            decreases self.ships.len() - i,
        {
            reports.push(self.ships[i].report());
            i = i + 1;
        }
        assert(reports@ =~= self@.reports());
        reports
    }
}

impl SimulationView {
    /// The simulation after a run of ticks, each given by its length and by
    /// the newcomer that was drawn for it.
    pub open spec fn after_steps(self, ticks: Seq<(i64, Option<Blueprint>)>) -> SimulationView
        decreases ticks.len(),
    {
        if ticks.len() == 0 {
            self
        } else {
            self.after_steps(ticks.drop_last()).after_step(ticks.last().0, ticks.last().1)
        }
    }
}

/// A round can start from a state exactly when some event leads from it
/// into a running round.
pub proof fn round_starts_by_event(state: GameState)
    ensures
        state.starts_round() <==> state != GameState::Game && exists|event: RoundEvent|
            #[trigger] state.after(event) == GameState::Game,
{
    if state.starts_round() {
        if state == GameState::Loading {
            assert(state.after(RoundEvent::ResourcesReady) == GameState::Game);
        } else {
            assert(state.after(RoundEvent::PlayAgain) == GameState::Game);
        }
    }
}

/// In every simulation the count of vessels is within the cap, and there
/// are no more vessels than are counted.
pub proof fn population_within_cap_of_round(sim: SimulationView)
    requires
        sim.wf(),
    ensures
        sim.population() <= sim.config.max_population,
        sim.ships.len() <= sim.population(),
{
}

/// A tick keeps what holds of every simulation.
pub proof fn step_keeps_invariant(sim: SimulationView, dt: i64, newcomer: Option<Blueprint>)
    requires
        sim.wf(),
    ensures
        sim.after_step(dt, newcomer).wf(),
{
    if sim.runs(dt) && sim.step_events(dt, newcomer).len() == 0 {
        let manager = sim.manager->Some_0;
        let offer = sim.offer(newcomer);
        let joined = ships_after_spawn(manager, sim.ships, dt as u64, offer);
        let moved = sim.ships_in_step(dt, newcomer);
        let after = sim.after_step(dt, newcomer);
        assert forall|i: int| 0 <= i < joined.len() implies (#[trigger] joined[i]).wf()
            && joined[i].entity < after.next_entity by {
            if i < sim.ships.len() {
                assert(joined[i] == sim.ships[i]);
            }
        }
        assert forall|i: int| 0 <= i < moved.len() implies (#[trigger] moved[i]).wf()
            && moved[i].entity < after.next_entity by {
            assert(moved[i] == joined[i].moved(sim.config.rate, dt as u64));
            crate::ship::progress_stays_on_lap(joined[i].path, sim.config.rate, dt as u64);
        }
        assert forall|i: int, j: int| 0 <= i < j < moved.len() implies (#[trigger] bodies_of(
            moved,
        )[i]).entity != (#[trigger] bodies_of(moved)[j]).entity by {
            assert(moved[i].entity == joined[i].entity);
            assert(moved[j].entity == joined[j].entity);
            assert(joined[i] == sim.ships[i]);
            if j < sim.ships.len() {
                assert(joined[j] == sim.ships[j]);
                assert(bodies_of(sim.ships)[i].entity != bodies_of(sim.ships)[j].entity);
            }
        }
    }
}

/// An event keeps what holds of every simulation.
pub proof fn event_keeps_invariant(sim: SimulationView, event: RoundEvent, seed: Option<Blueprint>)
    requires
        sim.wf(),
    ensures
        sim.after_event(event, seed).wf(),
{
}

/// A running round ends on the tick in which two vessels collide, and on
/// no other: it goes on exactly while the ticks find no collision. When it
/// ends, no vessel and no spawn manager are left.
pub proof fn collision_ends_round(sim: SimulationView, dt: i64, newcomer: Option<Blueprint>)
    requires
        sim.wf(),
        sim.state == GameState::Game,
        dt >= 0,
    ensures
        sim.step_events(dt, newcomer).len() > 0 <==> sim.after_step(dt, newcomer).state
            == GameState::GameOver,
        sim.step_events(dt, newcomer).len() == 0 <==> sim.after_step(dt, newcomer).state
            == GameState::Game,
        sim.after_step(dt, newcomer).state == GameState::GameOver ==> sim.after_step(
            dt,
            newcomer,
        ).ships.len() == 0 && sim.after_step(dt, newcomer).manager is None,
{
}

/// Outside a running round no tick changes anything or finds a collision,
/// however many ticks go by: vessels are moved again only once a round has
/// been started.
pub proof fn nothing_moves_outside_round(
    sim: SimulationView,
    ticks: Seq<(i64, Option<Blueprint>)>,
)
    requires
        sim.state != GameState::Game,
    ensures
        sim.after_steps(ticks) == sim,
        forall|dt: i64, newcomer: Option<Blueprint>| #[trigger]
            sim.step_events(dt, newcomer).len() == 0,
    decreases ticks.len(),
{
    if ticks.len() > 0 {
        nothing_moves_outside_round(sim, ticks.drop_last());
    }
}

/// A round that starts again starts with the seed count of vessels,
/// whatever the count was when the round before it ended, and with no
/// vessel of that round.
pub proof fn restart_resets_population(sim: SimulationView, seed: Option<Blueprint>)
    requires
        sim.wf(),
        sim.state == GameState::GameOver,
    ensures
        sim.after_event(RoundEvent::PlayAgain, seed).state == GameState::Game,
        sim.after_event(RoundEvent::PlayAgain, seed).population() == (if SEED_POPULATION
            <= sim.config.max_population {
            SEED_POPULATION
        } else {
            sim.config.max_population
        }),
        sim.after_event(RoundEvent::PlayAgain, seed).ships.len() <= 1,
        sim.after_event(RoundEvent::PlayAgain, seed).manager == Some(
            ShipSpawnManager::initial(
                sim.config.spawn_interval,
                SEED_POPULATION,
                sim.config.max_population,
            ),
        ),
{
}

/// A push that names no vessel of the simulation changes nothing; outside
/// a running round that is every push.
pub proof fn drag_of_unknown_vessel_changes_nothing(
    sim: SimulationView,
    entity: u64,
    dx: i64,
    dz: i64,
)
    requires
        sim.wf(),
        sim.state != GameState::Game || forall|i: int|
            0 <= i < sim.ships.len() ==> (#[trigger] sim.ships[i]).entity != entity,
    ensures
        sim.dragged(entity, dx, dz) == sim,
{
    assert(sim.dragged(entity, dx, dz).ships =~= sim.ships);
}

/// A push keeps what holds of every simulation, and moves no vessel but
/// the one it names.
pub proof fn drag_keeps_invariant(sim: SimulationView, entity: u64, dx: i64, dz: i64)
    requires
        sim.wf(),
    ensures
        sim.dragged(entity, dx, dz).wf(),
        sim.dragged(entity, dx, dz).ships.len() == sim.ships.len(),
        forall|i: int|
            0 <= i < sim.ships.len() && sim.ships[i].entity != entity ==> #[trigger] sim.dragged(
                entity,
                dx,
                dz,
            ).ships[i] == sim.ships[i],
{
    let after = sim.dragged(entity, dx, dz).ships;
    assert forall|i: int| 0 <= i < after.len() implies (#[trigger] after[i]).wf()
        && after[i].entity == sim.ships[i].entity by {}
    assert forall|i: int, j: int| 0 <= i < j < after.len() implies (#[trigger] bodies_of(
        after,
    )[i]).entity != (#[trigger] bodies_of(after)[j]).entity by {
        assert(bodies_of(sim.ships)[i].entity != bodies_of(sim.ships)[j].entity);
    }
}

} // verus!
