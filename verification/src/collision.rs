//! Rectangular footprints and the all-pairs overlap test.

use crate::map::Position;
use vstd::prelude::*;

verus! {

/// The footprint of a vessel: a rectangle on the map plane whose corner of
/// least `x` and `z` lies at the vessel's position. Sides are in
/// thousandths of a map unit.
#[derive(Clone, Copy, Debug, PartialEq, Eq, Structural)]
pub struct Collider {
    pub width: u32,
    pub length: u32,
}

/// Two vessels whose footprints overlap.
#[derive(Clone, Copy, Debug, PartialEq, Eq, Structural)]
pub struct CollisionEvent {
    pub entity_a: u64,
    pub entity_b: u64,
}

/// What the detector reads of one vessel.
#[derive(Clone, Copy, Debug, PartialEq, Eq, Structural)]
pub struct Body {
    pub entity: u64,
    pub position: Position,
    pub collider: Collider,
}

pub open spec fn max_int(a: int, b: int) -> int {
    if a >= b { a } else { b }
}

pub open spec fn min_int(a: int, b: int) -> int {
    if a <= b { a } else { b }
}

/// Length of what the intervals `[a, a + a_len]` and `[b, b + b_len]` share,
/// zero where they share nothing or touch in one point.
pub open spec fn shared_length(a: int, a_len: int, b: int, b_len: int) -> int {
    max_int(0, min_int(a + a_len, b + b_len) - max_int(a, b))
}

impl Body {
    /// Width of the intersection of the two footprints.
    pub open spec fn shared_width(self, other: Body) -> int {
        shared_length(
            self.position.x as int,
            self.collider.width as int,
            other.position.x as int,
            other.collider.width as int,
        )
    }

    /// Length of the intersection of the two footprints.
    pub open spec fn shared_depth(self, other: Body) -> int {
        shared_length(
            self.position.z as int,
            self.collider.length as int,
            other.position.z as int,
            other.collider.length as int,
        )
    }

    /// Area of the intersection of the two footprints. Heights play no part.
    pub open spec fn shared_area(self, other: Body) -> int {
        self.shared_width(other) * self.shared_depth(other)
    }

    /// The footprints overlap: their intersection has a width and a length.
    pub open spec fn overlaps(self, other: Body) -> bool {
        self.shared_width(other) > 0 && self.shared_depth(other) > 0
    }

    /// The two are different vessels with overlapping footprints.
    pub open spec fn collides(self, other: Body) -> bool {
        self.entity != other.entity && self.overlaps(other)
    }

    /// Tests whether the footprints overlap.
    pub fn overlap(&self, other: &Body) -> (hit: bool)
        ensures
            hit == self.overlaps(*other),
    {
        let ax: i128 = self.position.x as i128;
        let bx: i128 = other.position.x as i128;
        let az: i128 = self.position.z as i128;
        let bz: i128 = other.position.z as i128;
        let x_lo: i128 = if ax >= bx { ax } else { bx };
        let z_lo: i128 = if az >= bz { az } else { bz };
        let a_x_hi: i128 = ax + self.collider.width as i128;
        let b_x_hi: i128 = bx + other.collider.width as i128;
        let a_z_hi: i128 = az + self.collider.length as i128;
        let b_z_hi: i128 = bz + other.collider.length as i128;
        let x_hi: i128 = if a_x_hi <= b_x_hi { a_x_hi } else { b_x_hi };
        let z_hi: i128 = if a_z_hi <= b_z_hi { a_z_hi } else { b_z_hi };
        x_lo < x_hi && z_lo < z_hi
    }
}

/// The event that names the vessels at `i` and `j`, in that order.
pub open spec fn event_of(bodies: Seq<Body>, i: int, j: int) -> CollisionEvent {
    CollisionEvent { entity_a: bodies[i].entity, entity_b: bodies[j].entity }
}

/// The events of the vessel at `i` with those at `i + 1 .. upto`, by rising
/// index.
pub open spec fn row_events(bodies: Seq<Body>, i: int, upto: int) -> Seq<CollisionEvent>
    decreases upto - i,
{
    if upto <= i + 1 {
        Seq::empty()
    } else {
        let before = row_events(bodies, i, upto - 1);
        if bodies[i].collides(bodies[upto - 1]) {
            before.push(event_of(bodies, i, upto - 1))
        } else {
            before
        }
    }
}

/// The events of the first `rows` vessels, each with all those behind it.
pub open spec fn events_of_rows(bodies: Seq<Body>, rows: int) -> Seq<CollisionEvent>
    decreases rows,
{
    if rows <= 0 {
        Seq::empty()
    } else {
        events_of_rows(bodies, rows - 1) + row_events(bodies, rows - 1, bodies.len() as int)
    }
}

/// The events of one tick: one for each pair of positions `i < j` whose
/// vessels collide, ordered by `i` and then by `j`.
pub open spec fn collisions(bodies: Seq<Body>) -> Seq<CollisionEvent> {
    events_of_rows(bodies, bodies.len() as int)
}

/// Tests every unordered pair of vessels once and reports those that
/// collide. Nothing but the returned events comes of it.
pub fn check_collision(bodies: &Vec<Body>) -> (events: Vec<CollisionEvent>)
    ensures
        events@ == collisions(bodies@),
{
    let mut events: Vec<CollisionEvent> = Vec::new();
    let n: usize = bodies.len();
    let mut i: usize = 0;
    while i < n
        invariant
            n == bodies.len(),
            i <= n,
            events@ == events_of_rows(bodies@, i as int),
        decreases n - i,
    {
        let ghost before: Seq<CollisionEvent> = events@;
        let mut j: usize = i + 1;
        while j < n
            invariant
                n == bodies.len(),
                i < n,
                i + 1 <= j <= n,
                events@ == before + row_events(bodies@, i as int, j as int),
            decreases n - j,
        {
            let a: &Body = &bodies[i];
            let b: &Body = &bodies[j];
            if a.entity != b.entity && a.overlap(b) {
                events.push(CollisionEvent { entity_a: a.entity, entity_b: b.entity });
            }
            j = j + 1;
        }
        i = i + 1;
    }
    events
}

/// The event names the two vessels, in either order.
pub open spec fn names_pair(event: CollisionEvent, a: u64, b: u64) -> bool {
    (event.entity_a == a && event.entity_b == b) || (event.entity_a == b && event.entity_b == a)
}

/// How many of the events name the two vessels, in either order.
pub open spec fn count_naming(events: Seq<CollisionEvent>, a: u64, b: u64) -> nat
    decreases events.len(),
{
    if events.len() == 0 {
        0
    } else {
        let rest = count_naming(events.drop_last(), a, b);
        if names_pair(events.last(), a, b) {
            rest + 1
        } else {
            rest
        }
    }
}

/// No two of the vessels share an identifier.
pub open spec fn distinct_entities(bodies: Seq<Body>) -> bool {
    forall|i: int, j: int|
        0 <= i < j < bodies.len() ==> (#[trigger] bodies[i]).entity != (#[trigger] bodies[j]).entity
}

proof fn lemma_count_push(events: Seq<CollisionEvent>, event: CollisionEvent, a: u64, b: u64)
    ensures
        count_naming(events.push(event), a, b) == count_naming(events, a, b) + (if names_pair(
            event,
            a,
            b,
        ) {
            1nat
        } else {
            0nat
        }),
{
    assert(events.push(event).drop_last() =~= events);
}

proof fn lemma_count_concat(
    front: Seq<CollisionEvent>,
    back: Seq<CollisionEvent>,
    a: u64,
    b: u64,
)
    ensures
        count_naming(front + back, a, b) == count_naming(front, a, b) + count_naming(back, a, b),
    decreases back.len(),
{
    if back.len() == 0 {
        assert(front + back =~= front);
    } else {
        lemma_count_concat(front, back.drop_last(), a, b);
        assert((front + back).drop_last() =~= front + back.drop_last());
        assert((front + back).last() == back.last());
    }
}

proof fn lemma_count_none(events: Seq<CollisionEvent>, a: u64, b: u64)
    requires
        count_naming(events, a, b) == 0,
    ensures
        forall|k: int| 0 <= k < events.len() ==> !names_pair(#[trigger] events[k], a, b),
    decreases events.len(),
{
    if events.len() > 0 {
        lemma_count_none(events.drop_last(), a, b);
        assert forall|k: int| 0 <= k < events.len() implies !names_pair(
            #[trigger] events[k],
            a,
            b,
        ) by {
            if k < events.len() - 1 {
                assert(events[k] == events.drop_last()[k]);
            }
        }
    }
}

/// The overlap test does not depend on which vessel is asked.
pub proof fn overlap_is_symmetric(a: Body, b: Body)
    ensures
        a.shared_width(b) == b.shared_width(a),
        a.shared_depth(b) == b.shared_depth(a),
        a.shared_area(b) == b.shared_area(a),
        a.overlaps(b) == b.overlaps(a),
        a.collides(b) == b.collides(a),
{
}

/// Two footprints overlap exactly when their intersection has an area.
pub proof fn overlap_is_positive_area(a: Body, b: Body)
    ensures
        a.overlaps(b) <==> a.shared_area(b) > 0,
        a.shared_area(b) >= 0,
{
    let w = a.shared_width(b);
    let d = a.shared_depth(b);
    assert(w >= 0 && d >= 0);
    assert(w * d >= 0) by (nonlinear_arith)
        requires
            w >= 0,
            d >= 0,
    ;
    assert((w > 0 && d > 0) <==> w * d > 0) by (nonlinear_arith)
        requires
            w >= 0,
            d >= 0,
    ;
}

proof fn lemma_row_count(bodies: Seq<Body>, i: int, upto: int, p: int, q: int)
    requires
        distinct_entities(bodies),
        0 <= i < bodies.len(),
        i < upto <= bodies.len(),
        0 <= p < q < bodies.len(),
    ensures
        count_naming(row_events(bodies, i, upto), bodies[p].entity, bodies[q].entity) == (if i == p
            && q < upto && bodies[p].collides(bodies[q]) {
            1nat
        } else {
            0nat
        }),
    decreases upto - i,
{
    if upto > i + 1 {
        lemma_row_count(bodies, i, upto - 1, p, q);
        let j = upto - 1;
        let event = event_of(bodies, i, j);
        lemma_count_push(row_events(bodies, i, j), event, bodies[p].entity, bodies[q].entity);
        assert(names_pair(event, bodies[p].entity, bodies[q].entity) <==> (i == p && j == q)) by {
            if names_pair(event, bodies[p].entity, bodies[q].entity) {
                if bodies[i].entity == bodies[p].entity {
                    assert(i == p);
                    assert(j == q);
                } else {
                    assert(i == q);
                    assert(j == p);
                }
            }
        }
    }
}

proof fn lemma_rows_count(bodies: Seq<Body>, rows: int, p: int, q: int)
    requires
        distinct_entities(bodies),
        0 <= rows <= bodies.len(),
        0 <= p < q < bodies.len(),
    ensures
        count_naming(events_of_rows(bodies, rows), bodies[p].entity, bodies[q].entity) == (if p
            < rows && bodies[p].collides(bodies[q]) {
            1nat
        } else {
            0nat
        }),
    decreases rows,
{
    if rows > 0 {
        lemma_rows_count(bodies, rows - 1, p, q);
        lemma_row_count(bodies, rows - 1, bodies.len() as int, p, q);
        lemma_count_concat(
            events_of_rows(bodies, rows - 1),
            row_events(bodies, rows - 1, bodies.len() as int),
            bodies[p].entity,
            bodies[q].entity,
        );
    }
}

proof fn lemma_pair_count(bodies: Seq<Body>, p: int, q: int)
    requires
        distinct_entities(bodies),
        0 <= p < bodies.len(),
        0 <= q < bodies.len(),
        p != q,
    ensures
        count_naming(collisions(bodies), bodies[p].entity, bodies[q].entity) == (if bodies[p].overlaps(
            bodies[q],
        ) {
            1nat
        } else {
            0nat
        }),
{
    overlap_is_symmetric(bodies[p], bodies[q]);
    if p < q {
        lemma_rows_count(bodies, bodies.len() as int, p, q);
    } else {
        lemma_rows_count(bodies, bodies.len() as int, q, p);
        lemma_count_swap(collisions(bodies), bodies[p].entity, bodies[q].entity);
    }
}

proof fn lemma_count_swap(events: Seq<CollisionEvent>, a: u64, b: u64)
    ensures
        count_naming(events, a, b) == count_naming(events, b, a),
    decreases events.len(),
{
    if events.len() > 0 {
        lemma_count_swap(events.drop_last(), a, b);
    }
}

/// Two different vessels whose footprints share no area are named together
/// by no event of the tick.
pub proof fn no_event_without_overlap(bodies: Seq<Body>, p: int, q: int)
    requires
        distinct_entities(bodies),
        0 <= p < bodies.len(),
        0 <= q < bodies.len(),
        p != q,
        bodies[p].shared_area(bodies[q]) == 0,
    ensures
        count_naming(collisions(bodies), bodies[p].entity, bodies[q].entity) == 0,
        forall|k: int|
            0 <= k < collisions(bodies).len() ==> !names_pair(
                #[trigger] collisions(bodies)[k],
                bodies[p].entity,
                bodies[q].entity,
            ),
{
    overlap_is_positive_area(bodies[p], bodies[q]);
    lemma_pair_count(bodies, p, q);
    lemma_count_none(collisions(bodies), bodies[p].entity, bodies[q].entity);
}

/// Two different vessels whose footprints share an area are named together,
/// in one order or the other, by exactly one event of the tick.
pub proof fn one_event_per_overlap(bodies: Seq<Body>, p: int, q: int)
    requires
        distinct_entities(bodies),
        0 <= p < bodies.len(),
        0 <= q < bodies.len(),
        p != q,
        bodies[p].shared_area(bodies[q]) > 0,
    ensures
        count_naming(collisions(bodies), bodies[p].entity, bodies[q].entity) == 1,
{
    overlap_is_positive_area(bodies[p], bodies[q]);
    lemma_pair_count(bodies, p, q);
}

/// Every event names two different vessels.
pub open spec fn sides_differ(events: Seq<CollisionEvent>) -> bool {
    forall|k: int| 0 <= k < events.len() ==> (#[trigger] events[k]).entity_a != events[k].entity_b
}

proof fn lemma_row_sides_differ(bodies: Seq<Body>, i: int, upto: int)
    requires
        0 <= i < bodies.len(),
        i < upto <= bodies.len(),
    ensures
        sides_differ(row_events(bodies, i, upto)),
    decreases upto - i,
{
    if upto > i + 1 {
        lemma_row_sides_differ(bodies, i, upto - 1);
        let before = row_events(bodies, i, upto - 1);
        let row = row_events(bodies, i, upto);
        assert forall|k: int| 0 <= k < row.len() implies (#[trigger] row[k]).entity_a
            != row[k].entity_b by {
            if k < before.len() {
                assert(row[k] == before[k]);
            }
        }
    }
}

proof fn lemma_rows_sides_differ(bodies: Seq<Body>, rows: int)
    requires
        0 <= rows <= bodies.len(),
    ensures
        sides_differ(events_of_rows(bodies, rows)),
    decreases rows,
{
    if rows > 0 {
        lemma_rows_sides_differ(bodies, rows - 1);
        lemma_row_sides_differ(bodies, rows - 1, bodies.len() as int);
        let front = events_of_rows(bodies, rows - 1);
        let back = row_events(bodies, rows - 1, bodies.len() as int);
        let all = events_of_rows(bodies, rows);
        assert forall|k: int| 0 <= k < all.len() implies (#[trigger] all[k]).entity_a
            != all[k].entity_b by {
            if k < front.len() {
                assert(all[k] == front[k]);
            } else {
                assert(all[k] == back[k - front.len()]);
            }
        }
    }
}

/// No event of a tick names one vessel on both sides, whatever the vessels'
/// identifiers are.
pub proof fn no_self_collision(bodies: Seq<Body>)
    ensures
        sides_differ(collisions(bodies)),
{
    lemma_rows_sides_differ(bodies, bodies.len() as int);
}

} // verus!
