//! One tick of the world: every plane advances, then the world looks for
//! planes that left, landed, met or went astray, in that order.
//!
//! The rules, in the order in which a tick applies them:
//!
//! 1. Every plane is advanced, in the order in which the planes arrived. The
//!    first plane whose fuel runs out ends the game, and the planes behind
//!    it are not advanced. A plane that was due to move and had no cell
//!    ahead stays where it is; that ends nothing by itself, and the rules
//!    below judge the plane where it stands.
//! 2. A plane on the row or column of a wall, at an exit, leaves the world
//!    if it is bound for that exit; the first plane at another exit ends the
//!    game, and the planes behind it stay in the world.
//! 3. A plane at height 0 has come down. At the airport it is bound for,
//!    heading the way the airport faces, it lands and leaves the world. The
//!    first plane at another airport, or on open ground, ends the game. To
//!    come down at an airport against its facing, or while bound for an
//!    exit, is against the rules of the game itself: it is a fault, not a
//!    result.
//! 4. Two planes in one cell at one height have collided; the first such
//!    pair ends the game.
//! 5. A plane on the row or column of a wall where no exit is has touched
//!    the wall; the first such plane ends the game.
//!
//! A plane in its grace period is exempt from rules 2, 3 and 5. A plane past
//! it that had no cell ahead, above row 0 or left of column 0, stands on that
//! row or column: rule 2 takes it out or ends the game over it, or rule 5
//! ends the game over it.

use vstd::prelude::*;
use vstd::pervasive::unreached;
use crate::plane::{Destination, Plane, TickFailure};
use crate::search::{
    first_index,
    is_first_index,
    lemma_filter_kept,
    lemma_filter_next,
    lemma_first_index,
    lemma_first_index_is,
    lemma_thinned_front,
    origins,
    thinned_front,
};
use crate::table::{distinct_keys, lemma_filter_distinct, lemma_thinned_front_distinct};
use crate::world::{
    exit_at,
    DirectionCardinal,
    DirectionGrid,
    State,
    World,
    WorldTile,
    WorldView,
};

verus! {

/// What the walls say of a plane.
#[derive(Copy, Clone, Debug, PartialEq, Eq, Structural)]
pub enum ExitCheck {
    /// The plane is at no exit.
    NoExit,
    /// The plane is at the exit it is bound for.
    Departs,
    /// The plane is at another exit, the one with this id.
    Wrong(u8),
}

/// A landing that breaks the rules of the game itself, as opposed to one
/// that loses it.
#[derive(Copy, Clone, Debug, PartialEq, Eq, Structural)]
pub enum LandingFault {
    /// The plane came down at an airport against the way the airport faces.
    WrongDirection(Plane),
    /// The plane came down at an airport though it is bound for an exit.
    ExitBound(Plane),
}

/// What the ground says of a plane.
#[derive(Copy, Clone, Debug, PartialEq, Eq, Structural)]
pub enum Landing {
    /// The plane is in the air, or still in its grace period.
    Aloft,
    /// The plane came down at the airport it is bound for.
    Lands,
    /// The plane came down at another airport, the one with this id.
    WrongAirport(u8),
    /// The plane came down where no airport is.
    Crash,
    /// The plane came down at an airport against the rules.
    Fault(LandingFault),
}

/// Holds for a plane whose next tick uses up its fuel.
pub open spec fn fuel_runs_out() -> spec_fn(Plane) -> bool {
    |p: Plane| p.counted().no_fuel()
}

/// The planes after each has been advanced by one tick, in order, up to and
/// including the first one whose fuel runs out; the planes behind that one
/// are as they were.
pub open spec fn advanced(planes: Seq<Plane>) -> Seq<Plane> {
    let stop = first_index(planes, fuel_runs_out());
    Seq::new(
        planes.len(),
        |i: int|
            if i <= stop {
                planes[i].ticked()
            } else {
                planes[i]
            },
    )
}

/// Two planes are in one cell at one height.
pub open spec fn collides(a: Plane, b: Plane) -> bool {
    a.pos == b.pos && a.height == b.height
}

/// Holds for the planes other than `p` that are in `p`'s cell at `p`'s
/// height.
pub open spec fn meets(p: Plane) -> spec_fn(Plane) -> bool {
    |q: Plane| q.id != p.id && collides(p, q)
}

/// Holds for the planes that share cell and height with another of
/// `planes`.
pub open spec fn meets_one_of(planes: Seq<Plane>) -> spec_fn(Plane) -> bool {
    |p: Plane| first_index(planes, meets(p)) < planes.len()
}

/// The offset of a plane along a wall.
pub open spec fn offset_along(p: Plane, wall: DirectionGrid) -> usize {
    match wall {
        DirectionGrid::Up | DirectionGrid::Down => p.pos.x,
        DirectionGrid::Left | DirectionGrid::Right => p.pos.y,
    }
}

/// What an exit, or none, means for a plane with this destination.
pub open spec fn exit_verdict(reached: Option<u8>, destination: Destination) -> ExitCheck {
    match reached {
        None => ExitCheck::NoExit,
        Some(id) => if destination == Destination::Exit(id) {
            ExitCheck::Departs
        } else {
            ExitCheck::Wrong(id)
        },
    }
}

impl WorldView {
    /// The plane is on the row or column that belongs to a wall: row 0 for
    /// the upper wall and column 0 for the left one, the row numbered like
    /// the height for the lower wall and the column numbered like the width
    /// for the right one.
    pub open spec fn touches(self, p: Plane, wall: DirectionGrid) -> bool {
        match wall {
            DirectionGrid::Up => p.pos.y == 0,
            DirectionGrid::Down => p.pos.y == self.height,
            DirectionGrid::Left => p.pos.x == 0,
            DirectionGrid::Right => p.pos.x == self.width,
        }
    }

    /// The exit that the plane has reached on this wall.
    pub open spec fn exit_on(self, p: Plane, wall: DirectionGrid) -> Option<u8> {
        if self.touches(p, wall) {
            exit_at(self.exits, wall, offset_along(p, wall))
        } else {
            None
        }
    }

    /// The exit that the plane has reached. The walls are looked at in the
    /// order up, down, left, right, and the first one with an exit where the
    /// plane is counts.
    pub open spec fn exit_reached(self, p: Plane) -> Option<u8> {
        if self.exit_on(p, DirectionGrid::Up) is Some {
            self.exit_on(p, DirectionGrid::Up)
        } else if self.exit_on(p, DirectionGrid::Down) is Some {
            self.exit_on(p, DirectionGrid::Down)
        } else if self.exit_on(p, DirectionGrid::Left) is Some {
            self.exit_on(p, DirectionGrid::Left)
        } else {
            self.exit_on(p, DirectionGrid::Right)
        }
    }

    /// What the walls say of a plane. A plane in its grace period is at no
    /// exit.
    pub open spec fn exit_check(self, p: Plane) -> ExitCheck {
        if p.just_spawned {
            ExitCheck::NoExit
        } else {
            exit_verdict(self.exit_reached(p), p.destination)
        }
    }

    /// The first wall, in the order up, down, left, right, that the plane
    /// touches where no exit is. A plane in its grace period touches none.
    pub open spec fn wall_touched(self, p: Plane) -> Option<DirectionGrid> {
        if p.just_spawned {
            None
        } else if self.touches(p, DirectionGrid::Up) && self.exit_on(p, DirectionGrid::Up) is None {
            Some(DirectionGrid::Up)
        } else if self.touches(p, DirectionGrid::Down) && self.exit_on(p, DirectionGrid::Down)
            is None {
            Some(DirectionGrid::Down)
        } else if self.touches(p, DirectionGrid::Left) && self.exit_on(p, DirectionGrid::Left)
            is None {
            Some(DirectionGrid::Left)
        } else if self.touches(p, DirectionGrid::Right) && self.exit_on(p, DirectionGrid::Right)
            is None {
            Some(DirectionGrid::Right)
        } else {
            None
        }
    }

    /// The airport on whose tile the plane is: the way it faces and its id.
    pub open spec fn airport_under(self, p: Plane) -> Option<(DirectionGrid, u8)> {
        if self.contains(p.pos) {
            match self.tile(p.pos) {
                WorldTile::Airport(facing, id) => Some((facing, id)),
                _ => None,
            }
        } else {
            None
        }
    }

    /// What the ground says of a plane. Only a plane at height 0 that is
    /// past its grace period has come down. At an airport it must be bound
    /// for an airport and head the way the airport faces; then it lands if
    /// the airport is the one it is bound for.
    pub open spec fn landing(self, p: Plane) -> Landing {
        if p.just_spawned || p.height != 0 {
            Landing::Aloft
        } else {
            match self.airport_under(p) {
                None => Landing::Crash,
                Some((facing, id)) => match p.destination {
                    Destination::Exit(_) => Landing::Fault(LandingFault::ExitBound(p)),
                    Destination::Airport(bound_for) => if facing.heading()
                        != p.direction {
                        Landing::Fault(LandingFault::WrongDirection(p))
                    } else if bound_for == id {
                        Landing::Lands
                    } else {
                        Landing::WrongAirport(id)
                    },
                },
            }
        }
    }

    /// Holds for the planes that do not leave through an exit.
    pub open spec fn stays(self) -> spec_fn(Plane) -> bool {
        |p: Plane| !(self.exit_check(p) is Departs)
    }

    /// Holds for the planes that are at an exit they are not bound for.
    pub open spec fn strays(self) -> spec_fn(Plane) -> bool {
        |p: Plane| self.exit_check(p) is Wrong
    }

    /// Holds for the planes that do not land.
    pub open spec fn flies_on(self) -> spec_fn(Plane) -> bool {
        |p: Plane| !(self.landing(p) is Lands)
    }

    /// Holds for the planes that come down against the rules.
    pub open spec fn faults(self) -> spec_fn(Plane) -> bool {
        |p: Plane| self.landing(p) is Fault
    }

    /// Holds for the planes that come down in the wrong place.
    pub open spec fn lands_badly(self) -> spec_fn(Plane) -> bool {
        |p: Plane| self.landing(p) is WrongAirport || self.landing(p) is Crash
    }

    /// Holds for the planes that touch a wall where no exit is.
    pub open spec fn hits_wall(self) -> spec_fn(Plane) -> bool {
        |p: Plane| self.wall_touched(p) is Some
    }

    /// The world after its planes have been advanced.
    pub open spec fn after_advance(self) -> WorldView {
        WorldView { planes: advanced(self.planes), ..self }
    }

    /// The first plane whose fuel runs out on this tick, as it is after
    /// the tick.
    pub open spec fn no_fuel(self) -> Option<Plane> {
        let k = first_index(self.planes, fuel_runs_out());
        if k < self.planes.len() {
            Some(self.planes[k].ticked())
        } else {
            None
        }
    }

    /// The world after the exits have been looked at: without the planes
    /// that left through their exits. The planes are looked at in order, up
    /// to the first one that is at an exit it is not bound for; that plane
    /// and the planes behind it are as they were.
    pub open spec fn after_exits(self) -> WorldView {
        WorldView {
            planes: thinned_front(
                self.planes,
                first_index(self.planes, self.strays()),
                self.stays(),
            ),
            ..self
        }
    }

    /// The first plane that is at an exit it is not bound for, and the id
    /// of that exit.
    pub open spec fn wrong_exit(self) -> Option<(Plane, u8)> {
        let k = first_index(self.planes, self.strays());
        if k < self.planes.len() {
            Some((self.planes[k], self.exit_check(self.planes[k])->Wrong_0))
        } else {
            None
        }
    }

    /// The first plane that comes down against the rules, with what it
    /// broke.
    pub open spec fn landing_fault(self) -> Option<LandingFault> {
        let k = first_index(self.planes, self.faults());
        if k < self.planes.len() {
            Some(self.landing(self.planes[k])->Fault_0)
        } else {
            None
        }
    }

    /// The world without the planes that land at their airports.
    pub open spec fn after_landings(self) -> WorldView {
        WorldView { planes: self.planes.filter(self.flies_on()), ..self }
    }

    /// The first plane that comes down in the wrong place: with the id of
    /// the airport where that is one, with no id where it is open ground.
    pub open spec fn bad_landing(self) -> Option<(Plane, Option<u8>)> {
        let k = first_index(self.planes, self.lands_badly());
        if k < self.planes.len() {
            Some(
                (
                    self.planes[k],
                    match self.landing(self.planes[k]) {
                        Landing::WrongAirport(id) => Some(id),
                        _ => None,
                    },
                ),
            )
        } else {
            None
        }
    }

    /// The first plane that shares cell and height with another one, and the
    /// first plane that it shares them with.
    pub open spec fn collision(self) -> Option<(Plane, Plane)> {
        let k = first_index(self.planes, meets_one_of(self.planes));
        if k < self.planes.len() {
            Some((self.planes[k], self.planes[first_index(self.planes, meets(self.planes[k]))]))
        } else {
            None
        }
    }

    /// The first plane that touches a wall where no exit is, with the wall
    /// and the plane's offset along it.
    pub open spec fn wall_hit(self) -> Option<(Plane, DirectionGrid, usize)> {
        let k = first_index(self.planes, self.hits_wall());
        if k < self.planes.len() {
            let wall = self.wall_touched(self.planes[k])->0;
            Some((self.planes[k], wall, offset_along(self.planes[k], wall)))
        } else {
            None
        }
    }

    /// The world at the moment of a tick at which the landings are judged:
    /// the planes have been advanced and those at their exits have left.
    pub open spec fn at_landing(self) -> WorldView {
        self.after_advance().after_exits()
    }

    /// The landing against the rules that this tick runs into, if any. A
    /// tick that ends before the landings are judged, over fuel or a wrong
    /// exit, runs into none.
    pub open spec fn tick_fault(self) -> Option<LandingFault> {
        if self.no_fuel() is Some || self.after_advance().wrong_exit() is Some {
            None
        } else {
            self.at_landing().landing_fault()
        }
    }

    /// The world after one tick that runs into no landing against the
    /// rules.
    pub open spec fn after_tick(self) -> WorldView {
        if self.no_fuel() is Some {
            self.after_advance()
        } else if self.after_advance().wrong_exit() is Some {
            self.at_landing()
        } else {
            self.at_landing().after_landings()
        }
    }

    /// The result of one tick that runs into no landing against the rules.
    /// The checks are made in this order, and the first that finds
    /// something decides: fuel, exits, landings, collisions, walls.
    pub open spec fn tick_state(self) -> State {
        if let Some(p) = self.no_fuel() {
            State::PlaneNoFuel(p)
        } else if let Some((p, id)) = self.after_advance().wrong_exit() {
            State::WrongExit(p, id)
        } else if let Some((p, at)) = self.at_landing().bad_landing() {
            match at {
                Some(id) => State::WrongAirport(p, id),
                None => State::PlaneCrash(p),
            }
        } else if let Some((p, q)) = self.after_tick().collision() {
            State::PlaneCollision(p, q)
        } else if let Some((p, wall, offset)) = self.after_tick().wall_hit() {
            State::PlaneTouchesWall(p, wall, offset)
        } else {
            State::Ongoing
        }
    }
}

/// Advancing planes keeps their ids, and so keeps them unique.
pub proof fn lemma_advanced_distinct(planes: Seq<Plane>)
    requires
        distinct_keys(planes),
    ensures
        distinct_keys(advanced(planes)),
        advanced(planes).len() == planes.len(),
{
    let after = advanced(planes);
    assert forall|i: int, j: int| 0 <= i < j < after.len() implies (#[trigger] after[i]).id != (
    #[trigger] after[j]).id by {
        assert(planes[i].id != planes[j].id);
    }
}

/// A tick changes nothing but the planes: the grid, its tiles and its exits
/// are the same at the moment the landings are judged and after the tick.
pub proof fn lemma_tick_keeps_grid(w: WorldView)
    ensures
        w.after_tick() == (WorldView { planes: w.after_tick().planes, ..w }),
        w.at_landing() == (WorldView { planes: w.at_landing().planes, ..w }),
{
}

/// A tick brings no plane into the world: every plane after the tick is a
/// plane from before it, advanced by one tick or, behind a plane whose fuel
/// ran out, as it was.
pub proof fn lemma_tick_keeps_planes(w: WorldView, p: Plane)
    requires
        w.after_tick().planes.contains(p),
    ensures
        exists|i: int|
            0 <= i < w.planes.len() && (p == (#[trigger] w.planes[i]).ticked() || p
                == w.planes[i]),
{
    let a = w.after_advance();
    let b = a.after_exits();
    let c = b.after_landings();
    assert(a.planes.len() == w.planes.len());
    lemma_first_index(a.planes, a.strays());
    lemma_thinned_front(a.planes, first_index(a.planes, a.strays()), a.stays());
    lemma_filter_kept(b.planes, b.flies_on());
    if w.no_fuel() is None && a.wrong_exit() is None {
        let k = choose|k: int| 0 <= k < c.planes.len() && c.planes[k] == p;
        assert(b.planes[origins(b.planes, b.flies_on())[k]] == p);
    }
    if w.no_fuel() is None {
        let j = choose|j: int| 0 <= j < b.planes.len() && b.planes[j] == p;
        assert(a.planes.contains(b.planes[j]));
    }
    let i = choose|i: int| 0 <= i < a.planes.len() && a.planes[i] == p;
    assert(p == w.planes[i].ticked() || p == w.planes[i]);
}

/// A world in which no plane is on the ground, as after any number of
/// spawns, runs into no landing against the rules on its next tick.
pub proof fn lemma_airborne_no_fault(w: WorldView)
    requires
        forall|i: int| 0 <= i < w.planes.len() ==> (#[trigger] w.planes[i]).height != 0,
    ensures
        w.tick_fault() is None,
{
    let a = w.after_advance();
    let b = a.after_exits();
    lemma_first_index(a.planes, a.strays());
    lemma_thinned_front(a.planes, first_index(a.planes, a.strays()), a.stays());
    lemma_first_index(b.planes, b.faults());
    let k = first_index(b.planes, b.faults());
    if k < b.planes.len() {
        assert(a.planes.contains(b.planes[k]));
        let j = choose|j: int| 0 <= j < a.planes.len() && a.planes[j] == b.planes[k];
        assert(a.planes[j].height == w.planes[j].height);
        assert(!b.faults()(b.planes[k]));
    }
}

/// Fuel is judged first: a tick on which the fuel of a plane runs out ends
/// over the first such plane, whatever else is the matter. No other check
/// is made, so no plane leaves the world, and the tick runs into no landing
/// against the rules.
pub proof fn lemma_fuel_ends_tick(w: WorldView, i: int)
    requires
        0 <= i < w.planes.len(),
        w.planes[i].ticked().no_fuel(),
    ensures
        w.tick_state() is PlaneNoFuel,
        w.tick_state()->PlaneNoFuel_0.no_fuel(),
        (forall|j: int| 0 <= j < i ==> !(#[trigger] w.planes[j]).ticked().no_fuel())
            ==> w.tick_state() == State::PlaneNoFuel(w.planes[i].ticked()),
        w.tick_fault() is None,
        w.after_tick().planes.len() == w.planes.len(),
        forall|j: int|
            0 <= j < w.planes.len() ==> (#[trigger] w.after_tick().planes[j]).id
                == w.planes[j].id,
{
    lemma_first_index(w.planes, fuel_runs_out());
    let k = first_index(w.planes, fuel_runs_out());
    if k >= w.planes.len() {
        assert(!fuel_runs_out()(w.planes[i]));
    }
    if forall|j: int| 0 <= j < i ==> !(#[trigger] w.planes[j]).ticked().no_fuel() {
        assert forall|j: int| 0 <= j < i implies !fuel_runs_out()(#[trigger] w.planes[j]) by {
            assert(!w.planes[j].ticked().no_fuel());
        }
        lemma_first_index_is(w.planes, fuel_runs_out(), i);
    }
}

/// A plane in its grace period is judged by no exit, by no ground and by no
/// wall.
pub proof fn lemma_grace_shields(w: WorldView, p: Plane)
    requires
        p.just_spawned,
    ensures
        w.exit_check(p) is NoExit,
        w.landing(p) is Aloft,
        w.wall_touched(p) is None,
{
}

/// A plane that was due to move and had no cell ahead, above row 0 or left
/// of column 0, stays where it is, on row 0 or on column 0. Past its grace
/// period it is judged there: it is at an exit, or it touches a wall where
/// no exit is.
pub proof fn lemma_stuck_plane_is_judged(w: WorldView, p: Plane)
    requires
        p.tick_failure() is Some,
        p.tick_failure()->0 is BadPosition,
        p.ahead_x() < 0 || p.ahead_y() < 0,
    ensures
        p.ticked().pos == p.pos,
        w.touches(p.ticked(), DirectionGrid::Up) || w.touches(p.ticked(), DirectionGrid::Left),
        !p.ticked().just_spawned ==> !(w.exit_check(p.ticked()) is NoExit) || w.wall_touched(
            p.ticked(),
        ) is Some,
{
}

/// No failed tick of a plane passes unnoticed. A tick on which the fuel of a
/// plane runs out does not go on. A tick that goes on has taken every plane
/// out of the world that is past its grace period and had no cell ahead,
/// above row 0 or left of column 0: such a plane was at its exit, or it
/// landed where it stood.
pub proof fn lemma_no_failure_is_swallowed(w: WorldView, i: int)
    requires
        w.inv(),
        w.tick_fault() is None,
        w.tick_state() is Ongoing,
        0 <= i < w.planes.len(),
        w.planes[i].tick_failure() is Some,
    ensures
        w.planes[i].tick_failure()->0 is BadPosition,
        (w.planes[i].ahead_x() < 0 || w.planes[i].ahead_y() < 0)
            && !w.planes[i].ticked().just_spawned ==> {
            &&& !w.after_tick().planes.contains(w.planes[i].ticked())
            &&& w.after_advance().exit_check(w.planes[i].ticked()) is Departs
                || w.at_landing().landing(w.planes[i].ticked()) is Lands
        },
{
    let after = w.after_tick();
    let t = w.planes[i].ticked();
    lemma_first_index(w.planes, fuel_runs_out());
    if w.planes[i].tick_failure()->0 is NoFuel {
        assert(fuel_runs_out()(w.planes[i]));
    }
    if (w.planes[i].ahead_x() < 0 || w.planes[i].ahead_y() < 0) && !t.just_spawned {
        lemma_stuck_plane_is_judged(w, w.planes[i]);
        let a = w.after_advance();
        assert(a.planes[i] == t);
        lemma_first_index(a.planes, a.strays());
        assert(!a.strays()(a.planes[i]));
        if after.planes.contains(t) {
            let m = choose|m: int| 0 <= m < after.planes.len() && after.planes[m] == t;
            lemma_ongoing(w, m);
        }
        if !(a.exit_check(t) is Departs) {
            // it stays through the exits and the landings, and then touches a wall
            lemma_thinned_front(a.planes, a.planes.len() as int, a.stays());
            let b = a.after_exits();
            lemma_filter_kept(a.planes, a.stays());
            assert(a.stays()(a.planes[i]));
            assert(origins(a.planes, a.stays()).contains(i));
            let j = choose|j: int|
                0 <= j < origins(a.planes, a.stays()).len() && origins(a.planes, a.stays())[j]
                    == i;
            assert(b.planes[j] == t);
            lemma_first_index(b.planes, b.faults());
            lemma_first_index(b.planes, b.lands_badly());
            assert(!b.faults()(b.planes[j]));
            assert(!b.lands_badly()(b.planes[j]));
            lemma_filter_kept(b.planes, b.flies_on());
            assert(w.at_landing() == b);
            assert(b.landing(t) == after.landing(t));
            if b.landing(t) is Lands {
            } else {
                assert(b.flies_on()(b.planes[j]));
                assert(origins(b.planes, b.flies_on()).contains(j));
                let m = choose|m: int|
                    0 <= m < origins(b.planes, b.flies_on()).len() && origins(
                        b.planes,
                        b.flies_on(),
                    )[m] == j;
                assert(after.planes[m] == t);
                lemma_ongoing(w, m);
            }
        }
    }
}

/// A tick that goes on has used up no plane's fuel. It leaves no plane,
/// past its grace period, at an exit or on the row or column of a wall, none
/// on the ground, and no two planes in one cell at one height. The next move
/// of such a plane cannot take it above row 0 or left of column 0.
pub proof fn lemma_ongoing(w: WorldView, i: int)
    requires
        w.inv(),
        w.tick_fault() is None,
        w.tick_state() is Ongoing,
        0 <= i < w.after_tick().planes.len(),
    ensures
        ({
            let after = w.after_tick();
            let p = after.planes[i];
            &&& !p.no_fuel()
            &&& exists|k: int| 0 <= k < w.planes.len() && p == (#[trigger] w.planes[k]).ticked()
            &&& !p.just_spawned ==> {
                &&& after.exit_reached(p) is None
                &&& after.wall_touched(p) is None
                &&& !after.touches(p, DirectionGrid::Up)
                &&& !after.touches(p, DirectionGrid::Down)
                &&& !after.touches(p, DirectionGrid::Left)
                &&& !after.touches(p, DirectionGrid::Right)
                &&& p.height != 0
                &&& 0 <= p.ahead_x()
                &&& 0 <= p.ahead_y()
            }
            &&& forall|j: int|
                0 <= j < after.planes.len() && j != i ==> !collides(p, #[trigger] after.planes[j])
        }),
{
    let a = w.after_advance();
    let b = a.after_exits();
    let c = b.after_landings();
    assert(w.after_tick() == c);
    let p = c.planes[i];
    lemma_advanced_distinct(w.planes);
    lemma_first_index(w.planes, fuel_runs_out());
    lemma_first_index(a.planes, a.strays());
    lemma_thinned_front(a.planes, a.planes.len() as int, a.stays());
    assert(b.planes == a.planes.filter(a.stays()));
    lemma_filter_distinct(a.planes, a.stays());
    lemma_filter_distinct(b.planes, b.flies_on());
    lemma_filter_kept(a.planes, a.stays());
    lemma_filter_kept(b.planes, b.flies_on());
    lemma_first_index(b.planes, b.faults());
    lemma_first_index(b.planes, b.lands_badly());
    lemma_first_index(c.planes, c.hits_wall());
    lemma_first_index(c.planes, meets_one_of(c.planes));
    let j = origins(b.planes, b.flies_on())[i];
    let k = origins(a.planes, a.stays())[j];
    assert(b.planes[j] == p);
    assert(a.planes[k] == p);
    assert(p == w.planes[k].ticked());
    assert(!fuel_runs_out()(w.planes[k]));
    assert(a.stays()(p));
    assert(!a.strays()(a.planes[k]));
    assert(b.flies_on()(p));
    assert(!b.faults()(b.planes[j]));
    assert(!b.lands_badly()(b.planes[j]));
    assert(!c.hits_wall()(c.planes[i]));
    assert(!meets_one_of(c.planes)(c.planes[i]));
    lemma_first_index(c.planes, meets(p));
    assert forall|m: int| 0 <= m < c.planes.len() && m != i implies !collides(
        p,
        #[trigger] c.planes[m],
    ) by {
        assert(!meets(p)(c.planes[m]));
        if m < i {
            assert(c.planes[m].id != c.planes[i].id);
        } else {
            assert(c.planes[i].id != c.planes[m].id);
        }
    }
}

impl World {
    /// Advances the planes by one tick each, in order, and stops at the
    /// first one whose fuel runs out. A plane that was due to move and had
    /// no cell ahead stays where it is, and the advance goes on.
    fn advance_planes(&mut self) -> (r: Option<Plane>)
        requires
            old(self)@.inv(),
        ensures
            final(self)@ == old(self)@.after_advance(),
            final(self)@.inv(),
            r == old(self)@.no_fuel(),
    {
        let ghost before = self.planes@;
        let mut i: usize = 0;
        while i < self.planes.len()
            invariant
                old(self)@.inv(),
                i <= self.planes.len(),
                self.x == old(self).x,
                self.y == old(self).y,
                self.tiles == old(self).tiles,
                self.exits == old(self).exits,
                self.plane_counter == old(self).plane_counter,
                before == old(self).planes@,
                self.planes@.len() == before.len(),
                forall|j: int| 0 <= j < i ==> self.planes@[j] == (#[trigger] before[j]).ticked(),
                forall|j: int| i <= j < before.len() ==> self.planes@[j] == #[trigger] before[j],
                forall|j: int| 0 <= j < i ==> !fuel_runs_out()(#[trigger] before[j]),
            decreases self.planes.len() - i,
        {
            let mut plane = self.planes[i];
            let r = plane.tick();
            self.planes[i] = plane;
            match r {
                Err(TickFailure::NoFuel) => {
                    proof {
                        assert(fuel_runs_out()(before[i as int]));
                        lemma_first_index_is(before, fuel_runs_out(), i as int);
                        assert(self.planes@ =~= advanced(before));
                        lemma_advanced_distinct(before);
                    }
                    return Some(plane);
                },
                Ok(()) | Err(TickFailure::BadPosition(_)) => {},
            }
            i += 1;
        }
        proof {
            lemma_first_index_is(before, fuel_runs_out(), before.len() as int);
            assert(self.planes@ =~= advanced(before));
            lemma_advanced_distinct(before);
        }
        None
    }

    /// Judges a plane at `plane_pos` along the wall `wall_dir` by the exit
    /// that is there, if any.
    fn plane_exit_check_inner(
        &self,
        plane: &Plane,
        wall_dir: DirectionGrid,
        plane_pos: usize,
    ) -> (r: ExitCheck)
        ensures
            r == exit_verdict(exit_at(self@.exits, wall_dir, plane_pos), plane.destination),
    {
        match self.exit_on_wall(wall_dir, plane_pos) {
            None => ExitCheck::NoExit,
            Some(eid) => {
                let bound_here = match plane.destination {
                    Destination::Exit(dest_eid) => dest_eid == eid,
                    Destination::Airport(_) => false,
                };
                if bound_here {
                    ExitCheck::Departs
                } else {
                    ExitCheck::Wrong(eid)
                }
            },
        }
    }

    /// Judges a plane by the walls it touches.
    fn plane_exit_check(&self, plane: &Plane) -> (r: ExitCheck)
        ensures
            r == self@.exit_check(*plane),
    {
        if plane.just_spawned {
            return ExitCheck::NoExit;
        }
        if plane.pos.y == 0 {
            let c = self.plane_exit_check_inner(plane, DirectionGrid::Up, plane.pos.x);
            if c != ExitCheck::NoExit {
                return c;
            }
        }
        if plane.pos.y == self.y {
            let c = self.plane_exit_check_inner(plane, DirectionGrid::Down, plane.pos.x);
            if c != ExitCheck::NoExit {
                return c;
            }
        }
        if plane.pos.x == 0 {
            let c = self.plane_exit_check_inner(plane, DirectionGrid::Left, plane.pos.y);
            if c != ExitCheck::NoExit {
                return c;
            }
        }
        if plane.pos.x == self.x {
            let c = self.plane_exit_check_inner(plane, DirectionGrid::Right, plane.pos.y);
            if c != ExitCheck::NoExit {
                return c;
            }
        }
        ExitCheck::NoExit
    }

    /// Looks at the planes in order and takes those that are at their exits
    /// out of the world. Stops at the first plane that is at another exit and
    /// reports it, with that exit's id; the planes behind it stay as they
    /// are.
    fn planes_take_exits(&mut self) -> (r: Option<(Plane, u8)>)
        requires
            old(self)@.inv(),
        ensures
            final(self)@ == old(self)@.after_exits(),
            final(self)@.inv(),
            r == old(self)@.wrong_exit(),
    {
        let ghost view = self@;
        let mut kept: Vec<Plane> = Vec::new();
        let mut wrong: Option<(Plane, u8)> = None;
        let mut i: usize = 0;
        assert(self.planes@.take(0).filter(view.stays()) =~= Seq::empty()) by {
            reveal(Seq::filter);
        }
        while i < self.planes.len() && wrong.is_none()
            invariant
                i <= self.planes.len(),
                view == self@,
                wrong is None ==> kept@ == self.planes@.take(i as int).filter(view.stays()),
                wrong is None ==> forall|j: int|
                    0 <= j < i ==> !view.strays()(#[trigger] self.planes@[j]),
                wrong is Some ==> {
                    &&& 0 < i
                    &&& is_first_index(self.planes@, view.strays(), i - 1)
                    &&& wrong == Some(
                        (self.planes@[i - 1], view.exit_check(self.planes@[i - 1])->Wrong_0),
                    )
                    &&& kept@ == self.planes@.take(i - 1).filter(view.stays()).push(
                        self.planes@[i - 1],
                    )
                },
            decreases self.planes.len() - i,
        {
            proof {
                lemma_filter_next(self.planes@, view.stays(), i as int);
            }
            let plane = self.planes[i];
            match self.plane_exit_check(&plane) {
                ExitCheck::Departs => {},
                ExitCheck::NoExit => {
                    kept.push(plane);
                },
                ExitCheck::Wrong(eid) => {
                    kept.push(plane);
                    wrong = Some((plane, eid));
                },
            }
            i += 1;
        }
        let ghost stop: int = if wrong is Some {
            i - 1
        } else {
            i as int
        };
        proof {
            if wrong is None {
                lemma_first_index_is(self.planes@, view.strays(), self.planes@.len() as int);
            } else {
                lemma_first_index_is(self.planes@, view.strays(), stop);
            }
            assert(kept@ =~= self.planes@.take(stop).filter(view.stays())
                + self.planes@.subrange(stop, i as int));
        }
        while i < self.planes.len()
            invariant
                0 <= stop <= i <= self.planes.len(),
                view == self@,
                kept@ == self.planes@.take(stop).filter(view.stays()) + self.planes@.subrange(
                    stop,
                    i as int,
                ),
            decreases self.planes.len() - i,
        {
            kept.push(self.planes[i]);
            i += 1;
            assert(kept@ =~= self.planes@.take(stop).filter(view.stays())
                + self.planes@.subrange(stop, i as int));
        }
        proof {
            assert(self.planes@.subrange(stop, i as int) =~= self.planes@.skip(stop));
            lemma_thinned_front_distinct(self.planes@, stop, view.stays());
        }
        self.planes = kept;
        assert(self@.tiles =~~= view.tiles);
        wrong
    }

    /// Judges a plane by the ground under it.
    fn plane_landing_check(&self, plane: &Plane) -> (r: Landing)
        requires
            self@.inv(),
        ensures
            r == self@.landing(*plane),
    {
        if plane.just_spawned || plane.height != 0 {
            return Landing::Aloft;
        }
        match self.tile(plane.pos) {
            Some(WorldTile::Airport(airdir, actual_aid)) => match plane.destination {
                Destination::Airport(dest_aid) => {
                    if DirectionCardinal::from(airdir) != plane.direction {
                        Landing::Fault(LandingFault::WrongDirection(*plane))
                    } else if dest_aid == actual_aid {
                        Landing::Lands
                    } else {
                        Landing::WrongAirport(actual_aid)
                    }
                },
                Destination::Exit(_) => Landing::Fault(LandingFault::ExitBound(*plane)),
            },
            _ => Landing::Crash,
        }
    }

    /// Looks for the first plane that comes down against the rules.
    fn landing_fault(&self) -> (r: Option<LandingFault>)
        requires
            self@.inv(),
        ensures
            r == self@.landing_fault(),
    {
        let mut i: usize = 0;
        while i < self.planes.len()
            invariant
                self@.inv(),
                i <= self.planes.len(),
                forall|j: int| 0 <= j < i ==> !self@.faults()(#[trigger] self.planes@[j]),
            decreases self.planes.len() - i,
        {
            let plane = self.planes[i];
            match self.plane_landing_check(&plane) {
                Landing::Fault(fault) => {
                    proof {
                        lemma_first_index_is(self.planes@, self@.faults(), i as int);
                    }
                    return Some(fault);
                },
                _ => {},
            }
            i += 1;
        }
        proof {
            lemma_first_index_is(self.planes@, self@.faults(), self.planes@.len() as int);
        }
        None
    }

    /// Takes the planes that came down at their airports out of the world,
    /// and reports the first plane that came down in the wrong place: with
    /// the id of the airport where that is one, with no id where it is open
    /// ground.
    fn planes_land(&mut self) -> (r: Option<(Plane, Option<u8>)>)
        requires
            old(self)@.inv(),
            old(self)@.landing_fault() is None,
        ensures
            final(self)@ == old(self)@.after_landings(),
            final(self)@.inv(),
            r == old(self)@.bad_landing(),
    {
        let ghost view = self@;
        let mut kept: Vec<Plane> = Vec::new();
        let mut bad: Option<(Plane, Option<u8>)> = None;
        let ghost mut at: int = 0;
        let mut i: usize = 0;
        assert(self.planes@.take(0).filter(view.flies_on()) =~= Seq::empty()) by {
            reveal(Seq::filter);
        }
        while i < self.planes.len()
            invariant
                i <= self.planes.len(),
                view == self@,
                view.inv(),
                kept@ == self.planes@.take(i as int).filter(view.flies_on()),
                bad is None ==> forall|j: int|
                    0 <= j < i ==> !view.lands_badly()(#[trigger] self.planes@[j]),
                bad is Some ==> {
                    &&& 0 <= at < i
                    &&& is_first_index(self.planes@, view.lands_badly(), at)
                    &&& bad == Some(
                        (
                            self.planes@[at],
                            match view.landing(self.planes@[at]) {
                                Landing::WrongAirport(id) => Some(id),
                                _ => None,
                            },
                        ),
                    )
                },
            decreases self.planes.len() - i,
        {
            proof {
                lemma_filter_next(self.planes@, view.flies_on(), i as int);
            }
            let plane = self.planes[i];
            match self.plane_landing_check(&plane) {
                Landing::Lands => {},
                Landing::Aloft | Landing::Fault(_) => {
                    kept.push(plane);
                },
                Landing::WrongAirport(aid) => {
                    kept.push(plane);
                    if bad.is_none() {
                        bad = Some((plane, Some(aid)));
                        proof {
                            at = i as int;
                        }
                    }
                },
                Landing::Crash => {
                    kept.push(plane);
                    if bad.is_none() {
                        bad = Some((plane, None));
                        proof {
                            at = i as int;
                        }
                    }
                },
            }
            i += 1;
        }
        proof {
            assert(self.planes@.take(i as int) =~= self.planes@);
            if bad is Some {
                lemma_first_index_is(self.planes@, view.lands_badly(), at);
            } else {
                lemma_first_index_is(self.planes@, view.lands_badly(), self.planes@.len() as int);
            }
            lemma_filter_distinct(self.planes@, view.flies_on());
        }
        self.planes = kept;
        assert(self@.tiles =~~= view.tiles);
        bad
    }

    /// Looks for the first plane that shares cell and height with another
    /// one, and for the first plane that it shares them with.
    fn collision_check(&self) -> (r: Option<(Plane, Plane)>)
        ensures
            r == self@.collision(),
    {
        let ghost planes = self.planes@;
        let mut i: usize = 0;
        while i < self.planes.len()
            invariant
                planes == self.planes@,
                planes == self@.planes,
                i <= self.planes.len(),
                forall|k: int| 0 <= k < i ==> !meets_one_of(planes)(#[trigger] planes[k]),
            decreases self.planes.len() - i,
        {
            let p = self.planes[i];
            let mut j: usize = 0;
            while j < self.planes.len()
                invariant
                    planes == self.planes@,
                    planes == self@.planes,
                    i < self.planes.len(),
                    p == planes[i as int],
                    j <= self.planes.len(),
                    forall|k: int| 0 <= k < i ==> !meets_one_of(planes)(#[trigger] planes[k]),
                    forall|m: int| 0 <= m < j ==> !meets(p)(#[trigger] planes[m]),
                decreases self.planes.len() - j,
            {
                let q = self.planes[j];
                if q.id != p.id && q.pos == p.pos && q.height == p.height {
                    proof {
                        lemma_first_index_is(planes, meets(p), j as int);
                        assert(meets_one_of(planes)(planes[i as int]));
                        lemma_first_index_is(planes, meets_one_of(planes), i as int);
                    }
                    return Some((p, q));
                }
                j += 1;
            }
            proof {
                lemma_first_index_is(planes, meets(p), planes.len() as int);
            }
            i += 1;
        }
        proof {
            lemma_first_index_is(planes, meets_one_of(planes), planes.len() as int);
        }
        None
    }

    /// Judges a plane by the walls it touches where no exit is.
    fn plane_wall_check(&self, plane: &Plane) -> (r: Option<DirectionGrid>)
        ensures
            r == self@.wall_touched(*plane),
    {
        if plane.just_spawned {
            return None;
        }
        if plane.pos.y == 0 && self.exit_on_wall(DirectionGrid::Up, plane.pos.x).is_none() {
            return Some(DirectionGrid::Up);
        }
        if plane.pos.y == self.y && self.exit_on_wall(DirectionGrid::Down, plane.pos.x).is_none() {
            return Some(DirectionGrid::Down);
        }
        if plane.pos.x == 0 && self.exit_on_wall(DirectionGrid::Left, plane.pos.y).is_none() {
            return Some(DirectionGrid::Left);
        }
        if plane.pos.x == self.x && self.exit_on_wall(DirectionGrid::Right, plane.pos.y).is_none() {
            return Some(DirectionGrid::Right);
        }
        None
    }

    /// Looks for the first plane that touches a wall where no exit is.
    fn wall_collision_check(&self) -> (r: Option<(Plane, DirectionGrid, usize)>)
        ensures
            r == self@.wall_hit(),
    {
        let mut i: usize = 0;
        while i < self.planes.len()
            invariant
                i <= self.planes.len(),
                forall|j: int| 0 <= j < i ==> !self@.hits_wall()(#[trigger] self.planes@[j]),
            decreases self.planes.len() - i,
        {
            let plane = self.planes[i];
            match self.plane_wall_check(&plane) {
                Some(wall) => {
                    proof {
                        lemma_first_index_is(self.planes@, self@.hits_wall(), i as int);
                    }
                    let offset = match wall {
                        DirectionGrid::Up | DirectionGrid::Down => plane.pos.x,
                        DirectionGrid::Left | DirectionGrid::Right => plane.pos.y,
                    };
                    return Some((plane, wall, offset));
                },
                None => {},
            }
            i += 1;
        }
        proof {
            lemma_first_index_is(self.planes@, self@.hits_wall(), self.planes@.len() as int);
        }
        None
    }

    /// Advances the world by one tick and says how the game stands. The
    /// planes are advanced in order, and the first plane whose fuel runs out
    /// ends the game. Then the world looks, in this order, for planes at
    /// exits, planes on the ground, planes that met and planes at a wall, and
    /// the first finding decides. A plane that had no cell ahead to move to
    /// is judged where it stands.
    ///
    /// A plane that has come down at an airport against the rules stops the
    /// tick where the landings are judged: the fault is handed back and the
    /// world stays as it is at that moment.
    pub fn try_tick_planes(&mut self) -> (r: Result<State, LandingFault>)
        requires
            old(self)@.inv(),
        ensures
            final(self)@.inv(),
            match r {
                Ok(state) => {
                    &&& old(self)@.tick_fault() is None
                    &&& final(self)@ == old(self)@.after_tick()
                    &&& state == old(self)@.tick_state()
                },
                Err(fault) => {
                    &&& old(self)@.tick_fault() == Some(fault)
                    &&& final(self)@ == old(self)@.at_landing()
                },
            },
    {
        if let Some(plane) = self.advance_planes() {
            return Ok(State::PlaneNoFuel(plane));
        }
        if let Some((plane, exit_id)) = self.planes_take_exits() {
            return Ok(State::WrongExit(plane, exit_id));
        }
        if let Some(fault) = self.landing_fault() {
            return Err(fault);
        }
        if let Some((plane, id_of_wrong_airport)) = self.planes_land() {
            if let Some(airport_id) = id_of_wrong_airport {
                return Ok(State::WrongAirport(plane, airport_id));
            } else {
                return Ok(State::PlaneCrash(plane));
            }
        }
        if let Some((plane_a, plane_b)) = self.collision_check() {
            return Ok(State::PlaneCollision(plane_a, plane_b));
        }
        if let Some((plane, direction, wall_pos)) = self.wall_collision_check() {
            return Ok(State::PlaneTouchesWall(plane, direction, wall_pos));
        }
        Ok(State::Ongoing)
    }

    /// Advances the world by one tick and says how the game stands. The
    /// planes are advanced in order, and the first plane whose fuel runs out
    /// ends the game. Then the world looks, in this order, for planes at
    /// exits, planes on the ground, planes that met and planes at a wall, and
    /// the first finding decides. A plane that had no cell ahead to move to
    /// is judged where it stands.
    ///
    /// The tick must not run into a landing against the rules.
    pub fn tick_planes(&mut self) -> (state: State)
        requires
            old(self)@.inv(),
            old(self)@.tick_fault() is None,
        ensures
            final(self)@ == old(self)@.after_tick(),
            final(self)@.inv(),
            state == old(self)@.tick_state(),
    {
        match self.try_tick_planes() {
            Ok(state) => state,
            Err(_) => unreached(),
        }
    }
}

} // verus!
