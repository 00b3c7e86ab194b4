//! A single aircraft and its own step of flight.

use vstd::prelude::*;
use crate::error::Error;
use crate::text::{lower, upper, to_lower, to_upper};
use crate::world::{DirectionCardinal, PlaneKind, Pos};

verus! {

/// The height at which every plane starts.
pub const START_HEIGHT: u8 = 7;

/// The height at which a plane leaves the grid.
pub const EXIT_HEIGHT: u8 = 9;

/// Where a plane has to go.
#[derive(Copy, Clone, Debug, PartialEq, Eq, Structural)]
pub enum Destination {
    Exit(u8),
    Airport(u8),
}

/// Why a tick of a plane failed.
#[derive(Copy, Clone, Debug, PartialEq, Eq)]
pub enum TickFailure {
    /// The tick used up the fuel. The plane did not move.
    NoFuel,
    /// The plane was due to move and the cell ahead cannot be written down.
    /// The plane did not move. The error is `Error::PlaneNextPosBad` with the
    /// id of the plane.
    BadPosition(Error),
}

/// One aircraft.
#[derive(Copy, Clone, Debug, PartialEq, Eq, Structural)]
pub struct Plane {
    pub pos: Pos,
    pub height: u8,
    pub direction: DirectionCardinal,
    pub kind: PlaneKind,
    pub id: char,
    pub ticks: usize,
    pub destination: Destination,
    pub just_spawned: bool,
}

impl PlaneKind {
    /// The number of ticks after which a plane of this kind has no fuel
    /// left.
    pub open spec fn fuel_ticks(self) -> nat {
        match self {
            PlaneKind::Jet => 120,
            PlaneKind::Small => 50,
        }
    }

    /// A plane of this kind moves on every tick whose number is a multiple
    /// of this.
    pub open spec fn cadence(self) -> nat {
        match self {
            PlaneKind::Jet => 1,
            PlaneKind::Small => 2,
        }
    }

    /// The id letter as a plane of this kind carries it: upper case for a
    /// small plane, lower case for a jet.
    pub open spec fn fold_id(self, id: char) -> char {
        match self {
            PlaneKind::Small => upper(id),
            PlaneKind::Jet => lower(id),
        }
    }
}

impl Plane {
    /// A plane as it is at creation.
    pub open spec fn created(
        pos: Pos,
        direction: DirectionCardinal,
        kind: PlaneKind,
        id: char,
        destination: Destination,
    ) -> Plane {
        Plane {
            pos,
            height: START_HEIGHT,
            direction,
            kind,
            id: kind.fold_id(id),
            ticks: 0,
            destination,
            just_spawned: true,
        }
    }

    /// The plane has used up its fuel.
    pub open spec fn no_fuel(self) -> bool {
        self.ticks >= self.kind.fuel_ticks()
    }

    /// The plane moves on a tick with its current tick count.
    pub open spec fn on_cadence(self) -> bool {
        self.ticks as nat % self.kind.cadence() == 0
    }

    /// The column one step ahead.
    pub open spec fn ahead_x(self) -> int {
        self.pos.x + self.direction.step().0
    }

    /// The row one step ahead.
    pub open spec fn ahead_y(self) -> int {
        self.pos.y + self.direction.step().1
    }

    /// The cell one step ahead can be written down: neither coordinate is
    /// negative or beyond the largest number a coordinate can hold.
    pub open spec fn can_move(self) -> bool {
        &&& 0 <= self.ahead_x() <= usize::MAX
        &&& 0 <= self.ahead_y() <= usize::MAX
    }

    /// The plane with its next tick counted and nothing else changed.
    pub open spec fn counted(self) -> Plane {
        Plane { ticks: self.next_ticks(), ..self }
    }

    /// Why the next tick of the plane fails, if it does. Fuel is looked at
    /// first: a tick that uses up the fuel fails for that, and no move is
    /// tried. Otherwise the tick fails if the plane is due to move and the
    /// cell ahead cannot be written down, as it is with a cell above row 0 or
    /// left of column 0.
    pub open spec fn tick_failure(self) -> Option<TickFailure> {
        if self.counted().no_fuel() {
            Some(TickFailure::NoFuel)
        } else if self.counted().on_cadence() && !self.can_move() {
            Some(TickFailure::BadPosition(Error::PlaneNextPosBad(self.id)))
        } else {
            None
        }
    }

    /// The plane one cell further along its heading, or the plane itself
    /// where that cell cannot be written down.
    pub open spec fn moved(self) -> Plane {
        if self.can_move() {
            Plane { pos: Pos { x: self.ahead_x() as usize, y: self.ahead_y() as usize }, ..self }
        } else {
            self
        }
    }

    /// The tick count after one more tick. It stops at the largest number
    /// the counter can hold.
    pub open spec fn next_ticks(self) -> usize {
        if self.ticks < usize::MAX {
            (self.ticks + 1) as usize
        } else {
            self.ticks
        }
    }

    /// The plane after one tick, failed or not: the count goes up; unless
    /// that uses up the fuel, the plane moves if the new count is on its
    /// cadence and the cell ahead can be written down, and the second tick
    /// ends its grace period.
    pub open spec fn ticked(self) -> Plane {
        let counted = self.counted();
        if counted.no_fuel() {
            counted
        } else {
            let flown = if counted.on_cadence() {
                counted.moved()
            } else {
                counted
            };
            Plane {
                just_spawned: if counted.ticks == 2 {
                    false
                } else {
                    flown.just_spawned
                },
                ..flown
            }
        }
    }

    /// The plane after `n` ticks.
    pub open spec fn ticked_times(self, n: nat) -> Plane
        decreases n,
    {
        if n == 0 {
            self
        } else {
            self.ticked_times((n - 1) as nat).ticked()
        }
    }

    /// Every tick counts: after `n` ticks the counter stands `n` higher,
    /// whether or not the plane moved on them, and the plane is still of its
    /// kind and keeps its id.
    pub proof fn lemma_ticks_count(self, n: nat)
        requires
            self.ticks + n <= usize::MAX,
        ensures
            self.ticked_times(n).ticks == self.ticks + n,
            self.ticked_times(n).kind == self.kind,
            self.ticked_times(n).id == self.id,
        decreases n,
    {
        if n > 0 {
            self.lemma_ticks_count((n - 1) as nat);
        }
    }

    /// A plane that starts with no ticks elapsed has used up its fuel after
    /// `n` ticks exactly if `n` has reached the fuel limit of its kind: 120
    /// for a jet, 50 for a small plane. The tick that follows `n` ticks fails
    /// for fuel exactly if it is at least the 120th, or the 50th.
    pub proof fn lemma_fuel_lasts(self, n: nat)
        requires
            self.ticks == 0,
            n < usize::MAX,
        ensures
            self.ticked_times(n).no_fuel() <==> n >= self.kind.fuel_ticks(),
            self.kind == PlaneKind::Jet ==> (self.ticked_times(n).no_fuel() <==> n >= 120),
            self.kind == PlaneKind::Small ==> (self.ticked_times(n).no_fuel() <==> n >= 50),
            self.ticked_times(n).tick_failure() == Some(TickFailure::NoFuel) <==> n + 1
                >= self.kind.fuel_ticks(),
    {
        self.lemma_ticks_count(n);
    }

    /// A tick fails exactly if it uses up the fuel or if the plane is due to
    /// move and cannot. A failed move leaves the plane where it is, and the
    /// tick is counted all the same.
    pub proof fn lemma_tick_failure(self)
        ensures
            self.tick_failure() is None <==> !self.ticked().no_fuel() && (
            self.counted().on_cadence() ==> self.can_move()),
            self.tick_failure() is Some ==> self.ticked().pos == self.pos,
            self.ticked().ticks == self.next_ticks(),
            self.tick_failure() == Some(TickFailure::NoFuel) <==> self.ticked().no_fuel(),
    {
    }

    /// Creates a plane at `pos` with the starting height, no ticks elapsed
    /// and its grace period running. The id is folded to the case of the
    /// plane's kind.
    pub fn new(
        pos: Pos,
        direction: DirectionCardinal,
        kind: PlaneKind,
        id: char,
        destination: Destination,
    ) -> (p: Self)
        ensures
            p == Plane::created(pos, direction, kind, id, destination),
    {
        Self {
            pos,
            height: START_HEIGHT,
            direction,
            kind,
            id: match kind {
                PlaneKind::Small => to_upper(id),
                PlaneKind::Jet => to_lower(id),
            },
            ticks: 0,
            destination,
            just_spawned: true,
        }
    }

    /// Advances the plane by one tick. The tick is counted. If that uses up
    /// the fuel of the plane's kind, the tick fails for fuel and the plane
    /// does not move. Otherwise the plane moves one cell along its heading,
    /// if the tick is one on which planes of its kind move; where the cell
    /// ahead cannot be written down, the plane stays and the tick fails with
    /// the bad position as its reason. The second tick ends the grace period
    /// in either case.
    pub fn tick(&mut self) -> (r: Result<(), TickFailure>)
        ensures
            *final(self) == old(self).ticked(),
            r == match old(self).tick_failure() {
                Some(failure) => Err::<(), TickFailure>(failure),
                None => Ok::<(), TickFailure>(()),
            },
    {
        if self.ticks < usize::MAX {
            self.ticks += 1;
        }
        if self.out_of_fuel() {
            return Err(TickFailure::NoFuel);
        }
        let flown = if self.moves_this_tick() {
            self.next_pos()
        } else {
            Ok(())
        };
        if self.ticks == 2 {
            self.just_spawned = false;
        }
        match flown {
            Ok(()) => Ok(()),
            Err(e) => Err(TickFailure::BadPosition(e)),
        }
    }

    /// Whether the plane has used up its fuel.
    fn out_of_fuel(&self) -> (r: bool)
        ensures
            r == self.no_fuel(),
    {
        self.ticks >= match self.kind {
            PlaneKind::Jet => 120,
            PlaneKind::Small => 50,
        }
    }

    /// Moves the plane one cell along its heading. Where that cell cannot
    /// be written down the plane stays where it is and the move is
    /// reported as bad.
    pub fn next_pos(&mut self) -> (r: Result<(), Error>)
        ensures
            *final(self) == old(self).moved(),
            old(self).can_move() ==> r.is_ok(),
            !old(self).can_move() ==> r == Err::<(), Error>(Error::PlaneNextPosBad(old(self).id)),
    {
        let x = self.pos.x;
        let y = self.pos.y;
        let target: Option<(usize, usize)> = match self.direction {
            DirectionCardinal::North => pair(Some(x), y.checked_sub(1)),
            DirectionCardinal::NorthEast => pair(x.checked_add(1), y.checked_sub(1)),
            DirectionCardinal::NorthWest => pair(x.checked_sub(1), y.checked_sub(1)),
            DirectionCardinal::South => pair(Some(x), y.checked_add(1)),
            DirectionCardinal::SouthEast => pair(x.checked_add(1), y.checked_add(1)),
            DirectionCardinal::SouthWest => pair(x.checked_sub(1), y.checked_add(1)),
            DirectionCardinal::West => pair(x.checked_sub(1), Some(y)),
            DirectionCardinal::East => pair(x.checked_add(1), Some(y)),
        };
        match target {
            Some((nx, ny)) => {
                self.pos.x = nx;
                self.pos.y = ny;
                Ok(())
            },
            None => Err(Error::PlaneNextPosBad(self.id)),
        }
    }

    /// Whether a plane of this kind moves on a tick with this count.
    fn moves_this_tick(&self) -> (r: bool)
        ensures
            r == self.on_cadence(),
    {
        self.ticks % match self.kind {
            PlaneKind::Jet => 1,
            PlaneKind::Small => 2,
        } == 0
    }
}

/// Both coordinates, where both are there.
fn pair(x: Option<usize>, y: Option<usize>) -> (r: Option<(usize, usize)>)
    ensures
        r == match (x, y) {
            (Some(a), Some(b)) => Some((a, b)),
            _ => None::<(usize, usize)>,
        },
{
    match (x, y) {
        (Some(a), Some(b)) => Some((a, b)),
        _ => None,
    }
}

} // verus!
