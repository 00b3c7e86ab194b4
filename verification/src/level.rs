//! A level: a named world and the rule by which new planes arrive.

use vstd::prelude::*;
use crate::error::Error;
use crate::world::tick::LandingFault;
use crate::world::{PlaneKind, State, World, WorldView};

pub mod builtin;

verus! {

/// The exit through which new planes arrive.
pub const SPAWN_EXIT: u8 = 4;

/// A new plane arrives on `SPAWN_ODDS` ticks out of `SPAWN_OUT_OF`, on
/// average.
pub const SPAWN_ODDS: u32 = 1;

/// See `SPAWN_ODDS`.
pub const SPAWN_OUT_OF: u32 = 5;

/// Why a level could not be advanced.
#[derive(Copy, Clone, Debug, PartialEq, Eq)]
pub enum TickError {
    /// No plane could arrive.
    Spawn(Error),
    /// A plane came down at an airport against the rules.
    Landing(LandingFault),
}

/// A named world.
#[derive(Debug)]
pub struct Level {
    name: String,
    world: World,
}

/// The mathematical model of a level.
pub struct LevelView {
    pub name: Seq<char>,
    pub world: WorldView,
}

impl View for Level {
    type V = LevelView;

    closed spec fn view(&self) -> LevelView {
        LevelView { name: self.name@, world: self.world@ }
    }
}

impl LevelView {
    /// The world of the level at the moment at which its planes are
    /// advanced: with a new small plane at the spawn exit if one arrives.
    pub open spec fn arrival(self, spawn: bool) -> WorldView {
        if spawn {
            self.world.with_spawn(SPAWN_EXIT, PlaneKind::Small)
        } else {
            self.world
        }
    }

    /// Why the level cannot be advanced, if it cannot: a plane arrives and
    /// cannot be spawned, or the tick runs into a landing against the rules.
    pub open spec fn tick_error(self, spawn: bool) -> Option<TickError> {
        if spawn && self.world.spawn_error(SPAWN_EXIT) is Some {
            Some(TickError::Spawn(self.world.spawn_error(SPAWN_EXIT)->0))
        } else if self.arrival(spawn).tick_fault() is Some {
            Some(TickError::Landing(self.arrival(spawn).tick_fault()->0))
        } else {
            None
        }
    }

    /// The level after it has been advanced, or after the attempt: where no
    /// plane could arrive nothing has changed, and where a landing broke the
    /// rules the world is as it was when the landings were judged.
    pub open spec fn after_tick(self, spawn: bool) -> LevelView {
        if spawn && self.world.spawn_error(SPAWN_EXIT) is Some {
            self
        } else if self.arrival(spawn).tick_fault() is Some {
            LevelView { world: self.arrival(spawn).at_landing(), ..self }
        } else {
            LevelView { world: self.arrival(spawn).after_tick(), ..self }
        }
    }

    /// How the game stands after the level has been advanced.
    pub open spec fn tick_state(self, spawn: bool) -> State {
        self.arrival(spawn).tick_state()
    }

    /// What one call of `advance` does and gives.
    pub open spec fn advances_to(
        self,
        spawn: bool,
        after: LevelView,
        result: Result<State, TickError>,
    ) -> bool {
        &&& after == self.after_tick(spawn)
        &&& result == match self.tick_error(spawn) {
            Some(e) => Err::<State, TickError>(e),
            None => Ok::<State, TickError>(self.tick_state(spawn)),
        }
    }
}

/// `rand::random_ratio` draws a boolean that is true with a chance of
/// `numerator` in `denominator`, from the generator of the current thread.
/// All that is known of one draw is what the function promises of the two
/// certain cases: a chance of zero gives `false`, a chance of one `true`.
#[verifier::external_body]
fn random_ratio(numerator: u32, denominator: u32) -> (r: bool)
    requires
        denominator > 0,
        numerator <= denominator,
    ensures
        numerator == 0 ==> !r,
        numerator == denominator ==> r,
{
    rand::random_ratio(numerator, denominator)
}

impl Level {
    /// The name of the level.
    pub fn get_name(&self) -> (name: String)
        ensures
            name@ == self@.name,
    {
        self.name.clone()
    }

    /// The world of the level.
    pub fn world(&self) -> (w: &World)
        ensures
            w@ == self@.world,
    {
        &self.world
    }

    /// The world of the level, to be changed in place.
    pub fn world_mut(&mut self) -> (w: &mut World)
        ensures
            w@ == old(self)@.world,
            final(self)@ == (LevelView { world: final(w)@, ..old(self)@ }),
    {
        &mut self.world
    }

    /// Advances the level by one tick. First a new small plane may arrive at
    /// the spawn exit, by chance; then the world advances its planes and
    /// judges them.
    pub fn tick(&mut self) -> (r: Result<State, TickError>)
        requires
            old(self)@.world.inv(),
        ensures
            final(self)@.world.inv(),
            old(self)@.advances_to(true, final(self)@, r) || old(self)@.advances_to(
                false,
                final(self)@,
                r,
            ),
    {
        let spawn = random_ratio(SPAWN_ODDS, SPAWN_OUT_OF);
        self.advance(spawn)
    }

    /// Advances the level by one tick, with or without a new plane. A new
    /// plane is a small one and arrives at the spawn exit before the world
    /// advances.
    pub fn advance(&mut self, spawn: bool) -> (r: Result<State, TickError>)
        requires
            old(self)@.world.inv(),
        ensures
            final(self)@.world.inv(),
            old(self)@.advances_to(spawn, final(self)@, r),
    {
        if spawn {
            match self.world.spawn_plane_at_exit(SPAWN_EXIT, PlaneKind::Small) {
                Ok(()) => {},
                Err(e) => {
                    return Err(TickError::Spawn(e));
                },
            }
        }
        match self.world.try_tick_planes() {
            Ok(state) => Ok(state),
            Err(fault) => Err(TickError::Landing(fault)),
        }
    }

    /// Draws the map of the level.
    pub fn render(&self) -> (s: String)
        requires
            self@.world.inv(),
        ensures
            s@ == self@.world.rendered(),
    {
        self.world.to_string()
    }

    /// The level as text: the map of its world.
    pub fn to_string(&self) -> (s: String)
        requires
            self@.world.inv(),
        ensures
            s@ == self@.world.rendered(),
    {
        self.world.to_string()
    }
}

} // verus!
