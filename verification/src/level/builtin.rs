//! The level that comes with the game.

use vstd::prelude::*;
use vstd::pervasive::unreached;
use vstd::string::*;
use crate::error::Error;
use crate::level::{Level, LevelView};
use crate::line::line;
use crate::world::{DirectionCardinal, DirectionGrid, Exit, Pos, World, WorldTile, WorldView};

verus! {

/// The width of the built-in level.
pub const X: usize = 20;

/// The height of the built-in level.
pub const Y: usize = 20;

/// The cell at column `x` and row `y`.
pub open spec fn cell(x: usize, y: usize) -> Pos {
    Pos { x, y }
}

/// The world `w` with the routes, the beacon, the airport and the five
/// exits of the built-in level.
pub open spec fn laid_out(w: WorldView) -> WorldView {
    w.with_route(line(cell(19, 10), cell(0, 10))).with_route(
        line(cell(5, 0), cell(5, 19)),
    ).with_route(line(cell(12, 0), cell(12, 19))).with_route(
        line(cell(12, 10), cell(19, 3)),
    ).with_tile(cell(12, 10), WorldTile::Beacon(0)).with_tile(
        cell(5, 10),
        WorldTile::Airport(DirectionGrid::Right, 0),
    ).with_exit(
        0,
        Exit {
            wall_direction: DirectionGrid::Up,
            plane_out_direction: DirectionCardinal::South,
            wall_pos: 12,
        },
    ).with_exit(
        1,
        Exit {
            wall_direction: DirectionGrid::Right,
            plane_out_direction: DirectionCardinal::SouthWest,
            wall_pos: 2,
        },
    ).with_exit(
        2,
        Exit {
            wall_direction: DirectionGrid::Right,
            plane_out_direction: DirectionCardinal::West,
            wall_pos: 10,
        },
    ).with_exit(
        3,
        Exit {
            wall_direction: DirectionGrid::Left,
            plane_out_direction: DirectionCardinal::East,
            wall_pos: 10,
        },
    ).with_exit(
        4,
        Exit {
            wall_direction: DirectionGrid::Down,
            plane_out_direction: DirectionCardinal::North,
            wall_pos: 12,
        },
    )
}

/// The model of the built-in level.
pub open spec fn builtin_level() -> LevelView {
    LevelView { name: "default"@, world: laid_out(WorldView::empty(X, Y)) }
}

/// Lays out the built-in level on a world of its size.
fn place_stuff(world: &mut World) -> (r: Result<(), Error>)
    requires
        old(world)@.inv(),
        old(world)@.width == X,
        old(world)@.height == Y,
    ensures
        r is Ok,
        final(world)@ == laid_out(old(world)@),
        final(world)@.inv(),
{
    match world.place_route_in_line(Pos { x: 19, y: 10 }, Pos { x: 0, y: 10 }) {
        Ok(_) => {},
        Err(e) => {
            return Err(e);
        },
    }
    match world.place_route_in_line(Pos { x: 5, y: 0 }, Pos { x: 5, y: 19 }) {
        Ok(_) => {},
        Err(e) => {
            return Err(e);
        },
    }
    match world.place_route_in_line(Pos { x: 12, y: 0 }, Pos { x: 12, y: 19 }) {
        Ok(_) => {},
        Err(e) => {
            return Err(e);
        },
    }
    match world.place_route_in_line(Pos { x: 12, y: 10 }, Pos { x: 19, y: 3 }) {
        Ok(_) => {},
        Err(e) => {
            return Err(e);
        },
    }
    match world.place_tile(WorldTile::Beacon(0), Pos { x: 12, y: 10 }) {
        Ok(_) => {},
        Err(e) => {
            return Err(e);
        },
    }
    match world.place_tile(WorldTile::Airport(DirectionGrid::Right, 0), Pos { x: 5, y: 10 }) {
        Ok(_) => {},
        Err(e) => {
            return Err(e);
        },
    }
    match world.place_exit(DirectionGrid::Up, DirectionCardinal::South, 12, 0) {
        Ok(_) => {},
        Err(e) => {
            return Err(e);
        },
    }
    match world.place_exit(DirectionGrid::Right, DirectionCardinal::SouthWest, 2, 1) {
        Ok(_) => {},
        Err(e) => {
            return Err(e);
        },
    }
    match world.place_exit(DirectionGrid::Right, DirectionCardinal::West, 10, 2) {
        Ok(_) => {},
        Err(e) => {
            return Err(e);
        },
    }
    match world.place_exit(DirectionGrid::Left, DirectionCardinal::East, 10, 3) {
        Ok(_) => {},
        Err(e) => {
            return Err(e);
        },
    }
    match world.place_exit(DirectionGrid::Down, DirectionCardinal::North, 12, 4) {
        Ok(_) => {},
        Err(e) => {
            return Err(e);
        },
    }
    Ok(())
}

impl Level {
    /// The level that comes with the game: twenty by twenty cells, four
    /// routes, a beacon, an airport and five exits.
    pub fn builtin() -> (level: Self)
        ensures
            level@ == builtin_level(),
            level@.world.inv(),
    {
        let mut world = World::new(X, Y);
        match place_stuff(&mut world) {
            Ok(()) => {},
            Err(_) => unreached(),
        }
        Level { world, name: String::from_str("default") }
    }
}

} // verus!
