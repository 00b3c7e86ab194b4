//! The grid world: tiles, exits and the planes under control.

use vstd::prelude::*;
use vstd::std_specs::convert::FromSpecImpl;
use crate::error::Error;
use crate::plane::{Destination, Plane};
use crate::table::{distinct_keys, entry, find, lemma_with, put, with, Keyed};

pub mod render;
pub mod route;
pub mod tick;

verus! {

/// A cell of the grid: column `x` and row `y`, counted from the top-left
/// corner.
#[derive(Copy, Clone, Debug, PartialEq, Eq, Structural)]
pub struct Pos {
    pub x: usize,
    pub y: usize,
}

/// How fast a plane flies and how much fuel it carries.
#[derive(Copy, Clone, Debug, PartialEq, Eq, Structural)]
pub enum PlaneKind {
    Small,
    Jet,
}

/// One of the four sides of the grid, or the way an airport faces.
#[derive(Copy, Clone, Debug, PartialEq, Eq, Hash, Structural)]
pub enum DirectionGrid {
    Up,
    Down,
    Left,
    Right,
}

/// One of the eight headings a plane can fly.
#[derive(Copy, Clone, Debug, PartialEq, Eq, Structural)]
pub enum DirectionCardinal {
    North,
    East,
    South,
    West,
    NorthEast,
    NorthWest,
    SouthEast,
    SouthWest,
}

/// A place on a wall through which planes enter and leave the grid.
#[derive(Copy, Clone, Debug, PartialEq, Eq, Structural)]
pub struct Exit {
    /// The wall the exit sits on.
    pub wall_direction: DirectionGrid,
    /// The heading a plane must have to leave through this exit.
    pub plane_out_direction: DirectionCardinal,
    /// The offset of the exit along its wall.
    pub wall_pos: usize,
}

/// What a cell of the grid holds.
#[derive(Copy, Clone, Debug, PartialEq, Eq, Structural)]
pub enum WorldTile {
    Empty,
    Route,
    /// An airport, with the way it faces and its id.
    Airport(DirectionGrid, u8),
    /// A navigation beacon with its id.
    Beacon(u8),
}

/// The result of one tick. Every value but `Ongoing` ends the game.
#[derive(Copy, Clone, Debug, PartialEq, Eq, Structural)]
pub enum State {
    Ongoing,
    /// Two planes met in one cell at one height.
    PlaneCollision(Plane, Plane),
    /// A plane reached an exit that is not its destination; the id is that
    /// of the exit it reached.
    WrongExit(Plane, u8),
    /// A plane touched down at an airport that is not its destination; the
    /// id is that of the airport it reached.
    WrongAirport(Plane, u8),
    /// A plane reached a wall where no exit is, at this offset.
    PlaneTouchesWall(Plane, DirectionGrid, usize),
    /// A plane came down to the ground away from any airport.
    PlaneCrash(Plane),
    /// A plane used up its fuel.
    PlaneNoFuel(Plane),
}

impl From<[usize; 2]> for Pos {
    /// The cell whose column is the first number and whose row is the
    /// second.
    fn from(value: [usize; 2]) -> (p: Pos) {
        Pos { x: value[0], y: value[1] }
    }
}

impl FromSpecImpl<[usize; 2]> for Pos {
    open spec fn obeys_from_spec() -> bool {
        true
    }

    open spec fn from_spec(value: [usize; 2]) -> Pos {
        Pos { x: value[0], y: value[1] }
    }
}

impl From<DirectionGrid> for DirectionCardinal {
    /// The heading that points the way of a side of the grid.
    fn from(value: DirectionGrid) -> (d: DirectionCardinal) {
        match value {
            DirectionGrid::Up => DirectionCardinal::North,
            DirectionGrid::Down => DirectionCardinal::South,
            DirectionGrid::Left => DirectionCardinal::West,
            DirectionGrid::Right => DirectionCardinal::East,
        }
    }
}

impl FromSpecImpl<DirectionGrid> for DirectionCardinal {
    open spec fn obeys_from_spec() -> bool {
        true
    }

    open spec fn from_spec(value: DirectionGrid) -> DirectionCardinal {
        value.heading()
    }
}

impl DirectionGrid {
    /// The heading that points the way of this side of the grid.
    pub open spec fn heading(self) -> DirectionCardinal {
        match self {
            DirectionGrid::Up => DirectionCardinal::North,
            DirectionGrid::Down => DirectionCardinal::South,
            DirectionGrid::Left => DirectionCardinal::West,
            DirectionGrid::Right => DirectionCardinal::East,
        }
    }
}

impl Pos {
    /// The cell named by a pair of signed coordinates: the same numbers
    /// when neither is negative, and no cell otherwise.
    pub open spec fn from_signed(value: (i32, i32)) -> Result<Pos, Error> {
        if value.0 >= 0 && value.1 >= 0 {
            Ok(Pos { x: value.0 as usize, y: value.1 as usize })
        } else {
            Err(Error::PosFromSigned(value))
        }
    }

    /// Converts a pair of signed coordinates into a cell. A pair with a
    /// negative component is rejected and handed back in the error.
    pub fn try_from(value: (i32, i32)) -> (r: Result<Pos, Error>)
        ensures
            r == Pos::from_signed(value),
    {
        if value.0 >= 0 && value.1 >= 0 {
            Ok(Pos { x: value.0 as usize, y: value.1 as usize })
        } else {
            Err(Error::PosFromSigned(value))
        }
    }
}

impl DirectionCardinal {
    /// The heading that points the other way.
    pub open spec fn reversed(self) -> DirectionCardinal {
        match self {
            DirectionCardinal::North => DirectionCardinal::South,
            DirectionCardinal::East => DirectionCardinal::West,
            DirectionCardinal::South => DirectionCardinal::North,
            DirectionCardinal::West => DirectionCardinal::East,
            DirectionCardinal::NorthEast => DirectionCardinal::SouthWest,
            DirectionCardinal::NorthWest => DirectionCardinal::SouthEast,
            DirectionCardinal::SouthEast => DirectionCardinal::NorthWest,
            DirectionCardinal::SouthWest => DirectionCardinal::NorthEast,
        }
    }

    /// How far one step with this heading moves a plane along x (first) and
    /// along y (second). North is towards row 0, west towards column 0.
    pub open spec fn step(self) -> (int, int) {
        match self {
            DirectionCardinal::North => (0, -1),
            DirectionCardinal::East => (1, 0),
            DirectionCardinal::South => (0, 1),
            DirectionCardinal::West => (-1, 0),
            DirectionCardinal::NorthEast => (1, -1),
            DirectionCardinal::NorthWest => (-1, -1),
            DirectionCardinal::SouthEast => (1, 1),
            DirectionCardinal::SouthWest => (-1, 1),
        }
    }

    /// Turns this heading around.
    pub fn opposite(self) -> (d: DirectionCardinal)
        ensures
            d == self.reversed(),
    {
        match self {
            Self::North => Self::South,
            Self::East => Self::West,
            Self::South => Self::North,
            Self::West => Self::East,
            Self::NorthEast => Self::SouthWest,
            Self::NorthWest => Self::SouthEast,
            Self::SouthEast => Self::NorthWest,
            Self::SouthWest => Self::NorthEast,
        }
    }

    /// Reversing a heading twice gives the heading back, and the reversed
    /// heading steps exactly the other way.
    pub proof fn lemma_reversed(self)
        ensures
            self.reversed().reversed() == self,
            self.reversed().step().0 == -self.step().0,
            self.reversed().step().1 == -self.step().1,
    {
    }
}

/// The number of letters that plane ids are taken from.
pub const ID_LETTERS: usize = 25;

/// The letters that plane ids are taken from, in the order in which they are
/// handed out. The letter `o` is left out.
pub const ID_ALPHABET: [char; 25] = [
    'a',
    'b',
    'c',
    'd',
    'e',
    'f',
    'g',
    'h',
    'i',
    'j',
    'k',
    'l',
    'm',
    'n',
    'p',
    'q',
    'r',
    's',
    't',
    'u',
    'v',
    'w',
    'x',
    'y',
    'z',
];

/// The exit that every spawned plane is sent to.
pub const SPAWN_DESTINATION: u8 = 1;

/// The mathematical model of a world.
pub struct WorldView {
    /// The number of columns.
    pub width: usize,
    /// The number of rows.
    pub height: usize,
    /// The tiles, row by row from the top; each row runs from the left.
    pub tiles: Seq<Seq<WorldTile>>,
    /// The exits with their ids, in the order in which they were placed.
    pub exits: Seq<(u8, Exit)>,
    /// The planes under control, in the order in which they arrived.
    pub planes: Seq<Plane>,
    /// The place in the id alphabet of the letter that the next spawned
    /// plane gets.
    pub next_letter: nat,
}

impl Keyed for (u8, Exit) {
    type Key = u8;

    /// An exit is kept under its id.
    open spec fn key(&self) -> u8 {
        self.0
    }

    fn own_key(&self) -> (k: u8) {
        self.0
    }

    fn has_key(&self, key: &u8) -> (r: bool) {
        self.0 == *key
    }
}

impl Keyed for Plane {
    type Key = char;

    /// A plane is kept under its id.
    open spec fn key(&self) -> char {
        self.id
    }

    fn own_key(&self) -> (k: char) {
        self.id
    }

    fn has_key(&self, key: &char) -> (r: bool) {
        self.id == *key
    }
}

/// The exit placed under `id`, if there is one.
pub open spec fn exit_with_id(exits: Seq<(u8, Exit)>, id: u8) -> Option<Exit> {
    match entry(exits, id) {
        Some(e) => Some(e.1),
        None => None,
    }
}

/// The id of the exit at `offset` on `wall`, if there is one. Where several
/// exits share the place, the one placed last counts.
pub open spec fn exit_at(exits: Seq<(u8, Exit)>, wall: DirectionGrid, offset: usize) -> Option<u8>
    decreases exits.len(),
{
    if exits.len() == 0 {
        None
    } else if exits.last().1.wall_direction == wall && exits.last().1.wall_pos == offset {
        Some(exits.last().0)
    } else {
        exit_at(exits.drop_last(), wall, offset)
    }
}

/// The exits are a table keyed by id. An exit placed under an id is the
/// exit found under that id, it is the exit found at its place on its wall,
/// and under every other id the same exit is found as before.
pub proof fn lemma_exit_table(w: WorldView, id: u8, exit: Exit, other: u8)
    requires
        w.inv(),
    ensures
        exit_with_id(w.with_exit(id, exit).exits, id) == Some(exit),
        exit_at(w.with_exit(id, exit).exits, exit.wall_direction, exit.wall_pos) == Some(id),
        other != id ==> exit_with_id(w.with_exit(id, exit).exits, other) == exit_with_id(
            w.exits,
            other,
        ),
{
    lemma_with(w.exits, (id, exit), other);
}

/// The planes are a table keyed by id. A plane put under control is the
/// plane found under its id, and under every other id the same plane is
/// found as before.
pub proof fn lemma_plane_table(w: WorldView, plane: Plane, other: char)
    requires
        w.inv(),
    ensures
        entry(w.with_plane(plane).planes, plane.id) == Some(plane),
        other != plane.id ==> entry(w.with_plane(plane).planes, other) == entry(w.planes, other),
{
    lemma_with(w.planes, plane, other);
}

/// A plane that enters through an exit starts on a cell of the grid that
/// lies on the wall of the exit, at the exit's offset, and flies against the
/// heading with which planes leave through the exit. It is the plane that
/// arrived last.
pub proof fn lemma_spawn_on_wall(w: WorldView, exit_id: u8, kind: PlaneKind)
    requires
        w.inv(),
        w.spawn_error(exit_id) is None,
    ensures
        exit_with_id(w.exits, exit_id) is Some,
        ({
            let exit = exit_with_id(w.exits, exit_id)->0;
            let plane = w.spawned_plane(exit, kind);
            &&& w.with_spawn(exit_id, kind).planes.last() == plane
            &&& w.contains(plane.pos)
            &&& plane.direction == exit.plane_out_direction.reversed()
            &&& plane.just_spawned
            &&& match exit.wall_direction {
                DirectionGrid::Up => plane.pos.y == 0 && plane.pos.x == exit.wall_pos,
                DirectionGrid::Down => plane.pos.y == w.height - 1 && plane.pos.x == exit.wall_pos,
                DirectionGrid::Left => plane.pos.x == 0 && plane.pos.y == exit.wall_pos,
                DirectionGrid::Right => plane.pos.x == w.width - 1 && plane.pos.y == exit.wall_pos,
            }
        }),
{
}

impl WorldView {
    /// The world of the given size with nothing in it.
    pub open spec fn empty(width: usize, height: usize) -> WorldView {
        WorldView {
            width,
            height,
            tiles: Seq::new(height as nat, |y: int| Seq::new(width as nat, |x: int| WorldTile::Empty)),
            exits: Seq::empty(),
            planes: Seq::empty(),
            next_letter: 0,
        }
    }

    /// The number of cells along a wall.
    pub open spec fn wall_len(self, wall: DirectionGrid) -> usize {
        match wall {
            DirectionGrid::Up | DirectionGrid::Down => self.width,
            DirectionGrid::Left | DirectionGrid::Right => self.height,
        }
    }

    /// What every world keeps true: the tiles fill the grid, ids of exits and
    /// of planes are unique, and every exit lies within its wall.
    pub open spec fn inv(self) -> bool {
        &&& self.tiles.len() == self.height
        &&& forall|y: int| 0 <= y < self.height ==> (#[trigger] self.tiles[y]).len() == self.width
        &&& distinct_keys(self.exits)
        &&& forall|i: int| 0 <= i < self.exits.len() ==> (#[trigger] self.exits[i]).1.wall_pos
            < self.wall_len(self.exits[i].1.wall_direction)
        &&& distinct_keys(self.planes)
        &&& self.next_letter < ID_LETTERS
    }

    /// The cell lies in the grid.
    pub open spec fn contains(self, pos: Pos) -> bool {
        pos.x < self.width && pos.y < self.height
    }

    /// The tile at a cell of the grid.
    pub open spec fn tile(self, pos: Pos) -> WorldTile {
        self.tiles[pos.y as int][pos.x as int]
    }

    /// Why a cell does not lie in the grid: the column is looked at first,
    /// then the row.
    pub open spec fn bounds_error(self, pos: Pos) -> Option<Error> {
        if pos.x >= self.width {
            Some(Error::PosOutOfBounds(pos.x, self.width))
        } else if pos.y >= self.height {
            Some(Error::PosOutOfBounds(pos.y, self.height))
        } else {
            None
        }
    }

    /// Why no exit can be placed at `offset` on `wall`: the offset must be
    /// below the number of cells along the wall.
    pub open spec fn exit_error(self, wall: DirectionGrid, offset: usize) -> Option<Error> {
        if offset >= self.wall_len(wall) {
            Some(Error::ExitPosOutOfBounds(offset, self.wall_len(wall)))
        } else {
            None
        }
    }

    /// The world with `exit` placed under `id`, in place of any exit that
    /// had this id, and as the exit placed last.
    pub open spec fn with_exit(self, id: u8, exit: Exit) -> WorldView {
        WorldView { exits: with(self.exits, (id, exit)), ..self }
    }

    /// The world with `plane` under control, in place of any plane that had
    /// its id, and as the plane that arrived last.
    pub open spec fn with_plane(self, plane: Plane) -> WorldView {
        WorldView { planes: with(self.planes, plane), ..self }
    }

    /// The cell at which a plane enters through `exit`: the cell of the grid
    /// that lies at the exit's offset along the exit's wall.
    pub open spec fn spawn_cell(self, exit: Exit) -> Pos {
        match exit.wall_direction {
            DirectionGrid::Up => Pos { x: exit.wall_pos, y: 0 },
            DirectionGrid::Down => Pos {
                x: exit.wall_pos,
                y: if self.height == 0 {
                    0
                } else {
                    (self.height - 1) as usize
                },
            },
            DirectionGrid::Left => Pos { x: 0, y: exit.wall_pos },
            DirectionGrid::Right => Pos {
                x: if self.width == 0 {
                    0
                } else {
                    (self.width - 1) as usize
                },
                y: exit.wall_pos,
            },
        }
    }

    /// Why no plane can be spawned at the exit with this id: there is no
    /// such exit, or the grid has no cell where the plane would enter.
    pub open spec fn spawn_error(self, exit_id: u8) -> Option<Error> {
        match exit_with_id(self.exits, exit_id) {
            None => Some(Error::NoExitForID(exit_id)),
            Some(exit) => self.bounds_error(self.spawn_cell(exit)),
        }
    }

    /// The plane that enters through `exit`: it flies into the grid, against
    /// the heading with which planes leave through the exit, and carries the
    /// next letter of the id alphabet.
    pub open spec fn spawned_plane(self, exit: Exit, kind: PlaneKind) -> Plane {
        Plane::created(
            self.spawn_cell(exit),
            exit.plane_out_direction.reversed(),
            kind,
            ID_ALPHABET[self.next_letter as int],
            Destination::Exit(SPAWN_DESTINATION),
        )
    }

    /// The world after a plane of this kind has entered through the exit
    /// with this id.
    pub open spec fn with_spawn(self, exit_id: u8, kind: PlaneKind) -> WorldView {
        let exit = exit_with_id(self.exits, exit_id)->0;
        WorldView {
            next_letter: (self.next_letter + 1) % (ID_LETTERS as nat),
            ..self.with_plane(self.spawned_plane(exit, kind))
        }
    }

    /// The world with `tile` at the cell `pos` of the grid.
    pub open spec fn with_tile(self, pos: Pos, tile: WorldTile) -> WorldView {
        WorldView {
            tiles: self.tiles.update(pos.y as int, self.tiles[pos.y as int].update(pos.x as int, tile)),
            ..self
        }
    }
}

/// The grid world. It owns the tiles, the exits and the planes.
#[derive(Debug)]
pub struct World {
    x: usize,
    y: usize,
    tiles: Vec<Vec<WorldTile>>,
    planes: Vec<Plane>,
    exits: Vec<(u8, Exit)>,
    plane_counter: u8,
}

impl View for World {
    type V = WorldView;

    closed spec fn view(&self) -> WorldView {
        WorldView {
            width: self.x,
            height: self.y,
            tiles: Seq::new(self.tiles@.len(), |y: int| self.tiles@[y]@),
            exits: self.exits@,
            planes: self.planes@,
            next_letter: self.plane_counter as nat,
        }
    }
}

impl World {
    /// Creates a world of `x` columns and `y` rows in which every tile is
    /// empty and no exit or plane exists.
    pub fn new(x: usize, y: usize) -> (w: Self)
        ensures
            w@ == WorldView::empty(x, y),
            w@.inv(),
    {
        let w = World {
            tiles: vec![vec![WorldTile::Empty; x]; y],
            planes: Vec::new(),
            exits: Vec::new(),
            x,
            y,
            plane_counter: 0,
        };
        assert(w@.tiles =~~= WorldView::empty(x, y).tiles);
        w
    }

    /// Puts `tile` at `pos`, over whatever was there. A position outside
    /// the grid is rejected and the world stays as it is.
    pub fn place_tile(&mut self, tile: WorldTile, pos: Pos) -> (r: Result<&mut Self, Error>)
        requires
            old(self)@.inv(),
        ensures
            match r {
                Ok(w) => {
                    &&& old(self)@.bounds_error(pos) is None
                    &&& w@ == old(self)@.with_tile(pos, tile)
                    &&& w@.inv()
                    &&& *final(self) == *final(w)
                },
                Err(e) => {
                    &&& old(self)@.bounds_error(pos) == Some(e)
                    &&& *final(self) == *old(self)
                },
            },
    {
        match self.check_pos_bounds(pos) {
            Ok(()) => {},
            Err(e) => {
                return Err(e);
            },
        }
        assert(self@.tiles[pos.y as int] == self.tiles@[pos.y as int]@);
        self.tiles[pos.y][pos.x] = tile;
        assert(self@.tiles =~~= old(self)@.with_tile(pos, tile).tiles);
        Ok(self)
    }

    /// Checks that `pos` lies in the grid: the column first, then the row.
    fn check_pos_bounds(&self, pos: Pos) -> (r: Result<(), Error>)
        ensures
            match r {
                Ok(_) => self@.bounds_error(pos) is None,
                Err(e) => self@.bounds_error(pos) == Some(e),
            },
    {
        if pos.x >= self.x {
            return Err(Error::PosOutOfBounds(pos.x, self.x));
        }
        if pos.y >= self.y {
            return Err(Error::PosOutOfBounds(pos.y, self.y));
        }
        Ok(())
    }

    /// Places an exit on a wall under the id `idx`, in place of any exit
    /// that had this id. Planes leave through it with the heading
    /// `plane_out_direction`. An offset that is not below the number of cells
    /// along the wall is rejected and the world stays as it is.
    pub fn place_exit(
        &mut self,
        where_on_wall: DirectionGrid,
        plane_out_direction: DirectionCardinal,
        wall_pos: usize,
        idx: u8,
    ) -> (r: Result<&mut Self, Error>)
        requires
            old(self)@.inv(),
        ensures
            match r {
                Ok(w) => {
                    &&& old(self)@.exit_error(where_on_wall, wall_pos) is None
                    &&& w@ == old(self)@.with_exit(
                        idx,
                        Exit { wall_direction: where_on_wall, plane_out_direction, wall_pos },
                    )
                    &&& w@.inv()
                    &&& *final(self) == *final(w)
                },
                Err(e) => {
                    &&& old(self)@.exit_error(where_on_wall, wall_pos) == Some(e)
                    &&& *final(self) == *old(self)
                },
            },
    {
        let limit = match where_on_wall {
            DirectionGrid::Up | DirectionGrid::Down => self.x,
            DirectionGrid::Left | DirectionGrid::Right => self.y,
        };
        if wall_pos >= limit {
            return Err(Error::ExitPosOutOfBounds(wall_pos, limit));
        }
        let exit = Exit { wall_direction: where_on_wall, plane_out_direction, wall_pos };
        put(&mut self.exits, (idx, exit));
        proof {
            let before = old(self)@.exits;
            let after = self@.exits;
            lemma_with(before, (idx, exit), idx);
            assert forall|i: int| 0 <= i < after.len() implies (#[trigger] after[i]).1.wall_pos
                < self@.wall_len(after[i].1.wall_direction) by {
                if i < after.len() - 1 {
                    assert(before.contains(after[i]));
                    let m = choose|m: int| 0 <= m < before.len() && before[m] == after[i];
                    assert(before[m].1.wall_pos < old(self)@.wall_len(before[m].1.wall_direction));
                }
            }
            assert(self@.tiles =~~= old(self)@.tiles);
        }
        Ok(self)
    }

    /// Hands out the next letter of the id alphabet. After the last letter
    /// the first one comes again.
    fn next_plane_idx(&mut self) -> (id: char)
        requires
            old(self)@.next_letter < ID_LETTERS,
        ensures
            id == ID_ALPHABET[old(self)@.next_letter as int],
            final(self)@ == (WorldView {
                next_letter: (old(self)@.next_letter + 1) % (ID_LETTERS as nat),
                ..old(self)@
            }),
    {
        let out = ID_ALPHABET[self.plane_counter as usize];
        self.plane_counter = (self.plane_counter + 1) % 25;
        assert(self@.tiles =~~= old(self)@.tiles);
        out
    }

    /// Puts `plane` under control, in place of any plane that had its id.
    pub fn insert_plane(&mut self, plane: Plane)
        requires
            old(self)@.inv(),
        ensures
            final(self)@ == old(self)@.with_plane(plane),
            final(self)@.inv(),
    {
        put(&mut self.planes, plane);
        proof {
            lemma_with(old(self)@.planes, plane, plane.id);
            assert(self@.tiles =~~= old(self)@.tiles);
        }
    }

    /// Lets a plane of this kind enter through the exit with this id. The
    /// plane starts on the cell of the grid at the exit, flies against the
    /// heading with which planes leave there, and gets the next id letter.
    /// Fails, and leaves the world as it is, if no such exit exists or the
    /// grid has no cell at the exit.
    pub fn spawn_plane_at_exit(&mut self, exit_id: u8, kind: PlaneKind) -> (r: Result<(), Error>)
        requires
            old(self)@.inv(),
        ensures
            match r {
                Ok(_) => {
                    &&& old(self)@.spawn_error(exit_id) is None
                    &&& final(self)@ == old(self)@.with_spawn(exit_id, kind)
                    &&& final(self)@.inv()
                },
                Err(e) => {
                    &&& old(self)@.spawn_error(exit_id) == Some(e)
                    &&& *final(self) == *old(self)
                },
            },
    {
        let exit = match self.exit(exit_id) {
            Some(e) => e,
            None => {
                return Err(Error::NoExitForID(exit_id));
            },
        };
        let pos = match exit.wall_direction {
            DirectionGrid::Up => Pos { x: exit.wall_pos, y: 0 },
            DirectionGrid::Down => Pos { x: exit.wall_pos, y: self.y.saturating_sub(1) },
            DirectionGrid::Left => Pos { x: 0, y: exit.wall_pos },
            DirectionGrid::Right => Pos { x: self.x.saturating_sub(1), y: exit.wall_pos },
        };
        match self.check_pos_bounds(pos) {
            Ok(()) => {},
            Err(e) => {
                return Err(e);
            },
        }
        let id: char = self.next_plane_idx();
        let plane = Plane::new(
            pos,
            exit.plane_out_direction.opposite(),
            kind,
            id,
            Destination::Exit(SPAWN_DESTINATION),
        );
        self.insert_plane(plane);
        Ok(())
    }

    /// The number of columns.
    pub fn width(&self) -> (w: usize)
        ensures
            w == self@.width,
    {
        self.x
    }

    /// The number of rows.
    pub fn height(&self) -> (h: usize)
        ensures
            h == self@.height,
    {
        self.y
    }

    /// The tile at `pos`, or nothing where `pos` lies outside the grid.
    pub fn tile(&self, pos: Pos) -> (t: Option<WorldTile>)
        requires
            self@.inv(),
        ensures
            t == if self@.contains(pos) {
                Some(self@.tile(pos))
            } else {
                None
            },
    {
        if pos.x < self.x && pos.y < self.y {
            assert(self@.tiles[pos.y as int] == self.tiles@[pos.y as int]@);
            Some(self.tiles[pos.y][pos.x])
        } else {
            None
        }
    }

    /// The exit placed under `id`, if there is one.
    pub fn exit(&self, id: u8) -> (e: Option<Exit>)
        ensures
            e == exit_with_id(self@.exits, id),
    {
        match find(&self.exits, &id) {
            Some(found) => Some(found.1),
            None => None,
        }
    }

    /// The id of the exit at `offset` on `wall`, if there is one. Where
    /// several exits share the place, the one placed last counts.
    pub fn exit_on_wall(&self, wall: DirectionGrid, offset: usize) -> (id: Option<u8>)
        ensures
            id == exit_at(self@.exits, wall, offset),
    {
        let mut found: Option<u8> = None;
        let mut i: usize = 0;
        while i < self.exits.len()
            invariant
                i <= self.exits.len(),
                found == exit_at(self.exits@.take(i as int), wall, offset),
            decreases self.exits.len() - i,
        {
            assert(self.exits@.take(i + 1).drop_last() =~= self.exits@.take(i as int));
            let entry = self.exits[i];
            if entry.1.wall_direction == wall && entry.1.wall_pos == offset {
                found = Some(entry.0);
            }
            i += 1;
        }
        assert(self.exits@.take(i as int) =~= self.exits@);
        found
    }

    /// The plane with this id, if there is one.
    pub fn plane(&self, id: char) -> (p: Option<Plane>)
        ensures
            p == entry(self@.planes, id),
    {
        find(&self.planes, &id)
    }

    /// The planes under control, in the order in which they arrived.
    pub fn planes(&self) -> (list: Vec<Plane>)
        ensures
            list@ == self@.planes,
    {
        let mut list: Vec<Plane> = Vec::new();
        let mut i: usize = 0;
        while i < self.planes.len()
            invariant
                i <= self.planes.len(),
                list@ == self.planes@.take(i as int),
            decreases self.planes.len() - i,
        {
            list.push(self.planes[i]);
            assert(list@ =~= self.planes@.take(i + 1));
            i += 1;
        }
        assert(self.planes@.take(i as int) =~= self.planes@);
        list
    }
}


} // verus!
