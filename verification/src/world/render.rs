//! The world as text: a bordered rectangle, two characters per cell.

use vstd::prelude::*;
use vstd::string::*;
use crate::plane::Plane;
use crate::search::{first_index, lemma_first_index_is};
use crate::text::{decimal, lower, push_decimal, push_text, to_lower, to_upper, upper};
use crate::world::tick::LandingFault;
use crate::world::{exit_at, DirectionGrid, PlaneKind, Pos, State, World, WorldTile, WorldView};

verus! {

/// Holds for the planes at `pos`.
pub open spec fn is_at(pos: Pos) -> spec_fn(Plane) -> bool {
    |p: Plane| p.pos == pos
}

impl DirectionGrid {
    /// The arrow that stands for this direction.
    pub open spec fn glyph(self) -> char {
        match self {
            DirectionGrid::Up => '^',
            DirectionGrid::Left => '<',
            DirectionGrid::Down => 'v',
            DirectionGrid::Right => '>',
        }
    }

    /// The arrow that stands for this direction, as a string.
    pub fn to_string(&self) -> (s: String)
        ensures
            s@ == seq![self.glyph()],
    {
        let mut s = String::new();
        s.push(
            match self {
                Self::Up => '^',
                Self::Left => '<',
                Self::Down => 'v',
                Self::Right => '>',
            },
        );
        assert(s@ =~= seq![self.glyph()]);
        s
    }
}

impl WorldTile {
    /// How the tile is drawn: a dot for an empty tile, a plus for a route,
    /// `b` and its id for a beacon, the arrow of its facing and its id for an
    /// airport.
    pub open spec fn glyph(self) -> Seq<char> {
        match self {
            WorldTile::Empty => ". "@,
            WorldTile::Route => "+ "@,
            WorldTile::Beacon(idx) => seq!['b'] + decimal(idx as nat),
            WorldTile::Airport(dir, idx) => seq![dir.glyph()] + decimal(idx as nat),
        }
    }

    /// Draws the tile.
    pub fn to_string(&self) -> (s: String)
        ensures
            s@ == self.glyph(),
    {
        let mut s = String::new();
        match self {
            Self::Empty => {
                push_text(&mut s, ". ");
            },
            Self::Route => {
                push_text(&mut s, "+ ");
            },
            Self::Beacon(idx) => {
                s.push('b');
                push_decimal(&mut s, *idx as u64);
            },
            Self::Airport(dir, idx) => {
                let arrow = dir.to_string();
                push_text(&mut s, arrow.as_str());
                push_decimal(&mut s, *idx as u64);
            },
        }
        assert(s@ =~= self.glyph());
        s
    }
}

impl Plane {
    /// The id as it is drawn on the map: lower case for a small plane,
    /// upper case for a jet.
    pub open spec fn shown_id(self) -> char {
        match self.kind {
            PlaneKind::Small => lower(self.id),
            PlaneKind::Jet => upper(self.id),
        }
    }

    /// How the plane is drawn: its id and its height.
    pub open spec fn glyph(self) -> Seq<char> {
        seq![self.shown_id()] + decimal(self.height as nat)
    }

    /// Draws the plane.
    pub fn to_string(&self) -> (s: String)
        ensures
            s@ == self.glyph(),
    {
        let id = match self.kind {
            PlaneKind::Small => to_lower(self.id),
            PlaneKind::Jet => to_upper(self.id),
        };
        let mut s = String::new();
        s.push(id);
        push_decimal(&mut s, self.height as u64);
        assert(s@ =~= self.glyph());
        s
    }
}

impl LandingFault {
    /// What went wrong, in words.
    pub open spec fn message(self) -> Seq<char> {
        match self {
            LandingFault::WrongDirection(_) => "Plane landed in the wrong direction"@,
            LandingFault::ExitBound(_) => "Landed at airport but should have used an exit"@,
        }
    }

    /// Says what went wrong.
    pub fn to_string(&self) -> (s: String)
        ensures
            s@ == self.message(),
    {
        match self {
            LandingFault::WrongDirection(_) => String::from_str(
                "Plane landed in the wrong direction",
            ),
            LandingFault::ExitBound(_) => String::from_str(
                "Landed at airport but should have used an exit",
            ),
        }
    }
}

impl State {
    /// What the player is told when the game has ended this way.
    pub open spec fn message(self) -> Seq<char> {
        match self {
            State::Ongoing => Seq::empty(),
            State::WrongExit(plane, eid) => "Plane "@.push(plane.id)
                + " exited at the wrong exit: "@ + decimal(eid as nat),
            State::PlaneCrash(plane) => "Plane "@.push(plane.id)
                + " crashed on the ground (height 0)"@,
            State::PlaneNoFuel(plane) => "Plane "@.push(plane.id) + " is out of fuel"@,
            State::WrongAirport(plane, aid) => "Plane "@.push(plane.id)
                + " landed at the wrong airport: "@ + decimal(aid as nat),
            State::PlaneCollision(pa, pb) => ("Plane "@.push(pa.id) + " collided with Plane "@).push(
                pb.id,
            ),
            State::PlaneTouchesWall(plane, _, _) => "Plane "@.push(plane.id)
                + " did not leave through an exit"@,
        }
    }

    /// Says how the game ended. There is nothing to say of a game that goes
    /// on.
    pub fn to_string(&self) -> (s: String)
        requires
            !(self is Ongoing),
        ensures
            s@ == self.message(),
    {
        let mut s = String::from_str("Plane ");
        match self {
            Self::Ongoing => {},
            Self::WrongExit(plane, eid) => {
                s.push(plane.id);
                push_text(&mut s, " exited at the wrong exit: ");
                push_decimal(&mut s, *eid as u64);
            },
            Self::PlaneCrash(plane) => {
                s.push(plane.id);
                push_text(&mut s, " crashed on the ground (height 0)");
            },
            Self::PlaneNoFuel(plane) => {
                s.push(plane.id);
                push_text(&mut s, " is out of fuel");
            },
            Self::WrongAirport(plane, aid) => {
                s.push(plane.id);
                push_text(&mut s, " landed at the wrong airport: ");
                push_decimal(&mut s, *aid as u64);
            },
            Self::PlaneCollision(pa, pb) => {
                s.push(pa.id);
                push_text(&mut s, " collided with Plane ");
                s.push(pb.id);
            },
            Self::PlaneTouchesWall(plane, _, _) => {
                s.push(plane.id);
                push_text(&mut s, " did not leave through an exit");
            },
        }
        assert(s@ =~= self.message());
        s
    }
}

impl WorldView {
    /// How the wall is drawn at an offset: the id of the exit that is
    /// there and a filler, or a plain piece of wall.
    pub open spec fn wall_glyph(self, pos: usize, dir: DirectionGrid) -> Seq<char> {
        match exit_at(self.exits, dir, pos) {
            Some(idx) => match dir {
                DirectionGrid::Up | DirectionGrid::Down => decimal(idx as nat) + "─"@,
                DirectionGrid::Left | DirectionGrid::Right => decimal(idx as nat) + " "@,
            },
            None => match dir {
                DirectionGrid::Up | DirectionGrid::Down => "──"@,
                DirectionGrid::Left | DirectionGrid::Right => "│ "@,
            },
        }
    }

    /// How a cell of the grid is drawn: the first plane that is there, or
    /// else the tile.
    pub open spec fn cell_glyph(self, pos: Pos) -> Seq<char> {
        let k = first_index(self.planes, is_at(pos));
        if k < self.planes.len() {
            self.planes[k].glyph()
        } else {
            self.tile(pos).glyph()
        }
    }

    /// The first `n` pieces of a wall, side by side.
    pub open spec fn wall_run(self, dir: DirectionGrid, n: nat) -> Seq<char>
        decreases n,
    {
        if n == 0 {
            Seq::empty()
        } else {
            self.wall_run(dir, (n - 1) as nat) + self.wall_glyph((n - 1) as usize, dir)
        }
    }

    /// The first `n` cells of row `y`, side by side.
    pub open spec fn cell_run(self, y: usize, n: nat) -> Seq<char>
        decreases n,
    {
        if n == 0 {
            Seq::empty()
        } else {
            self.cell_run(y, (n - 1) as nat) + self.cell_glyph(Pos { x: (n - 1) as usize, y })
        }
    }

    /// Row `y` as a line: the left wall, the cells and the right wall.
    pub open spec fn row_line(self, y: usize) -> Seq<char> {
        self.wall_glyph(y, DirectionGrid::Left) + self.cell_run(y, self.width as nat)
            + self.wall_glyph(y, DirectionGrid::Right)
    }

    /// The first `n` rows, each followed by a line break.
    pub open spec fn row_run(self, n: nat) -> Seq<char>
        decreases n,
    {
        if n == 0 {
            Seq::empty()
        } else {
            self.row_run((n - 1) as nat) + self.row_line((n - 1) as usize) + "\n"@
        }
    }

    /// The whole map: the upper border, the rows and the lower border, one
    /// line each.
    pub open spec fn rendered(self) -> Seq<char> {
        "┌─"@ + self.wall_run(DirectionGrid::Up, self.width as nat) + "┐"@ + "\n"@ + self.row_run(
            self.height as nat,
        ) + "└─"@ + self.wall_run(DirectionGrid::Down, self.width as nat) + "┘"@
    }
}

impl World {
    /// Draws the wall at an offset.
    fn get_wall(&self, pos: usize, dir: DirectionGrid) -> (s: String)
        ensures
            s@ == self@.wall_glyph(pos, dir),
    {
        let mut s = String::new();
        match self.exit_on_wall(dir, pos) {
            Some(idx) => {
                push_decimal(&mut s, idx as u64);
                match dir {
                    DirectionGrid::Up | DirectionGrid::Down => push_text(&mut s, "─"),
                    DirectionGrid::Left | DirectionGrid::Right => push_text(&mut s, " "),
                }
            },
            None => match dir {
                DirectionGrid::Up | DirectionGrid::Down => push_text(&mut s, "──"),
                DirectionGrid::Left | DirectionGrid::Right => push_text(&mut s, "│ "),
            },
        }
        assert(s@ =~= self@.wall_glyph(pos, dir));
        s
    }

    /// Draws a cell of the grid.
    fn get_cell(&self, pos: Pos) -> (s: String)
        requires
            self@.inv(),
            self@.contains(pos),
        ensures
            s@ == self@.cell_glyph(pos),
    {
        let mut i: usize = 0;
        while i < self.planes.len()
            invariant
                i <= self.planes.len(),
                forall|j: int| 0 <= j < i ==> !is_at(pos)(#[trigger] self.planes@[j]),
            decreases self.planes.len() - i,
        {
            let plane = self.planes[i];
            if plane.pos == pos {
                proof {
                    lemma_first_index_is(self.planes@, is_at(pos), i as int);
                }
                return plane.to_string();
            }
            i += 1;
        }
        proof {
            lemma_first_index_is(self.planes@, is_at(pos), self.planes@.len() as int);
            assert(self@.tiles[pos.y as int] == self.tiles@[pos.y as int]@);
        }
        self.tiles[pos.y][pos.x].to_string()
    }

    /// Appends a whole wall, without its corners.
    fn push_wall(&self, buf: &mut String, dir: DirectionGrid)
        ensures
            final(buf)@ == old(buf)@ + self@.wall_run(dir, self@.width as nat),
    {
        let mut x: usize = 0;
        assert(buf@ =~= old(buf)@ + self@.wall_run(dir, 0));
        while x < self.x
            invariant
                x <= self.x,
                self.x == self@.width,
                buf@ == old(buf)@ + self@.wall_run(dir, x as nat),
            decreases self.x - x,
        {
            let wall = self.get_wall(x, dir);
            push_text(buf, wall.as_str());
            x += 1;
            assert(buf@ =~= old(buf)@ + self@.wall_run(dir, x as nat));
        }
    }

    /// Appends a row: the left wall, the cells and the right wall.
    fn push_row(&self, buf: &mut String, y: usize)
        requires
            self@.inv(),
            y < self@.height,
        ensures
            final(buf)@ == old(buf)@ + self@.row_line(y),
    {
        let left = self.get_wall(y, DirectionGrid::Left);
        push_text(buf, left.as_str());
        let ghost start = buf@;
        let mut x: usize = 0;
        assert(buf@ =~= start + self@.cell_run(y, 0));
        while x < self.x
            invariant
                self@.inv(),
                y < self@.height,
                x <= self.x,
                self.x == self@.width,
                buf@ == start + self@.cell_run(y, x as nat),
            decreases self.x - x,
        {
            let cell = self.get_cell(Pos { x, y });
            push_text(buf, cell.as_str());
            x += 1;
            assert(buf@ =~= start + self@.cell_run(y, x as nat));
        }
        let right = self.get_wall(y, DirectionGrid::Right);
        push_text(buf, right.as_str());
        assert(buf@ =~= old(buf)@ + self@.row_line(y));
    }

    /// Draws the map: a bordered rectangle in which every cell takes two
    /// characters. A cell shows the first plane that is on it, or else its
    /// tile; the border shows the ids of the exits.
    pub fn to_string(&self) -> (s: String)
        requires
            self@.inv(),
        ensures
            s@ == self@.rendered(),
    {
        let mut buf = String::new();
        push_text(&mut buf, "┌─");
        self.push_wall(&mut buf, DirectionGrid::Up);
        buf.push('┐');
        buf.push('\n');
        let ghost start = buf@;
        proof {
            reveal_strlit("┐");
            reveal_strlit("\n");
            assert(start =~= "┌─"@ + self@.wall_run(DirectionGrid::Up, self@.width as nat) + "┐"@
                + "\n"@);
        }
        let mut y: usize = 0;
        assert(buf@ =~= start + self@.row_run(0));
        while y < self.y
            invariant
                self@.inv(),
                y <= self.y,
                self.y == self@.height,
                buf@ == start + self@.row_run(y as nat),
            decreases self.y - y,
        {
            self.push_row(&mut buf, y);
            buf.push('\n');
            y += 1;
            proof {
                reveal_strlit("\n");
                assert(buf@ =~= start + self@.row_run(y as nat));
            }
        }
        push_text(&mut buf, "└─");
        self.push_wall(&mut buf, DirectionGrid::Down);
        buf.push('┘');
        proof {
            reveal_strlit("┘");
            assert(buf@ =~= self@.rendered());
        }
        buf
    }
}

} // verus!
