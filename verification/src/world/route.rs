//! Painting a route along the digital line between two cells.

use vstd::prelude::*;
use crate::error::Error;
use crate::line::{
    accumulator,
    lemma_accumulator,
    lemma_line_cell_within,
    lemma_line_ends,
    line,
    line_cell,
    minor_offset,
    span,
    steps,
};
use crate::world::{Pos, World, WorldTile, WorldView};

verus! {

impl WorldView {
    /// Why no route can be drawn from `a` to `b`: `a` is looked at first.
    pub open spec fn route_error(self, a: Pos, b: Pos) -> Option<Error> {
        if self.bounds_error(a) is Some {
            self.bounds_error(a)
        } else {
            self.bounds_error(b)
        }
    }

    /// The world with a route tile on each of `cells` and every other tile
    /// as it was.
    pub open spec fn with_route(self, cells: Seq<Pos>) -> WorldView {
        WorldView {
            tiles: Seq::new(
                self.height as nat,
                |y: int|
                    Seq::new(
                        self.width as nat,
                        |x: int|
                            if cells.contains(Pos { x: x as usize, y: y as usize }) {
                                WorldTile::Route
                            } else {
                                self.tiles[y][x]
                            },
                    ),
            ),
            ..self
        }
    }
}

/// Painting one more cell of a line is painting the line up to that cell.
proof fn lemma_route_grows(w: WorldView, cells: Seq<Pos>, k: int)
    requires
        w.inv(),
        0 <= k < cells.len(),
        w.contains(cells[k]),
    ensures
        w.with_route(cells.take(k)).with_tile(cells[k], WorldTile::Route) == w.with_route(
            cells.take(k + 1),
        ),
{
    let before = cells.take(k);
    let after = cells.take(k + 1);
    let pos = cells[k];
    assert forall|p: Pos| after.contains(p) <==> (before.contains(p) || p == pos) by {
        if after.contains(p) {
            let j = choose|j: int| 0 <= j < after.len() && after[j] == p;
            if j < k {
                assert(before[j] == p);
            }
        }
        if before.contains(p) {
            let j = choose|j: int| 0 <= j < before.len() && before[j] == p;
            assert(after[j] == p);
        }
        if p == pos {
            assert(after[k] == p);
        }
    }
    let lhs = w.with_route(before).with_tile(pos, WorldTile::Route);
    let rhs = w.with_route(after);
    assert(lhs.tiles.len() == rhs.tiles.len());
    assert forall|y: int| 0 <= y < lhs.tiles.len() implies lhs.tiles[y] =~= rhs.tiles[y] by {
        assert forall|x: int| 0 <= x < w.width implies lhs.tiles[y][x] == rhs.tiles[y][x] by {
            let p = Pos { x: x as usize, y: y as usize };
            assert(after.contains(p) <==> (before.contains(p) || p == pos));
        }
    }
    assert(lhs.tiles =~= rhs.tiles);
}

/// A world on which no cell is painted is the world itself.
proof fn lemma_route_empty(w: WorldView)
    requires
        w.inv(),
    ensures
        w.with_route(Seq::<Pos>::empty()) == w,
{
    assert(w.with_route(Seq::<Pos>::empty()).tiles =~~= w.tiles);
}

/// No route can be drawn exactly if one of its ends lies outside the grid,
/// and the error is then one of bounds.
pub proof fn lemma_route_error(w: WorldView, a: Pos, b: Pos)
    ensures
        w.route_error(a, b) is Some <==> !w.contains(a) || !w.contains(b),
        w.route_error(a, b) is Some ==> w.route_error(a, b)->0 is PosOutOfBounds,
{
}

/// A route between two cells of the grid lies in the grid. It puts a route
/// tile on both cells and on every cell of the line between them, and leaves
/// every other tile as it was. The cells it covers are as many as the larger
/// of the two distances between its ends, and one more.
pub proof fn lemma_route_painted(w: WorldView, a: Pos, b: Pos)
    requires
        w.inv(),
        w.contains(a),
        w.contains(b),
    ensures
        w.route_error(a, b) is None,
        w.with_route(line(a, b)).inv(),
        w.with_route(line(a, b)).tile(a) == WorldTile::Route,
        w.with_route(line(a, b)).tile(b) == WorldTile::Route,
        forall|i: int| 0 <= i < line(a, b).len() ==> w.contains(#[trigger] line(a, b)[i]),
        forall|p: Pos|
            w.contains(p) ==> #[trigger] w.with_route(line(a, b)).tile(p) == if line(
                a,
                b,
            ).contains(p) {
                WorldTile::Route
            } else {
                w.tile(p)
            },
        line(a, b).no_duplicates(),
        line(a, b).to_set().len() == steps(a, b) + 1,
        steps(a, b) == if span(a.x, b.x) > span(a.y, b.y) {
            span(a.x, b.x)
        } else {
            span(a.y, b.y)
        },
{
    lemma_line_ends(a, b);
    crate::line::lemma_line_count(a, b);
    assert forall|i: int| 0 <= i < line(a, b).len() implies w.contains(
        #[trigger] line(a, b)[i],
    ) by {
        lemma_line_cell_within(a, b, i as nat);
    }
}

/// The coordinate that lies `by` from `from`, forward or backward.
fn shifted(from: usize, forward: bool, by: usize) -> (r: usize)
    requires
        forward ==> from + by <= usize::MAX,
        !forward ==> by <= from,
    ensures
        r == if forward {
            from + by
        } else {
            from - by
        },
{
    if forward {
        from + by
    } else {
        from - by
    }
}

/// The distance between two coordinates.
fn distance(from: usize, to: usize) -> (r: usize)
    ensures
        r == span(from, to),
{
    if from <= to {
        to - from
    } else {
        from - to
    }
}

impl World {
    /// Paints a route tile on every cell of the digital line from `a` to
    /// `b`, both ends included. Both ends are checked first, `a` before `b`:
    /// if one lies outside the grid nothing is painted.
    pub fn place_route_in_line(&mut self, a: Pos, b: Pos) -> (r: Result<&mut Self, Error>)
        requires
            old(self)@.inv(),
        ensures
            match r {
                Ok(w) => {
                    &&& old(self)@.route_error(a, b) is None
                    &&& w@ == old(self)@.with_route(line(a, b))
                    &&& w@.inv()
                    &&& *final(self) == *final(w)
                },
                Err(e) => {
                    &&& old(self)@.route_error(a, b) == Some(e)
                    &&& *final(self) == *old(self)
                },
            },
    {
        match self.check_pos_bounds(a) {
            Ok(()) => {},
            Err(e) => {
                return Err(e);
            },
        }
        match self.check_pos_bounds(b) {
            Ok(()) => {},
            Err(e) => {
                return Err(e);
            },
        }
        let east = b.x > a.x;
        let south = b.y > a.y;
        let dx = distance(a.x, b.x);
        let dy = distance(a.y, b.y);
        let flat = dx > dy;
        let major = if flat {
            dx
        } else {
            dy
        };
        let minor = if flat {
            dy
        } else {
            dx
        };
        let mut d: i128 = 2 * (minor as i128) - (major as i128);
        let mut off: usize = 0;
        let mut k: usize = 0;
        let ghost cells = line(a, b);
        proof {
            lemma_line_ends(a, b);
            lemma_route_empty(old(self)@);
            lemma_route_grows(old(self)@, cells, 0);
            assert(cells.take(0) =~= Seq::<Pos>::empty());
            assert(cells[0] == a);
            if major > 0 {
                lemma_accumulator(major as nat, minor as nat, 0);
            }
        }
        match self.place_tile(WorldTile::Route, a) {
            Ok(_) => {},
            Err(e) => {
                return Err(e);
            },
        }
        while k < major
            invariant
                old(self)@.inv(),
                old(self)@.contains(a),
                old(self)@.contains(b),
                cells == line(a, b),
                east == (b.x > a.x),
                south == (b.y > a.y),
                flat == (span(a.x, b.x) > span(a.y, b.y)),
                major == steps(a, b),
                major == if flat {
                    span(a.x, b.x)
                } else {
                    span(a.y, b.y)
                },
                minor == if flat {
                    span(a.y, b.y)
                } else {
                    span(a.x, b.x)
                },
                minor <= major,
                k <= major,
                off == minor_offset(major as nat, minor as nat, k as nat),
                major > 0 ==> d == accumulator(major as nat, minor as nat, k as nat),
                self@ == old(self)@.with_route(cells.take(k + 1)),
                self@.inv(),
            decreases major - k,
        {
            proof {
                lemma_accumulator(major as nat, minor as nat, k as nat);
                lemma_line_cell_within(a, b, (k + 1) as nat);
            }
            if d >= 0 {
                off += 1;
                d -= 2 * (major as i128);
            }
            d += 2 * (minor as i128);
            k += 1;
            let pos = if flat {
                Pos { x: shifted(a.x, east, k), y: shifted(a.y, south, off) }
            } else {
                Pos { x: shifted(a.x, east, off), y: shifted(a.y, south, k) }
            };
            proof {
                assert(pos == line_cell(a, b, k as nat));
                assert(pos == cells[k as int]);
                lemma_route_grows(old(self)@, cells, k as int);
            }
            match self.place_tile(WorldTile::Route, pos) {
                Ok(_) => {},
                Err(e) => {
                    return Err(e);
                },
            }
        }
        assert(cells.take(k + 1) =~= cells);
        Ok(self)
    }
}

} // verus!
