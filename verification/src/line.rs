//! The digital line between two cells of a grid.
//!
//! The line runs along its major axis, the one on which the two cells lie
//! further apart, one cell per step. On the other axis it follows the true
//! line, rounded to the nearest cell, halves rounded away from the start.

use vstd::prelude::*;
use vstd::arithmetic::div_mod::{
    lemma_fundamental_div_mod,
    lemma_fundamental_div_mod_converse,
    lemma_mod_bound,
};
use crate::world::Pos;

verus! {

/// The distance between two coordinates.
pub open spec fn span(from: usize, to: usize) -> nat {
    if from <= to {
        (to - from) as nat
    } else {
        (from - to) as nat
    }
}

/// The number of steps from `a` to `b`: the larger of the two distances.
pub open spec fn steps(a: Pos, b: Pos) -> nat {
    if span(a.x, b.x) > span(a.y, b.y) {
        span(a.x, b.x)
    } else {
        span(a.y, b.y)
    }
}

/// How far the line has come on its minor axis after `i` steps on its major
/// axis, where the ends lie `major` and `minor` apart: `i * minor / major`,
/// rounded to the nearest whole number, halves up.
pub open spec fn minor_offset(major: nat, minor: nat, i: nat) -> nat {
    if major == 0 {
        0
    } else {
        (doubled(major, minor, i) / (2 * major as int)) as nat
    }
}

/// Twice the true offset on the minor axis after `i` steps, in units of
/// `1 / major`, and half a cell more.
pub open spec fn doubled(major: nat, minor: nat, i: nat) -> int {
    2 * (minor as int) * (i as int) + (major as int)
}

/// The value of the error accumulator after `i` steps. The next step also
/// advances on the minor axis exactly when it is not negative.
pub open spec fn accumulator(major: nat, minor: nat, i: nat) -> int {
    doubled(major, minor, i) % (2 * major as int) + 2 * minor - 2 * major
}

/// The coordinate that lies `by` from `from` in the direction of `to`. Where
/// the two are equal the direction is that of falling coordinates.
pub open spec fn toward(from: usize, to: usize, by: nat) -> int {
    if to > from {
        from + by
    } else {
        from - by
    }
}

/// The cell of the line from `a` to `b` after `i` steps.
pub open spec fn line_cell(a: Pos, b: Pos, i: nat) -> Pos {
    let dx = span(a.x, b.x);
    let dy = span(a.y, b.y);
    if dx > dy {
        Pos {
            x: toward(a.x, b.x, i) as usize,
            y: toward(a.y, b.y, minor_offset(dx, dy, i)) as usize,
        }
    } else {
        Pos {
            x: toward(a.x, b.x, minor_offset(dy, dx, i)) as usize,
            y: toward(a.y, b.y, i) as usize,
        }
    }
}

/// The cells of the line from `a` to `b`, in order.
pub open spec fn line(a: Pos, b: Pos) -> Seq<Pos> {
    Seq::new(steps(a, b) + 1, |i: int| line_cell(a, b, i as nat))
}

/// `lo` and `hi` are next to each other or equal.
pub open spec fn adjacent(lo: usize, hi: usize) -> bool {
    span(lo, hi) <= 1
}

proof fn lemma_doubled(major: nat, minor: nat, i: nat)
    ensures
        doubled(major, minor, i + 1) == doubled(major, minor, i) + 2 * minor,
        doubled(major, minor, 0) == major,
        major <= doubled(major, minor, i),
{
    let m = minor as int;
    let k = i as int;
    assert(2 * m * (k + 1) == 2 * m * k + 2 * m) by (nonlinear_arith);
    assert(0 <= 2 * m * k) by (nonlinear_arith)
        requires
            0 <= m,
            0 <= k,
    ;
}

/// The accumulator starts at `2 * minor - major`, stays within
/// `2 * minor - 2 * major ..< 2 * minor`, and tells each step whether the
/// line advances on its minor axis: it does when the accumulator is not
/// negative, and `2 * major` is then taken off; `2 * minor` is added at every
/// step.
pub proof fn lemma_accumulator(major: nat, minor: nat, i: nat)
    requires
        0 < major,
        minor <= major,
    ensures
        accumulator(major, minor, 0) == 2 * minor - major,
        minor_offset(major, minor, 0) == 0,
        2 * minor - 2 * major <= accumulator(major, minor, i) < 2 * minor,
        accumulator(major, minor, i) >= 0 ==> {
            &&& minor_offset(major, minor, i + 1) == minor_offset(major, minor, i) + 1
            &&& accumulator(major, minor, i + 1) == accumulator(major, minor, i) - 2 * major + 2
                * minor
        },
        accumulator(major, minor, i) < 0 ==> {
            &&& minor_offset(major, minor, i + 1) == minor_offset(major, minor, i)
            &&& accumulator(major, minor, i + 1) == accumulator(major, minor, i) + 2 * minor
        },
{
    let d: int = 2 * major as int;
    lemma_doubled(major, minor, i);
    // the start
    lemma_fundamental_div_mod_converse(major as int, d, 0, major as int);
    // step i
    let n: int = doubled(major, minor, i);
    let q = n / d;
    let r = n % d;
    lemma_fundamental_div_mod(n, d);
    lemma_mod_bound(n, d);
    assert(d * q == q * d) by (nonlinear_arith);
    assert((q + 1) * d == q * d + d) by (nonlinear_arith);
    assert(0 <= q) by (nonlinear_arith)
        requires
            0 <= n,
            0 < d,
            n == q * d + r,
            0 <= r < d,
    ;
    let n1: int = doubled(major, minor, i + 1);
    if r + 2 * minor >= d {
        lemma_fundamental_div_mod_converse(n1, d, q + 1, r + 2 * minor - d);
    } else {
        lemma_fundamental_div_mod_converse(n1, d, q, r + 2 * minor);
    }
}

/// The line advances on its minor axis by at most one cell per step, never
/// goes back, starts at no offset and ends, after `major` steps, at the
/// offset `minor`.
pub proof fn lemma_minor_offset(major: nat, minor: nat, i: nat)
    requires
        minor <= major,
        i <= major,
    ensures
        minor_offset(major, minor, 0) == 0,
        minor_offset(major, minor, major) == minor,
        minor_offset(major, minor, i) <= minor,
        minor_offset(major, minor, i) <= i,
        i < major ==> minor_offset(major, minor, i) <= minor_offset(major, minor, i + 1)
            <= minor_offset(major, minor, i) + 1,
    decreases major - i,
{
    if major > 0 {
        let d: int = 2 * major as int;
        lemma_accumulator(major, minor, i);
        // the end
        assert(doubled(major, minor, major) == minor * d + major) by (nonlinear_arith)
            requires
                d == 2 * major,
                doubled(major, minor, major) == 2 * (minor as int) * (major as int) + (major as int),
        ;
        lemma_fundamental_div_mod_converse(
            doubled(major, minor, major),
            d,
            minor as int,
            major as int,
        );
        if i < major {
            lemma_minor_offset(major, minor, i + 1);
        }
        // the offset is at most the number of steps
        let n: int = doubled(major, minor, i);
        let q = n / d;
        let r = n % d;
        lemma_fundamental_div_mod(n, d);
        lemma_mod_bound(n, d);
        assert(q <= i) by (nonlinear_arith)
            requires
                n == 2 * (minor as int) * (i as int) + (major as int),
                n == d * q + r,
                0 <= r,
                d == 2 * major,
                minor <= major,
                0 < major,
                0 <= i,
        ;
    }
}

/// Every cell of the line lies between its two ends, on both axes, and the
/// coordinates of the cell are those that `toward` gives.
pub proof fn lemma_line_cell_within(a: Pos, b: Pos, i: nat)
    requires
        i <= steps(a, b),
    ensures
        a.x <= b.x ==> a.x <= line_cell(a, b, i).x <= b.x,
        b.x <= a.x ==> b.x <= line_cell(a, b, i).x <= a.x,
        a.y <= b.y ==> a.y <= line_cell(a, b, i).y <= b.y,
        b.y <= a.y ==> b.y <= line_cell(a, b, i).y <= a.y,
        span(a.x, b.x) > span(a.y, b.y) ==> {
            &&& line_cell(a, b, i).x == toward(a.x, b.x, i)
            &&& line_cell(a, b, i).y == toward(
                a.y,
                b.y,
                minor_offset(span(a.x, b.x), span(a.y, b.y), i),
            )
        },
        span(a.x, b.x) <= span(a.y, b.y) ==> {
            &&& line_cell(a, b, i).x == toward(
                a.x,
                b.x,
                minor_offset(span(a.y, b.y), span(a.x, b.x), i),
            )
            &&& line_cell(a, b, i).y == toward(a.y, b.y, i)
        },
{
    let dx = span(a.x, b.x);
    let dy = span(a.y, b.y);
    if dx > dy {
        lemma_minor_offset(dx, dy, i);
    } else {
        lemma_minor_offset(dy, dx, i);
    }
}

/// The line starts at `a` and ends at `b`.
pub proof fn lemma_line_ends(a: Pos, b: Pos)
    ensures
        line(a, b).len() == steps(a, b) + 1,
        line(a, b).first() == a,
        line(a, b).last() == b,
        line(a, b).contains(a),
        line(a, b).contains(b),
{
    let dx = span(a.x, b.x);
    let dy = span(a.y, b.y);
    if dx > dy {
        lemma_minor_offset(dx, dy, 0);
    } else {
        lemma_minor_offset(dy, dx, 0);
    }
    lemma_line_cell_within(a, b, 0);
    lemma_line_cell_within(a, b, steps(a, b));
    assert(line(a, b)[0] == a);
    assert(line(a, b)[steps(a, b) as int] == b);
}

/// The line has no gaps: each cell touches the next one, by a side or by a
/// corner, and is not that cell.
pub proof fn lemma_line_connected(a: Pos, b: Pos, i: nat)
    requires
        i < steps(a, b),
    ensures
        adjacent(line_cell(a, b, i).x, line_cell(a, b, i + 1).x),
        adjacent(line_cell(a, b, i).y, line_cell(a, b, i + 1).y),
        line_cell(a, b, i) != line_cell(a, b, i + 1),
{
    let dx = span(a.x, b.x);
    let dy = span(a.y, b.y);
    lemma_line_cell_within(a, b, i);
    lemma_line_cell_within(a, b, i + 1);
    if dx > dy {
        lemma_minor_offset(dx, dy, i);
    } else {
        lemma_minor_offset(dy, dx, i);
    }
}

/// No cell occurs twice on the line.
pub proof fn lemma_line_distinct(a: Pos, b: Pos, i: nat, j: nat)
    requires
        i < j <= steps(a, b),
    ensures
        line_cell(a, b, i) != line_cell(a, b, j),
{
    lemma_line_cell_within(a, b, i);
    lemma_line_cell_within(a, b, j);
}

/// The line covers as many cells as it has steps, and one more.
pub proof fn lemma_line_count(a: Pos, b: Pos)
    ensures
        line(a, b).no_duplicates(),
        line(a, b).to_set().len() == steps(a, b) + 1,
{
    let l = line(a, b);
    assert forall|i: int, j: int| 0 <= i < l.len() && 0 <= j < l.len() && i != j implies l[i]
        != l[j] by {
        if i < j {
            lemma_line_distinct(a, b, i as nat, j as nat);
        } else {
            lemma_line_distinct(a, b, j as nat, i as nat);
        }
    }
    l.unique_seq_to_set();
}

} // verus!
