//! The errors that placement and movement can report.

use vstd::prelude::*;
use crate::text::{decimal, signed_decimal, push_decimal, push_signed_decimal, push_text};

verus! {

/// What went wrong in a placement, a spawn or a move.
#[derive(Copy, Clone, Debug, PartialEq, Eq)]
pub enum Error {
    /// The plane with this id would have left the representable grid.
    PlaneNextPosBad(char),
    /// An exit's offset (first) is not below the length of its wall (second).
    ExitPosOutOfBounds(usize, usize),
    /// A coordinate (first) is not below the grid's extent (second).
    PosOutOfBounds(usize, usize),
    /// No exit is registered under this id.
    NoExitForID(u8),
    /// A signed coordinate pair with a negative component.
    PosFromSigned((i32, i32)),
}

impl Error {
    /// The message of this error.
    pub open spec fn message(self) -> Seq<char> {
        match self {
            Error::PlaneNextPosBad(id) => "Plane "@.push(id) + " tried to go to a bad position"@,
            Error::ExitPosOutOfBounds(pos, limit) => "Exit position is out of bounds: not "@
                + decimal(pos as nat) + " < "@ + decimal(limit as nat),
            Error::PosOutOfBounds(pos, limit) => "Position is out of bounds: not "@ + decimal(
                pos as nat,
            ) + " < "@ + decimal(limit as nat),
            Error::NoExitForID(id) => "No Exit exists for ID "@ + decimal(id as nat),
            Error::PosFromSigned(pair) => "Negative Positions are not allowed: ("@
                + signed_decimal(pair.0 as int) + ", "@ + signed_decimal(pair.1 as int) + ")"@,
        }
    }

    /// Renders this error as a message for the player.
    pub fn to_string(&self) -> (s: String)
        ensures
            s@ == self.message(),
    {
        let mut s = String::new();
        match *self {
            Error::PlaneNextPosBad(id) => {
                push_text(&mut s, "Plane ");
                s.push(id);
                push_text(&mut s, " tried to go to a bad position");
            },
            Error::ExitPosOutOfBounds(pos, limit) => {
                push_text(&mut s, "Exit position is out of bounds: not ");
                push_decimal(&mut s, pos as u64);
                push_text(&mut s, " < ");
                push_decimal(&mut s, limit as u64);
            },
            Error::PosOutOfBounds(pos, limit) => {
                push_text(&mut s, "Position is out of bounds: not ");
                push_decimal(&mut s, pos as u64);
                push_text(&mut s, " < ");
                push_decimal(&mut s, limit as u64);
            },
            Error::NoExitForID(id) => {
                push_text(&mut s, "No Exit exists for ID ");
                push_decimal(&mut s, id as u64);
            },
            Error::PosFromSigned(pair) => {
                push_text(&mut s, "Negative Positions are not allowed: (");
                push_signed_decimal(&mut s, pair.0 as i64);
                push_text(&mut s, ", ");
                push_signed_decimal(&mut s, pair.1 as i64);
                push_text(&mut s, ")");
            },
        }
        assert(s@ =~= self.message());
        s
    }
}

} // verus!
