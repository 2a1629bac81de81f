//! The human move source: each line read from the operator is tried as
//! algebraic notation against the current position; an unparseable or
//! illegal line is discarded and another is read, indefinitely, so a move
//! is returned exactly when a line finally denotes a legal move.

use vstd::prelude::*;

use crate::position::{san_move_token, Position};

verus! {

/// What became of one line of operator input.
#[derive(PartialEq, Eq, Debug)]
pub enum LineVerdict {
    /// The line denotes a legal move here: its coordinate-notation token.
    Accepted(String),
    /// The line does not parse, or parses to no unique legal move here:
    /// discard it and read another.
    Rejected,
}

/// Tries one line of input as a move in the given position.
pub fn consider_line(p: &Position, line: &str) -> (r: LineVerdict)
    ensures
        match r {
            LineVerdict::Accepted(t) => san_move_token(p.history(), line@) == Some(t@),
            LineVerdict::Rejected => san_move_token(p.history(), line@) is None,
        },
{
    match p.san_to_uci(line) {
        Some(t) => LineVerdict::Accepted(t),
        None => LineVerdict::Rejected,
    }
}

/// The retry loop over a fixed sequence of input lines: rejects every
/// line before the first acceptable one and returns that line's move
/// token with the number of attempts spent, or nothing when no line is
/// acceptable.
pub fn first_accepted(p: &Position, lines: &Vec<String>) -> (r: Option<(usize, String)>)
    ensures
        match r {
            Some((i, t)) => {
                &&& i < lines@.len()
                &&& san_move_token(p.history(), lines@[i as int]@) == Some(t@)
                &&& forall|j: int|
                    0 <= j < i ==> (#[trigger] san_move_token(p.history(), lines@[j]@)) is None
            },
            None => forall|j: int|
                0 <= j < lines@.len() ==> (#[trigger] san_move_token(p.history(), lines@[j]@))
                    is None,
        },
{
    let mut i: usize = 0;
    while i < lines.len()
        invariant
            i <= lines.len(),
            forall|j: int|
                0 <= j < i ==> (#[trigger] san_move_token(p.history(), lines@[j]@)) is None,
        decreases lines.len() - i,
    {
        match consider_line(p, lines[i].as_str()) {
            LineVerdict::Accepted(t) => {
                return Some((i, t));
            },
            LineVerdict::Rejected => {
                i += 1;
            },
        }
    }
    None
}

} // verus!
