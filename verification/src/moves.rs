use vstd::prelude::*;

use crate::cube::{spec_apply_move, Cube};

verus! {

/// One of the six faces of the cube.
#[derive(Clone, Copy, PartialEq, Eq, Structural, Debug, Hash)]
pub enum Side {
    UP,
    DOWN,
    FRONT,
    BACK,
    RIGHT,
    LEFT,
}

/// How far a face is turned: one quarter turn clockwise (`RIGHT`),
/// three quarter turns (`LEFT`, the counter-clockwise turn), or two (`TWO`).
#[derive(Clone, Copy, PartialEq, Eq, Structural, Debug)]
pub enum Turn {
    RIGHT,
    LEFT,
    TWO,
}

/// A move seen abstractly: which face, turned how far.
pub type MovePair = (Side, Turn);

/// The inverse turn: together with the original it turns the face a full circle.
pub open spec fn spec_invert_turn(t: Turn) -> Turn {
    match t {
        Turn::RIGHT => Turn::LEFT,
        Turn::LEFT => Turn::RIGHT,
        Turn::TWO => Turn::TWO,
    }
}

/// The side listed at position `i` of the canonical move order.
pub open spec fn side_order() -> Seq<Side> {
    seq![Side::UP, Side::DOWN, Side::FRONT, Side::BACK, Side::RIGHT, Side::LEFT]
}

/// The turn listed at position `i` of the canonical move order.
pub open spec fn turn_order() -> Seq<Turn> {
    seq![Turn::RIGHT, Turn::LEFT, Turn::TWO]
}

/// The canonical enumeration of the eighteen legal moves: side-major, turn-minor.
pub open spec fn all_move_pairs() -> Seq<MovePair> {
    Seq::new(18, |i: int| (side_order()[i / 3], turn_order()[i % 3]))
}

/// The letter of a side in standard notation.
pub open spec fn side_char(s: Side) -> char {
    match s {
        Side::UP => 'U',
        Side::DOWN => 'D',
        Side::FRONT => 'F',
        Side::BACK => 'B',
        Side::RIGHT => 'R',
        Side::LEFT => 'L',
    }
}

/// The side named by a letter, if any.
pub open spec fn side_of_char(c: char) -> Option<Side> {
    if c == 'U' {
        Some(Side::UP)
    } else if c == 'D' {
        Some(Side::DOWN)
    } else if c == 'F' {
        Some(Side::FRONT)
    } else if c == 'B' {
        Some(Side::BACK)
    } else if c == 'R' {
        Some(Side::RIGHT)
    } else if c == 'L' {
        Some(Side::LEFT)
    } else {
        None
    }
}

/// The text of one move in standard notation: the side letter, then
/// nothing for a clockwise turn, `'` for a counter-clockwise one, `2` for a half turn.
pub open spec fn move_chars(p: MovePair) -> Seq<char> {
    match p.1 {
        Turn::RIGHT => seq![side_char(p.0)],
        Turn::LEFT => seq![side_char(p.0), '\''],
        Turn::TWO => seq![side_char(p.0), '2'],
    }
}

/// What a token of text denotes: a side letter alone is a clockwise turn;
/// a trailing `'` or `2` picks the other turns; anything else is no move.
pub open spec fn parse_move_chars(cs: Seq<char>) -> Option<MovePair> {
    if cs.len() == 1 {
        match side_of_char(cs[0]) {
            Some(s) => Some((s, Turn::RIGHT)),
            None => None,
        }
    } else if cs.len() == 2 {
        match side_of_char(cs[0]) {
            Some(s) => {
                if cs[1] == '\'' {
                    Some((s, Turn::LEFT))
                } else if cs[1] == '2' {
                    Some((s, Turn::TWO))
                } else {
                    None
                }
            },
            None => None,
        }
    } else {
        None
    }
}

/// Reading back the text of a move yields that move: the token grammar
/// is unambiguous over the eighteen legal moves.
pub proof fn lemma_move_chars_round_trip(p: MovePair)
    ensures
        parse_move_chars(move_chars(p)) == Some(p),
{
}

/// A concrete encoding of the eighteen legal moves. Every encoding denotes
/// a `(Side, Turn)` pair, and all its operations are pinned to that pair,
/// so interchangeable encodings act identically on cubes.
pub trait Move: Sized + Copy {
    /// Which face this move turns.
    spec fn side_spec(&self) -> Side;

    /// How far this move turns the face.
    spec fn turn_spec(&self) -> Turn;

    /// Apply this move to a cube, as the group action of its pair.
    fn apply(&self, cube: &Cube) -> (r: Cube)
        requires
            cube@.wf(),
        ensures
            r@ == spec_apply_move(cube@, self.side_spec(), self.turn_spec()),
            r@.wf(),
    ;

    /// The eighteen legal moves, in the canonical side-major, turn-minor order.
    fn all_moves() -> (r: Vec<Self>)
        ensures
            r@.len() == 18,
            forall|i: int|
                0 <= i < 18 ==> ((#[trigger] r@[i]).side_spec() == all_move_pairs()[i].0
                    && r@[i].turn_spec() == all_move_pairs()[i].1),
    ;

    /// Read one move from standard notation; `None` on any other text.
    fn parse(s: &str) -> (r: Option<Self>)
        ensures
            match r {
                Some(m) => parse_move_chars(s@) == Some((m.side_spec(), m.turn_spec())),
                None => parse_move_chars(s@) is None,
            },
    ;

    /// Write this move in standard notation; the exact inverse of `parse`.
    fn format(&self) -> (r: String)
        ensures
            r@ == move_chars((self.side_spec(), self.turn_spec())),
    ;

    /// The move that undoes this one: same side, inverse turn.
    fn invert(&self) -> (r: Self)
        ensures
            r.side_spec() == self.side_spec(),
            r.turn_spec() == spec_invert_turn(self.turn_spec()),
    ;
}

} // verus!
