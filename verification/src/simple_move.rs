use vstd::prelude::*;

use crate::cube::Cube;
use crate::moves::{
    all_move_pairs, move_chars, parse_move_chars, spec_invert_turn, Move, Side, Turn,
};

verus! {

/// The plain move encoding: a side and a turn amount, applied by repeating
/// the side's quarter turn.
#[derive(Clone, Copy, PartialEq, Eq, Structural, Debug)]
pub struct SimpleMove {
    pub side: Side,
    pub turns: Turn,
}

impl Move for SimpleMove {
    open spec fn side_spec(&self) -> Side {
        self.side
    }

    open spec fn turn_spec(&self) -> Turn {
        self.turns
    }

    fn apply(&self, cube: &Cube) -> (r: Cube) {
        match self.turns {
            Turn::RIGHT => cube.quarter_turn(self.side),
            Turn::TWO => cube.quarter_turn(self.side).quarter_turn(self.side),
            Turn::LEFT => cube.quarter_turn(self.side).quarter_turn(self.side).quarter_turn(
                self.side,
            ),
        }
    }

    fn all_moves() -> (r: Vec<SimpleMove>) {
        let mut r: Vec<SimpleMove> = Vec::new();
        let sides = [Side::UP, Side::DOWN, Side::FRONT, Side::BACK, Side::RIGHT, Side::LEFT];
        let mut i: usize = 0;
        while i < 6
            invariant
                i <= 6,
                sides@ =~= crate::moves::side_order(),
                r@.len() == 3 * i,
            (forall|k: int|
                0 <= k < 3 * i ==> ((#[trigger] r@[k]).side == all_move_pairs()[k].0 && r@[k].turns
                    == all_move_pairs()[k].1)),
            decreases 6 - i,
        {
            let s = sides[i];
            r.push(SimpleMove { side: s, turns: Turn::RIGHT });
            r.push(SimpleMove { side: s, turns: Turn::LEFT });
            r.push(SimpleMove { side: s, turns: Turn::TWO });
            i += 1;
        }
        r
    }

    fn parse(s: &str) -> (r: Option<SimpleMove>) {
        let n = s.unicode_len();
        if n == 0 || n > 2 {
            return None;
        }
        let c0 = s.get_char(0);
        let side = if c0 == 'U' {
            Side::UP
        } else if c0 == 'D' {
            Side::DOWN
        } else if c0 == 'F' {
            Side::FRONT
        } else if c0 == 'B' {
            Side::BACK
        } else if c0 == 'R' {
            Side::RIGHT
        } else if c0 == 'L' {
            Side::LEFT
        } else {
            return None;
        };
        if n == 1 {
            return Some(SimpleMove { side, turns: Turn::RIGHT });
        }
        let c1 = s.get_char(1);
        if c1 == '\'' {
            Some(SimpleMove { side, turns: Turn::LEFT })
        } else if c1 == '2' {
            Some(SimpleMove { side, turns: Turn::TWO })
        } else {
            None
        }
    }

    fn format(&self) -> (r: String) {
        let letter: &str = match self.side {
            Side::UP => "U",
            Side::DOWN => "D",
            Side::FRONT => "F",
            Side::BACK => "B",
            Side::RIGHT => "R",
            Side::LEFT => "L",
        };
        let suffix: &str = match self.turns {
            Turn::RIGHT => "",
            Turn::LEFT => "'",
            Turn::TWO => "2",
        };
        proof {
            reveal_strlit("U");
            reveal_strlit("D");
            reveal_strlit("F");
            reveal_strlit("B");
            reveal_strlit("R");
            reveal_strlit("L");
            reveal_strlit("");
            reveal_strlit("'");
            reveal_strlit("2");
        }
        let r = String::from_str(letter).concat(suffix);
        proof {
            assert(r@ =~= move_chars((self.side, self.turns)));
        }
        r
    }

    fn invert(&self) -> (r: SimpleMove) {
        SimpleMove {
            side: self.side,
            turns: match self.turns {
                Turn::RIGHT => Turn::LEFT,
                Turn::LEFT => Turn::RIGHT,
                Turn::TWO => Turn::TWO,
            },
        }
    }
}

} // verus!
