use vstd::prelude::*;

use crate::cube::{lemma_apply_move_wf, lemma_left_turn, lemma_two_turn, Cube};
use crate::moves::{all_move_pairs, move_chars, Move, Side, Turn};
use crate::tables::{
    corner_cycle_left_row, corner_cycle_two_row, edge_cycle_left_row, edge_cycle_two_row,
    lemma_two_left_tables_bounded, zeros12_row, zeros8_row,
};

verus! {

/// The table-driven move encoding: half turns and counter-clockwise turns
/// use their own precomputed tables, one table application per move. The
/// tables are proven to act exactly as repeating the quarter turn.
#[derive(Clone, Copy, PartialEq, Eq, Structural, Debug)]
pub struct FastMove {
    pub side: Side,
    pub turns: Turn,
}

impl Move for FastMove {
    open spec fn side_spec(&self) -> Side {
        self.side
    }

    open spec fn turn_spec(&self) -> Turn {
        self.turns
    }

    fn apply(&self, cube: &Cube) -> (r: Cube) {
        proof {
            lemma_apply_move_wf(cube@, self.side, self.turns);
        }
        match self.turns {
            Turn::RIGHT => cube.quarter_turn(self.side),
            Turn::TWO => {
                proof {
                    lemma_two_left_tables_bounded(self.side);
                }
                let cc = corner_cycle_two_row(self.side);
                let ct = zeros8_row();
                let ec = edge_cycle_two_row(self.side);
                let ef = zeros12_row();
                let r = cube.table_turn(&cc, &ct, &ec, &ef);
                proof {
                    lemma_two_turn(cube@, self.side);
                }
                r
            },
            Turn::LEFT => {
                proof {
                    lemma_two_left_tables_bounded(self.side);
                    crate::tables::lemma_tables_bounded(self.side);
                }
                let cc = corner_cycle_left_row(self.side);
                let ct = crate::tables::corner_twist_row(self.side);
                let ec = edge_cycle_left_row(self.side);
                let ef = crate::tables::edge_flip_row(self.side);
                let r = cube.table_turn(&cc, &ct, &ec, &ef);
                proof {
                    lemma_left_turn(cube@, self.side);
                }
                r
            },
        }
    }

    fn all_moves() -> (r: Vec<FastMove>) {
        let mut r: Vec<FastMove> = Vec::new();
        let sides = [Side::UP, Side::DOWN, Side::FRONT, Side::BACK, Side::RIGHT, Side::LEFT];
        let mut i: usize = 0;
        while i < 6
            invariant
                i <= 6,
                sides@ =~= crate::moves::side_order(),
                r@.len() == 3 * i,
            (forall|k: int|
                0 <= k < 3 * i ==> ((#[trigger] r@[k]).side == all_move_pairs()[k].0 && r@[k].turns
                    == all_move_pairs()[k].1)),
            decreases 6 - i,
        {
            let s = sides[i];
            r.push(FastMove { side: s, turns: Turn::RIGHT });
            r.push(FastMove { side: s, turns: Turn::LEFT });
            r.push(FastMove { side: s, turns: Turn::TWO });
            i += 1;
        }
        r
    }

    fn parse(s: &str) -> (r: Option<FastMove>) {
        let n = s.unicode_len();
        if n == 0 || n > 2 {
            return None;
        }
        let c0 = s.get_char(0);
        let side = if c0 == 'U' {
            Side::UP
        } else if c0 == 'D' {
            Side::DOWN
        } else if c0 == 'F' {
            Side::FRONT
        } else if c0 == 'B' {
            Side::BACK
        } else if c0 == 'R' {
            Side::RIGHT
        } else if c0 == 'L' {
            Side::LEFT
        } else {
            return None;
        };
        if n == 1 {
            return Some(FastMove { side, turns: Turn::RIGHT });
        }
        let c1 = s.get_char(1);
        if c1 == '\'' {
            Some(FastMove { side, turns: Turn::LEFT })
        } else if c1 == '2' {
            Some(FastMove { side, turns: Turn::TWO })
        } else {
            None
        }
    }

    fn format(&self) -> (r: String) {
        let letter: &str = match self.side {
            Side::UP => "U",
            Side::DOWN => "D",
            Side::FRONT => "F",
            Side::BACK => "B",
            Side::RIGHT => "R",
            Side::LEFT => "L",
        };
        let suffix: &str = match self.turns {
            Turn::RIGHT => "",
            Turn::LEFT => "'",
            Turn::TWO => "2",
        };
        proof {
            reveal_strlit("U");
            reveal_strlit("D");
            reveal_strlit("F");
            reveal_strlit("B");
            reveal_strlit("R");
            reveal_strlit("L");
            reveal_strlit("");
            reveal_strlit("'");
            reveal_strlit("2");
        }
        let r = String::from_str(letter).concat(suffix);
        proof {
            assert(r@ =~= move_chars((self.side, self.turns)));
        }
        r
    }

    fn invert(&self) -> (r: FastMove) {
        FastMove {
            side: self.side,
            turns: match self.turns {
                Turn::RIGHT => Turn::LEFT,
                Turn::LEFT => Turn::RIGHT,
                Turn::TWO => Turn::TWO,
            },
        }
    }
}

} // verus!
