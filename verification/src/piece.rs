use vstd::prelude::*;

use crate::color::Color;

verus! {

/// A corner piece: three stickers, listed in a fixed clockwise order.
#[derive(Clone, Copy, PartialEq, Eq, Structural, Debug)]
pub struct Corner(pub Color, pub Color, pub Color);

/// An edge piece: two stickers.
#[derive(Clone, Copy, PartialEq, Eq, Structural, Debug)]
pub struct Edge(pub Color, pub Color);

/// Swapping an edge's two stickers once.
pub open spec fn spec_flip_once(e: Edge) -> Edge {
    Edge(e.1, e.0)
}

/// An edge flipped `times` times: the stickers swap when `times` is odd.
pub open spec fn spec_flip(e: Edge, times: int) -> Edge {
    if times % 2 == 0 {
        e
    } else {
        spec_flip_once(e)
    }
}

/// Rotating a corner's stickers one step clockwise.
pub open spec fn spec_rotate_once(c: Corner) -> Corner {
    Corner(c.2, c.0, c.1)
}

/// A corner rotated `times` steps: only `times` modulo three matters.
pub open spec fn spec_rotate(c: Corner, times: int) -> Corner {
    if times % 3 == 0 {
        c
    } else if times % 3 == 1 {
        spec_rotate_once(c)
    } else {
        spec_rotate_once(spec_rotate_once(c))
    }
}

impl Edge {
    /// Flip this edge the given number of times.
    pub fn flip(self, times: u8) -> (r: Edge)
        ensures
            r == spec_flip(self, times as int),
    {
        if times % 2 == 0 {
            self
        } else {
            Edge(self.1, self.0)
        }
    }
}

impl Corner {
    /// Rotate this corner the given number of steps clockwise.
    pub fn rotate(self, times: u8) -> (r: Corner)
        ensures
            r == spec_rotate(self, times as int),
    {
        let m = times % 3;
        if m == 0 {
            self
        } else if m == 1 {
            Corner(self.2, self.0, self.1)
        } else {
            Corner(self.1, self.2, self.0)
        }
    }
}

} // verus!
