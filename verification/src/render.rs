use vstd::prelude::*;

use crate::color::Color;
use crate::cube::{Cube, CubeV};
use crate::piece::{spec_flip, spec_rotate, Corner, Edge};

verus! {

/// The colors of the eight corner pieces in the solved cube, by home slot,
/// stickers in fixed clockwise order.
pub open spec fn solved_corner_colors() -> Seq<Corner> {
    seq![
        Corner(Color::WHITE, Color::RED, Color::GREEN),
        Corner(Color::WHITE, Color::BLUE, Color::RED),
        Corner(Color::WHITE, Color::ORANGE, Color::BLUE),
        Corner(Color::WHITE, Color::GREEN, Color::ORANGE),
        Corner(Color::YELLOW, Color::GREEN, Color::RED),
        Corner(Color::YELLOW, Color::RED, Color::BLUE),
        Corner(Color::YELLOW, Color::BLUE, Color::ORANGE),
        Corner(Color::YELLOW, Color::ORANGE, Color::GREEN),
    ]
}

/// The colors of the twelve edge pieces in the solved cube, by home slot.
pub open spec fn solved_edge_colors() -> Seq<Edge> {
    seq![
        Edge(Color::WHITE, Color::GREEN),
        Edge(Color::WHITE, Color::RED),
        Edge(Color::WHITE, Color::BLUE),
        Edge(Color::WHITE, Color::ORANGE),
        Edge(Color::GREEN, Color::RED),
        Edge(Color::BLUE, Color::RED),
        Edge(Color::BLUE, Color::ORANGE),
        Edge(Color::GREEN, Color::ORANGE),
        Edge(Color::YELLOW, Color::GREEN),
        Edge(Color::YELLOW, Color::RED),
        Edge(Color::YELLOW, Color::BLUE),
        Edge(Color::YELLOW, Color::ORANGE),
    ]
}

/// The corner piece shown at slot `i`: the piece whose home is named by the
/// permutation, rotated by the slot's orientation count.
pub open spec fn spec_corner_at(c: CubeV, i: int) -> Corner {
    spec_rotate(solved_corner_colors()[c.cp[i] as int], c.co[i] as int)
}

/// The edge piece shown at slot `i`: the piece whose home is named by the
/// permutation, flipped by the slot's orientation count.
pub open spec fn spec_edge_at(c: CubeV, i: int) -> Edge {
    spec_flip(solved_edge_colors()[c.ep[i] as int], c.eo[i] as int)
}

/// The cross-shaped text net over given piece lists: 54 colors, three rows
/// of three (the up face), three rows of twelve (the side faces), three
/// rows of three (the down face), row by row.
pub open spec fn spec_net_layout(ks: Seq<Corner>, es: Seq<Edge>) -> Seq<Color> {
    seq![ks[2].0, es[2].0, ks[1].0] + seq![es[3].0, Color::WHITE, es[1].0] + seq![
        ks[3].0,
        es[0].0,
        ks[0].0,
    ] + seq![
        ks[2].1, es[3].1, ks[3].2, ks[3].1, es[0].1, ks[0].2, ks[0].1, es[1].1, ks[1].2, ks[1].1,
        es[2].1, ks[2].2,
    ] + seq![
        es[6].1, Color::ORANGE, es[7].1, es[7].0, Color::GREEN, es[4].0, es[4].1, Color::RED,
        es[5].1, es[5].0, Color::BLUE, es[6].0,
    ] + seq![
        ks[6].2, es[11].1, ks[7].1, ks[7].2, es[8].1, ks[4].1, ks[4].2, es[9].1, ks[5].1, ks[5].2,
        es[10].1, ks[6].1,
    ] + seq![ks[7].0, es[8].0, ks[4].0] + seq![es[11].0, Color::YELLOW, es[9].0] + seq![
        ks[6].0,
        es[10].0,
        ks[5].0,
    ]
}

/// All 54 facelets of a configuration: the net over the pieces each slot
/// shows.
pub open spec fn spec_facelets(c: CubeV) -> Seq<Color> {
    spec_net_layout(
        Seq::new(8, |i: int| spec_corner_at(c, i)),
        Seq::new(12, |i: int| spec_edge_at(c, i)),
    )
}

/// Append one short net row to the output.
fn push_row3(v: &mut Vec<Color>, row: [Color; 3])
    ensures
        final(v)@ == old(v)@ + row@,
{
    v.push(row[0]);
    v.push(row[1]);
    v.push(row[2]);
    proof {
        assert(final(v)@ =~= old(v)@ + row@);
    }
}

/// Append one long net row to the output.
fn push_row12(v: &mut Vec<Color>, row: [Color; 12])
    ensures
        final(v)@ == old(v)@ + row@,
{
    let mut i: usize = 0;
    while i < 12
        invariant
            i <= 12,
            v@ =~= old(v)@ + row@.subrange(0, i as int),
        decreases 12 - i,
    {
        v.push(row[i]);
        i += 1;
    }
    proof {
        assert(row@.subrange(0, 12) =~= row@);
    }
}

/// Lay the computed pieces out into the net.
#[verifier::rlimit(100)]
fn collect_net(corners: &Vec<Corner>, edges: &Vec<Edge>) -> (r: Vec<Color>)
    requires
        corners@.len() == 8,
        edges@.len() == 12,
    ensures
        r@ == spec_net_layout(corners@, edges@),
{
    let ks = corners;
    let es = edges;
    let mut r: Vec<Color> = Vec::new();
    push_row3(&mut r, [ks[2].0, es[2].0, ks[1].0]);
    push_row3(&mut r, [es[3].0, Color::WHITE, es[1].0]);
    push_row3(&mut r, [ks[3].0, es[0].0, ks[0].0]);
    push_row12(
        &mut r,
        [
            ks[2].1,
            es[3].1,
            ks[3].2,
            ks[3].1,
            es[0].1,
            ks[0].2,
            ks[0].1,
            es[1].1,
            ks[1].2,
            ks[1].1,
            es[2].1,
            ks[2].2,
        ],
    );
    push_row12(
        &mut r,
        [
            es[6].1,
            Color::ORANGE,
            es[7].1,
            es[7].0,
            Color::GREEN,
            es[4].0,
            es[4].1,
            Color::RED,
            es[5].1,
            es[5].0,
            Color::BLUE,
            es[6].0,
        ],
    );
    push_row12(
        &mut r,
        [
            ks[6].2,
            es[11].1,
            ks[7].1,
            ks[7].2,
            es[8].1,
            ks[4].1,
            ks[4].2,
            es[9].1,
            ks[5].1,
            ks[5].2,
            es[10].1,
            ks[6].1,
        ],
    );
    push_row3(&mut r, [ks[7].0, es[8].0, ks[4].0]);
    push_row3(&mut r, [es[11].0, Color::YELLOW, es[9].0]);
    push_row3(&mut r, [ks[6].0, es[10].0, ks[5].0]);
    proof {
        assert(r@ =~= spec_net_layout(ks@, es@));
    }
    r
}

impl Cube {
    /// The solved corner pieces, by home slot.
    pub fn create_solved_corners() -> (r: [Corner; 8])
        ensures
            r@ =~= solved_corner_colors(),
    {
        [
            Corner(Color::WHITE, Color::RED, Color::GREEN),
            Corner(Color::WHITE, Color::BLUE, Color::RED),
            Corner(Color::WHITE, Color::ORANGE, Color::BLUE),
            Corner(Color::WHITE, Color::GREEN, Color::ORANGE),
            Corner(Color::YELLOW, Color::GREEN, Color::RED),
            Corner(Color::YELLOW, Color::RED, Color::BLUE),
            Corner(Color::YELLOW, Color::BLUE, Color::ORANGE),
            Corner(Color::YELLOW, Color::ORANGE, Color::GREEN),
        ]
    }

    /// The solved edge pieces, by home slot.
    pub fn create_solved_edges() -> (r: [Edge; 12])
        ensures
            r@ =~= solved_edge_colors(),
    {
        [
            Edge(Color::WHITE, Color::GREEN),
            Edge(Color::WHITE, Color::RED),
            Edge(Color::WHITE, Color::BLUE),
            Edge(Color::WHITE, Color::ORANGE),
            Edge(Color::GREEN, Color::RED),
            Edge(Color::BLUE, Color::RED),
            Edge(Color::BLUE, Color::ORANGE),
            Edge(Color::GREEN, Color::ORANGE),
            Edge(Color::YELLOW, Color::GREEN),
            Edge(Color::YELLOW, Color::RED),
            Edge(Color::YELLOW, Color::BLUE),
            Edge(Color::YELLOW, Color::ORANGE),
        ]
    }

    /// Render the configuration back into facelets: the 54 colors of the
    /// text net, row by row. Pure; used only for display.
    #[verifier::rlimit(100)]
    #[verifier::loop_isolation(false)]
    pub fn facelets(&self) -> (r: Vec<Color>)
        requires
            self@.wf(),
        ensures
            r@ == spec_facelets(self@),
    {
        let solved_corners = Cube::create_solved_corners();
        let solved_edges = Cube::create_solved_edges();

        let mut corners: Vec<Corner> = Vec::new();
        let mut i: usize = 0;
        while i < 8
            invariant
                i <= 8,
                self@.wf(),
                corners@.len() == i,
                forall|j: int| 0 <= j < i ==> corners@[j] == spec_corner_at(self@, j),
            decreases 8 - i,
        {
            let home = self.corner_perm_at(i) as usize;
            let piece = solved_corners[home].rotate(self.corner_orient_at(i));
            corners.push(piece);
            i += 1;
        }

        let mut edges: Vec<Edge> = Vec::new();
        let mut k: usize = 0;
        while k < 12
            invariant
                k <= 12,
                self@.wf(),
                edges@.len() == k,
                forall|j: int| 0 <= j < k ==> edges@[j] == spec_edge_at(self@, j),
            decreases 12 - k,
        {
            let home = self.edge_perm_at(k) as usize;
            let piece = solved_edges[home].flip(self.edge_orient_at(k));
            edges.push(piece);
            k += 1;
        }

        let r = collect_net(&corners, &edges);
        proof {
            assert(corners@ =~= Seq::new(8, |i: int| spec_corner_at(self@, i)));
            assert(edges@ =~= Seq::new(12, |i: int| spec_edge_at(self@, i)));
        }
        r
    }
}

} // verus!
