use vstd::prelude::*;

use crate::moves::{Move, MovePair, Side, Turn};
use crate::sequence::Sequence;
use crate::tables::{
    corner_cycle, corner_cycle_left, corner_cycle_row, corner_cycle_two, corner_twist,
    corner_twist_row, edge_cycle, edge_cycle_left, edge_cycle_row, edge_cycle_two, edge_flip,
    edge_flip_row, lemma_cycles_injective, lemma_tables_bounded, zeros12, zeros8,
};

verus! {

/// The mathematical model of a cube configuration: four sequences giving,
/// for each corner and edge slot, which solved-position piece sits there
/// and how it is oriented.
#[verifier::ext_equal]
pub ghost struct CubeV {
    pub cp: Seq<u8>,
    pub co: Seq<u8>,
    pub ep: Seq<u8>,
    pub eo: Seq<u8>,
}

impl CubeV {
    /// Well-formedness: the arrays have their fixed lengths, orientations are
    /// reduced (thirds for corners, bits for edges), and both permutation
    /// arrays are bijections of their slot ranges.
    pub open spec fn wf(self) -> bool {
        &&& self.cp.len() == 8
        &&& self.co.len() == 8
        &&& self.ep.len() == 12
        &&& self.eo.len() == 12
        &&& forall|i: int| 0 <= i < 8 ==> #[trigger] self.cp[i] < 8
        &&& forall|i: int| 0 <= i < 8 ==> #[trigger] self.co[i] < 3
        &&& forall|i: int| 0 <= i < 12 ==> #[trigger] self.ep[i] < 12
        &&& forall|i: int| 0 <= i < 12 ==> #[trigger] self.eo[i] < 2
        &&& forall|i: int, j: int|
            0 <= i < 8 && 0 <= j < 8 && i != j ==> self.cp[i] != self.cp[j]
        &&& forall|i: int, j: int|
            0 <= i < 12 && 0 <= j < 12 && i != j ==> self.ep[i] != self.ep[j]
    }
}

/// The solved configuration: every piece in its own slot, unoriented.
pub open spec fn solved_cube() -> CubeV {
    CubeV {
        cp: seq![0u8, 1, 2, 3, 4, 5, 6, 7],
        co: seq![0u8, 0, 0, 0, 0, 0, 0, 0],
        ep: seq![0u8, 1, 2, 3, 4, 5, 6, 7, 8, 9, 10, 11],
        eo: seq![0u8, 0, 0, 0, 0, 0, 0, 0, 0, 0, 0, 0],
    }
}

/// One application of a transition table: slot `i` receives the piece from
/// slot `cc[i]` (corners) or `ec[i]` (edges), with its orientation advanced
/// by the table's delta.
pub open spec fn spec_table_turn(c: CubeV, cc: Seq<u8>, ct: Seq<u8>, ec: Seq<u8>, ef: Seq<u8>) -> CubeV {
    CubeV {
        cp: Seq::new(8, |i: int| c.cp[cc[i] as int]),
        co: Seq::new(8, |i: int| ((c.co[cc[i] as int] + ct[i]) % 3) as u8),
        ep: Seq::new(12, |i: int| c.ep[ec[i] as int]),
        eo: Seq::new(12, |i: int| ((c.eo[ec[i] as int] + ef[i]) % 2) as u8),
    }
}

/// One clockwise quarter turn of a side, as a group action on configurations.
pub open spec fn spec_quarter_turn(c: CubeV, s: Side) -> CubeV {
    spec_table_turn(c, corner_cycle(s), corner_twist(s), edge_cycle(s), edge_flip(s))
}

/// One legal move: a `RIGHT` turn is one quarter turn, `TWO` is two,
/// `LEFT` is three.
pub open spec fn spec_apply_move(c: CubeV, s: Side, t: Turn) -> CubeV {
    match t {
        Turn::RIGHT => spec_quarter_turn(c, s),
        Turn::TWO => spec_quarter_turn(spec_quarter_turn(c, s), s),
        Turn::LEFT => spec_quarter_turn(spec_quarter_turn(spec_quarter_turn(c, s), s), s),
    }
}

/// A whole sequence of moves, folded over the configuration from the left:
/// moves take effect in list order.
pub open spec fn spec_apply_seq(c: CubeV, ms: Seq<MovePair>) -> CubeV
    decreases ms.len(),
{
    if ms.len() == 0 {
        c
    } else {
        spec_apply_seq(spec_apply_move(c, ms[0].0, ms[0].1), ms.drop_first())
    }
}

/// The half-turn table applies the quarter-turn table twice: the precomputed
/// square really is the square.
#[verifier::rlimit(60)]
pub proof fn lemma_two_turn(c: CubeV, s: Side)
    requires
        c.wf(),
    ensures
        spec_table_turn(c, corner_cycle_two(s), zeros8(), edge_cycle_two(s), zeros12())
            == spec_quarter_turn(spec_quarter_turn(c, s), s),
{
    let l = spec_table_turn(c, corner_cycle_two(s), zeros8(), edge_cycle_two(s), zeros12());
    let r = spec_quarter_turn(spec_quarter_turn(c, s), s);
    match s {
        Side::UP => {
            assert(l.cp =~= r.cp);
            assert(l.co =~= r.co);
            assert(l.ep =~= r.ep);
            assert(l.eo =~= r.eo);
        },
        Side::DOWN => {
            assert(l.cp =~= r.cp);
            assert(l.co =~= r.co);
            assert(l.ep =~= r.ep);
            assert(l.eo =~= r.eo);
        },
        Side::FRONT => {
            assert(l.cp =~= r.cp);
            assert(l.co =~= r.co);
            assert(l.ep =~= r.ep);
            assert(l.eo =~= r.eo);
        },
        Side::BACK => {
            assert(l.cp =~= r.cp);
            assert(l.co =~= r.co);
            assert(l.ep =~= r.ep);
            assert(l.eo =~= r.eo);
        },
        Side::RIGHT => {
            assert(l.cp =~= r.cp);
            assert(l.co =~= r.co);
            assert(l.ep =~= r.ep);
            assert(l.eo =~= r.eo);
        },
        Side::LEFT => {
            assert(l.cp =~= r.cp);
            assert(l.co =~= r.co);
            assert(l.ep =~= r.ep);
            assert(l.eo =~= r.eo);
        },
    }
    assert(l =~= r);
}

/// The counter-clockwise table applies the quarter-turn table three times:
/// the precomputed cube really is the cube.
#[verifier::rlimit(60)]
pub proof fn lemma_left_turn(c: CubeV, s: Side)
    requires
        c.wf(),
    ensures
        spec_table_turn(c, corner_cycle_left(s), corner_twist(s), edge_cycle_left(s), edge_flip(s))
            == spec_quarter_turn(spec_quarter_turn(spec_quarter_turn(c, s), s), s),
{
    lemma_two_turn(c, s);
    let d = spec_table_turn(c, corner_cycle_two(s), zeros8(), edge_cycle_two(s), zeros12());
    let l = spec_table_turn(
        c,
        corner_cycle_left(s),
        corner_twist(s),
        edge_cycle_left(s),
        edge_flip(s),
    );
    let r = spec_quarter_turn(d, s);
    match s {
        Side::UP => {
            assert(l.cp =~= r.cp);
            assert(l.co =~= r.co);
            assert(l.ep =~= r.ep);
            assert(l.eo =~= r.eo);
        },
        Side::DOWN => {
            assert(l.cp =~= r.cp);
            assert(l.co =~= r.co);
            assert(l.ep =~= r.ep);
            assert(l.eo =~= r.eo);
        },
        Side::FRONT => {
            assert(l.cp =~= r.cp);
            assert(l.co =~= r.co);
            assert(l.ep =~= r.ep);
            assert(l.eo =~= r.eo);
        },
        Side::BACK => {
            assert(l.cp =~= r.cp);
            assert(l.co =~= r.co);
            assert(l.ep =~= r.ep);
            assert(l.eo =~= r.eo);
        },
        Side::RIGHT => {
            assert(l.cp =~= r.cp);
            assert(l.co =~= r.co);
            assert(l.ep =~= r.ep);
            assert(l.eo =~= r.eo);
        },
        Side::LEFT => {
            assert(l.cp =~= r.cp);
            assert(l.co =~= r.co);
            assert(l.ep =~= r.ep);
            assert(l.eo =~= r.eo);
        },
    }
    assert(l =~= r);
}

/// Two half turns of the same side cancel.
#[verifier::rlimit(60)]
pub proof fn lemma_two_two(c: CubeV, s: Side)
    requires
        c.wf(),
    ensures
        spec_table_turn(
            spec_table_turn(c, corner_cycle_two(s), zeros8(), edge_cycle_two(s), zeros12()),
            corner_cycle_two(s),
            zeros8(),
            edge_cycle_two(s),
            zeros12(),
        ) == c,
{
    let d = spec_table_turn(c, corner_cycle_two(s), zeros8(), edge_cycle_two(s), zeros12());
    let r = spec_table_turn(d, corner_cycle_two(s), zeros8(), edge_cycle_two(s), zeros12());
    match s {
        Side::UP => {
            assert(r.cp =~= c.cp);
            assert(r.co =~= c.co);
            assert(r.ep =~= c.ep);
            assert(r.eo =~= c.eo);
        },
        Side::DOWN => {
            assert(r.cp =~= c.cp);
            assert(r.co =~= c.co);
            assert(r.ep =~= c.ep);
            assert(r.eo =~= c.eo);
        },
        Side::FRONT => {
            assert(r.cp =~= c.cp);
            assert(r.co =~= c.co);
            assert(r.ep =~= c.ep);
            assert(r.eo =~= c.eo);
        },
        Side::BACK => {
            assert(r.cp =~= c.cp);
            assert(r.co =~= c.co);
            assert(r.ep =~= c.ep);
            assert(r.eo =~= c.eo);
        },
        Side::RIGHT => {
            assert(r.cp =~= c.cp);
            assert(r.co =~= c.co);
            assert(r.ep =~= c.ep);
            assert(r.eo =~= c.eo);
        },
        Side::LEFT => {
            assert(r.cp =~= c.cp);
            assert(r.co =~= c.co);
            assert(r.ep =~= c.ep);
            assert(r.eo =~= c.eo);
        },
    }
    assert(r =~= c);
}

/// Applying a sequence with one more move at its end: apply the front part,
/// then that move.
pub proof fn lemma_apply_seq_snoc(c: CubeV, ms: Seq<MovePair>, p: MovePair)
    ensures
        spec_apply_seq(c, ms.push(p)) == spec_apply_move(spec_apply_seq(c, ms), p.0, p.1),
    decreases ms.len(),
{
    if ms.len() == 0 {
        assert(ms.push(p)[0] == p);
        assert(ms.push(p).drop_first() =~= Seq::<MovePair>::empty());
        assert(spec_apply_seq(spec_apply_move(c, p.0, p.1), ms.push(p).drop_first())
            == spec_apply_move(c, p.0, p.1));
    } else {
        assert(ms.push(p)[0] == ms[0]);
        assert(ms.push(p).drop_first() =~= ms.drop_first().push(p));
        lemma_apply_seq_snoc(spec_apply_move(c, ms[0].0, ms[0].1), ms.drop_first(), p);
    }
}

/// A quarter turn keeps a configuration well-formed.
pub proof fn lemma_quarter_turn_wf(c: CubeV, s: Side)
    requires
        c.wf(),
    ensures
        spec_quarter_turn(c, s).wf(),
{
    lemma_tables_bounded(s);
    lemma_cycles_injective(s);
    let r = spec_quarter_turn(c, s);
    assert forall|i: int, j: int|
        0 <= i < 8 && 0 <= j < 8 && i != j implies r.cp[i] != r.cp[j] by {
        assert(corner_cycle(s)[i] != corner_cycle(s)[j]);
    }
    assert forall|i: int, j: int|
        0 <= i < 12 && 0 <= j < 12 && i != j implies r.ep[i] != r.ep[j] by {
        assert(edge_cycle(s)[i] != edge_cycle(s)[j]);
    }
}

/// Any legal move keeps a configuration well-formed.
pub proof fn lemma_apply_move_wf(c: CubeV, s: Side, t: Turn)
    requires
        c.wf(),
    ensures
        spec_apply_move(c, s, t).wf(),
{
    lemma_quarter_turn_wf(c, s);
    lemma_quarter_turn_wf(spec_quarter_turn(c, s), s);
    lemma_quarter_turn_wf(spec_quarter_turn(spec_quarter_turn(c, s), s), s);
}

/// Any sequence of legal moves keeps a configuration well-formed.
pub proof fn lemma_apply_seq_wf(c: CubeV, ms: Seq<MovePair>)
    requires
        c.wf(),
    ensures
        spec_apply_seq(c, ms).wf(),
    decreases ms.len(),
{
    if ms.len() > 0 {
        lemma_apply_move_wf(c, ms[0].0, ms[0].1);
        lemma_apply_seq_wf(spec_apply_move(c, ms[0].0, ms[0].1), ms.drop_first());
    }
}

/// One configuration of the puzzle, as permutation plus orientation arrays.
/// Values are immutable: every cube is either the solved one or the result
/// of applying moves to another cube.
#[derive(Clone, Copy, Debug)]
pub struct Cube {
    pub(crate) corner_permutation: [u8; 8],
    pub(crate) corner_orientation: [u8; 8],
    pub(crate) edge_permutation: [u8; 12],
    pub(crate) edge_orientation: [u8; 12],
}

impl View for Cube {
    type V = CubeV;

    closed spec fn view(&self) -> CubeV {
        CubeV {
            cp: self.corner_permutation@,
            co: self.corner_orientation@,
            ep: self.edge_permutation@,
            eo: self.edge_orientation@,
        }
    }
}

fn rows_eq<const N: usize>(a: &[u8; N], b: &[u8; N]) -> (r: bool)
    ensures
        r == (a@ == b@),
{
    let mut i: usize = 0;
    while i < N
        invariant
            i <= N,
            forall|j: int| 0 <= j < i ==> a@[j] == b@[j],
        decreases N - i,
    {
        if a[i] != b[i] {
            return false;
        }
        i += 1;
    }
    proof {
        assert(a@ =~= b@);
    }
    true
}

impl PartialEq for Cube {
    /// Structural equality over all four arrays; this is how the solved
    /// state is recognised.
    fn eq(&self, other: &Cube) -> (r: bool) {
        let r = rows_eq(&self.corner_permutation, &other.corner_permutation)
            && rows_eq(&self.corner_orientation, &other.corner_orientation)
            && rows_eq(&self.edge_permutation, &other.edge_permutation)
            && rows_eq(&self.edge_orientation, &other.edge_orientation);
        proof {
            if r {
                assert(self@ =~= other@);
            }
        }
        r
    }
}

impl Eq for Cube {

}

impl vstd::std_specs::cmp::PartialEqSpecImpl for Cube {
    open spec fn obeys_eq_spec() -> bool {
        true
    }

    open spec fn eq_spec(&self, other: &Cube) -> bool {
        self@ == other@
    }
}

impl Cube {
    /// The solved cube: the identity of the move group.
    pub fn create_solved() -> (r: Cube)
        ensures
            r@ == solved_cube(),
            r@.wf(),
    {
        let r = Cube {
            corner_permutation: [0, 1, 2, 3, 4, 5, 6, 7],
            corner_orientation: [0; 8],
            edge_permutation: [0, 1, 2, 3, 4, 5, 6, 7, 8, 9, 10, 11],
            edge_orientation: [0; 12],
        };
        proof {
            assert(r@ =~= solved_cube());
        }
        r
    }

    /// The piece slot named by corner slot `i` of the permutation.
    pub(crate) fn corner_perm_at(&self, i: usize) -> (r: u8)
        requires
            i < 8,
        ensures
            r == self@.cp[i as int],
    {
        self.corner_permutation[i]
    }

    /// The orientation counter of corner slot `i`.
    pub(crate) fn corner_orient_at(&self, i: usize) -> (r: u8)
        requires
            i < 8,
        ensures
            r == self@.co[i as int],
    {
        self.corner_orientation[i]
    }

    /// The piece slot named by edge slot `i` of the permutation.
    pub(crate) fn edge_perm_at(&self, i: usize) -> (r: u8)
        requires
            i < 12,
        ensures
            r == self@.ep[i as int],
    {
        self.edge_permutation[i]
    }

    /// The orientation counter of edge slot `i`.
    pub(crate) fn edge_orient_at(&self, i: usize) -> (r: u8)
        requires
            i < 12,
        ensures
            r == self@.eo[i as int],
    {
        self.edge_orientation[i]
    }

    /// Apply one transition table to this cube.
    #[verifier::loop_isolation(false)]
    pub(crate) fn table_turn(
        &self,
        cyc: &[u8; 8],
        twist: &[u8; 8],
        ecyc: &[u8; 12],
        eflip: &[u8; 12],
    ) -> (r: Cube)
        requires
            self@.wf(),
            forall|j: int| 0 <= j < 8 ==> #[trigger] cyc@[j] < 8,
            forall|j: int| 0 <= j < 8 ==> #[trigger] twist@[j] < 3,
            forall|j: int| 0 <= j < 12 ==> #[trigger] ecyc@[j] < 12,
            forall|j: int| 0 <= j < 12 ==> #[trigger] eflip@[j] < 2,
        ensures
            r@ == spec_table_turn(self@, cyc@, twist@, ecyc@, eflip@),
    {
        let mut cp: [u8; 8] = [0; 8];
        let mut co: [u8; 8] = [0; 8];
        let mut i: usize = 0;
        while i < 8
            invariant
                i <= 8,
                forall|j: int| 0 <= j < i ==> cp@[j] == self@.cp[cyc@[j] as int],
                forall|j: int|
                    0 <= j < i ==> co@[j] == ((self@.co[cyc@[j] as int] + twist@[j]) % 3) as u8,
            decreases 8 - i,
        {
            let src = cyc[i] as usize;
            cp[i] = self.corner_permutation[src];
            co[i] = (self.corner_orientation[src] + twist[i]) % 3;
            i += 1;
        }

        let mut ep: [u8; 12] = [0; 12];
        let mut eo: [u8; 12] = [0; 12];
        let mut k: usize = 0;
        while k < 12
            invariant
                k <= 12,
                forall|j: int| 0 <= j < k ==> ep@[j] == self@.ep[ecyc@[j] as int],
                forall|j: int|
                    0 <= j < k ==> eo@[j] == ((self@.eo[ecyc@[j] as int] + eflip@[j]) % 2) as u8,
            decreases 12 - k,
        {
            let src = ecyc[k] as usize;
            ep[k] = self.edge_permutation[src];
            eo[k] = (self.edge_orientation[src] + eflip[k]) % 2;
            k += 1;
        }

        let r = Cube {
            corner_permutation: cp,
            corner_orientation: co,
            edge_permutation: ep,
            edge_orientation: eo,
        };
        proof {
            assert(r@ =~= spec_table_turn(self@, cyc@, twist@, ecyc@, eflip@));
        }
        r
    }

    /// Apply one clockwise quarter turn of `side`, by the transition tables.
    pub(crate) fn quarter_turn(&self, side: Side) -> (r: Cube)
        requires
            self@.wf(),
        ensures
            r@ == spec_quarter_turn(self@, side),
            r@.wf(),
    {
        proof {
            lemma_tables_bounded(side);
        }
        let cyc = corner_cycle_row(side);
        let twist = corner_twist_row(side);
        let ecyc = edge_cycle_row(side);
        let eflip = edge_flip_row(side);
        let r = self.table_turn(&cyc, &twist, &ecyc, &eflip);
        proof {
            lemma_quarter_turn_wf(self@, side);
        }
        r
    }

    /// Apply one move: the pure group action of the move's pair.
    pub fn apply_move<T: Move>(&self, m: &T) -> (r: Cube)
        requires
            self@.wf(),
        ensures
            r@ == spec_apply_move(self@, m.side_spec(), m.turn_spec()),
            r@.wf(),
    {
        m.apply(self)
    }

    /// Apply a whole sequence, folding from the left: move `k` acts on the
    /// result of the first `k - 1` moves.
    pub fn apply<T: Move>(&self, scramble: &Sequence<T>) -> (r: Cube)
        requires
            self@.wf(),
        ensures
            r@ == spec_apply_seq(self@, scramble@),
            r@.wf(),
    {
        let mut cur: Cube = *self;
        let n = scramble.len();
        let mut i: usize = 0;
        proof {
            assert(scramble@.subrange(0, 0) =~= Seq::<MovePair>::empty());
        }
        while i < n
            invariant
                i <= n,
                n == scramble@.len(),
                self@.wf(),
                cur@.wf(),
                cur@ == spec_apply_seq(self@, scramble@.subrange(0, i as int)),
            decreases n - i,
        {
            let m = scramble.get(i);
            cur = cur.apply_move(&m);
            proof {
                lemma_apply_seq_snoc(self@, scramble@.subrange(0, i as int), scramble@[i as int]);
                assert(scramble@.subrange(0, i as int).push(scramble@[i as int]) =~= scramble@
                    .subrange(0, i as int + 1));
            }
            i += 1;
        }
        proof {
            assert(scramble@.subrange(0, n as int) =~= scramble@);
        }
        cur
    }
}

} // verus!
