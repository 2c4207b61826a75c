use vstd::prelude::*;

use crate::cube::{
    lemma_apply_move_wf, lemma_apply_seq_wf, lemma_quarter_turn_wf, solved_cube, spec_apply_move,
    spec_apply_seq, spec_quarter_turn, CubeV,
};
use crate::moves::{
    lemma_move_chars_round_trip, move_chars, spec_invert_turn, MovePair, Side, Turn,
};
use crate::sequence::{
    lemma_split_at_space, lemma_split_no_space, spec_format_seq, spec_invert_seq, spec_parse_seq,
    spec_split, parse_tokens,
};

verus! {

/// Order law, generator form: four quarter turns of one side change nothing.
pub proof fn lemma_quarter_turn_order(c: CubeV, s: Side)
    requires
        c.wf(),
    ensures
        spec_quarter_turn(spec_quarter_turn(spec_quarter_turn(spec_quarter_turn(c, s), s), s), s)
            == c,
{
    let d = crate::cube::spec_table_turn(
        c,
        crate::tables::corner_cycle_two(s),
        crate::tables::zeros8(),
        crate::tables::edge_cycle_two(s),
        crate::tables::zeros12(),
    );
    crate::cube::lemma_two_turn(c, s);
    lemma_quarter_turn_wf(c, s);
    lemma_quarter_turn_wf(spec_quarter_turn(c, s), s);
    crate::cube::lemma_two_turn(d, s);
    crate::cube::lemma_two_two(c, s);
}

/// Order law: a quarter-turn move, clockwise or counter-clockwise, applied
/// four times returns the original state.
pub proof fn lemma_quarter_move_order(c: CubeV, s: Side, t: Turn)
    requires
        c.wf(),
        t != Turn::TWO,
    ensures
        spec_apply_move(
            spec_apply_move(spec_apply_move(spec_apply_move(c, s, t), s, t), s, t),
            s,
            t,
        ) == c,
{
    lemma_quarter_turn_order(c, s);
    if t == Turn::LEFT {
        let q4 = spec_quarter_turn(
            spec_quarter_turn(spec_quarter_turn(spec_quarter_turn(c, s), s), s),
            s,
        );
        assert(q4 == c);
    }
}

/// Order law: a half-turn move applied twice returns the original state.
pub proof fn lemma_half_move_order(c: CubeV, s: Side)
    requires
        c.wf(),
    ensures
        spec_apply_move(spec_apply_move(c, s, Turn::TWO), s, Turn::TWO) == c,
{
    lemma_quarter_turn_order(c, s);
}

/// Group inverse law: any legal move followed by its inverse returns every
/// state to where it began.
pub proof fn lemma_move_inverse(c: CubeV, s: Side, t: Turn)
    requires
        c.wf(),
    ensures
        spec_apply_move(spec_apply_move(c, s, t), s, spec_invert_turn(t)) == c,
{
    lemma_quarter_turn_order(c, s);
}

/// Applying a concatenation applies the first part, then the second.
pub proof fn lemma_apply_seq_concat(c: CubeV, xs: Seq<MovePair>, ys: Seq<MovePair>)
    ensures
        spec_apply_seq(c, xs + ys) == spec_apply_seq(spec_apply_seq(c, xs), ys),
    decreases xs.len(),
{
    if xs.len() == 0 {
        assert(xs + ys =~= ys);
    } else {
        assert((xs + ys)[0] == xs[0]);
        assert((xs + ys).drop_first() =~= xs.drop_first() + ys);
        lemma_apply_seq_concat(spec_apply_move(c, xs[0].0, xs[0].1), xs.drop_first(), ys);
    }
}

/// Group inverse law, word form: a sequence followed by its word inverse
/// returns every state to where it began.
pub proof fn lemma_seq_inverse(c: CubeV, ms: Seq<MovePair>)
    requires
        c.wf(),
    ensures
        spec_apply_seq(spec_apply_seq(c, ms), spec_invert_seq(ms)) == c,
    decreases ms.len(),
{
    if ms.len() == 0 {
        assert(spec_invert_seq(ms) =~= Seq::<MovePair>::empty());
    } else {
        let m0 = ms[0];
        let c1 = spec_apply_move(c, m0.0, m0.1);
        let p = (m0.0, spec_invert_turn(m0.1));
        lemma_apply_move_wf(c, m0.0, m0.1);
        lemma_seq_inverse(c1, ms.drop_first());
        // the inverse word is the inverse of the rest, then the inverse of the head
        let inv_rest = spec_invert_seq(ms.drop_first());
        assert(spec_invert_seq(ms) =~= inv_rest + seq![p]);
        assert(spec_apply_seq(c, ms) == spec_apply_seq(c1, ms.drop_first()));
        lemma_apply_seq_concat(spec_apply_seq(c1, ms.drop_first()), inv_rest, seq![p]);
        // the middle cancels, leaving one inverse move on `c1`
        assert(seq![p][0] == p);
        assert(seq![p].drop_first() =~= Seq::<MovePair>::empty());
        assert(spec_apply_seq(spec_apply_move(c1, p.0, p.1), Seq::<MovePair>::empty())
            == spec_apply_move(c1, p.0, p.1));
        assert(spec_apply_seq(c1, seq![p]) == spec_apply_move(c1, p.0, p.1));
        lemma_move_inverse(c, m0.0, m0.1);
    }
}

/// The orientation sum of a sequence of counters.
pub open spec fn sum_seq(s: Seq<u8>) -> int
    decreases s.len(),
{
    if s.len() == 0 {
        0
    } else {
        s[0] + sum_seq(s.drop_first())
    }
}

/// The sum of eight counters, written out.
pub proof fn lemma_sum8(s: Seq<u8>)
    requires
        s.len() == 8,
    ensures
        sum_seq(s) == s[0] + s[1] + s[2] + s[3] + s[4] + s[5] + s[6] + s[7],
{
    reveal_with_fuel(sum_seq, 9);
}

/// The sum of twelve counters, written out.
pub proof fn lemma_sum12(s: Seq<u8>)
    requires
        s.len() == 12,
    ensures
        sum_seq(s) == s[0] + s[1] + s[2] + s[3] + s[4] + s[5] + s[6] + s[7] + s[8] + s[9] + s[10]
            + s[11],
{
    reveal_with_fuel(sum_seq, 13);
}

/// Summing counters that were each reduced modulo `m` gives the same
/// residue as summing the unreduced values.
pub proof fn lemma_sum_mod_terms(x: Seq<u8>, t: Seq<u8>, q: Seq<u8>, m: int)
    requires
        0 < m < 256,
        x.len() == t.len(),
        q.len() == x.len(),
        forall|i: int| 0 <= i < q.len() ==> #[trigger] q[i] == ((x[i] + t[i]) % m) as u8,
    ensures
        sum_seq(q) % m == (sum_seq(x) + sum_seq(t)) % m,
    decreases x.len(),
{
    if x.len() == 0 {
    } else {
        assert forall|i: int| 0 <= i < q.drop_first().len() implies #[trigger] q.drop_first()[i]
            == ((x.drop_first()[i] + t.drop_first()[i]) % m) as u8 by {
            assert(q[i + 1] == ((x[i + 1] + t[i + 1]) % m) as u8);
        }
        lemma_sum_mod_terms(x.drop_first(), t.drop_first(), q.drop_first(), m);
        let a = x[0] + t[0];
        let sq = sum_seq(q.drop_first());
        let sx = sum_seq(x.drop_first());
        let st = sum_seq(t.drop_first());
        assert(q[0] == a % m);
        vstd::arithmetic::div_mod::lemma_add_mod_noop(a, sq, m);
        assert((a % m + sq % m) % m == (a + sq) % m);
        vstd::arithmetic::div_mod::lemma_add_mod_noop_right(a, sq, m);
        vstd::arithmetic::div_mod::lemma_add_mod_noop_right(a, sx + st, m);
        assert((a + (sq % m)) % m == (a + sq) % m);
        assert((a + ((sx + st) % m)) % m == (a + sx + st) % m);
        assert(sq % m == (sx + st) % m);
        assert(sum_seq(q) == a % m + sq);
        vstd::arithmetic::div_mod::lemma_add_mod_noop(a % m, sq, m);
        assert((a % m) % m == a % m) by (nonlinear_arith)
            requires
                0 < m,
        ;
        assert((a % m + sq) % m == (a + sq) % m);
    }
}

/// One quarter turn keeps the corner orientation sum a multiple of three and
/// the edge orientation sum a multiple of two.
#[verifier::rlimit(30)]
pub proof fn lemma_orient_sums_quarter(c: CubeV, s: Side)
    requires
        c.wf(),
    ensures
        sum_seq(spec_quarter_turn(c, s).co) % 3 == sum_seq(c.co) % 3,
        sum_seq(spec_quarter_turn(c, s).eo) % 2 == sum_seq(c.eo) % 2,
{
    let q = spec_quarter_turn(c, s);
    let xs = Seq::new(8, |i: int| c.co[crate::tables::corner_cycle(s)[i] as int]);
    let ts = crate::tables::corner_twist(s);
    let ys = Seq::new(12, |i: int| c.eo[crate::tables::edge_cycle(s)[i] as int]);
    let fs = crate::tables::edge_flip(s);
    crate::tables::lemma_tables_bounded(s);
    assert forall|i: int| 0 <= i < 8 implies #[trigger] q.co[i] == ((xs[i] + ts[i]) % 3) as u8 by {}
    assert forall|i: int| 0 <= i < 12 implies #[trigger] q.eo[i] == ((ys[i] + fs[i]) % 2) as u8 by {}
    lemma_sum_mod_terms(xs, ts, q.co, 3);
    lemma_sum_mod_terms(ys, fs, q.eo, 2);
    lemma_sum8(c.co);
    lemma_sum8(xs);
    lemma_sum8(ts);
    lemma_sum12(c.eo);
    lemma_sum12(ys);
    lemma_sum12(fs);
    match s {
        Side::UP => {
            assert(sum_seq(xs) == sum_seq(c.co));
            assert(sum_seq(ys) == sum_seq(c.eo));
        },
        Side::DOWN => {
            assert(sum_seq(xs) == sum_seq(c.co));
            assert(sum_seq(ys) == sum_seq(c.eo));
        },
        Side::FRONT => {
            assert(sum_seq(xs) == sum_seq(c.co));
            assert(sum_seq(ys) == sum_seq(c.eo));
        },
        Side::BACK => {
            assert(sum_seq(xs) == sum_seq(c.co));
            assert(sum_seq(ys) == sum_seq(c.eo));
        },
        Side::RIGHT => {
            assert(sum_seq(xs) == sum_seq(c.co));
            assert(sum_seq(ys) == sum_seq(c.eo));
        },
        Side::LEFT => {
            assert(sum_seq(xs) == sum_seq(c.co));
            assert(sum_seq(ys) == sum_seq(c.eo));
        },
    }
}

/// Any legal move keeps both orientation sums congruent to what they were.
pub proof fn lemma_orient_sums_move(c: CubeV, s: Side, t: Turn)
    requires
        c.wf(),
    ensures
        sum_seq(spec_apply_move(c, s, t).co) % 3 == sum_seq(c.co) % 3,
        sum_seq(spec_apply_move(c, s, t).eo) % 2 == sum_seq(c.eo) % 2,
{
    lemma_orient_sums_quarter(c, s);
    lemma_quarter_turn_wf(c, s);
    lemma_orient_sums_quarter(spec_quarter_turn(c, s), s);
    lemma_quarter_turn_wf(spec_quarter_turn(c, s), s);
    lemma_orient_sums_quarter(spec_quarter_turn(spec_quarter_turn(c, s), s), s);
}

/// Invariant preservation: every state reached from solved by legal moves
/// keeps both permutation arrays bijections, its corner orientation sum a
/// multiple of three, and its edge orientation sum a multiple of two.
pub proof fn lemma_invariant_preservation(ms: Seq<MovePair>)
    ensures
        spec_apply_seq(solved_cube(), ms).wf(),
        sum_seq(spec_apply_seq(solved_cube(), ms).co) % 3 == 0,
        sum_seq(spec_apply_seq(solved_cube(), ms).eo) % 2 == 0,
{
    lemma_apply_seq_wf(solved_cube(), ms);
    lemma_orient_sums_from(solved_cube(), ms);
    lemma_sum8(solved_cube().co);
    lemma_sum12(solved_cube().eo);
}

/// Orientation sums are carried unchanged, modulo their moduli, along any
/// move sequence.
pub proof fn lemma_orient_sums_from(c: CubeV, ms: Seq<MovePair>)
    requires
        c.wf(),
    ensures
        sum_seq(spec_apply_seq(c, ms).co) % 3 == sum_seq(c.co) % 3,
        sum_seq(spec_apply_seq(c, ms).eo) % 2 == sum_seq(c.eo) % 2,
    decreases ms.len(),
{
    if ms.len() > 0 {
        lemma_orient_sums_move(c, ms[0].0, ms[0].1);
        crate::cube::lemma_apply_move_wf(c, ms[0].0, ms[0].1);
        lemma_orient_sums_from(spec_apply_move(c, ms[0].0, ms[0].1), ms.drop_first());
    }
}

/// A move's token is one or two characters, none of them a space.
pub proof fn lemma_move_chars_wf(p: MovePair)
    ensures
        1 <= move_chars(p).len() <= 2,
        forall|k: int| 0 <= k < move_chars(p).len() ==> move_chars(p)[k] != ' ',
{
}

/// Round trip: reading back a formatted non-empty sequence yields the same
/// sequence. (The empty sequence formats to the empty text, which reads as
/// one empty token and is rejected, so it is excluded.)
pub proof fn lemma_sequence_round_trip(ms: Seq<MovePair>)
    requires
        ms.len() > 0,
    ensures
        spec_parse_seq(spec_format_seq(ms)) == Some(ms),
    decreases ms.len(),
{
    let cs = spec_format_seq(ms);
    let tok = move_chars(ms[0]);
    lemma_move_chars_wf(ms[0]);
    lemma_move_chars_round_trip(ms[0]);
    if ms.len() == 1 {
        lemma_split_no_space(cs);
        assert(seq![cs].drop_first() =~= Seq::<Seq<char>>::empty());
        assert(parse_tokens(Seq::<Seq<char>>::empty()) == Some(Seq::<MovePair>::empty()));
        assert(seq![ms[0]] + Seq::<MovePair>::empty() =~= ms);
    } else {
        let rest_cs = spec_format_seq(ms.drop_first());
        let j = tok.len() as int;
        assert(cs == tok + seq![' '] + rest_cs);
        assert(cs[j] == ' ');
        assert(forall|k: int| 0 <= k < j ==> cs[k] == tok[k]);
        lemma_split_at_space(cs, j);
        assert(cs.subrange(0, j) =~= tok);
        assert(cs.subrange(j + 1, cs.len() as int) =~= rest_cs);
        lemma_sequence_round_trip(ms.drop_first());
        let toks = spec_split(cs);
        assert(toks == seq![tok] + spec_split(rest_cs));
        assert(toks[0] == tok);
        assert(toks.drop_first() =~= spec_split(rest_cs));
        assert(seq![ms[0]] + ms.drop_first() =~= ms);
    }
}

} // verus!
