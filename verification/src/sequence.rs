use vstd::prelude::*;

use crate::moves::{
    all_move_pairs, move_chars, parse_move_chars, spec_invert_turn, Move, MovePair,
};

verus! {

/// The pairs denoted by a list of concrete moves.
pub open spec fn pairs_of<T: Move>(ms: Seq<T>) -> Seq<MovePair> {
    ms.map_values(|m: T| (m.side_spec(), m.turn_spec()))
}

/// The word inverse of a move list: reverse the order and invert every move.
pub open spec fn spec_invert_seq(ms: Seq<MovePair>) -> Seq<MovePair> {
    Seq::new(
        ms.len(),
        |i: int| (ms[ms.len() - 1 - i].0, spec_invert_turn(ms[ms.len() - 1 - i].1)),
    )
}

/// A move list in standard notation: the moves' tokens joined by single spaces.
pub open spec fn spec_format_seq(ms: Seq<MovePair>) -> Seq<char>
    decreases ms.len(),
{
    if ms.len() == 0 {
        Seq::empty()
    } else if ms.len() == 1 {
        move_chars(ms[0])
    } else {
        move_chars(ms[0]) + seq![' '] + spec_format_seq(ms.drop_first())
    }
}

/// The pieces of a text cut at every space. Cutting never loses characters:
/// two adjacent spaces leave an empty piece between them, and the empty text
/// has one empty piece.
pub open spec fn spec_split(cs: Seq<char>) -> Seq<Seq<char>>
    decreases cs.len(),
{
    if cs.len() == 0 {
        seq![Seq::<char>::empty()]
    } else {
        let rest = spec_split(cs.drop_first());
        if cs[0] == ' ' {
            seq![Seq::<char>::empty()] + rest
        } else {
            seq![seq![cs[0]] + rest[0]] + rest.drop_first()
        }
    }
}

/// Reading a list of tokens as moves: every token must be a move,
/// one failure fails the whole reading.
pub open spec fn parse_tokens(toks: Seq<Seq<char>>) -> Option<Seq<MovePair>>
    decreases toks.len(),
{
    if toks.len() == 0 {
        Some(Seq::empty())
    } else {
        match parse_move_chars(toks[0]) {
            None => None,
            Some(p) => match parse_tokens(toks.drop_first()) {
                None => None,
                Some(ps) => Some(seq![p] + ps),
            },
        }
    }
}

/// What a text denotes as a move sequence: cut at spaces, then read
/// every token as a move.
pub open spec fn spec_parse_seq(cs: Seq<char>) -> Option<Seq<MovePair>> {
    parse_tokens(spec_split(cs))
}

/// An ordered list of moves: a scramble or a solution. The empty sequence
/// is the identity of the move group.
#[derive(Debug)]
pub struct Sequence<T: Move> {
    pub(crate) moves: Vec<T>,
}

impl<T: Move> View for Sequence<T> {
    type V = Seq<MovePair>;

    closed spec fn view(&self) -> Seq<MovePair> {
        pairs_of(self.moves@)
    }
}

impl<T: Move> Sequence<T> {
    /// The empty sequence.
    pub fn new() -> (r: Sequence<T>)
        ensures
            r@ == Seq::<MovePair>::empty(),
    {
        let r = Sequence { moves: Vec::new() };
        proof {
            assert(r@ =~= Seq::<MovePair>::empty());
        }
        r
    }

    /// How many moves the sequence holds.
    pub fn len(&self) -> (r: usize)
        ensures
            r == self@.len(),
    {
        self.moves.len()
    }

    /// The move at position `i`.
    pub fn get(&self, i: usize) -> (r: T)
        requires
            i < self@.len(),
        ensures
            (r.side_spec(), r.turn_spec()) == self@[i as int],
    {
        self.moves[i]
    }

    /// A new sequence equal to this one with `m` appended; this one is untouched.
    pub fn apply(&self, m: &T) -> (r: Sequence<T>)
        ensures
            r@ == self@.push((m.side_spec(), m.turn_spec())),
    {
        let mut new_moves: Vec<T> = Vec::new();
        let mut i: usize = 0;
        while i < self.moves.len()
            invariant
                i <= self.moves.len(),
                new_moves@ =~= self.moves@.subrange(0, i as int),
            decreases self.moves.len() - i,
        {
            new_moves.push(self.moves[i]);
            i += 1;
        }
        proof {
            assert(new_moves@ =~= self.moves@);
        }
        new_moves.push(*m);
        let r = Sequence { moves: new_moves };
        proof {
            assert(r@ =~= self@.push((m.side_spec(), m.turn_spec())));
        }
        r
    }

    /// The standard free-group word inverse: the moves reversed, each inverted.
    /// Applied after this sequence, it returns any cube to where it began.
    pub fn invert(&self) -> (r: Sequence<T>)
        ensures
            r@ == spec_invert_seq(self@),
    {
        let mut new_moves: Vec<T> = Vec::new();
        let n = self.moves.len();
        let mut i: usize = 0;
        while i < n
            invariant
                i <= n,
                n == self.moves@.len(),
                new_moves@.len() == i,
                forall|j: int|
                    0 <= j < i ==> ((#[trigger] new_moves@[j]).side_spec() == self@[n - 1 - j].0
                        && new_moves@[j].turn_spec() == spec_invert_turn(self@[n - 1 - j].1)),
            decreases n - i,
        {
            let m = self.moves[n - 1 - i];
            new_moves.push(m.invert());
            i += 1;
        }
        let r = Sequence { moves: new_moves };
        proof {
            assert(r@ =~= spec_invert_seq(self@));
        }
        r
    }

    /// Write the sequence in standard notation: tokens joined by single spaces.
    pub fn format(&self) -> (r: String)
        ensures
            r@ == spec_format_seq(self@),
    {
        let mut r = String::new();
        let mut i: usize = 0;
        while i < self.moves.len()
            invariant
                i <= self.moves.len(),
                r@ == spec_format_seq(self@.subrange(0, i as int)),
            decreases self.moves.len() - i,
        {
            if i > 0 {
                r.append(" ");
                proof {
                    reveal_strlit(" ");
                }
            }
            let tok = self.moves[i].format();
            r.append(tok.as_str());
            proof {
                lemma_format_snoc(self@.subrange(0, i as int), self@[i as int]);
                assert(self@.subrange(0, i as int).push(self@[i as int]) =~= self@.subrange(
                    0,
                    i as int + 1,
                ));
                assert(r@ =~= spec_format_seq(self@.subrange(0, i as int + 1)));
            }
            i += 1;
        }
        proof {
            assert(self@.subrange(0, self@.len() as int) =~= self@);
        }
        r
    }
}

impl<T: Move> Sequence<T> {
    /// Read a sequence from standard notation: the text is cut at single
    /// spaces and every token must be a move. `None` on any other text.
    pub fn parse(s: &str) -> (r: Option<Sequence<T>>)
        ensures
            match r {
                Some(sq) => spec_parse_seq(s@) == Some(sq@),
                None => spec_parse_seq(s@) is None,
            },
    {
        let n = s.unicode_len();
        let mut moves: Vec<T> = Vec::new();
        let ghost mut done: Seq<Seq<char>> = Seq::empty();
        let mut start: usize = 0;
        proof {
            assert(s@.subrange(0, n as int) =~= s@);
            assert(done + spec_split(s@) =~= spec_split(s@));
            assert(pairs_of(moves@) =~= Seq::<MovePair>::empty());
        }
        loop
            invariant
                start <= n,
                n == s@.len(),
                spec_split(s@) == done + spec_split(s@.subrange(start as int, n as int)),
                parse_tokens(done) == Some(pairs_of(moves@)),
            decreases n - start,
        {
            let ghost suffix = s@.subrange(start as int, n as int);
            let mut j: usize = start;
            while j < n && s.get_char(j) != ' '
                invariant
                    start <= j <= n,
                    n == s@.len(),
                    forall|k: int| start <= k < j ==> s@[k] != ' ',
                decreases n - j,
            {
                j += 1;
            }
            let tok = s.substring_char(start, j);
            proof {
                assert(tok@ =~= suffix.subrange(0, j - start));
                assert forall|k: int| 0 <= k < j - start implies suffix[k] != ' ' by {
                    assert(suffix[k] == s@[start + k]);
                }
                if j == n {
                    assert(tok@ =~= suffix);
                    lemma_split_no_space(suffix);
                } else {
                    assert(suffix[j - start] == s@[j as int]);
                    lemma_split_at_space(suffix, j - start);
                    assert(suffix.subrange(j - start + 1, suffix.len() as int) =~= s@.subrange(
                        j + 1,
                        n as int,
                    ));
                }
            }
            match T::parse(tok) {
                None => {
                    proof {
                        assert(spec_split(s@)[done.len() as int] == tok@);
                        lemma_parse_tokens_bad(spec_split(s@), done.len() as int);
                    }
                    return None;
                },
                Some(m) => {
                    proof {
                        lemma_parse_tokens_snoc(done, tok@);
                        done = done.push(tok@);
                        assert(pairs_of(moves@).push((m.side_spec(), m.turn_spec())) =~= pairs_of(
                            moves@.push(m),
                        ));
                    }
                    moves.push(m);
                },
            }
            if j == n {
                let r = Sequence { moves };
                proof {
                    assert(spec_split(s@) =~= done);
                }
                return Some(r);
            }
            proof {
                assert(spec_split(s@) =~= done + spec_split(s@.subrange(j + 1, n as int)));
            }
            start = j + 1;
        }
    }
}

/// Relies on rand::random_range: a draw from a non-empty integer range,
/// uniform over it, never falls outside it. Nothing more is assumed of the
/// value drawn.
#[verifier::external_body]
fn random_below(n: usize) -> (r: usize)
    requires
        0 < n,
    ensures
        r < n,
{
    rand::random_range(0..n)
}

impl<T: Move> Sequence<T> {
    /// A scramble of `len` moves, each drawn independently and uniformly from
    /// the eighteen legal moves, with replacement: cancelling pairs such as
    /// `R R'` may occur and are accepted.
    pub fn random_scramble(len: u32) -> (r: Sequence<T>)
        ensures
            r@.len() == len,
            forall|i: int| 0 <= i < r@.len() ==> all_move_pairs().contains(#[trigger] r@[i]),
    {
        let all = T::all_moves();
        let mut moves: Vec<T> = Vec::new();
        let mut i: u32 = 0;
        while i < len
            invariant
                i <= len,
                all@.len() == 18,
                forall|k: int|
                    0 <= k < 18 ==> ((#[trigger] all@[k]).side_spec() == all_move_pairs()[k].0
                        && all@[k].turn_spec() == all_move_pairs()[k].1),
                moves@.len() == i,
                forall|k: int|
                    0 <= k < i ==> all_move_pairs().contains(
                        ((#[trigger] moves@[k]).side_spec(), moves@[k].turn_spec()),
                    ),
            decreases len - i,
        {
            let d = random_below(18);
            let m = all[d];
            proof {
                assert(all_move_pairs()[d as int] == (m.side_spec(), m.turn_spec()));
            }
            moves.push(m);
            i += 1;
        }
        let r = Sequence { moves };
        proof {
            assert(forall|k: int|
                0 <= k < r@.len() ==> #[trigger] r@[k] == (moves@[k].side_spec(),
                moves@[k].turn_spec()));
        }
        r
    }
}

/// A text without spaces is one single token.
pub proof fn lemma_split_no_space(cs: Seq<char>)
    requires
        forall|k: int| 0 <= k < cs.len() ==> cs[k] != ' ',
    ensures
        spec_split(cs) == seq![cs],
    decreases cs.len(),
{
    if cs.len() == 0 {
        assert(cs =~= Seq::<char>::empty());
        assert(spec_split(cs) =~= seq![cs]);
    } else {
        assert(forall|k: int| 0 <= k < cs.drop_first().len() ==> cs.drop_first()[k] != ' ');
        lemma_split_no_space(cs.drop_first());
        assert(seq![cs[0]] + cs.drop_first() =~= cs);
        assert(spec_split(cs) =~= seq![cs]);
    }
}

/// Cutting a text whose first space stands at `j`: the piece before it,
/// then the pieces of what follows it.
pub proof fn lemma_split_at_space(cs: Seq<char>, j: int)
    requires
        0 <= j < cs.len(),
        cs[j] == ' ',
        forall|k: int| 0 <= k < j ==> cs[k] != ' ',
    ensures
        spec_split(cs) == seq![cs.subrange(0, j)] + spec_split(cs.subrange(j + 1, cs.len() as int)),
    decreases j,
{
    if j == 0 {
        assert(cs.drop_first() =~= cs.subrange(1, cs.len() as int));
        assert(cs.subrange(0, 0) =~= Seq::<char>::empty());
        assert(spec_split(cs) =~= seq![cs.subrange(0, 0)] + spec_split(
            cs.subrange(1, cs.len() as int),
        ));
    } else {
        let tail = cs.drop_first();
        assert(tail[j - 1] == ' ');
        assert(forall|k: int| 0 <= k < j - 1 ==> tail[k] != ' ');
        lemma_split_at_space(tail, j - 1);
        assert(seq![cs[0]] + tail.subrange(0, j - 1) =~= cs.subrange(0, j));
        assert(tail.subrange(j, tail.len() as int) =~= cs.subrange(j + 1, cs.len() as int));
        assert(spec_split(cs) =~= seq![cs.subrange(0, j)] + spec_split(
            cs.subrange(j + 1, cs.len() as int),
        ));
    }
}

/// Reading one more token: the whole reading succeeds exactly when both the
/// tokens so far and the new token do.
pub proof fn lemma_parse_tokens_snoc(toks: Seq<Seq<char>>, t: Seq<char>)
    ensures
        parse_tokens(toks.push(t)) == (match parse_tokens(toks) {
            Some(ps) => match parse_move_chars(t) {
                Some(p) => Some(ps.push(p)),
                None => None::<Seq<MovePair>>,
            },
            None => None::<Seq<MovePair>>,
        }),
    decreases toks.len(),
{
    if toks.len() == 0 {
        assert(toks.push(t)[0] == t);
        assert(toks.push(t).drop_first() =~= Seq::<Seq<char>>::empty());
        assert(parse_tokens(toks) == Some(Seq::<MovePair>::empty()));
        assert(parse_tokens(Seq::<Seq<char>>::empty()) == Some(Seq::<MovePair>::empty()));
        match parse_move_chars(t) {
            Some(p) => {
                assert(parse_tokens(toks.push(t)) == Some(seq![p] + Seq::<MovePair>::empty()));
                assert(seq![p] + Seq::<MovePair>::empty() =~= Seq::<MovePair>::empty().push(p));
            },
            None => {
                assert(parse_tokens(toks.push(t)) is None);
            },
        }
    } else {
        assert(toks.push(t)[0] == toks[0]);
        assert(toks.push(t).len() == toks.len() + 1 > 0);
        assert(toks.push(t).drop_first() =~= toks.drop_first().push(t));
        lemma_parse_tokens_snoc(toks.drop_first(), t);
        match parse_move_chars(toks[0]) {
            Some(p0) => {
                match parse_tokens(toks.drop_first()) {
                    Some(ps) => {
                        assert(parse_tokens(toks) == Some(seq![p0] + ps));
                        match parse_move_chars(t) {
                            Some(p) => {
                                assert(parse_tokens(toks.drop_first().push(t)) == Some(ps.push(p)));
                                assert(seq![p0] + ps.push(p) =~= (seq![p0] + ps).push(p));
                                assert(parse_tokens(toks.push(t)) == Some((seq![p0] + ps).push(p)));
                            },
                            None => {
                                assert(parse_tokens(toks.push(t)) is None);
                            },
                        }
                    },
                    None => {
                        assert(parse_tokens(toks) is None);
                        assert(parse_tokens(toks.push(t)) is None);
                    },
                }
            },
            None => {
                assert(parse_tokens(toks) is None);
                assert(parse_tokens(toks.push(t)) is None);
            },
        }
    }
}

/// One unreadable token fails the whole reading.
pub proof fn lemma_parse_tokens_bad(toks: Seq<Seq<char>>, k: int)
    requires
        0 <= k < toks.len(),
        parse_move_chars(toks[k]) == None::<MovePair>,
    ensures
        parse_tokens(toks) == None::<Seq<MovePair>>,
    decreases toks.len(),
{
    if k > 0 {
        lemma_parse_tokens_bad(toks.drop_first(), k - 1);
    }
}

/// Appending one move to a formatted word appends a space and its token
/// (no space when the word was empty).
pub proof fn lemma_format_snoc(ms: Seq<MovePair>, p: MovePair)
    ensures
        spec_format_seq(ms.push(p)) == if ms.len() == 0 {
            move_chars(p)
        } else {
            spec_format_seq(ms) + seq![' '] + move_chars(p)
        },
    decreases ms.len(),
{
    if ms.len() == 0 {
        assert(ms.push(p).len() == 1);
        assert(ms.push(p)[0] == p);
    } else {
        assert(ms.push(p).drop_first() =~= ms.drop_first().push(p));
        lemma_format_snoc(ms.drop_first(), p);
        if ms.len() == 1 {
            assert(spec_format_seq(ms) == move_chars(ms[0]));
            assert(spec_format_seq(ms.push(p)) == move_chars(ms[0]) + seq![' '] + move_chars(p));
        } else {
            assert(spec_format_seq(ms.push(p)) == move_chars(ms[0]) + seq![' ']
                + spec_format_seq(ms.drop_first().push(p)));
            assert(move_chars(ms[0]) + seq![' '] + (spec_format_seq(ms.drop_first()) + seq![' ']
                + move_chars(p)) =~= spec_format_seq(ms) + seq![' '] + move_chars(p));
        }
    }
}

} // verus!
