use vstd::prelude::*;

use crate::cube::{
    lemma_apply_seq_snoc, solved_cube, spec_apply_move, spec_apply_seq, Cube, CubeV,
};
use crate::moves::{all_move_pairs, Move, MovePair, Side, Turn};
use crate::sequence::Sequence;

verus! {

/// One search node: a reached configuration, with the move word that
/// reached it from the start.
pub type Node = (CubeV, Seq<MovePair>);

/// The children of one node: its cube advanced by each of the eighteen
/// legal moves, in the canonical move order.
pub open spec fn expand_node(n: Node) -> Seq<Node> {
    Seq::new(
        18,
        |i: int|
            (
                spec_apply_move(n.0, all_move_pairs()[i].0, all_move_pairs()[i].1),
                n.1.push(all_move_pairs()[i]),
            ),
    )
}

/// The next frontier: the children of every node, in frontier order first,
/// move order second.
pub open spec fn expand_frontier(fr: Seq<Node>) -> Seq<Node>
    decreases fr.len(),
{
    if fr.len() == 0 {
        Seq::empty()
    } else {
        expand_node(fr[0]) + expand_frontier(fr.drop_first())
    }
}

/// The word of the first node in the list whose cube is solved, if any.
pub open spec fn first_solved(nodes: Seq<Node>) -> Option<Seq<MovePair>>
    decreases nodes.len(),
{
    if nodes.len() == 0 {
        None
    } else if nodes[0].0 == solved_cube() {
        Some(nodes[0].1)
    } else {
        first_solved(nodes.drop_first())
    }
}

/// Breadth-first search from a frontier, at most `fuel` plies deeper:
/// expand the frontier, return the first solved child, or search on from
/// the children.
pub open spec fn spec_bfs(fr: Seq<Node>, fuel: nat) -> Option<Seq<MovePair>>
    decreases fuel,
{
    if fuel == 0 {
        None
    } else {
        let ch = expand_frontier(fr);
        match first_solved(ch) {
            Some(w) => Some(w),
            None => spec_bfs(ch, (fuel - 1) as nat),
        }
    }
}

/// What the solver returns on a configuration: the empty word at once if it
/// is already solved, else the first solving word that breadth-first search
/// finds within `depth` plies, `None` if there is none.
pub open spec fn spec_solve(c: CubeV, depth: nat) -> Option<Seq<MovePair>> {
    if c == solved_cube() {
        Some(Seq::empty())
    } else {
        spec_bfs(seq![(c, Seq::<MovePair>::empty())], depth)
    }
}

/// Every node of the frontier is truthful: its word really reaches its cube
/// from `start`, and its word has length `ply`.
pub open spec fn frontier_ok(start: CubeV, fr: Seq<Node>, ply: nat) -> bool {
    forall|i: int|
        0 <= i < fr.len() ==> ((#[trigger] fr[i]).0 == spec_apply_seq(start, fr[i].1) && fr[i].1.len()
            == ply)
}

/// A child list is as long as eighteen times its frontier.
pub proof fn lemma_expand_len(fr: Seq<Node>)
    ensures
        expand_frontier(fr).len() == 18 * fr.len(),
    decreases fr.len(),
{
    if fr.len() > 0 {
        lemma_expand_len(fr.drop_first());
    }
}

/// The child of frontier node `a` under move `b` sits at position
/// `18 a + b` of the child list.
pub proof fn lemma_expand_index(fr: Seq<Node>, a: int, b: int)
    requires
        0 <= a < fr.len(),
        0 <= b < 18,
    ensures
        expand_frontier(fr).len() == 18 * fr.len(),
        expand_frontier(fr)[18 * a + b] == expand_node(fr[a])[b],
    decreases fr.len(),
{
    lemma_expand_len(fr);
    lemma_expand_len(fr.drop_first());
    if a > 0 {
        lemma_expand_index(fr.drop_first(), a - 1, b);
    }
}

/// If every node before `idx` is unsolved and the node at `idx` is solved,
/// the search returns the word at `idx`.
pub proof fn lemma_first_solved_at(nodes: Seq<Node>, idx: int)
    requires
        0 <= idx < nodes.len(),
        nodes[idx].0 == solved_cube(),
        forall|k: int| 0 <= k < idx ==> (#[trigger] nodes[k]).0 != solved_cube(),
    ensures
        first_solved(nodes) == Some(nodes[idx].1),
    decreases idx,
{
    if idx > 0 {
        lemma_first_solved_at(nodes.drop_first(), idx - 1);
    }
}

/// If no node is solved, the search over the list finds nothing.
pub proof fn lemma_first_solved_none(nodes: Seq<Node>)
    requires
        forall|k: int| 0 <= k < nodes.len() ==> (#[trigger] nodes[k]).0 != solved_cube(),
    ensures
        first_solved(nodes) == None::<Seq<MovePair>>,
    decreases nodes.len(),
{
    if nodes.len() > 0 {
        lemma_first_solved_none(nodes.drop_first());
    }
}

/// Expansion keeps a frontier truthful: every child's word reaches the
/// child's cube, one ply deeper.
pub proof fn lemma_expand_ok(start: CubeV, fr: Seq<Node>, ply: nat)
    requires
        frontier_ok(start, fr, ply),
    ensures
        frontier_ok(start, expand_frontier(fr), ply + 1),
{
    lemma_expand_len(fr);
    let ch = expand_frontier(fr);
    assert forall|i: int| 0 <= i < ch.len() implies ((#[trigger] ch[i]).0 == spec_apply_seq(
        start,
        ch[i].1,
    ) && ch[i].1.len() == ply + 1) by {
        let a = i / 18;
        let b = i % 18;
        lemma_expand_index(fr, a, b);
        lemma_apply_seq_snoc(start, fr[a].1, all_move_pairs()[b]);
    }
}

/// Whatever word the search returns really solves the start configuration,
/// in as many moves as plies were searched when it was found.
pub proof fn lemma_bfs_sound(start: CubeV, fr: Seq<Node>, ply: nat, fuel: nat, w: Seq<MovePair>)
    requires
        frontier_ok(start, fr, ply),
        spec_bfs(fr, fuel) == Some(w),
    ensures
        spec_apply_seq(start, w) == solved_cube(),
        ply < w.len() <= ply + fuel,
    decreases fuel,
{
    let ch = expand_frontier(fr);
    lemma_expand_ok(start, fr, ply);
    match first_solved(ch) {
        Some(w0) => {
            lemma_first_solved_in(start, ch, ply + 1);
        },
        None => {
            lemma_bfs_sound(start, ch, ply + 1, (fuel - 1) as nat, w);
        },
    }
}

/// A found word comes from a truthful node list, so it reaches the solved
/// cube and has the list's word length.
pub proof fn lemma_first_solved_in(start: CubeV, nodes: Seq<Node>, ply: nat)
    requires
        frontier_ok(start, nodes, ply),
        first_solved(nodes) is Some,
    ensures
        spec_apply_seq(start, first_solved(nodes)->Some_0) == solved_cube(),
        first_solved(nodes)->Some_0.len() == ply,
    decreases nodes.len(),
{
    if nodes.len() > 0 && nodes[0].0 != solved_cube() {
        assert(frontier_ok(start, nodes.drop_first(), ply));
        lemma_first_solved_in(start, nodes.drop_first(), ply);
    }
}

/// Soundness of the solver's result: a returned word, applied to the start
/// configuration, yields the solved cube, within the depth bound.
pub proof fn lemma_solve_sound(c: CubeV, depth: nat, w: Seq<MovePair>)
    requires
        spec_solve(c, depth) == Some(w),
    ensures
        spec_apply_seq(c, w) == solved_cube(),
        w.len() <= depth,
{
    if c == solved_cube() {
        assert(spec_apply_seq(c, Seq::<MovePair>::empty()) == c);
    } else {
        let fr = seq![(c, Seq::<MovePair>::empty())];
        assert(spec_apply_seq(c, Seq::<MovePair>::empty()) == c);
        assert(frontier_ok(c, fr, 0));
        lemma_bfs_sound(c, fr, 0, depth, w);
    }
}

/// Every word of length `ply` is represented in the frontier, with the cube
/// it reaches from `start`.
pub open spec fn frontier_complete(start: CubeV, fr: Seq<Node>, ply: nat) -> bool {
    forall|w: Seq<MovePair>|
        #![trigger spec_apply_seq(start, w)]
        w.len() == ply ==> fr.contains((spec_apply_seq(start, w), w))
}

/// Every pair of a side and a turn stands somewhere in the canonical
/// enumeration: there are no legal moves beyond the eighteen.
pub proof fn lemma_all_pairs_complete(p: MovePair)
    ensures
        all_move_pairs().contains(p),
{
    let si: int = match p.0 {
        Side::UP => 0,
        Side::DOWN => 1,
        Side::FRONT => 2,
        Side::BACK => 3,
        Side::RIGHT => 4,
        Side::LEFT => 5,
    };
    let ti: int = match p.1 {
        Turn::RIGHT => 0,
        Turn::LEFT => 1,
        Turn::TWO => 2,
    };
    assert(all_move_pairs()[3 * si + ti] == p);
}

/// Expansion keeps a frontier exhaustive: every word one move longer is
/// represented among the children.
pub proof fn lemma_expand_complete(start: CubeV, fr: Seq<Node>, ply: nat)
    requires
        frontier_complete(start, fr, ply),
    ensures
        frontier_complete(start, expand_frontier(fr), ply + 1),
{
    lemma_expand_len(fr);
    assert forall|w: Seq<MovePair>| #![trigger spec_apply_seq(start, w)] w.len() == ply + 1
        implies expand_frontier(fr).contains((spec_apply_seq(start, w), w)) by {
        let w0 = w.drop_last();
        let p = w[w.len() - 1];
        assert(w0.len() == ply);
        assert(spec_apply_seq(start, w0) == spec_apply_seq(start, w0));
        assert(fr.contains((spec_apply_seq(start, w0), w0)));
        let a = choose|a: int| 0 <= a < fr.len() && fr[a] == (spec_apply_seq(start, w0), w0);
        lemma_all_pairs_complete(p);
        let b = choose|b: int| 0 <= b < 18 && all_move_pairs()[b] == p;
        lemma_expand_index(fr, a, b);
        lemma_apply_seq_snoc(start, w0, p);
        assert(w0.push(p) =~= w);
        assert(expand_frontier(fr)[18 * a + b] == (spec_apply_seq(start, w), w));
        assert(0 <= 18 * a + b < expand_frontier(fr).len());
    }
}

/// When the search over a node list finds nothing, no node is solved.
pub proof fn lemma_first_solved_none_inv(nodes: Seq<Node>)
    requires
        first_solved(nodes) is None,
    ensures
        forall|k: int| 0 <= k < nodes.len() ==> (#[trigger] nodes[k]).0 != solved_cube(),
    decreases nodes.len(),
{
    if nodes.len() > 0 {
        lemma_first_solved_none_inv(nodes.drop_first());
        assert forall|k: int| 0 <= k < nodes.len() implies (#[trigger] nodes[k]).0 != solved_cube() by {
            if k > 0 {
                assert(nodes.drop_first()[k - 1] == nodes[k]);
            }
        }
    }
}

/// Completeness of the search: if some word within the remaining fuel solves
/// the start configuration, the search from an exhaustive frontier finds one.
pub proof fn lemma_bfs_complete(
    start: CubeV,
    fr: Seq<Node>,
    ply: nat,
    fuel: nat,
    w: Seq<MovePair>,
)
    requires
        frontier_complete(start, fr, ply),
        ply < w.len() <= ply + fuel,
        spec_apply_seq(start, w) == solved_cube(),
    ensures
        spec_bfs(fr, fuel) is Some,
    decreases fuel,
{
    let ch = expand_frontier(fr);
    lemma_expand_complete(start, fr, ply);
    match first_solved(ch) {
        Some(_) => {},
        None => {
            lemma_first_solved_none_inv(ch);
            if w.len() == ply + 1 {
                assert(spec_apply_seq(start, w) == spec_apply_seq(start, w));
                assert(ch.contains((spec_apply_seq(start, w), w)));
                let i = choose|i: int|
                    0 <= i < ch.len() && ch[i] == (spec_apply_seq(start, w), w);
                assert(ch[i].0 == solved_cube());
                assert(false);
            } else {
                lemma_bfs_complete(start, ch, ply + 1, (fuel - 1) as nat, w);
            }
        },
    }
}

/// Completeness of the solver: whenever any word within the depth bound
/// solves the configuration, the solver returns a solution rather than
/// giving up.
pub proof fn lemma_solve_complete(c: CubeV, depth: nat, w: Seq<MovePair>)
    requires
        spec_apply_seq(c, w) == solved_cube(),
        w.len() <= depth,
    ensures
        spec_solve(c, depth) is Some,
{
    if c != solved_cube() {
        let fr = seq![(c, Seq::<MovePair>::empty())];
        if w.len() == 0 {
            assert(w =~= Seq::<MovePair>::empty());
            assert(spec_apply_seq(c, w) == c);
        } else {
            assert forall|w0: Seq<MovePair>| #![trigger spec_apply_seq(c, w0)] w0.len() == 0
                implies fr.contains((spec_apply_seq(c, w0), w0)) by {
                assert(w0 =~= Seq::<MovePair>::empty());
                assert(spec_apply_seq(c, w0) == c);
                assert(fr[0] == (spec_apply_seq(c, w0), w0));
            }
            lemma_bfs_complete(c, fr, 0, depth, w);
        }
    }
}

/// The search returns a shortest solution: plies are explored in increasing
/// order, so nothing longer than any solving word is ever returned.
pub proof fn lemma_bfs_shortest(
    start: CubeV,
    fr: Seq<Node>,
    ply: nat,
    fuel: nat,
    w_any: Seq<MovePair>,
    w_found: Seq<MovePair>,
)
    requires
        frontier_ok(start, fr, ply),
        frontier_complete(start, fr, ply),
        spec_apply_seq(start, w_any) == solved_cube(),
        ply < w_any.len(),
        spec_bfs(fr, fuel) == Some(w_found),
    ensures
        w_found.len() <= w_any.len(),
    decreases fuel,
{
    let ch = expand_frontier(fr);
    lemma_expand_ok(start, fr, ply);
    lemma_expand_complete(start, fr, ply);
    match first_solved(ch) {
        Some(w0) => {
            lemma_first_solved_in(start, ch, ply + 1);
            assert(w_found.len() == ply + 1);
        },
        None => {
            lemma_first_solved_none_inv(ch);
            if w_any.len() == ply + 1 {
                assert(spec_apply_seq(start, w_any) == spec_apply_seq(start, w_any));
                assert(ch.contains((spec_apply_seq(start, w_any), w_any)));
                let i = choose|i: int|
                    0 <= i < ch.len() && ch[i] == (spec_apply_seq(start, w_any), w_any);
                assert(ch[i].0 == solved_cube());
                assert(false);
            } else {
                lemma_bfs_shortest(start, ch, ply + 1, (fuel - 1) as nat, w_any, w_found);
            }
        },
    }
}

/// Minimality of the solver's result: the returned word is no longer than
/// any word that solves the configuration.
pub proof fn lemma_solve_shortest(c: CubeV, depth: nat, w_found: Seq<MovePair>, w_any: Seq<MovePair>)
    requires
        spec_solve(c, depth) == Some(w_found),
        spec_apply_seq(c, w_any) == solved_cube(),
    ensures
        w_found.len() <= w_any.len(),
{
    if c == solved_cube() {
    } else {
        let fr = seq![(c, Seq::<MovePair>::empty())];
        assert(spec_apply_seq(c, Seq::<MovePair>::empty()) == c);
        assert(frontier_ok(c, fr, 0));
        if w_any.len() == 0 {
            assert(w_any =~= Seq::<MovePair>::empty());
            assert(spec_apply_seq(c, w_any) == c);
        } else {
            assert forall|w0: Seq<MovePair>| #![trigger spec_apply_seq(c, w0)] w0.len() == 0
                implies fr.contains((spec_apply_seq(c, w0), w0)) by {
                assert(w0 =~= Seq::<MovePair>::empty());
                assert(spec_apply_seq(c, w0) == c);
                assert(fr[0] == (spec_apply_seq(c, w0), w0));
            }
            lemma_bfs_shortest(c, fr, 0, depth, w_any, w_found);
        }
    }
}

/// One stored search state: a reached cube and the sequence that reached it.
struct Snapshot<T: Move> {
    cube: Cube,
    sequence: Sequence<T>,
}

/// The nodes that a stored frontier stands for.
spec fn snap_views<T: Move>(snaps: Seq<Snapshot<T>>) -> Seq<Node> {
    snaps.map_values(|s: Snapshot<T>| (s.cube@, s.sequence@))
}

/// Solve by breadth-first search with the default ply ceiling of ten.
pub fn solve<T: Move>(cube: Cube) -> (r: Option<Sequence<T>>)
    requires
        cube@.wf(),
    ensures
        match r {
            Some(s) => spec_solve(cube@, 10) == Some(s@),
            None => spec_solve(cube@, 10) is None,
        },
        r is Some <==> exists|w: Seq<MovePair>|
            (#[trigger] spec_apply_seq(cube@, w)) == solved_cube() && w.len() <= 10,
        match r {
            Some(s) => {
                &&& spec_apply_seq(cube@, s@) == solved_cube()
                &&& s@.len() <= 10
                &&& forall|w: Seq<MovePair>|
                    (#[trigger] spec_apply_seq(cube@, w)) == solved_cube() ==> s@.len() <= w.len()
            },
            None => true,
        },
        cube@ == solved_cube() ==> (r is Some && r->Some_0@ == Seq::<MovePair>::empty()),
{
    solve_bounded(cube, 10)
}

/// Bounded breadth-first search over the configurations reachable from
/// `cube`, walking plies in increasing order and each frontier in insertion
/// order with moves in canonical order. The result is a pure function of the
/// start state and the bound: the first solving sequence in that fixed order.
/// It returns a sequence exactly when one of length at most `max_depth`
/// solves the cube, and then a shortest one; an already solved cube yields
/// the empty sequence with no search. `None` is the normal result for a
/// scramble out of reach of the bound, not an error. No duplicate states are
/// eliminated and nothing is pruned, so cost grows as fast as the frontier,
/// eighteen-fold per ply.
pub fn solve_bounded<T: Move>(cube: Cube, max_depth: u32) -> (r: Option<Sequence<T>>)
    requires
        cube@.wf(),
    ensures
        match r {
            Some(s) => spec_solve(cube@, max_depth as nat) == Some(s@),
            None => spec_solve(cube@, max_depth as nat) is None,
        },
        r is Some <==> exists|w: Seq<MovePair>|
            (#[trigger] spec_apply_seq(cube@, w)) == solved_cube() && w.len() <= max_depth,
        match r {
            Some(s) => {
                &&& spec_apply_seq(cube@, s@) == solved_cube()
                &&& s@.len() <= max_depth
                &&& forall|w: Seq<MovePair>|
                    (#[trigger] spec_apply_seq(cube@, w)) == solved_cube() ==> s@.len() <= w.len()
            },
            None => true,
        },
        cube@ == solved_cube() ==> (r is Some && r->Some_0@ == Seq::<MovePair>::empty()),
{
    let r = search_bounded(cube, max_depth);
    proof {
        let d = max_depth as nat;
        match &r {
            Some(s) => {
                lemma_solve_sound(cube@, d, s@);
                assert forall|w: Seq<MovePair>|
                    (#[trigger] spec_apply_seq(cube@, w)) == solved_cube() implies s@.len()
                    <= w.len() by {
                    lemma_solve_shortest(cube@, d, s@, w);
                }
            },
            None => {
                assert forall|w: Seq<MovePair>|
                    (#[trigger] spec_apply_seq(cube@, w)) == solved_cube() implies w.len()
                    > max_depth by {
                    if w.len() <= max_depth {
                        lemma_solve_complete(cube@, d, w);
                    }
                }
            },
        }
    }
    r
}

/// The search itself, pinned to `spec_solve`.
#[verifier::loop_isolation(false)]
fn search_bounded<T: Move>(cube: Cube, max_depth: u32) -> (r: Option<Sequence<T>>)
    requires
        cube@.wf(),
    ensures
        match r {
            Some(s) => spec_solve(cube@, max_depth as nat) == Some(s@),
            None => spec_solve(cube@, max_depth as nat) is None,
        },
{
    let solved = Cube::create_solved();
    if cube == solved {
        let r = Sequence::<T>::new();
        return Some(r);
    }
    let all: Vec<T> = T::all_moves();
    let mut frontier: Vec<Snapshot<T>> = Vec::new();
    frontier.push(Snapshot { cube, sequence: Sequence::new() });
    proof {
        assert(snap_views(frontier@) =~= seq![(cube@, Seq::<MovePair>::empty())]);
    }
    let mut ply: u32 = 0;
    while ply < max_depth
        invariant
            ply <= max_depth,
            cube@.wf(),
            cube@ != solved_cube(),
            all@.len() == 18,
            forall|k: int|
                0 <= k < 18 ==> ((#[trigger] all@[k]).side_spec() == all_move_pairs()[k].0
                    && all@[k].turn_spec() == all_move_pairs()[k].1),
            forall|i: int|
                0 <= i < frontier@.len() ==> (#[trigger] frontier@[i]).cube@.wf(),
            spec_solve(cube@, max_depth as nat) == spec_bfs(
                snap_views(frontier@),
                (max_depth - ply) as nat,
            ),
        decreases max_depth - ply,
    {
        let ghost fr = snap_views(frontier@);
        let ghost ch = expand_frontier(fr);
        proof {
            lemma_expand_len(fr);
        }
        let mut next: Vec<Snapshot<T>> = Vec::new();
        let mut a: usize = 0;
        while a < frontier.len()
            invariant
                a <= frontier.len(),
                all@.len() == 18,
                forall|k: int|
                    0 <= k < 18 ==> ((#[trigger] all@[k]).side_spec() == all_move_pairs()[k].0
                        && all@[k].turn_spec() == all_move_pairs()[k].1),
                forall|i: int|
                    0 <= i < frontier@.len() ==> (#[trigger] frontier@[i]).cube@.wf(),
                fr == snap_views(frontier@),
                ch == expand_frontier(fr),
                ch.len() == 18 * fr.len(),
                snap_views(next@) =~= ch.subrange(0, 18 * a),
                forall|k: int| 0 <= k < 18 * a ==> (#[trigger] ch[k]).0 != solved_cube(),
                forall|i: int| 0 <= i < next@.len() ==> (#[trigger] next@[i]).cube@.wf(),
            decreases frontier.len() - a,
        {
            let mut b: usize = 0;
            while b < 18
                invariant
                    b <= 18,
                    a < frontier.len(),
                    all@.len() == 18,
                    forall|k: int|
                        0 <= k < 18 ==> ((#[trigger] all@[k]).side_spec() == all_move_pairs()[k].0
                            && all@[k].turn_spec() == all_move_pairs()[k].1),
                    forall|i: int|
                        0 <= i < frontier@.len() ==> (#[trigger] frontier@[i]).cube@.wf(),
                    fr == snap_views(frontier@),
                    ch == expand_frontier(fr),
                    ch.len() == 18 * fr.len(),
                    snap_views(next@) =~= ch.subrange(0, 18 * a + b),
                    forall|k: int| 0 <= k < 18 * a + b ==> (#[trigger] ch[k]).0 != solved_cube(),
                    forall|i: int| 0 <= i < next@.len() ==> (#[trigger] next@[i]).cube@.wf(),
                decreases 18 - b,
            {
                let snapshot = &frontier[a];
                let mv = all[b];
                let child = snapshot.cube.apply_move(&mv);
                let child_seq = snapshot.sequence.apply(&mv);
                proof {
                    lemma_expand_index(fr, a as int, b as int);
                    assert(fr[a as int] == (snapshot.cube@, snapshot.sequence@));
                    assert(ch[18 * a + b] == (child@, child_seq@));
                }
                if child == solved {
                    proof {
                        lemma_first_solved_at(ch, 18 * a + b);
                    }
                    return Some(child_seq);
                }
                next.push(Snapshot { cube: child, sequence: child_seq });
                proof {
                    assert(snap_views(next@) =~= ch.subrange(0, 18 * a + b + 1));
                }
                b += 1;
            }
            a += 1;
        }
        proof {
            assert(ch.subrange(0, 18 * frontier@.len() as int) =~= ch);
            lemma_first_solved_none(ch);
        }
        frontier = next;
        ply += 1;
    }
    None
}

} // verus!
