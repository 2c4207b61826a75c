use cube_solver::cube::Cube;
use cube_solver::fast_move::FastMove;
use cube_solver::sequence::Sequence;
use cube_solver::simple_move::SimpleMove;
use cube_solver::solver::{solve, solve_bounded};

#[test]
fn solved_cube_solves_to_empty_sequence() {
    // the base case returns the empty sequence at once, not absence
    let r: Option<Sequence<SimpleMove>> = solve(Cube::create_solved());
    let s = r.expect("the solved cube must yield a sequence");
    assert_eq!(s.len(), 0);
    assert_eq!(s.format(), "");
}

#[test]
fn one_move_scramble_solves_with_its_inverse() {
    let scramble: Sequence<SimpleMove> = Sequence::parse("R").unwrap();
    let c = Cube::create_solved().apply(&scramble);
    let solution: Sequence<SimpleMove> = solve_bounded(c, 2).expect("solvable in one move");
    assert_eq!(solution.format(), "R'");
}

#[test]
fn half_turn_scramble_solves_with_a_half_turn() {
    let scramble: Sequence<SimpleMove> = Sequence::parse("U2").unwrap();
    let c = Cube::create_solved().apply(&scramble);
    let solution: Sequence<SimpleMove> = solve_bounded(c, 2).expect("solvable in one move");
    assert_eq!(solution.format(), "U2");
}

#[test]
fn two_move_scramble_solves() {
    let scramble: Sequence<SimpleMove> = Sequence::parse("R U").unwrap();
    let c = Cube::create_solved().apply(&scramble);
    let solution: Sequence<SimpleMove> = solve_bounded(c, 3).expect("solvable in two moves");
    assert_eq!(solution.format(), "U' R'");
    assert_eq!(c.apply(&solution), Cube::create_solved());
}

#[test]
fn solver_is_deterministic() {
    let scramble: Sequence<SimpleMove> = Sequence::parse("R U F2").unwrap();
    let c = Cube::create_solved().apply(&scramble);
    let first: Sequence<SimpleMove> = solve_bounded(c, 3).expect("solvable in three moves");
    let second: Sequence<SimpleMove> = solve_bounded(c, 3).expect("solvable in three moves");
    assert_eq!(first.format(), second.format());
}

#[test]
fn unsolvable_within_bound_returns_no_solution() {
    // this scramble needs two moves; a one-ply search reports no solution,
    // as a normal result rather than an error
    let scramble: Sequence<SimpleMove> = Sequence::parse("R U").unwrap();
    let c = Cube::create_solved().apply(&scramble);
    let r: Option<Sequence<SimpleMove>> = solve_bounded(c, 1);
    assert!(r.is_none());
}

#[test]
fn default_depth_solver_finds_short_solutions() {
    let scramble: Sequence<SimpleMove> = Sequence::parse("R U").unwrap();
    let c = Cube::create_solved().apply(&scramble);
    let solution: Sequence<SimpleMove> = solve(c).expect("well within the default bound");
    assert_eq!(solution.format(), "U' R'");
}

#[test]
fn five_move_scramble_solves_within_six_plies() {
    let scramble: Sequence<FastMove> = Sequence::parse("R U R' U' R").unwrap();
    let c = Cube::create_solved().apply(&scramble);
    let solution: Sequence<FastMove> = solve_bounded(c, 6).expect("solvable within six plies");
    assert!(solution.len() <= 6);
    // applying the scramble and then the found solution returns to solved
    assert_eq!(c.apply(&solution), Cube::create_solved());
}
