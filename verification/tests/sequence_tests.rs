use cube_solver::moves::{Move, Side, Turn};
use cube_solver::piece::{Corner, Edge};
use cube_solver::color::Color;
use cube_solver::sequence::Sequence;
use cube_solver::simple_move::SimpleMove;

#[test]
fn new_sequence_is_empty() {
    let s: Sequence<SimpleMove> = Sequence::new();
    assert_eq!(s.len(), 0);
    assert_eq!(s.format(), "");
}

#[test]
fn apply_appends_a_move() {
    let s: Sequence<SimpleMove> = Sequence::new();
    let m = SimpleMove::parse("R").unwrap();
    let s = s.apply(&m);
    let m2 = SimpleMove::parse("U'").unwrap();
    let s = s.apply(&m2);
    assert_eq!(s.len(), 2);
    assert_eq!(s.format(), "R U'");
    assert_eq!(s.get(0), m);
    assert_eq!(s.get(1), m2);
}

#[test]
fn sequence_round_trip() {
    // parse(format(s)) == s for non-empty sequences
    for notation in ["R", "R U R' U' R", "U2 D2 F B' L2", "L' L' L' L'"] {
        let s: Sequence<SimpleMove> = Sequence::parse(notation).unwrap();
        assert_eq!(s.format(), notation);
        let back: Sequence<SimpleMove> = Sequence::parse(&s.format()).unwrap();
        assert_eq!(back.format(), s.format());
    }
}

#[test]
fn parse_rejects_bad_sequences() {
    assert!(Sequence::<SimpleMove>::parse("").is_none());
    assert!(Sequence::<SimpleMove>::parse(" ").is_none());
    assert!(Sequence::<SimpleMove>::parse("R  U").is_none());
    assert!(Sequence::<SimpleMove>::parse("R U ").is_none());
    assert!(Sequence::<SimpleMove>::parse(" R U").is_none());
    assert!(Sequence::<SimpleMove>::parse("R X").is_none());
    assert!(Sequence::<SimpleMove>::parse("R U3").is_none());
}

#[test]
fn invert_reverses_and_inverts() {
    let s: Sequence<SimpleMove> = Sequence::parse("R U2 F'").unwrap();
    assert_eq!(s.invert().format(), "F U2 R'");
    let empty: Sequence<SimpleMove> = Sequence::new();
    assert_eq!(empty.invert().format(), "");
}

#[test]
fn random_scramble_has_requested_length_and_legal_moves() {
    let s: Sequence<SimpleMove> = Sequence::random_scramble(100);
    assert_eq!(s.len(), 100);
    for i in 0..100 {
        let m = s.get(i);
        // every drawn move is one of the eighteen legal ones
        let back = SimpleMove::parse(&m.format()).unwrap();
        assert_eq!(back, m);
    }
    let empty: Sequence<SimpleMove> = Sequence::random_scramble(0);
    assert_eq!(empty.len(), 0);
}

#[test]
fn edge_flip_swaps_on_odd_counts() {
    let e = Edge(Color::WHITE, Color::GREEN);
    assert_eq!(e.flip(0), e);
    assert_eq!(e.flip(1), Edge(Color::GREEN, Color::WHITE));
    assert_eq!(e.flip(2), e);
    assert_eq!(e.flip(7), Edge(Color::GREEN, Color::WHITE));
}

#[test]
fn corner_rotate_cycles_stickers() {
    let c = Corner(Color::WHITE, Color::RED, Color::GREEN);
    assert_eq!(c.rotate(0), c);
    assert_eq!(c.rotate(1), Corner(Color::GREEN, Color::WHITE, Color::RED));
    assert_eq!(c.rotate(2), Corner(Color::RED, Color::GREEN, Color::WHITE));
    assert_eq!(c.rotate(3), c);
    assert_eq!(c.rotate(4), c.rotate(1));
}

#[test]
fn sides_and_turns_compare_by_content() {
    assert_eq!(Side::UP, Side::UP);
    assert_ne!(Side::UP, Side::DOWN);
    assert_eq!(Turn::TWO, Turn::TWO);
    assert_ne!(Turn::RIGHT, Turn::LEFT);
    let a = SimpleMove { side: Side::RIGHT, turns: Turn::LEFT };
    let b = SimpleMove::parse("R'").unwrap();
    assert_eq!(a, b);
}
