use cube_solver::fast_move::FastMove;
use cube_solver::moves::{Move, Side, Turn};
use cube_solver::simple_move::SimpleMove;

#[test]
fn parse_single_letters() {
    let m = SimpleMove::parse("U").unwrap();
    assert_eq!(m, SimpleMove { side: Side::UP, turns: Turn::RIGHT });
    let m = SimpleMove::parse("D").unwrap();
    assert_eq!(m, SimpleMove { side: Side::DOWN, turns: Turn::RIGHT });
    let m = SimpleMove::parse("F").unwrap();
    assert_eq!(m, SimpleMove { side: Side::FRONT, turns: Turn::RIGHT });
    let m = SimpleMove::parse("B").unwrap();
    assert_eq!(m, SimpleMove { side: Side::BACK, turns: Turn::RIGHT });
    let m = SimpleMove::parse("R").unwrap();
    assert_eq!(m, SimpleMove { side: Side::RIGHT, turns: Turn::RIGHT });
    let m = SimpleMove::parse("L").unwrap();
    assert_eq!(m, SimpleMove { side: Side::LEFT, turns: Turn::RIGHT });
}

#[test]
fn parse_suffixes() {
    let m = SimpleMove::parse("R'").unwrap();
    assert_eq!(m, SimpleMove { side: Side::RIGHT, turns: Turn::LEFT });
    let m = SimpleMove::parse("U2").unwrap();
    assert_eq!(m, SimpleMove { side: Side::UP, turns: Turn::TWO });
}

#[test]
fn parse_rejects_bad_tokens() {
    assert!(SimpleMove::parse("").is_none());
    assert!(SimpleMove::parse("X").is_none());
    assert!(SimpleMove::parse("U3").is_none());
    assert!(SimpleMove::parse("UU").is_none());
    assert!(SimpleMove::parse("R'2").is_none());
    assert!(SimpleMove::parse(" R").is_none());
    assert!(SimpleMove::parse("r").is_none());
}

#[test]
fn format_all_moves() {
    let expected = [
        "U", "U'", "U2", "D", "D'", "D2", "F", "F'", "F2", "B", "B'", "B2", "R", "R'", "R2", "L",
        "L'", "L2",
    ];
    let all = SimpleMove::all_moves();
    assert_eq!(all.len(), 18);
    for (m, e) in all.iter().zip(expected.iter()) {
        assert_eq!(m.format(), *e);
    }
}

#[test]
fn move_round_trip() {
    // parse(format(m)) == m for every legal move, in both encodings
    for m in SimpleMove::all_moves() {
        let back = SimpleMove::parse(&m.format()).unwrap();
        assert_eq!(back, m);
    }
    for m in FastMove::all_moves() {
        let back = FastMove::parse(&m.format()).unwrap();
        assert_eq!(back, m);
    }
}

#[test]
fn invert_moves() {
    let r = SimpleMove::parse("R").unwrap();
    assert_eq!(r.invert().format(), "R'");
    let rp = SimpleMove::parse("R'").unwrap();
    assert_eq!(rp.invert().format(), "R");
    let u2 = SimpleMove::parse("U2").unwrap();
    assert_eq!(u2.invert().format(), "U2");
}

#[test]
fn fast_move_all_moves_order_matches() {
    let simple = SimpleMove::all_moves();
    let fast = FastMove::all_moves();
    assert_eq!(simple.len(), fast.len());
    for (s, f) in simple.iter().zip(fast.iter()) {
        assert_eq!(s.format(), f.format());
    }
}
