use cube_solver::color::Color;
use cube_solver::cube::Cube;
use cube_solver::fast_move::FastMove;
use cube_solver::moves::Move;
use cube_solver::sequence::Sequence;
use cube_solver::simple_move::SimpleMove;

fn scrambled(notation: &str) -> Cube {
    let s: Sequence<SimpleMove> = Sequence::parse(notation).unwrap();
    Cube::create_solved().apply(&s)
}

#[test]
fn solved_equals_solved() {
    assert_eq!(Cube::create_solved(), Cube::create_solved());
}

#[test]
fn scramble_changes_state() {
    assert_ne!(scrambled("R"), Cube::create_solved());
    assert_ne!(scrambled("R U R' U'"), Cube::create_solved());
}

#[test]
fn move_then_inverse_restores_state() {
    // group inverse law on a non-trivial state, for every legal move
    let c = scrambled("R U F' D2 L B");
    for m in SimpleMove::all_moves() {
        let back = c.apply_move(&m).apply_move(&m.invert());
        assert_eq!(back, c);
    }
}

#[test]
fn sequence_then_inverse_restores_state() {
    let s: Sequence<SimpleMove> = Sequence::parse("R U R' U' F2 D B'").unwrap();
    let c = scrambled("L2 F U");
    let there = c.apply(&s);
    let back = there.apply(&s.invert());
    assert_eq!(back, c);
}

#[test]
fn quarter_turn_has_order_four() {
    let c = scrambled("F R U");
    for token in ["R", "R'", "U", "D", "F", "B", "L", "L'"] {
        let m = SimpleMove::parse(token).unwrap();
        let four = c.apply_move(&m).apply_move(&m).apply_move(&m).apply_move(&m);
        assert_eq!(four, c);
    }
}

#[test]
fn half_turn_has_order_two() {
    let c = scrambled("R U F");
    for token in ["U2", "D2", "F2", "B2", "R2", "L2"] {
        let m = SimpleMove::parse(token).unwrap();
        let twice = c.apply_move(&m).apply_move(&m);
        assert_eq!(twice, c);
    }
}

#[test]
fn left_turn_equals_three_rights() {
    let c = scrambled("D B2");
    let right = SimpleMove::parse("F").unwrap();
    let left = SimpleMove::parse("F'").unwrap();
    let three = c.apply_move(&right).apply_move(&right).apply_move(&right);
    assert_eq!(c.apply_move(&left), three);
}

#[test]
fn sexy_move_has_order_six() {
    // (R U R' U') applied six times is the identity
    let mut c = Cube::create_solved();
    let s: Sequence<SimpleMove> = Sequence::parse("R U R' U'").unwrap();
    for _ in 0..6 {
        c = c.apply(&s);
    }
    assert_eq!(c, Cube::create_solved());
}

#[test]
fn fast_and_simple_encodings_act_identically() {
    let notation = "R U2 F' D L2 B' U' R2";
    let simple: Sequence<SimpleMove> = Sequence::parse(notation).unwrap();
    let fast: Sequence<FastMove> = Sequence::parse(notation).unwrap();
    let a = Cube::create_solved().apply(&simple);
    let b = Cube::create_solved().apply(&fast);
    assert_eq!(a, b);
}

#[test]
fn solved_facelets_are_uniform_faces() {
    let f = Cube::create_solved().facelets();
    assert_eq!(f.len(), 54);
    // up face: three rows of three, all white
    for i in 0..9 {
        assert_eq!(f[i], Color::WHITE);
    }
    // the three middle rows cycle orange, green, red, blue
    for row in 0..3 {
        let base = 9 + row * 12;
        for (face, color) in
            [Color::ORANGE, Color::GREEN, Color::RED, Color::BLUE].iter().enumerate()
        {
            for k in 0..3 {
                assert_eq!(f[base + face * 3 + k], *color);
            }
        }
    }
    // down face: three rows of three, all yellow
    for i in 45..54 {
        assert_eq!(f[i], Color::YELLOW);
    }
}

#[test]
fn every_color_appears_nine_times_after_any_scramble() {
    let f = scrambled("R U R' U' F2 B D' L").facelets();
    let mut counts = [0usize; 6];
    for c in f {
        let i = match c {
            Color::WHITE => 0,
            Color::GREEN => 1,
            Color::RED => 2,
            Color::BLUE => 3,
            Color::ORANGE => 4,
            Color::YELLOW => 5,
        };
        counts[i] += 1;
    }
    assert_eq!(counts, [9, 9, 9, 9, 9, 9]);
}

#[test]
fn up_face_turn_moves_top_layer_only() {
    let f = scrambled("U").facelets();
    // the up face stays white, the down face yellow
    for i in 0..9 {
        assert_eq!(f[i], Color::WHITE);
    }
    for i in 45..54 {
        assert_eq!(f[i], Color::YELLOW);
    }
    // the top row of the four side faces has cycled: orange shows green,
    // green shows red, red shows blue, blue shows orange
    assert_eq!(f[9], Color::GREEN);
    assert_eq!(f[12], Color::RED);
    assert_eq!(f[15], Color::BLUE);
    assert_eq!(f[18], Color::ORANGE);
}

#[test]
fn color_letters() {
    assert_eq!(Color::WHITE.letter(), 'W');
    assert_eq!(Color::GREEN.letter(), 'G');
    assert_eq!(Color::RED.letter(), 'R');
    assert_eq!(Color::BLUE.letter(), 'B');
    assert_eq!(Color::ORANGE.letter(), 'O');
    assert_eq!(Color::YELLOW.letter(), 'Y');
}
