use vstd::prelude::*;

verus! {

/// One of the six sticker colors of the puzzle.
#[derive(Clone, Copy, PartialEq, Eq, Structural, Debug)]
pub enum Color {
    WHITE,
    GREEN,
    RED,
    BLUE,
    ORANGE,
    YELLOW,
}

/// The single letter that names a color in text output.
pub open spec fn spec_letter(c: Color) -> char {
    match c {
        Color::WHITE => 'W',
        Color::GREEN => 'G',
        Color::RED => 'R',
        Color::BLUE => 'B',
        Color::ORANGE => 'O',
        Color::YELLOW => 'Y',
    }
}

impl Color {
    /// The letter used for this color when a cube is rendered as text.
    pub fn letter(&self) -> (r: char)
        ensures
            r == spec_letter(*self),
    {
        match self {
            Color::WHITE => 'W',
            Color::GREEN => 'G',
            Color::RED => 'R',
            Color::BLUE => 'B',
            Color::ORANGE => 'O',
            Color::YELLOW => 'Y',
        }
    }
}

} // verus!
