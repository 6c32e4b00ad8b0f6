//! The die: six faces, four effects.

use vstd::prelude::*;

verus! {

/// Number of faces on the die.
pub const FACES: u32 = 6;

/// What one die tells the player who rolled it to do with one token.
#[derive(Clone, Copy, Debug, PartialEq, Eq, Structural)]
pub enum Roll {
    /// Keep the token.
    Dot,
    /// Pass the token to the neighbour on the left.
    Left,
    /// Pass the token to the neighbour on the right.
    Right,
    /// Put the token in the center, out of the game.
    Center,
}

/// The effect printed on a face: faces 0, 1 and 2 are dots, 3 is left, 4 is
/// right and 5 is center. Any other number reads as a dot.
pub open spec fn face_roll(face: int) -> Roll {
    if face == 3 {
        Roll::Left
    } else if face == 4 {
        Roll::Right
    } else if face == 5 {
        Roll::Center
    } else {
        Roll::Dot
    }
}

impl Roll {
    /// Reads a face of the die.
    pub fn from_face(face: u32) -> (roll: Roll)
        ensures
            roll == face_roll(face as int),
    {
        if face == 3 {
            Roll::Left
        } else if face == 4 {
            Roll::Right
        } else if face == 5 {
            Roll::Center
        } else {
            Roll::Dot
        }
    }
}

} // verus!
