//! The move model: faces, modifiers, composed moves, the opposite-face
//! relation and the adjacency-validity rule.

use vstd::prelude::*;
use vstd::string::StringExecFns;
use crate::rng::{draw_of, SeededRng};

verus! {

/// One of the six faces of the cube a move rotates.
#[derive(PartialEq, Eq, Structural, Clone, Copy, Debug)]
pub enum Face {
    Front,
    Back,
    Right,
    Left,
    Up,
    Down,
}

/// The face on the opposite side of the cube: the other face on the same
/// rotational axis.
pub open spec fn opposite_spec(f: Face) -> Face {
    match f {
        Face::Front => Face::Back,
        Face::Back => Face::Front,
        Face::Right => Face::Left,
        Face::Left => Face::Right,
        Face::Up => Face::Down,
        Face::Down => Face::Up,
    }
}

impl Face {
    /// Maps each face to the other face on its axis.
    pub fn opposite(&self) -> (r: Self)
        ensures
            r == opposite_spec(*self),
    {
        match self {
            Face::Front => Face::Back,
            Face::Back => Face::Front,
            Face::Right => Face::Left,
            Face::Left => Face::Right,
            Face::Up => Face::Down,
            Face::Down => Face::Up,
        }
    }
}

/// The opposite-face relation is an involution that fixes no face: applying
/// it twice returns the original face, and no face is its own opposite.
pub proof fn lemma_opposite_involution(f: Face)
    ensures
        opposite_spec(opposite_spec(f)) == f,
        opposite_spec(f) != f,
{
}

/// The amount and direction of a rotation: a quarter turn one way, a quarter
/// turn the other way, or a half turn. Irrelevant to the validity rule.
#[derive(PartialEq, Eq, Structural, Clone, Copy, Debug)]
pub enum Modifier {
    Empty,
    Prime,
    Two,
}

/// One scramble step: a face together with a modifier.
#[derive(PartialEq, Eq, Structural, Clone, Copy, Debug)]
pub struct Rotation {
    pub face: Face,
    pub modifier: Modifier,
}

/// The face that a draw below six stands for.
pub open spec fn face_from(v: u32) -> Face {
    if v == 0 {
        Face::Front
    } else if v == 1 {
        Face::Back
    } else if v == 2 {
        Face::Right
    } else if v == 3 {
        Face::Left
    } else if v == 4 {
        Face::Up
    } else {
        Face::Down
    }
}

/// The modifier that a draw below three stands for.
pub open spec fn modifier_from(v: u32) -> Modifier {
    if v == 0 {
        Modifier::Empty
    } else if v == 1 {
        Modifier::Prime
    } else {
        Modifier::Two
    }
}

/// Draws a face, uniformly among the six.
pub fn sample_face(rng: &mut SeededRng) -> (f: Face)
    ensures
        final(rng).seed() == old(rng).seed(),
        final(rng).draws() == old(rng).draws().push(6u32),
        f == face_from(draw_of(old(rng).seed(), old(rng).draws(), 6)),
{
    let v = rng.draw(6);
    if v == 0 {
        Face::Front
    } else if v == 1 {
        Face::Back
    } else if v == 2 {
        Face::Right
    } else if v == 3 {
        Face::Left
    } else if v == 4 {
        Face::Up
    } else {
        Face::Down
    }
}

/// Draws a modifier, uniformly among the three.
pub fn sample_modifier(rng: &mut SeededRng) -> (m: Modifier)
    ensures
        final(rng).seed() == old(rng).seed(),
        final(rng).draws() == old(rng).draws().push(3u32),
        m == modifier_from(draw_of(old(rng).seed(), old(rng).draws(), 3)),
{
    let v = rng.draw(3);
    if v == 0 {
        Modifier::Empty
    } else if v == 1 {
        Modifier::Prime
    } else {
        Modifier::Two
    }
}

/// Draws a whole move: first the face, then the modifier. The two draws are
/// independent.
pub fn sample_move(rng: &mut SeededRng) -> (r: Rotation)
    ensures
        final(rng).seed() == old(rng).seed(),
        final(rng).draws() == old(rng).draws().push(6u32).push(3u32),
        r.face == face_from(draw_of(old(rng).seed(), old(rng).draws(), 6)),
        r.modifier == modifier_from(draw_of(old(rng).seed(), old(rng).draws().push(6u32), 3)),
{
    let face = sample_face(rng);
    let modifier = sample_modifier(rng);
    Rotation { face, modifier }
}

/// The letter a face renders as.
pub open spec fn face_str(f: Face) -> Seq<char> {
    match f {
        Face::Front => "F"@,
        Face::Back => "B"@,
        Face::Right => "R"@,
        Face::Left => "L"@,
        Face::Up => "U"@,
        Face::Down => "D"@,
    }
}

/// The suffix a modifier renders as.
pub open spec fn modifier_str(m: Modifier) -> Seq<char> {
    match m {
        Modifier::Empty => ""@,
        Modifier::Prime => "'"@,
        Modifier::Two => "2"@,
    }
}

/// The rendering of a move: its face letter followed by its modifier
/// suffix.
pub open spec fn move_str(r: Rotation) -> Seq<char> {
    face_str(r.face) + modifier_str(r.modifier)
}

/// The window that a candidate move is tested against: the last accepted
/// move and the one before it, either of which may be absent.
pub open spec fn valid_move(c: Rotation, last: Option<Rotation>, second_to_last: Option<Rotation>) -> bool {
    match (last, second_to_last) {
        (None, _) => true,
        (Some(l), None) => c.face != l.face,
        (Some(l), Some(p)) => c.face != p.face && c.face != opposite_spec(p.face) && c.face != l.face,
    }
}

/// The moves that `is_valid` takes by reference, as plain values.
pub open spec fn opt_rotation(o: Option<&Rotation>) -> Option<Rotation> {
    match o {
        Some(r) => Some(*r),
        None => None,
    }
}

impl Rotation {
    /// Whether this move may follow the given window. With no last move any
    /// move is valid; with only a last move, any move on a different face;
    /// with both, the face must also differ from the second-to-last face and
    /// from its opposite.
    pub fn is_valid(&self, last: Option<&Self>, second_to_last: Option<&Self>) -> (r: bool)
        ensures
            r == valid_move(*self, opt_rotation(last), opt_rotation(second_to_last)),
    {
        match (last, second_to_last) {
            (None, _) => true,
            (Some(l), None) => self.face != l.face,
            (Some(l), Some(p)) => {
                self.face != p.face && self.face != p.face.opposite() && self.face != l.face
            },
        }
    }

    /// Renders the move as its face letter followed by its modifier suffix.
    pub fn render(&self) -> (s: String)
        ensures
            s@ == move_str(*self),
    {
        let f: &str = match self.face {
            Face::Front => "F",
            Face::Back => "B",
            Face::Right => "R",
            Face::Left => "L",
            Face::Up => "U",
            Face::Down => "D",
        };
        let m: &str = match self.modifier {
            Modifier::Empty => "",
            Modifier::Prime => "'",
            Modifier::Two => "2",
        };
        let mut s = String::from_str(f);
        s.append(m);
        s
    }
}

} // verus!
