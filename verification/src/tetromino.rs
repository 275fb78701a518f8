//! The shape catalog: the seven tetromino kinds, each with four rotation
//! states (sets of relative cell offsets) and a color tag.

use vstd::prelude::*;

verus! {

/// The color tag carried by a piece and written into board cells when the
/// piece lands. It has no behaviour beyond identity.
#[derive(Copy, Clone, Debug, PartialEq, Eq, Structural)]
pub enum Color {
    Cyan,
    Yellow,
    Purple,
    Green,
    Red,
    Blue,
    Orange,
}

/// A tetromino kind. The catalog is this enum: shape data is immutable,
/// global, and looked up by kind through `offsets_of` and `color_of`.
#[derive(Copy, Clone, Debug, PartialEq, Eq, Structural)]
pub enum Tetromino {
    I,
    O,
    T,
    S,
    Z,
    J,
    L,
}

/// One rotation state of a shape: the relative `(dx, dy)` offsets of its
/// cells with respect to the piece's anchor position.
pub type Rotation = Vec<(isize, isize)>;

/// The offsets of rotation state `r` of shape `t`. States `0..4` correspond
/// to successive 90-degree steps; every state of every shape has exactly
/// four cells.
pub open spec fn spec_offsets(t: Tetromino, r: int) -> Seq<(isize, isize)> {
    match t {
        Tetromino::I => if r % 2 == 0 {
            seq![(0isize, 0isize), (1isize, 0isize), (2isize, 0isize), (3isize, 0isize)]
        } else {
            seq![(1isize, 0isize), (1isize, 1isize), (1isize, 2isize), (1isize, 3isize)]
        },
        Tetromino::O => seq![(0isize, 0isize), (1isize, 0isize), (0isize, 1isize), (1isize, 1isize)],
        Tetromino::T => if r == 0 {
            seq![(0isize, 0isize), (1isize, 0isize), (2isize, 0isize), (1isize, 1isize)]
        } else if r == 1 {
            seq![(1isize, 0isize), (0isize, 1isize), (1isize, 1isize), (1isize, 2isize)]
        } else if r == 2 {
            seq![(1isize, 0isize), (0isize, 1isize), (1isize, 1isize), (2isize, 1isize)]
        } else {
            seq![(0isize, 0isize), (0isize, 1isize), (1isize, 1isize), (0isize, 2isize)]
        },
        Tetromino::S => if r % 2 == 0 {
            seq![(1isize, 0isize), (2isize, 0isize), (0isize, 1isize), (1isize, 1isize)]
        } else {
            seq![(0isize, 0isize), (0isize, 1isize), (1isize, 1isize), (1isize, 2isize)]
        },
        Tetromino::Z => if r % 2 == 0 {
            seq![(0isize, 0isize), (1isize, 0isize), (1isize, 1isize), (2isize, 1isize)]
        } else {
            seq![(1isize, 0isize), (0isize, 1isize), (1isize, 1isize), (0isize, 2isize)]
        },
        Tetromino::J => if r == 0 {
            seq![(0isize, 0isize), (0isize, 1isize), (1isize, 1isize), (2isize, 1isize)]
        } else if r == 1 {
            seq![(1isize, 0isize), (2isize, 0isize), (1isize, 1isize), (1isize, 2isize)]
        } else if r == 2 {
            seq![(0isize, 0isize), (1isize, 0isize), (2isize, 0isize), (2isize, 1isize)]
        } else {
            seq![(1isize, 0isize), (1isize, 1isize), (0isize, 2isize), (1isize, 2isize)]
        },
        Tetromino::L => if r == 0 {
            seq![(2isize, 0isize), (0isize, 1isize), (1isize, 1isize), (2isize, 1isize)]
        } else if r == 1 {
            seq![(1isize, 0isize), (1isize, 1isize), (1isize, 2isize), (2isize, 2isize)]
        } else if r == 2 {
            seq![(0isize, 0isize), (1isize, 0isize), (2isize, 0isize), (0isize, 1isize)]
        } else {
            seq![(0isize, 0isize), (1isize, 0isize), (1isize, 1isize), (1isize, 2isize)]
        },
    }
}

/// Every offset of every rotation state is small: each coordinate lies in
/// `0..=3`, the footprint of a shape inside its four-by-four box.
pub proof fn lemma_offsets_bounded(t: Tetromino, r: int)
    ensures
        forall|i: int|
            0 <= i < spec_offsets(t, r).len() ==> {
                let o = #[trigger] spec_offsets(t, r)[i];
                0 <= o.0 <= 3 && 0 <= o.1 <= 3
            },
{
}

/// The color tag of shape `t`.
pub open spec fn spec_color_of(t: Tetromino) -> Color {
    match t {
        Tetromino::I => Color::Cyan,
        Tetromino::O => Color::Yellow,
        Tetromino::T => Color::Purple,
        Tetromino::S => Color::Green,
        Tetromino::Z => Color::Red,
        Tetromino::J => Color::Blue,
        Tetromino::L => Color::Orange,
    }
}

/// The catalog as a sequence: each of the seven kinds once.
pub open spec fn spec_catalog() -> Seq<Tetromino> {
    seq![
        Tetromino::I,
        Tetromino::O,
        Tetromino::T,
        Tetromino::S,
        Tetromino::Z,
        Tetromino::J,
        Tetromino::L,
    ]
}

fn quad(a: (isize, isize), b: (isize, isize), c: (isize, isize), d: (isize, isize)) -> (v:
    Rotation)
    ensures
        v@ == seq![a, b, c, d],
{
    let mut v: Rotation = Vec::new();
    v.push(a);
    v.push(b);
    v.push(c);
    v.push(d);
    proof {
        assert(v@ =~= seq![a, b, c, d]);
    }
    v
}

/// The offsets of rotation state `r` of shape `t`, as a vector.
pub fn offsets_of(t: Tetromino, r: usize) -> (v: Rotation)
    requires
        r < 4,
    ensures
        v@ == spec_offsets(t, r as int),
        v@.len() == 4,
{
    match t {
        Tetromino::I => if r % 2 == 0 {
            quad((0, 0), (1, 0), (2, 0), (3, 0))
        } else {
            quad((1, 0), (1, 1), (1, 2), (1, 3))
        },
        Tetromino::O => quad((0, 0), (1, 0), (0, 1), (1, 1)),
        Tetromino::T => match r {
            0 => quad((0, 0), (1, 0), (2, 0), (1, 1)),
            1 => quad((1, 0), (0, 1), (1, 1), (1, 2)),
            2 => quad((1, 0), (0, 1), (1, 1), (2, 1)),
            _ => quad((0, 0), (0, 1), (1, 1), (0, 2)),
        },
        Tetromino::S => if r % 2 == 0 {
            quad((1, 0), (2, 0), (0, 1), (1, 1))
        } else {
            quad((0, 0), (0, 1), (1, 1), (1, 2))
        },
        Tetromino::Z => if r % 2 == 0 {
            quad((0, 0), (1, 0), (1, 1), (2, 1))
        } else {
            quad((1, 0), (0, 1), (1, 1), (0, 2))
        },
        Tetromino::J => match r {
            0 => quad((0, 0), (0, 1), (1, 1), (2, 1)),
            1 => quad((1, 0), (2, 0), (1, 1), (1, 2)),
            2 => quad((0, 0), (1, 0), (2, 0), (2, 1)),
            _ => quad((1, 0), (1, 1), (0, 2), (1, 2)),
        },
        Tetromino::L => match r {
            0 => quad((2, 0), (0, 1), (1, 1), (2, 1)),
            1 => quad((1, 0), (1, 1), (1, 2), (2, 2)),
            2 => quad((0, 0), (1, 0), (2, 0), (0, 1)),
            _ => quad((0, 0), (1, 0), (1, 1), (1, 2)),
        },
    }
}

/// The color tag of shape `t`, as a value.
pub fn color_of(t: Tetromino) -> (c: Color)
    ensures
        c == spec_color_of(t),
{
    match t {
        Tetromino::I => Color::Cyan,
        Tetromino::O => Color::Yellow,
        Tetromino::T => Color::Purple,
        Tetromino::S => Color::Green,
        Tetromino::Z => Color::Red,
        Tetromino::J => Color::Blue,
        Tetromino::L => Color::Orange,
    }
}

/// The full catalog of shapes, one entry per kind.
pub fn tetrominos() -> (v: Vec<Tetromino>)
    ensures
        v@ == spec_catalog(),
        v@.len() == 7,
{
    let mut v: Vec<Tetromino> = Vec::new();
    v.push(Tetromino::I);
    v.push(Tetromino::O);
    v.push(Tetromino::T);
    v.push(Tetromino::S);
    v.push(Tetromino::Z);
    v.push(Tetromino::J);
    v.push(Tetromino::L);
    proof {
        assert(v@ =~= spec_catalog());
    }
    v
}

} // verus!
