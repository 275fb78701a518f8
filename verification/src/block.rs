//! The falling piece: a catalog shape, a rotation index, and an absolute
//! anchor position. Pieces are immutable values; `rotate` and `displace`
//! consume a piece and return a new one, so a caller can test a transformed
//! piece against the board and discard it without rollback.

use rand::Rng;
use vstd::prelude::*;

use crate::tetromino::Color;
use crate::tetromino::Rotation;
use crate::tetromino::Tetromino;
use crate::tetromino::color_of;
use crate::tetromino::offsets_of;
use crate::tetromino::spec_catalog;
use crate::tetromino::spec_color_of;
use crate::tetromino::spec_offsets;
use crate::tetromino::tetrominos;

verus! {

/// A one-cell move of the falling piece.
#[derive(Copy, Clone, Debug, PartialEq, Eq, Structural)]
pub enum Direction {
    Left,
    Right,
    Down,
}

/// A falling piece: shape kind, rotation index (always `0..4`), and the
/// absolute board position of its anchor. `x` may be negative transiently
/// while a speculative move is tested against the walls.
#[derive(Copy, Clone, Debug, PartialEq, Eq)]
pub struct Block {
    pub tetromino: Tetromino,
    pub rotation: usize,
    pub position: (isize, isize),
}

/// Relies on `rand::Rng::gen_range`: on the non-empty range `0..n` it
/// returns a value below `n`.
#[verifier::external_body]
fn random_below(n: usize) -> (r: usize)
    requires
        n > 0,
    ensures
        r < n,
{
    rand::thread_rng().gen_range(0..n)
}

impl Block {
    /// A piece is well formed when its rotation index is one of the four
    /// rotation states.
    pub open spec fn wf(self) -> bool {
        self.rotation < 4
    }

    /// The absolute cells covered by the piece: its anchor position plus
    /// each offset of the active rotation state.
    pub open spec fn spec_cells(self) -> Seq<(int, int)> {
        spec_offsets(self.tetromino, self.rotation as int).map_values(
            |o: (isize, isize)| ((self.position.0 + o.0) as int, (self.position.1 + o.1) as int),
        )
    }

    /// The piece after one 90-degree rotation step: same shape and position,
    /// rotation index advanced modulo 4.
    pub open spec fn spec_rotate(self) -> Block {
        Block {
            tetromino: self.tetromino,
            rotation: ((self.rotation + 1) % 4) as usize,
            position: self.position,
        }
    }

    /// A new piece with a shape drawn from the catalog, rotation state 0,
    /// and the fixed spawn position.
    pub fn new() -> (b: Block)
        ensures
            b.wf(),
            spec_catalog().contains(b.tetromino),
            b.rotation == 0,
            b.position == (5isize, 0isize),
    {
        let shapes = tetrominos();
        let i = random_below(shapes.len());
        let b = Block { tetromino: shapes[i], rotation: 0, position: (5, 0) };
        proof {
            assert(spec_catalog().contains(b.tetromino));
        }
        b
    }

    /// Advance the rotation index by one step modulo 4; shape and position
    /// are unchanged. Legality against the board is the caller's concern.
    pub fn rotate(self) -> (b: Block)
        requires
            self.wf(),
        ensures
            b == self.spec_rotate(),
            b.wf(),
            b.tetromino == self.tetromino,
            b.position == self.position,
            b.rotation == (self.rotation + 1) % 4,
    {
        Block { tetromino: self.tetromino, rotation: (self.rotation + 1) % 4, position: self.position }
    }

    /// Move the piece by exactly one cell: `Left` and `Right` change `x` by
    /// -1 and +1, `Down` changes `y` by +1. Exactly one coordinate changes,
    /// and shape and rotation are unchanged. No bounds are checked here.
    pub fn displace(self, d: Direction) -> (b: Block)
        requires
            d == Direction::Left ==> self.position.0 > isize::MIN,
            d == Direction::Right ==> self.position.0 < isize::MAX,
            d == Direction::Down ==> self.position.1 < isize::MAX,
        ensures
            b.tetromino == self.tetromino,
            b.rotation == self.rotation,
            d == Direction::Left ==> b.position == (((self.position.0 - 1) as isize, self.position.1)),
            d == Direction::Right ==> b.position == (((self.position.0 + 1) as isize, self.position.1)),
            d == Direction::Down ==> b.position == ((self.position.0, (self.position.1 + 1) as isize)),
    {
        let (x, y) = self.position;
        let position = match d {
            Direction::Left => (x - 1, y),
            Direction::Right => (x + 1, y),
            Direction::Down => (x, y + 1),
        };
        Block { tetromino: self.tetromino, rotation: self.rotation, position }
    }

    /// The absolute cells covered by the piece, derived on demand from its
    /// position and active rotation state. The position bound only keeps the
    /// coordinate sums inside machine integers; offsets never exceed 3.
    pub fn cells(&self) -> (r: Vec<(isize, isize)>)
        requires
            self.wf(),
            self.position.0 <= isize::MAX - 3,
            self.position.1 <= isize::MAX - 3,
        ensures
            r@.len() == self.spec_cells().len(),
            forall|i: int|
                0 <= i < r@.len() ==> ((#[trigger] r@[i]).0 as int, r@[i].1 as int)
                    == self.spec_cells()[i],
    {
        proof {
            crate::tetromino::lemma_offsets_bounded(self.tetromino, self.rotation as int);
        }
        let offs = self.rotation();
        let (px, py) = self.position;
        let mut r: Vec<(isize, isize)> = Vec::new();
        let mut i: usize = 0;
        while i < offs.len()
            invariant
                self.wf(),
                px == self.position.0,
                py == self.position.1,
                px <= isize::MAX - 3,
                py <= isize::MAX - 3,
                offs@ == spec_offsets(self.tetromino, self.rotation as int),
                offs@.len() == self.spec_cells().len(),
                forall|j: int|
                    0 <= j < offs@.len() ==> {
                        let o = #[trigger] offs@[j];
                        0 <= o.0 <= 3 && 0 <= o.1 <= 3
                    },
                i <= offs@.len(),
                r@.len() == i,
                forall|j: int|
                    0 <= j < i ==> ((#[trigger] r@[j]).0 as int, r@[j].1 as int)
                        == self.spec_cells()[j],
            decreases offs@.len() - i,
        {
            let (dx, dy) = offs[i];
            r.push((px + dx, py + dy));
            i += 1;
        }
        r
    }

    /// The absolute anchor position of the piece.
    pub fn position(&self) -> (p: (isize, isize))
        ensures
            p == self.position,
    {
        self.position
    }

    /// The color tag of the piece's shape.
    pub fn color(&self) -> (c: Color)
        ensures
            c == spec_color_of(self.tetromino),
    {
        color_of(self.tetromino)
    }

    /// The offsets of the piece's active rotation state.
    pub fn rotation(&self) -> (v: Rotation)
        requires
            self.wf(),
        ensures
            v@ == spec_offsets(self.tetromino, self.rotation as int),
            v@.len() == 4,
    {
        offsets_of(self.tetromino, self.rotation)
    }
}

/// Mod-4 cycle closure: rotating a well-formed piece four times returns the
/// original piece, rotation index included.
pub proof fn lemma_rotate_cycle(p: Block)
    requires
        p.wf(),
    ensures
        p.spec_rotate().spec_rotate().spec_rotate().spec_rotate() == p,
{
    if p.rotation == 0 {
    } else if p.rotation == 1 {
    } else if p.rotation == 2 {
    } else {
        assert(p.rotation == 3);
    }
}

} // verus!
