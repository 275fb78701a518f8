//! The board: a fixed-size grid of settled cells. It owns the only mutable
//! state of the engine and exposes collision testing against a piece,
//! merging a landed piece into the grid, and clearing completed rows.

use vstd::prelude::*;

use crate::block::Block;
use crate::tetromino::Color;
use crate::tetromino::spec_color_of;

verus! {

/// Grid width in cells.
pub const BOARD_WIDTH: usize = 10;

/// Grid height in cells.
pub const BOARD_HEIGHT: usize = 20;

/// The grid of settled cells: `BOARD_HEIGHT` rows of `BOARD_WIDTH` cells,
/// each empty or holding the color of the landed piece that covered it.
#[derive(Clone, Debug)]
pub struct Board {
    cells: Vec<Vec<Option<Color>>>,
}

/// The sequence-of-rows view of a vector-of-rows grid.
pub open spec fn rows_view(rows: Seq<Vec<Option<Color>>>) -> Seq<Seq<Option<Color>>> {
    rows.map_values(|r: Vec<Option<Color>>| r@)
}

/// A row of `BOARD_WIDTH` empty cells.
pub open spec fn spec_empty_row() -> Seq<Option<Color>> {
    Seq::new(BOARD_WIDTH as nat, |x: int| None)
}

/// A grid of `BOARD_HEIGHT` empty rows.
pub open spec fn spec_empty_grid() -> Seq<Seq<Option<Color>>> {
    Seq::new(BOARD_HEIGHT as nat, |y: int| spec_empty_row())
}

/// A row is complete when every one of its cells is occupied.
pub open spec fn spec_row_complete(row: Seq<Option<Color>>) -> bool {
    forall|x: int| 0 <= x < row.len() ==> (#[trigger] row[x]) is Some
}

/// The rows of `g` that are not complete, in their original top-to-bottom
/// order: what `remove_lines` keeps.
pub open spec fn spec_kept_rows(g: Seq<Seq<Option<Color>>>) -> Seq<Seq<Option<Color>>>
    decreases g.len(),
{
    if g.len() == 0 {
        Seq::empty()
    } else {
        let rest = spec_kept_rows(g.drop_last());
        if spec_row_complete(g.last()) {
            rest
        } else {
            rest.push(g.last())
        }
    }
}

/// The number of complete rows of `g`: what `remove_lines` returns.
pub open spec fn spec_complete_count(g: Seq<Seq<Option<Color>>>) -> int
    decreases g.len(),
{
    if g.len() == 0 {
        0
    } else {
        spec_complete_count(g.drop_last()) + if spec_row_complete(g.last()) {
            1int
        } else {
            0int
        }
    }
}

/// Every row is either kept or counted as complete: the kept rows and the
/// complete rows together account for the whole grid.
pub proof fn lemma_kept_rows_count(g: Seq<Seq<Option<Color>>>)
    ensures
        spec_kept_rows(g).len() + spec_complete_count(g) == g.len(),
        0 <= spec_complete_count(g) <= g.len(),
    decreases g.len(),
{
    if g.len() > 0 {
        lemma_kept_rows_count(g.drop_last());
    }
}

/// A grid with no complete rows is kept whole: the kept rows are the grid
/// itself and the complete count is zero, so `remove_lines` changes nothing
/// and returns zero.
pub proof fn lemma_no_complete_rows(g: Seq<Seq<Option<Color>>>)
    requires
        forall|y: int| 0 <= y < g.len() ==> !spec_row_complete(#[trigger] g[y]),
    ensures
        spec_complete_count(g) == 0,
        spec_kept_rows(g) == g,
    decreases g.len(),
{
    if g.len() > 0 {
        assert(!spec_row_complete(g[g.len() - 1]));
        lemma_no_complete_rows(g.drop_last());
        assert(spec_kept_rows(g) =~= g);
    }
}

/// An absolute cell lies inside the grid.
pub open spec fn spec_in_bounds(c: (int, int)) -> bool {
    0 <= c.0 < BOARD_WIDTH && 0 <= c.1 < BOARD_HEIGHT
}

fn empty_row() -> (v: Vec<Option<Color>>)
    ensures
        v@ == spec_empty_row(),
{
    let mut v: Vec<Option<Color>> = Vec::new();
    let mut x: usize = 0;
    while x < BOARD_WIDTH
        invariant
            x <= BOARD_WIDTH,
            v@.len() == x,
            forall|j: int| 0 <= j < x ==> v@[j] is None,
        decreases BOARD_WIDTH - x,
    {
        v.push(None);
        x += 1;
    }
    proof {
        assert(v@ =~= spec_empty_row());
    }
    v
}

fn copy_row(row: &Vec<Option<Color>>) -> (v: Vec<Option<Color>>)
    ensures
        v@ == row@,
{
    let mut v: Vec<Option<Color>> = Vec::new();
    let mut x: usize = 0;
    while x < row.len()
        invariant
            x <= row@.len(),
            v@.len() == x,
            forall|j: int| 0 <= j < x ==> v@[j] == row@[j],
        decreases row@.len() - x,
    {
        v.push(row[x]);
        x += 1;
    }
    proof {
        assert(v@ =~= row@);
    }
    v
}

fn row_complete(row: &Vec<Option<Color>>) -> (b: bool)
    ensures
        b == spec_row_complete(row@),
{
    let mut x: usize = 0;
    let mut all = true;
    while x < row.len()
        invariant
            x <= row@.len(),
            all == forall|j: int| 0 <= j < x ==> (#[trigger] row@[j]) is Some,
        decreases row@.len() - x,
    {
        all = all && row[x].is_some();
        x += 1;
    }
    all
}

impl Board {
    /// The mathematical view of the board: its grid as a sequence of rows,
    /// each a sequence of optional colors.
    pub closed spec fn grid(self) -> Seq<Seq<Option<Color>>> {
        rows_view(self.cells@)
    }

    /// The grid has exactly `BOARD_HEIGHT` rows of `BOARD_WIDTH` cells.
    pub open spec fn wf(self) -> bool {
        &&& self.grid().len() == BOARD_HEIGHT
        &&& forall|y: int| 0 <= y < BOARD_HEIGHT ==> (#[trigger] self.grid()[y]).len() == BOARD_WIDTH
    }

    /// The absolute cell `c` blocks placement: it is beyond a side wall,
    /// below the floor, or already occupied. Cells above the top row
    /// (`y < 0`) do not block, so a piece may hang over the top while it
    /// spawns or rotates there.
    pub open spec fn spec_blocked(self, c: (int, int)) -> bool {
        ||| c.0 < 0
        ||| c.0 >= BOARD_WIDTH
        ||| c.1 >= BOARD_HEIGHT
        ||| (c.1 >= 0 && self.grid()[c.1][c.0] is Some)
    }

    /// Some absolute cell of the piece blocks placement.
    pub open spec fn spec_overlap(self, p: Block) -> bool {
        exists|i: int|
            0 <= i < p.spec_cells().len() && self.spec_blocked(#[trigger] p.spec_cells()[i])
    }

    /// A fresh board with every cell empty.
    pub fn new() -> (b: Board)
        ensures
            b.wf(),
            b.grid() == spec_empty_grid(),
    {
        let mut cells: Vec<Vec<Option<Color>>> = Vec::new();
        let mut y: usize = 0;
        while y < BOARD_HEIGHT
            invariant
                y <= BOARD_HEIGHT,
                cells@.len() == y,
                forall|j: int| 0 <= j < y ==> (#[trigger] cells@[j])@ == spec_empty_row(),
            decreases BOARD_HEIGHT - y,
        {
            cells.push(empty_row());
            y += 1;
        }
        let b = Board { cells };
        proof {
            assert(b.grid() =~= spec_empty_grid());
        }
        b
    }

    /// Read access to the grid, row by row, for rendering and inspection.
    pub fn cells(&self) -> (r: &Vec<Vec<Option<Color>>>)
        ensures
            r@.len() == self.grid().len(),
            forall|y: int| 0 <= y < self.grid().len() ==> (#[trigger] r@[y])@ == self.grid()[y],
    {
        &self.cells
    }

    /// Whether the piece, as placed, collides: some cell of it is beyond a
    /// side wall, below the floor, or on an occupied cell. Cells above the
    /// top row never block. The board is only read.
    pub fn overlap(&self, block: &Block) -> (r: bool)
        requires
            self.wf(),
            block.wf(),
        ensures
            r == self.spec_overlap(*block),
    {
        let offs = block.rotation();
        let (px, py) = block.position();
        let mut i: usize = 0;
        let mut hit = false;
        while i < offs.len()
            invariant
                self.wf(),
                block.wf(),
                offs@.len() == block.spec_cells().len(),
                forall|j: int|
                    0 <= j < offs@.len() ==> #[trigger] block.spec_cells()[j] == (
                    (px + offs@[j].0) as int,
                    (py + offs@[j].1) as int,
                    ),
                i <= offs@.len(),
                hit == exists|j: int|
                    0 <= j < i && self.spec_blocked(#[trigger] block.spec_cells()[j]),
            decreases offs@.len() - i,
        {
            let (bx, by) = offs[i];
            let x: i128 = px as i128 + bx as i128;
            let y: i128 = py as i128 + by as i128;
            let blocked: bool = if x < 0 || x >= BOARD_WIDTH as i128 || y >= BOARD_HEIGHT as i128 {
                true
            } else if y < 0 {
                false
            } else {
                let yu = y as usize;
                let xu = x as usize;
                proof {
                    assert(self.grid().len() == self.cells@.len());
                    assert(self.cells@[yu as int]@ == self.grid()[yu as int]);
                }
                self.cells[yu][xu].is_some()
            };
            proof {
                assert(blocked == self.spec_blocked(block.spec_cells()[i as int]));
            }
            hit = hit || blocked;
            i += 1;
        }
        hit
    }
    /// Write the piece's color into every absolute cell it covers; no other
    /// cell changes. Every cell of the piece must lie inside the grid: the
    /// caller must not merge a piece that still hangs over the top row or a
    /// wall.
    pub fn merge(&mut self, block: &Block)
        requires
            old(self).wf(),
            block.wf(),
            forall|i: int|
                0 <= i < block.spec_cells().len() ==> spec_in_bounds(
                    #[trigger] block.spec_cells()[i],
                ),
        ensures
            final(self).wf(),
            forall|x: int, y: int|
                0 <= x < BOARD_WIDTH && 0 <= y < BOARD_HEIGHT ==> #[trigger] final(self).grid()[y][x]
                    == (if block.spec_cells().contains((x, y)) {
                    Some(spec_color_of(block.tetromino))
                } else {
                    old(self).grid()[y][x]
                }),
    {
        let offs = block.rotation();
        let (px, py) = block.position();
        let color = block.color();
        let ghost orig = self.grid();
        let mut i: usize = 0;
        while i < offs.len()
            invariant
                self.wf(),
                block.wf(),
                orig.len() == BOARD_HEIGHT,
                forall|y: int| 0 <= y < BOARD_HEIGHT ==> (#[trigger] orig[y]).len() == BOARD_WIDTH,
                color == spec_color_of(block.tetromino),
                offs@.len() == block.spec_cells().len(),
                forall|j: int|
                    0 <= j < offs@.len() ==> #[trigger] block.spec_cells()[j] == (
                    (px + offs@[j].0) as int,
                    (py + offs@[j].1) as int,
                    ),
                forall|j: int|
                    0 <= j < offs@.len() ==> spec_in_bounds(#[trigger] block.spec_cells()[j]),
                i <= offs@.len(),
                forall|x: int, y: int|
                    0 <= x < BOARD_WIDTH && 0 <= y < BOARD_HEIGHT ==> #[trigger] self.grid()[y][x]
                        == (if exists|j: int|
                        0 <= j < i && #[trigger] block.spec_cells()[j] == (x, y) {
                        Some(spec_color_of(block.tetromino))
                    } else {
                        orig[y][x]
                    }),
            decreases offs@.len() - i,
        {
            let (bx, by) = offs[i];
            proof {
                assert(spec_in_bounds(block.spec_cells()[i as int]));
            }
            let x = (px as i128 + bx as i128) as usize;
            let y = (py as i128 + by as i128) as usize;
            proof {
                assert(block.spec_cells()[i as int] == (x as int, y as int));
                assert(self.grid().len() == self.cells@.len());
                assert(self.cells@[y as int]@ == self.grid()[y as int]);
            }
            let ghost prev = self.grid();
            let ghost prev_cells = self.cells@;
            let ghost iprev = i as int;
            let mut row = copy_row(&self.cells[y]);
            row.set(x, Some(color));
            self.cells.set(y, row);
            i += 1;
            proof {
                assert forall|yy: int| 0 <= yy < BOARD_HEIGHT && yy != y implies self.grid()[yy]
                    == prev[yy] by {
                    assert(self.cells@[yy] == prev_cells[yy]);
                }
                assert(self.grid()[y as int] == self.cells@[y as int]@);
                assert(self.grid()[y as int] =~= prev[y as int].update(x as int, Some(color)));
                assert forall|yy: int| 0 <= yy < BOARD_HEIGHT implies (#[trigger] self.grid()[yy]).len()
                    == BOARD_WIDTH by {
                    if yy == y {
                        assert(self.grid()[yy] == prev[yy].update(x as int, Some(color)));
                    } else {
                        assert(self.grid()[yy] == prev[yy]);
                    }
                }
                assert forall|xx: int, yy: int|
                    0 <= xx < BOARD_WIDTH && 0 <= yy < BOARD_HEIGHT implies #[trigger] self.grid()[yy][xx]
                    == (if exists|j: int| 0 <= j < i && #[trigger] block.spec_cells()[j] == (xx, yy) {
                    Some(spec_color_of(block.tetromino))
                } else {
                    orig[yy][xx]
                }) by {
                    if xx == x && yy == y {
                        assert(self.grid()[yy][xx] == Some(color));
                        assert(block.spec_cells()[iprev] == (xx, yy));
                        assert(exists|j: int|
                            0 <= j < i && #[trigger] block.spec_cells()[j] == (xx, yy));
                    } else {
                        assert(self.grid()[yy][xx] == prev[yy][xx]);
                        if exists|j: int| 0 <= j < iprev && #[trigger] block.spec_cells()[j] == (
                        xx,
                        yy,
                        ) {
                            let j = choose|j: int|
                                0 <= j < iprev && #[trigger] block.spec_cells()[j] == (xx, yy);
                            assert(0 <= j < i && block.spec_cells()[j] == (xx, yy));
                        } else {
                            assert forall|j: int| 0 <= j < i implies #[trigger] block.spec_cells()[j]
                                != (xx, yy) by {
                                if j == iprev {
                                    assert(block.spec_cells()[j] == (x as int, y as int));
                                }
                            }
                        }
                    }
                }
            }
        }
        proof {
            assert forall|x: int, y: int| 0 <= x < BOARD_WIDTH && 0 <= y < BOARD_HEIGHT implies #[trigger] self
                .grid()[y][x] == (if block.spec_cells().contains((x, y)) {
                Some(spec_color_of(block.tetromino))
            } else {
                old(self).grid()[y][x]
            }) by {
                if block.spec_cells().contains((x, y)) {
                    let j = choose|j: int|
                        0 <= j < block.spec_cells().len() && block.spec_cells()[j] == (x, y);
                    assert(0 <= j < i && block.spec_cells()[j] == (x, y));
                }
            }
        }
    }
    /// Remove every complete row. All complete rows vanish at once; the
    /// surviving rows keep their relative top-to-bottom order and slide down
    /// to the bottom of the grid, and as many fresh empty rows fill the top.
    /// Returns the number of rows removed.
    pub fn remove_lines(&mut self) -> (n: usize)
        requires
            old(self).wf(),
        ensures
            final(self).wf(),
            n == spec_complete_count(old(self).grid()),
            final(self).grid() == Seq::new(n as nat, |i: int| spec_empty_row())
                + spec_kept_rows(old(self).grid()),
    {
        let ghost orig = self.grid();
        let mut kept: Vec<Vec<Option<Color>>> = Vec::new();
        let mut y: usize = 0;
        while y < BOARD_HEIGHT
            invariant
                self.wf(),
                self.grid() == orig,
                y <= BOARD_HEIGHT,
                kept@.len() <= y,
                rows_view(kept@) == spec_kept_rows(orig.subrange(0, y as int)),
                forall|t: int| 0 <= t < kept@.len() ==> (#[trigger] kept@[t])@.len() == BOARD_WIDTH,
            decreases BOARD_HEIGHT - y,
        {
            proof {
                assert(self.cells@[y as int]@ == self.grid()[y as int]);
            }
            let ghost pre = rows_view(kept@);
            let complete = row_complete(&self.cells[y]);
            if !complete {
                let r = copy_row(&self.cells[y]);
                kept.push(r);
            }
            proof {
                let sub1 = orig.subrange(0, y as int + 1);
                assert(sub1.drop_last() =~= orig.subrange(0, y as int));
                assert(sub1.last() == orig[y as int]);
                if complete {
                    assert(rows_view(kept@) == pre);
                } else {
                    assert(rows_view(kept@) =~= pre.push(orig[y as int]));
                }
            }
            y += 1;
        }
        proof {
            assert(orig.subrange(0, BOARD_HEIGHT as int) =~= orig);
            lemma_kept_rows_count(orig);
            assert(rows_view(kept@).len() == kept@.len());
        }
        let k = kept.len();
        let n = BOARD_HEIGHT - k;
        let mut cells: Vec<Vec<Option<Color>>> = Vec::new();
        let mut i: usize = 0;
        while i < n
            invariant
                i <= n,
                cells@.len() == i,
                forall|j: int| 0 <= j < i ==> (#[trigger] cells@[j])@ == spec_empty_row(),
            decreases n - i,
        {
            cells.push(empty_row());
            i += 1;
        }
        let mut j: usize = 0;
        while j < k
            invariant
                j <= k,
                k == kept@.len(),
                cells@.len() == n + j,
                forall|t: int| 0 <= t < n ==> (#[trigger] cells@[t])@ == spec_empty_row(),
                forall|t: int| 0 <= t < j ==> (#[trigger] cells@[n + t])@ == kept@[t]@,
                forall|t: int| 0 <= t < kept@.len() ==> (#[trigger] kept@[t])@.len() == BOARD_WIDTH,
            decreases k - j,
        {
            let r = copy_row(&kept[j]);
            cells.push(r);
            j += 1;
        }
        self.cells = cells;
        proof {
            let expect = Seq::new(n as nat, |i: int| spec_empty_row()) + spec_kept_rows(orig);
            assert forall|t: int| 0 <= t < self.grid().len() implies #[trigger] self.grid()[t]
                == expect[t] by {
                assert(self.grid()[t] == self.cells@[t]@);
                if t < n {
                } else {
                    let t0 = t - n;
                    assert(self.cells@[n + t0]@ == kept@[t0]@);
                    assert(rows_view(kept@)[t0] == kept@[t0]@);
                }
            }
            assert(self.grid() =~= expect);
            assert forall|t: int| 0 <= t < BOARD_HEIGHT implies (#[trigger] self.grid()[t]).len()
                == BOARD_WIDTH by {
                if t < n {
                    assert(self.grid()[t] == spec_empty_row());
                } else {
                    assert(self.grid()[t] == kept@[t - n]@);
                }
            }
        }
        n
    }
}

/// `overlap` is deterministic and side-effect-free: its result is a pure
/// function of board and piece (`spec_overlap`), so two calls on equal
/// arguments return equal values, and `&self` access leaves the board
/// unchanged.
pub proof fn lemma_overlap_deterministic(b: Board, p: Block, r1: bool, r2: bool)
    requires
        r1 == b.spec_overlap(p),
        r2 == b.spec_overlap(p),
    ensures
        r1 == r2,
{
}

} // verus!
