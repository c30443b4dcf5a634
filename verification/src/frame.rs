//! The frame buffer: a square grid of glyphs with a depth for each, and the
//! rule by which samples are painted onto it.

use vstd::prelude::*;
use crate::shade::glyph_of;
use crate::shade::glyph_for;

verus! {

/// One cell of the grid: the glyph shown there and the inverse depth of the
/// surface point that put it there. A depth of zero means that nothing has
/// been drawn.
#[derive(Clone, Copy, Debug, PartialEq, Eq, Structural)]
pub struct Cell {
    pub glyph: char,
    pub depth: u128,
}

/// One projected surface point: the cell it falls on, its inverse depth
/// (larger is closer to the viewer) and its scaled luminance.
#[derive(Clone, Copy, Debug, PartialEq, Eq, Structural)]
pub struct Sample {
    pub col: usize,
    pub row: usize,
    pub inv_depth: u128,
    pub luminance: i128,
}

/// The mathematical grid: `grid[col][row]`.
pub type Grid = Seq<Seq<Cell>>;

/// The cell in which nothing has been drawn.
pub open spec fn blank_cell() -> Cell {
    Cell { glyph: ' ', depth: 0 }
}

/// The grid of the given side in which nothing has been drawn.
pub open spec fn blank(side: nat) -> Grid {
    Seq::new(side, |col: int| Seq::new(side, |row: int| blank_cell()))
}

/// `grid` has `side` columns of `side` cells each.
pub open spec fn square(grid: Grid, side: nat) -> bool {
    &&& grid.len() == side
    &&& forall|col: int| 0 <= col < side ==> (#[trigger] grid[col]).len() == side
}

/// Whether a sample falls on a cell of the grid.
pub open spec fn on_grid(grid: Grid, s: Sample) -> bool {
    s.col < grid.len() && s.row < grid[s.col as int].len()
}

/// The cell a sample leaves behind where it is drawn.
pub open spec fn shaded(s: Sample) -> Cell {
    Cell { glyph: glyph_of(s.luminance as int), depth: s.inv_depth }
}

/// Whether a sample is drawn onto the grid: it falls on the grid, faces the
/// light, and is strictly closer than what its cell holds.
pub open spec fn draws(grid: Grid, s: Sample) -> bool {
    &&& on_grid(grid, s)
    &&& s.luminance > 0
    &&& s.inv_depth > grid[s.col as int][s.row as int].depth
}

/// The grid after one sample: the sample replaces its cell if it is drawn,
/// and nothing changes otherwise.
pub open spec fn plot(grid: Grid, s: Sample) -> Grid {
    if draws(grid, s) {
        grid.update(s.col as int, grid[s.col as int].update(s.row as int, shaded(s)))
    } else {
        grid
    }
}

/// The grid after one step of a sweep, in which a point that is not in front
/// of the viewer yields no sample.
pub open spec fn plot_opt(grid: Grid, o: Option<Sample>) -> Grid {
    match o {
        Some(s) => plot(grid, s),
        None => grid,
    }
}

/// The grid after a sequence of steps, taken in order.
pub open spec fn paint(grid: Grid, samples: Seq<Option<Sample>>) -> Grid
    decreases samples.len(),
{
    if samples.len() == 0 {
        grid
    } else {
        plot_opt(paint(grid, samples.drop_last()), samples.last())
    }
}

/// Whether a step yields a lit sample on the cell `(col, row)`.
pub open spec fn hits(o: Option<Sample>, col: int, row: int) -> bool {
    o matches Some(s) && s.col == col && s.row == row && s.luminance > 0
}

/// No lit sample of positive depth falls on the cell.
pub open spec fn untouched(samples: Seq<Option<Sample>>, col: int, row: int) -> bool {
    forall|j: int|
        0 <= j < samples.len() && hits(#[trigger] samples[j], col, row) ==> samples[j]->0.inv_depth
            == 0
}

/// Step `i` yields the closest lit sample on the cell, and is the first to
/// do so: no lit sample on the cell is closer, and every earlier one is
/// strictly farther.
pub open spec fn closest(samples: Seq<Option<Sample>>, col: int, row: int, i: int) -> bool {
    &&& 0 <= i < samples.len()
    &&& hits(samples[i], col, row)
    &&& samples[i]->0.inv_depth > 0
    &&& forall|j: int|
        0 <= j < samples.len() && hits(#[trigger] samples[j], col, row) ==> samples[j]->0.inv_depth
            <= samples[i]->0.inv_depth
    &&& forall|j: int|
        0 <= j < i && hits(#[trigger] samples[j], col, row) ==> samples[j]->0.inv_depth
            < samples[i]->0.inv_depth
}

/// What one sample does to each cell of a square grid.
pub proof fn lemma_plot_cell(grid: Grid, side: nat, s: Sample, col: int, row: int)
    requires
        square(grid, side),
        0 <= col < side,
        0 <= row < side,
    ensures
        square(plot(grid, s), side),
        plot(grid, s)[col][row] == (if s.col == col && s.row == row && s.luminance > 0
            && s.inv_depth > grid[col][row].depth {
            shaded(s)
        } else {
            grid[col][row]
        }),
{
    if draws(grid, s) {
        let after = plot(grid, s);
        assert forall|c: int| 0 <= c < side implies (#[trigger] after[c]).len() == side by {
            assert(grid[c].len() == side);
        }
    } else {
        if s.col == col && s.row == row {
            assert(grid[col].len() == side);
        }
    }
}

/// A sample that faces away from the light changes nothing.
pub proof fn lemma_unlit_sample_is_culled(grid: Grid, s: Sample)
    requires
        s.luminance <= 0,
    ensures
        plot(grid, s) == grid,
{
}

/// Painting keeps a square grid square.
pub proof fn lemma_paint_square(grid: Grid, side: nat, samples: Seq<Option<Sample>>)
    requires
        square(grid, side),
    ensures
        square(paint(grid, samples), side),
    decreases samples.len(),
{
    if samples.len() > 0 {
        lemma_paint_square(grid, side, samples.drop_last());
        if side > 0 {
            if let Some(s) = samples.last() {
                lemma_plot_cell(paint(grid, samples.drop_last()), side, s, 0, 0);
            }
        } else {
            let before = paint(grid, samples.drop_last());
            if let Some(s) = samples.last() {
                assert(!on_grid(before, s));
            }
        }
    }
}

/// Painting one sequence after another is painting their concatenation.
pub proof fn lemma_paint_concat(
    grid: Grid,
    first: Seq<Option<Sample>>,
    second: Seq<Option<Sample>>,
)
    ensures
        paint(grid, first + second) == paint(paint(grid, first), second),
    decreases second.len(),
{
    if second.len() == 0 {
        assert(first + second =~= first);
    } else {
        lemma_paint_concat(grid, first, second.drop_last());
        assert((first + second).drop_last() =~= first + second.drop_last());
        assert((first + second).last() == second.last());
    }
}

/// Painting one more step is one more plot.
pub proof fn lemma_paint_step(grid: Grid, samples: Seq<Option<Sample>>, k: int)
    requires
        0 <= k < samples.len(),
    ensures
        paint(grid, samples.take(k + 1)) == plot_opt(paint(grid, samples.take(k)), samples[k]),
{
    assert(samples.take(k + 1).drop_last() =~= samples.take(k));
}

/// The depth held by a cell never decreases while samples are painted: after
/// any prefix of the sequence it is at most what it is after a longer one.
pub proof fn lemma_paint_depth_monotone(
    grid: Grid,
    side: nat,
    samples: Seq<Option<Sample>>,
    earlier: int,
    later: int,
    col: int,
    row: int,
)
    requires
        square(grid, side),
        0 <= earlier <= later <= samples.len(),
        0 <= col < side,
        0 <= row < side,
    ensures
        paint(grid, samples.take(earlier))[col][row].depth <= paint(
            grid,
            samples.take(later),
        )[col][row].depth,
    decreases later - earlier,
{
    if earlier < later {
        lemma_paint_depth_monotone(grid, side, samples, earlier, later - 1, col, row);
        lemma_paint_step(grid, samples, later - 1);
        let before = paint(grid, samples.take(later - 1));
        lemma_paint_square(grid, side, samples.take(later - 1));
        if let Some(s) = samples[later - 1] {
            lemma_plot_cell(before, side, s, col, row);
        }
    }
}

/// Depth resolution: after a sequence of samples has been painted onto a
/// blank grid, a cell on which no lit sample of positive depth fell is still
/// blank, and every other cell holds exactly the glyph and depth of the
/// closest lit sample that fell on it (of the first such sample, where
/// several are equally close).
pub proof fn lemma_paint_keeps_closest(
    side: nat,
    samples: Seq<Option<Sample>>,
    col: int,
    row: int,
)
    requires
        0 <= col < side,
        0 <= row < side,
    ensures
        ({
            let cell = paint(blank(side), samples)[col][row];
            ||| untouched(samples, col, row) && cell == blank_cell()
            ||| exists|i: int| #[trigger]
                closest(samples, col, row, i) && cell == shaded(samples[i]->0)
        }),
    decreases samples.len(),
{
    if samples.len() > 0 {
        let prefix = samples.drop_last();
        let before = paint(blank(side), prefix);
        let old_cell = before[col][row];
        let last = samples.len() - 1;
        lemma_paint_keeps_closest(side, prefix, col, row);
        lemma_paint_square(blank(side), side, prefix);
        assert forall|j: int| 0 <= j < last implies #[trigger] samples[j] == prefix[j] by {}
        let overwrites = hits(samples[last], col, row) && samples[last]->0.inv_depth
            > old_cell.depth;
        if let Some(s) = samples[last] {
            lemma_plot_cell(before, side, s, col, row);
        }
        if untouched(prefix, col, row) && old_cell == blank_cell() {
            if overwrites {
                assert(closest(samples, col, row, last)) by {
                    assert forall|j: int|
                        0 <= j < samples.len() && hits(
                            #[trigger] samples[j],
                            col,
                            row,
                        ) implies samples[j]->0.inv_depth <= samples[last]->0.inv_depth by {
                        if j < last {
                            assert(hits(prefix[j], col, row));
                        }
                    }
                    assert forall|j: int|
                        0 <= j < last && hits(
                            #[trigger] samples[j],
                            col,
                            row,
                        ) implies samples[j]->0.inv_depth < samples[last]->0.inv_depth by {
                        assert(hits(prefix[j], col, row));
                    }
                }
            } else {
                assert(untouched(samples, col, row)) by {
                    assert forall|j: int|
                        0 <= j < samples.len() && hits(
                            #[trigger] samples[j],
                            col,
                            row,
                        ) implies samples[j]->0.inv_depth == 0 by {
                        if j < last {
                            assert(hits(prefix[j], col, row));
                        }
                    }
                }
            }
        } else {
            let w = choose|i: int| #[trigger]
                closest(prefix, col, row, i) && old_cell == shaded(prefix[i]->0);
            assert(samples[w] == prefix[w]);
            if overwrites {
                assert(closest(samples, col, row, last)) by {
                    assert forall|j: int|
                        0 <= j < samples.len() && hits(
                            #[trigger] samples[j],
                            col,
                            row,
                        ) implies samples[j]->0.inv_depth <= samples[last]->0.inv_depth by {
                        if j < last {
                            assert(hits(prefix[j], col, row));
                        }
                    }
                    assert forall|j: int|
                        0 <= j < last && hits(
                            #[trigger] samples[j],
                            col,
                            row,
                        ) implies samples[j]->0.inv_depth < samples[last]->0.inv_depth by {
                        assert(hits(prefix[j], col, row));
                    }
                }
            } else {
                assert(closest(samples, col, row, w)) by {
                    assert forall|j: int|
                        0 <= j < samples.len() && hits(
                            #[trigger] samples[j],
                            col,
                            row,
                        ) implies samples[j]->0.inv_depth <= samples[w]->0.inv_depth by {
                        if j < last {
                            assert(hits(prefix[j], col, row));
                        }
                    }
                    assert forall|j: int|
                        0 <= j < w && hits(
                            #[trigger] samples[j],
                            col,
                            row,
                        ) implies samples[j]->0.inv_depth < samples[w]->0.inv_depth by {
                        assert(hits(prefix[j], col, row));
                    }
                }
            }
        }
    } else {
        assert(blank(side)[col][row] == blank_cell());
    }
}


/// Cells are stored column after column; two cells share a slot only if
/// they are the same cell, and every cell has a slot.
proof fn lemma_slot(side: int, col: int, row: int, other_col: int, other_row: int)
    by (nonlinear_arith)
    requires
        0 <= col < side,
        0 <= row < side,
        0 <= other_col < side,
        0 <= other_row < side,
    ensures
        0 <= col * side + row < side * side,
        col * side + row == other_col * side + other_row ==> col == other_col && row == other_row,
{
}

/// A grid of side at most 65 535 has fewer than 2^32 cells.
proof fn lemma_cell_count(side: int)
    by (nonlinear_arith)
    requires
        0 <= side <= 65_535,
    ensures
        0 <= side * side <= 4_294_836_225,
{
}

/// The executable frame buffer: a square grid of cells.
///
/// Its view is the mathematical grid, indexed `[col][row]`.
#[derive(Debug, PartialEq, Eq)]
pub struct FrameBuffer {
    side: u16,
    cells: Vec<Cell>,
}

impl View for FrameBuffer {
    type V = Grid;

    closed spec fn view(&self) -> Grid {
        Seq::new(
            self.side as nat,
            |col: int| Seq::new(self.side as nat, |row: int| self.cells@[col * self.side + row]),
        )
    }
}

impl Clone for FrameBuffer {
    /// A buffer that shows the same grid.
    fn clone(&self) -> (copy: FrameBuffer)
        ensures
            copy.wf(),
            copy.side() == self.side(),
            copy@ == self@,
    {
        proof {
            use_type_invariant(self);
        }
        let mut cells: Vec<Cell> = Vec::new();
        let mut k: usize = 0;
        while k < self.cells.len()
            invariant
                k <= self.cells.len(),
                cells.len() == k,
                forall|n: int| 0 <= n < k ==> cells[n] == self.cells[n],
            decreases self.cells.len() - k,
        {
            cells.push(self.cells[k]);
            k = k + 1;
        }
        assert(cells@ =~= self.cells@);
        FrameBuffer { side: self.side, cells }
    }
}

impl FrameBuffer {
    /// There is one stored cell for each cell of the grid.
    #[verifier::type_invariant]
    pub closed spec fn wf(self) -> bool {
        self.cells.len() == self.side * self.side
    }

    /// Side of the grid, in cells.
    pub closed spec fn spec_side(&self) -> u16 {
        self.side
    }

    /// The view of a well-formed buffer is a square grid of its side.
    pub proof fn lemma_view_square(self)
        requires
            self.wf(),
        ensures
            square(self@, self.side() as nat),
    {
    }

    /// A buffer of the given side in which nothing has been drawn.
    pub fn new(side: u16) -> (buffer: FrameBuffer)
        ensures
            buffer.wf(),
            buffer.side() == side,
            buffer@ == blank(side as nat),
    {
        proof {
            lemma_cell_count(side as int);
        }
        let count: usize = side as usize * side as usize;
        let mut cells: Vec<Cell> = Vec::new();
        let mut filled: usize = 0;
        while filled < count
            invariant
                filled <= count,
                cells.len() == filled,
                forall|k: int| 0 <= k < filled ==> cells[k] == blank_cell(),
            decreases count - filled,
        {
            cells.push(Cell { glyph: ' ', depth: 0 });
            filled = filled + 1;
        }
        let buffer = FrameBuffer { side, cells };
        proof {
            assert forall|col: int, row: int| 0 <= col < side && 0 <= row < side implies (
            #[trigger] buffer@[col][row]) == blank_cell() by {
                lemma_slot(side as int, col, row, col, row);
            }
            assert(buffer@ =~~= blank(side as nat));
        }
        buffer
    }

    /// Side of the grid, in cells.
    #[verifier::when_used_as_spec(spec_side)]
    pub fn side(&self) -> (side: u16)
        ensures
            side == self.side(),
    {
        self.side
    }

    /// The cell at `(col, row)`, or `None` where the grid has no such cell.
    pub fn get(&self, col: usize, row: usize) -> (cell: Option<Cell>)
        ensures
            cell == (if col < self.side() && row < self.side() {
                Some(self@[col as int][row as int])
            } else {
                None
            }),
    {
        proof {
            use_type_invariant(self);
        }
        let side = self.side as usize;
        if col < side && row < side {
            proof {
                lemma_slot(side as int, col as int, row as int, col as int, row as int);
                lemma_cell_count(side as int);
            }
            Some(self.cells[col * side + row])
        } else {
            None
        }
    }

    /// Forgets everything drawn so far.
    pub fn clear(&mut self)
        ensures
            final(self).side() == old(self).side(),
            final(self)@ == blank(old(self).side() as nat),
    {
        *self = FrameBuffer::new(self.side);
    }

    /// Paints one sample: it replaces its cell if it falls on the grid, faces
    /// the light and is strictly closer than what the cell holds; otherwise
    /// the buffer is left as it is.
    pub fn plot(&mut self, s: Sample)
        ensures
            final(self).side() == old(self).side(),
            final(self)@ == plot(old(self)@, s),
    {
        proof {
            use_type_invariant(&*self);
        }
        let side = self.side as usize;
        if s.col < side && s.row < side && s.luminance > 0 {
            proof {
                lemma_slot(side as int, s.col as int, s.row as int, s.col as int, s.row as int);
                lemma_cell_count(side as int);
            }
            let slot = s.col * side + s.row;
            if s.inv_depth > self.cells[slot].depth {
                let cell = Cell { glyph: glyph_for(s.luminance), depth: s.inv_depth };
                self.cells[slot] = cell;
                proof {
                    let before = old(self)@;
                    let after = before.update(
                        s.col as int,
                        before[s.col as int].update(s.row as int, cell),
                    );
                    assert forall|col: int, row: int|
                        0 <= col < side && 0 <= row < side implies (#[trigger] self@[col][row])
                        == after[col][row] by {
                        lemma_slot(side as int, col, row, s.col as int, s.row as int);
                    }
                    assert(self@ =~~= after);
                }
            }
        }
    }
}

} // verus!
