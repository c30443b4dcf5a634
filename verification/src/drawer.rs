//! The display planner: from a finished frame to the commands a terminal
//! has to carry out.

use vstd::prelude::*;
use crate::frame::square;
use crate::frame::FrameBuffer;
use crate::frame::Grid;

verus! {

/// One command for the terminal.
#[derive(Clone, Copy, Debug, PartialEq, Eq, Structural)]
pub enum DrawOp {
    /// Clear the whole screen.
    Clear,
    /// Move the cursor to the given column and row.
    MoveTo(u16, u16),
    /// Print a glyph at the cursor.
    Print(char),
}

/// The largest number of terminal columns a plan may span: cursor positions
/// are 16-bit.
pub const MAX_COLUMNS: u32 = 65_536;

/// The commands for one cell: the glyph is printed `stride` times, in the
/// terminal columns `stride * col + stride - 1` down to `stride * col` of
/// the terminal row `row`.
pub open spec fn cell_ops(stride: nat, col: int, row: int, glyph: char) -> Seq<DrawOp> {
    Seq::new(
        2 * stride,
        |n: int|
            if n % 2 == 0 {
                DrawOp::MoveTo((stride * col + stride - 1 - n / 2) as u16, row as u16)
            } else {
                DrawOp::Print(glyph)
            },
    )
}

/// The commands for the first `rows` cells of one grid column, top down.
pub open spec fn column_ops(grid: Grid, stride: nat, col: int, rows: nat) -> Seq<DrawOp>
    decreases rows,
{
    if rows == 0 {
        Seq::empty()
    } else {
        column_ops(grid, stride, col, (rows - 1) as nat) + cell_ops(
            stride,
            col,
            rows - 1,
            grid[col][rows - 1].glyph,
        )
    }
}

/// The command that clears the screen, followed by the commands for the
/// first `cols` columns of the grid, left to right.
pub open spec fn grid_ops(grid: Grid, stride: nat, cols: nat) -> Seq<DrawOp>
    decreases cols,
{
    if cols == 0 {
        seq![DrawOp::Clear]
    } else {
        grid_ops(grid, stride, (cols - 1) as nat) + column_ops(
            grid,
            stride,
            cols - 1,
            grid[cols - 1].len(),
        )
    }
}

/// The commands that show a grid: clear the screen, then print every cell,
/// column by column.
pub open spec fn draw_plan(grid: Grid, stride: nat) -> Seq<DrawOp> {
    grid_ops(grid, stride, grid.len())
}

/// Whether a grid of the given side fits the terminal when every cell is
/// `stride` columns wide.
pub open spec fn fits(stride: nat, side: nat) -> bool {
    stride * side <= MAX_COLUMNS
}

/// The display planner.
///
/// The stride is the number of terminal columns that one cell takes; a
/// stride of two makes up for glyphs that are about twice as tall as wide.
#[derive(Clone, Copy, Debug)]
pub struct Drawer {
    stride: u16,
}

impl Drawer {
    /// A cell takes at least one column.
    #[verifier::type_invariant]
    pub closed spec fn wf(self) -> bool {
        self.stride >= 1
    }

    /// Number of terminal columns per cell.
    pub closed spec fn spec_stride(&self) -> u16 {
        self.stride
    }

    /// A planner that gives every cell one terminal column.
    pub fn new() -> (drawer: Drawer)
        ensures
            drawer.wf(),
            drawer.stride() == 1,
    {
        Drawer { stride: 1 }
    }

    /// A planner that gives every cell `stride` terminal columns; `None`
    /// exactly when `stride` is zero.
    pub fn with_stride(stride: u16) -> (drawer: Option<Drawer>)
        ensures
            drawer is Some <==> stride >= 1,
            drawer matches Some(d) ==> d.wf() && d.stride() == stride,
    {
        if stride >= 1 {
            Some(Drawer { stride })
        } else {
            None
        }
    }

    /// Number of terminal columns per cell.
    #[verifier::when_used_as_spec(spec_stride)]
    pub fn stride(&self) -> (stride: u16)
        ensures
            stride == self.stride(),
            stride >= 1,
    {
        proof {
            use_type_invariant(self);
        }
        self.stride
    }

    /// Plans the display of a frame: the screen is cleared, then every cell
    /// is printed at its place, column by column. The result is `None`
    /// exactly when the frame is too wide for 16-bit cursor positions.
    pub fn draw(&self, points: &FrameBuffer) -> (plan: Option<Vec<DrawOp>>)
        ensures
            plan is Some <==> fits(self.stride() as nat, points.side() as nat),
            plan matches Some(ops) ==> ops@ == draw_plan(points@, self.stride() as nat),
    {
        proof {
            use_type_invariant(self);
            use_type_invariant(points);
            points.lemma_view_square();
        }
        let stride: u32 = self.stride as u32;
        let side: u32 = points.side() as u32;
        assert(0 <= stride * side <= 0xffff_0001) by (nonlinear_arith)
            requires
                0 <= stride <= 0xffff,
                0 <= side <= 0xffff,
        ;
        if stride * side > MAX_COLUMNS {
            return None;
        }
        let ghost grid = points@;
        let ghost width = stride as nat;
        let mut ops: Vec<DrawOp> = Vec::new();
        ops.push(DrawOp::Clear);
        assert(ops@ =~= grid_ops(grid, width, 0));
        let mut col: u32 = 0;
        while col < side
            invariant
                col <= side,
                1 <= stride,
                stride * side <= MAX_COLUMNS,
                stride == self.stride(),
                side == points.side(),
                width == stride,
                grid == points@,
                square(grid, side as nat),
                ops@ == grid_ops(grid, width, col as nat),
            decreases side - col,
        {
            let ghost before_column = ops@;
            let mut row: u32 = 0;
            while row < side
                invariant
                    col < side,
                    row <= side,
                    1 <= stride,
                    stride * side <= MAX_COLUMNS,
                    side == points.side(),
                    width == stride,
                    grid == points@,
                    square(grid, side as nat),
                    ops@ == before_column + column_ops(grid, width, col as int, row as nat),
                decreases side - row,
            {
                let glyph = points.get(col as usize, row as usize).unwrap().glyph;
                let ghost before_cell = ops@;
                let ghost cell = cell_ops(width, col as int, row as int, glyph);
                assert(stride * col + stride <= stride * side) by (nonlinear_arith)
                    requires
                        col < side,
                        0 <= stride,
                ;
                let left: u32 = stride * col;
                let mut copy: u32 = 0;
                assert(cell.take(0) =~= Seq::empty());
                assert(before_cell + cell.take(0) =~= before_cell);
                while copy < stride
                    invariant
                        copy <= stride,
                        row < side,
                        side <= 0xffff,
                        left == stride * col,
                        left + stride <= MAX_COLUMNS,
                        width == stride,
                        cell == cell_ops(width, col as int, row as int, glyph),
                        ops@ == before_cell + cell.take(2 * copy),
                    decreases stride - copy,
                {
                    let ghost so_far = ops@;
                    let x: u32 = left + (stride - 1 - copy);
                    ops.push(DrawOp::MoveTo(x as u16, row as u16));
                    ops.push(DrawOp::Print(glyph));
                    proof {
                        let n = 2 * copy as int;
                        assert(cell[n] == DrawOp::MoveTo(x as u16, row as u16));
                        assert(cell[n + 1] == DrawOp::Print(glyph));
                        assert(cell.take(n + 2) =~= cell.take(n).push(cell[n]).push(cell[n + 1]));
                        assert(ops@ =~= before_cell + cell.take(n + 2));
                    }
                    copy = copy + 1;
                }
                proof {
                    assert(cell.take(2 * copy) =~= cell);
                    assert(before_column + column_ops(grid, width, col as int, (row + 1) as nat)
                        =~= before_column + column_ops(grid, width, col as int, row as nat)
                        + cell);
                }
                row = row + 1;
            }
            assert(grid[col as int].len() == side);
            col = col + 1;
        }
        Some(ops)
    }
}

} // verus!
