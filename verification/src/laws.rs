//! Laws of the copy model that relate several operations.

use vstd::prelude::*;

use crate::framebuffer::block_copied;
use crate::framebuffer::block_params_ok;
use crate::scanline::line_copied;
use crate::scanline::line_params_ok;
use crate::TOTAL_HEIGHT;
use crate::TOTAL_WIDTH;

verus! {

/// Self-copy idempotence for one row: copying a range of cells onto itself
/// (same start column for source and destination) leaves the row unchanged.
pub proof fn lemma_line_self_copy_identity(row: Seq<u8>, x: int, width: int)
    requires
        row.len() == TOTAL_WIDTH,
        line_params_ok(x, x, width),
    ensures
        line_copied(row, row, x, x, width) == row,
{
    assert(line_copied(row, row, x, x, width) =~= row);
}

/// Self-copy idempotence for the grid: copying a rectangle onto itself (same
/// top-left corner for source and destination) leaves the grid unchanged.
pub proof fn lemma_block_self_copy_identity(
    grid: Seq<Seq<u8>>,
    x: int,
    y: int,
    width: int,
    height: int,
)
    requires
        grid.len() == TOTAL_HEIGHT,
        forall|k: int| 0 <= k < TOTAL_HEIGHT ==> (#[trigger] grid[k]).len() == TOTAL_WIDTH,
        block_params_ok(x, y, x, y, width, height),
    ensures
        block_copied(grid, grid, x, y, x, y, width, height) == grid,
{
    assert forall|k: int|
        0 <= k < TOTAL_HEIGHT implies #[trigger] block_copied(
        grid,
        grid,
        x,
        y,
        x,
        y,
        width,
        height,
    )[k] == grid[k] by {
        if y <= k < y + height {
            lemma_line_self_copy_identity(grid[k], x, width);
        }
    }
    assert(block_copied(grid, grid, x, y, x, y, width, height) =~= grid);
}

/// A block copy reads nothing of its source but the source rectangle: two
/// source grids that agree on that rectangle give the same result. In
/// particular, copying a rectangle that overlaps its own destination within
/// one grid produces the same result as first snapshotting the source
/// rectangle into a separate grid and then copying from the snapshot.
pub proof fn lemma_block_copy_reads_only_source_rect(
    dst: Seq<Seq<u8>>,
    src1: Seq<Seq<u8>>,
    src2: Seq<Seq<u8>>,
    src_x: int,
    src_y: int,
    dst_x: int,
    dst_y: int,
    width: int,
    height: int,
)
    requires
        forall|yy: int, xx: int|
            src_y <= yy < src_y + height && src_x <= xx < src_x + width ==> #[trigger] src1[yy][xx]
                == src2[yy][xx],
    ensures
        block_copied(dst, src1, src_x, src_y, dst_x, dst_y, width, height) == block_copied(
            dst,
            src2,
            src_x,
            src_y,
            dst_x,
            dst_y,
            width,
            height,
        ),
{
    assert forall|yy: int|
        0 <= yy < dst.len() implies #[trigger] block_copied(
        dst,
        src1,
        src_x,
        src_y,
        dst_x,
        dst_y,
        width,
        height,
    )[yy] == block_copied(dst, src2, src_x, src_y, dst_x, dst_y, width, height)[yy] by {
        if dst_y <= yy < dst_y + height {
            let row = src_y + (yy - dst_y);
            assert forall|j: int|
                0 <= j < dst[yy].len() implies #[trigger] line_copied(
                dst[yy],
                src1[row],
                src_x,
                dst_x,
                width,
            )[j] == line_copied(dst[yy], src2[row], src_x, dst_x, width)[j] by {
                if dst_x <= j < dst_x + width {
                    assert(src1[row][src_x + (j - dst_x)] == src2[row][src_x + (j - dst_x)]);
                }
            }
            assert(line_copied(dst[yy], src1[row], src_x, dst_x, width) =~= line_copied(
                dst[yy],
                src2[row],
                src_x,
                dst_x,
                width,
            ));
        }
    }
    assert(block_copied(dst, src1, src_x, src_y, dst_x, dst_y, width, height) =~= block_copied(
        dst,
        src2,
        src_x,
        src_y,
        dst_x,
        dst_y,
        width,
        height,
    ));
}

} // verus!
