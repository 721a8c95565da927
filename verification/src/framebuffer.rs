//! The full 2D pixel grid: a fixed-length sequence of scanlines, padding rows
//! included.

use vstd::prelude::*;

use crate::scanline::ScanLine;
use crate::scanline::line_copied;
use crate::scanline::line_params_ok;
use crate::OutOfBounds;
use crate::TOTAL_HEIGHT;
use crate::TOTAL_WIDTH;

verus! {

/// Whether a block copy with these parameters stays inside a grid of
/// [`TOTAL_HEIGHT`] rows of [`TOTAL_WIDTH`] cells: all four start coordinates
/// are in range and none of the four end offsets passes the grid.
pub open spec fn block_params_ok(
    src_x: int,
    src_y: int,
    dst_x: int,
    dst_y: int,
    width: int,
    height: int,
) -> bool {
    &&& src_x < TOTAL_WIDTH
    &&& src_y < TOTAL_HEIGHT
    &&& dst_x < TOTAL_WIDTH
    &&& dst_y < TOTAL_HEIGHT
    &&& src_x + width <= TOTAL_WIDTH
    &&& src_y + height <= TOTAL_HEIGHT
    &&& dst_x + width <= TOTAL_WIDTH
    &&& dst_y + height <= TOTAL_HEIGHT
}

/// The grid that results from copying the `width` by `height` rectangle of
/// `src` whose top-left corner is `(src_x, src_y)` onto `dst` at
/// `(dst_x, dst_y)`. Row `i` of the rectangle is row `src_y + i` of `src`
/// written into row `dst_y + i`, for `i` in `0..height`. Every source cell is
/// read from `src` as given, so the model has snapshot semantics: it is
/// meaningful even when `src` and `dst` are the same grid and the two
/// rectangles overlap.
pub open spec fn block_copied(
    dst: Seq<Seq<u8>>,
    src: Seq<Seq<u8>>,
    src_x: int,
    src_y: int,
    dst_x: int,
    dst_y: int,
    width: int,
    height: int,
) -> Seq<Seq<u8>> {
    Seq::new(
        dst.len(),
        |y: int|
            if dst_y <= y < dst_y + height {
                line_copied(dst[y], src[src_y + (y - dst_y)], src_x, dst_x, width)
            } else {
                dst[y]
            },
    )
}

/// A fixed-length ordered sequence of [`ScanLine`]s representing the full 2D
/// grid, including border padding rows. Its length is always exactly
/// [`TOTAL_HEIGHT`]; it owns all of its rows outright.
#[derive(Debug)]
pub struct FrameBuffer {
    lines: Vec<ScanLine>,
}

impl View for FrameBuffer {
    type V = Seq<Seq<u8>>;

    closed spec fn view(&self) -> Seq<Seq<u8>> {
        self.lines@.map_values(|line: ScanLine| line@)
    }
}

/// Hands out a mutable borrow of the row at index `y`.
fn line_at_mut(lines: &mut Vec<ScanLine>, y: usize) -> (line: &mut ScanLine)
    requires
        y < old(lines)@.len(),
    ensures
        *line == old(lines)@[y as int],
        final(lines)@ == old(lines)@.update(y as int, *final(line)),
{
    &mut lines[y]
}

impl FrameBuffer {
    /// The shape invariant: the grid always holds exactly [`TOTAL_HEIGHT`]
    /// rows, each of exactly [`TOTAL_WIDTH`] cells.
    pub open spec fn wf(&self) -> bool {
        &&& self@.len() == TOTAL_HEIGHT
        &&& forall|y: int| 0 <= y < TOTAL_HEIGHT ==> self@[y].len() == TOTAL_WIDTH
    }

    /// Ties the public view to the rows' own invariants.
    proof fn lemma_view_index(&self)
        ensures
            self@.len() == self.lines@.len(),
            forall|y: int| 0 <= y < self.lines@.len() ==> self@[y] == #[trigger] self.lines@[y]@,
    {
    }

    /// Returns a grid of [`TOTAL_HEIGHT`] freshly zeroed rows.
    pub fn new() -> (r: Self)
        ensures
            r.wf(),
            forall|y: int, x: int|
                0 <= y < TOTAL_HEIGHT && 0 <= x < TOTAL_WIDTH ==> r@[y][x] == 0u8,
    {
        let mut lines: Vec<ScanLine> = Vec::new();
        let mut y: usize = 0;
        while y < TOTAL_HEIGHT
            invariant
                y <= TOTAL_HEIGHT,
                lines@.len() == y,
                forall|k: int| 0 <= k < y ==> (#[trigger] lines@[k]).wf(),
                forall|k: int, x: int|
                    0 <= k < y && 0 <= x < TOTAL_WIDTH ==> lines@[k]@[x] == 0u8,
            decreases TOTAL_HEIGHT - y,
        {
            lines.push(ScanLine::new());
            y = y + 1;
        }
        let r = FrameBuffer { lines };
        proof {
            r.lemma_view_index();
        }
        r
    }

    /// Overwrites every cell of every row with `value`. Rows have no
    /// cross-row interaction, so the top-to-bottom order is irrelevant to the
    /// outcome.
    pub fn fill_entire(&mut self, value: u8)
        requires
            old(self).wf(),
        ensures
            final(self).wf(),
            forall|y: int, x: int|
                0 <= y < TOTAL_HEIGHT && 0 <= x < TOTAL_WIDTH ==> final(self)@[y][x] == value,
    {
        let mut y: usize = 0;
        while y < TOTAL_HEIGHT
            invariant
                y <= TOTAL_HEIGHT,
                self.wf(),
                forall|k: int, x: int|
                    0 <= k < y && 0 <= x < TOTAL_WIDTH ==> self@[k][x] == value,
            decreases TOTAL_HEIGHT - y,
        {
            proof {
                self.lemma_view_index();
            }
            let line = line_at_mut(&mut self.lines, y);
            line.fill_entire(value);
            proof {
                self.lemma_view_index();
            }
            y = y + 1;
        }
    }

    /// Writes `value` at column `x` of row `y`, leaving every other cell as
    /// it was. Reports [`OutOfBounds`] without mutating when either
    /// coordinate is out of range; both are checked here before any row is
    /// touched.
    pub fn set_element(&mut self, x: usize, y: usize, value: u8) -> (r: Result<(), OutOfBounds>)
        requires
            old(self).wf(),
        ensures
            final(self).wf(),
            r is Ok <==> x < TOTAL_WIDTH && y < TOTAL_HEIGHT,
            x < TOTAL_WIDTH && y < TOTAL_HEIGHT ==> final(self)@ == old(self)@.update(
                y as int,
                old(self)@[y as int].update(x as int, value),
            ),
            x < TOTAL_WIDTH && y < TOTAL_HEIGHT ==> final(self)@[y as int][x as int] == value,
            x < TOTAL_WIDTH && y < TOTAL_HEIGHT ==> forall|yy: int, xx: int|
                0 <= yy < TOTAL_HEIGHT && 0 <= xx < TOTAL_WIDTH && !(yy == y && xx == x)
                    ==> final(self)@[yy][xx] == old(self)@[yy][xx],
            !(x < TOTAL_WIDTH && y < TOTAL_HEIGHT) ==> r == Err::<(), OutOfBounds>(OutOfBounds)
                && final(self)@ == old(self)@,
    {
        if !(x < TOTAL_WIDTH && y < TOTAL_HEIGHT) {
            return Err(OutOfBounds);
        }
        proof {
            self.lemma_view_index();
        }
        let line = line_at_mut(&mut self.lines, y);
        let _ = line.set_element(x, value);
        proof {
            self.lemma_view_index();
            assert(self@ =~= old(self)@.update(y as int, old(self)@[y as int].update(x as int, value)));
        }
        Ok(())
    }

    /// Reads the cell at column `x` of row `y`.
    pub fn get_element(&self, x: usize, y: usize) -> (r: u8)
        requires
            self.wf(),
            x < TOTAL_WIDTH,
            y < TOTAL_HEIGHT,
        ensures
            r == self@[y as int][x as int],
    {
        proof {
            self.lemma_view_index();
        }
        self.lines[y].get_element(x)
    }

    /// Copies the `width` by `height` rectangle of `source` whose top-left
    /// corner is `(src_x, src_y)` onto this grid at `(dst_x, dst_y)`. Rows
    /// are processed top to bottom, the source row index advancing in
    /// lockstep with the destination row index. Reports [`OutOfBounds`]
    /// without mutating when any start coordinate is out of range or any end
    /// offset passes the grid; all bounds are checked up front, before any
    /// row is touched, so either every row copy proceeds or none does. The
    /// rectangle is never clipped to fit.
    pub fn copy_block(
        &mut self,
        source: &FrameBuffer,
        src_x: usize,
        src_y: usize,
        dst_x: usize,
        dst_y: usize,
        width: usize,
        height: usize,
    ) -> (r: Result<(), OutOfBounds>)
        requires
            old(self).wf(),
            source.wf(),
        ensures
            final(self).wf(),
            r is Ok <==> block_params_ok(
                src_x as int,
                src_y as int,
                dst_x as int,
                dst_y as int,
                width as int,
                height as int,
            ),
            block_params_ok(
                src_x as int,
                src_y as int,
                dst_x as int,
                dst_y as int,
                width as int,
                height as int,
            ) ==> {
                &&& final(self)@ == block_copied(
                    old(self)@,
                    source@,
                    src_x as int,
                    src_y as int,
                    dst_x as int,
                    dst_y as int,
                    width as int,
                    height as int,
                )
                &&& forall|yy: int, xx: int|
                    dst_y <= yy < dst_y + height && dst_x <= xx < dst_x + width
                        ==> final(self)@[yy][xx] == source@[src_y + (yy - dst_y)][src_x + (xx
                        - dst_x)]
                &&& forall|yy: int, xx: int|
                    0 <= yy < TOTAL_HEIGHT && 0 <= xx < TOTAL_WIDTH && !(dst_y <= yy < dst_y
                        + height && dst_x <= xx < dst_x + width) ==> final(self)@[yy][xx] == old(
                        self,
                    )@[yy][xx]
            },
            !block_params_ok(
                src_x as int,
                src_y as int,
                dst_x as int,
                dst_y as int,
                width as int,
                height as int,
            ) ==> r == Err::<(), OutOfBounds>(OutOfBounds) && final(self)@ == old(self)@,
    {
        if !(src_x < TOTAL_WIDTH && src_y < TOTAL_HEIGHT && dst_x < TOTAL_WIDTH && dst_y
            < TOTAL_HEIGHT && width <= TOTAL_WIDTH - src_x && height <= TOTAL_HEIGHT - src_y
            && width <= TOTAL_WIDTH - dst_x && height <= TOTAL_HEIGHT - dst_y) {
            return Err(OutOfBounds);
        }
        let mut i: usize = 0;
        while i < height
            invariant
                i <= height,
                self.wf(),
                source.wf(),
                block_params_ok(
                    src_x as int,
                    src_y as int,
                    dst_x as int,
                    dst_y as int,
                    width as int,
                    height as int,
                ),
                forall|k: int|
                    dst_y <= k < dst_y + i ==> self@[k] == line_copied(
                        old(self)@[k],
                        source@[src_y + (k - dst_y)],
                        src_x as int,
                        dst_x as int,
                        width as int,
                    ),
                forall|k: int|
                    0 <= k < TOTAL_HEIGHT && !(dst_y <= k < dst_y + i) ==> self@[k] == old(
                        self,
                    )@[k],
            decreases height - i,
        {
            proof {
                self.lemma_view_index();
                source.lemma_view_index();
            }
            let src_line = &source.lines[src_y + i];
            let line = line_at_mut(&mut self.lines, dst_y + i);
            let _ = line.copy_line(src_line, src_x, dst_x, width);
            proof {
                self.lemma_view_index();
            }
            i = i + 1;
        }
        proof {
            assert(self@ =~= block_copied(
                old(self)@,
                source@,
                src_x as int,
                src_y as int,
                dst_x as int,
                dst_y as int,
                width as int,
                height as int,
            ));
        }
        Ok(())
    }

    /// Copies the `width` by `height` rectangle of this grid whose top-left
    /// corner is `(src_x, src_y)` onto this same grid at `(dst_x, dst_y)`.
    /// The two rectangles may overlap: the result equals first snapshotting
    /// the source rectangle and then writing the snapshot to the destination,
    /// so no source cell is overwritten before it is read. Reports
    /// [`OutOfBounds`] without mutating when any start coordinate is out of
    /// range or any end offset passes the grid; all bounds are checked up
    /// front, before any row is touched.
    pub fn copy_block_within(
        &mut self,
        src_x: usize,
        src_y: usize,
        dst_x: usize,
        dst_y: usize,
        width: usize,
        height: usize,
    ) -> (r: Result<(), OutOfBounds>)
        requires
            old(self).wf(),
        ensures
            final(self).wf(),
            r is Ok <==> block_params_ok(
                src_x as int,
                src_y as int,
                dst_x as int,
                dst_y as int,
                width as int,
                height as int,
            ),
            block_params_ok(
                src_x as int,
                src_y as int,
                dst_x as int,
                dst_y as int,
                width as int,
                height as int,
            ) ==> {
                &&& final(self)@ == block_copied(
                    old(self)@,
                    old(self)@,
                    src_x as int,
                    src_y as int,
                    dst_x as int,
                    dst_y as int,
                    width as int,
                    height as int,
                )
                &&& forall|yy: int, xx: int|
                    dst_y <= yy < dst_y + height && dst_x <= xx < dst_x + width
                        ==> final(self)@[yy][xx] == old(self)@[src_y + (yy - dst_y)][src_x + (xx
                        - dst_x)]
                &&& forall|yy: int, xx: int|
                    0 <= yy < TOTAL_HEIGHT && 0 <= xx < TOTAL_WIDTH && !(dst_y <= yy < dst_y
                        + height && dst_x <= xx < dst_x + width) ==> final(self)@[yy][xx] == old(
                        self,
                    )@[yy][xx]
            },
            !block_params_ok(
                src_x as int,
                src_y as int,
                dst_x as int,
                dst_y as int,
                width as int,
                height as int,
            ) ==> r == Err::<(), OutOfBounds>(OutOfBounds) && final(self)@ == old(self)@,
    {
        if !(src_x < TOTAL_WIDTH && src_y < TOTAL_HEIGHT && dst_x < TOTAL_WIDTH && dst_y
            < TOTAL_HEIGHT && width <= TOTAL_WIDTH - src_x && height <= TOTAL_HEIGHT - src_y
            && width <= TOTAL_WIDTH - dst_x && height <= TOTAL_HEIGHT - dst_y) {
            return Err(OutOfBounds);
        }
        let mut snap: Vec<ScanLine> = Vec::new();
        let mut i: usize = 0;
        while i < height
            invariant
                i <= height,
                self.wf(),
                self@ == old(self)@,
                src_y + height <= TOTAL_HEIGHT,
                snap@.len() == i,
                forall|k: int|
                    0 <= k < i ==> (#[trigger] snap@[k]).wf() && snap@[k]@ == old(self)@[src_y
                        + k],
            decreases height - i,
        {
            proof {
                self.lemma_view_index();
            }
            let row = self.lines[src_y + i].duplicate();
            snap.push(row);
            i = i + 1;
        }
        let mut i: usize = 0;
        while i < height
            invariant
                i <= height,
                self.wf(),
                block_params_ok(
                    src_x as int,
                    src_y as int,
                    dst_x as int,
                    dst_y as int,
                    width as int,
                    height as int,
                ),
                snap@.len() == height,
                forall|k: int|
                    0 <= k < height ==> (#[trigger] snap@[k]).wf() && snap@[k]@ == old(
                        self,
                    )@[src_y + k],
                forall|k: int|
                    dst_y <= k < dst_y + i ==> self@[k] == line_copied(
                        old(self)@[k],
                        old(self)@[src_y + (k - dst_y)],
                        src_x as int,
                        dst_x as int,
                        width as int,
                    ),
                forall|k: int|
                    0 <= k < TOTAL_HEIGHT && !(dst_y <= k < dst_y + i) ==> self@[k] == old(
                        self,
                    )@[k],
            decreases height - i,
        {
            proof {
                self.lemma_view_index();
            }
            let src_line = &snap[i];
            let line = line_at_mut(&mut self.lines, dst_y + i);
            let _ = line.copy_line(src_line, src_x, dst_x, width);
            proof {
                self.lemma_view_index();
            }
            i = i + 1;
        }
        proof {
            assert(self@ =~= block_copied(
                old(self)@,
                old(self)@,
                src_x as int,
                src_y as int,
                dst_x as int,
                dst_y as int,
                width as int,
                height as int,
            ));
        }
        Ok(())
    }
}

} // verus!
