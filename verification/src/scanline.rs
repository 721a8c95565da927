//! One horizontal row of pixel bytes, padding columns included.

use vstd::prelude::*;

use crate::OutOfBounds;
use crate::TOTAL_WIDTH;

verus! {

/// Whether a row copy with these parameters stays inside a row of
/// [`TOTAL_WIDTH`] cells: both start columns are in range and neither
/// end offset passes the end of the row.
pub open spec fn line_params_ok(src_x: int, dst_x: int, width: int) -> bool {
    &&& src_x < TOTAL_WIDTH
    &&& dst_x < TOTAL_WIDTH
    &&& src_x + width <= TOTAL_WIDTH
    &&& dst_x + width <= TOTAL_WIDTH
}

/// The row that results from copying `width` cells of `src`, starting at
/// column `src_x`, into `dst` starting at column `dst_x`. Every source cell
/// is read from `src` as given, so the model has snapshot semantics: it is
/// meaningful even when `src` and `dst` are the same row and the two column
/// ranges overlap.
pub open spec fn line_copied(dst: Seq<u8>, src: Seq<u8>, src_x: int, dst_x: int, width: int) -> Seq<u8> {
    Seq::new(
        dst.len(),
        |j: int|
            if dst_x <= j < dst_x + width {
                src[src_x + (j - dst_x)]
            } else {
                dst[j]
            },
    )
}

/// A fixed-length ordered sequence of byte pixel values representing one
/// horizontal row, including border padding columns. Its length is always
/// exactly [`TOTAL_WIDTH`].
#[derive(Debug)]
pub struct ScanLine {
    bytes: Vec<u8>,
}

impl View for ScanLine {
    type V = Seq<u8>;

    closed spec fn view(&self) -> Seq<u8> {
        self.bytes@
    }
}

impl ScanLine {
    /// The length invariant: a row always holds exactly [`TOTAL_WIDTH`] cells.
    pub open spec fn wf(&self) -> bool {
        self@.len() == TOTAL_WIDTH
    }

    /// Returns a row of [`TOTAL_WIDTH`] zero-valued pixels.
    pub fn new() -> (r: Self)
        ensures
            r.wf(),
            forall|i: int| 0 <= i < TOTAL_WIDTH ==> r@[i] == 0u8,
    {
        let mut bytes: Vec<u8> = Vec::new();
        let mut i: usize = 0;
        while i < TOTAL_WIDTH
            invariant
                i <= TOTAL_WIDTH,
                bytes@.len() == i,
                forall|k: int| 0 <= k < i ==> bytes@[k] == 0u8,
            decreases TOTAL_WIDTH - i,
        {
            bytes.push(0u8);
            i = i + 1;
        }
        ScanLine { bytes }
    }

    /// Overwrites every one of the [`TOTAL_WIDTH`] cells with `value`.
    pub fn fill_entire(&mut self, value: u8)
        requires
            old(self).wf(),
        ensures
            final(self).wf(),
            forall|i: int| 0 <= i < TOTAL_WIDTH ==> final(self)@[i] == value,
    {
        let mut i: usize = 0;
        while i < TOTAL_WIDTH
            invariant
                i <= TOTAL_WIDTH,
                self.wf(),
                forall|k: int| 0 <= k < i ==> self@[k] == value,
            decreases TOTAL_WIDTH - i,
        {
            self.bytes.set(i, value);
            i = i + 1;
        }
    }

    /// Writes `value` at column `x`, leaving every other cell as it was.
    /// Reports [`OutOfBounds`] without mutating when `x` is not a valid
    /// column.
    pub fn set_element(&mut self, x: usize, value: u8) -> (r: Result<(), OutOfBounds>)
        requires
            old(self).wf(),
        ensures
            final(self).wf(),
            r is Ok <==> x < TOTAL_WIDTH,
            x < TOTAL_WIDTH ==> final(self)@ == old(self)@.update(x as int, value),
            x < TOTAL_WIDTH ==> final(self)@[x as int] == value,
            x < TOTAL_WIDTH ==> forall|i: int|
                0 <= i < TOTAL_WIDTH && i != x ==> final(self)@[i] == old(self)@[i],
            !(x < TOTAL_WIDTH) ==> r == Err::<(), OutOfBounds>(OutOfBounds)
                && final(self)@ == old(self)@,
    {
        if x < TOTAL_WIDTH {
            self.bytes.set(x, value);
            Ok(())
        } else {
            Err(OutOfBounds)
        }
    }

    /// Reads the cell at column `x`.
    pub fn get_element(&self, x: usize) -> (r: u8)
        requires
            self.wf(),
            x < TOTAL_WIDTH,
        ensures
            r == self@[x as int],
    {
        self.bytes[x]
    }

    /// Copies `width` contiguous cells of `source`, starting at column
    /// `src_x`, into this row starting at column `dst_x`. Reports
    /// [`OutOfBounds`] without mutating when either start column is out of
    /// range or either end offset passes [`TOTAL_WIDTH`]; the width is never
    /// clipped to fit.
    pub fn copy_line(&mut self, source: &ScanLine, src_x: usize, dst_x: usize, width: usize) -> (r: Result<
        (),
        OutOfBounds,
    >)
        requires
            old(self).wf(),
            source.wf(),
        ensures
            final(self).wf(),
            r is Ok <==> line_params_ok(src_x as int, dst_x as int, width as int),
            line_params_ok(src_x as int, dst_x as int, width as int) ==> final(self)@
                == line_copied(old(self)@, source@, src_x as int, dst_x as int, width as int),
            !line_params_ok(src_x as int, dst_x as int, width as int) ==> r == Err::<
                (),
                OutOfBounds,
            >(OutOfBounds) && final(self)@ == old(self)@,
    {
        if !(src_x < TOTAL_WIDTH && dst_x < TOTAL_WIDTH && width <= TOTAL_WIDTH - src_x && width
            <= TOTAL_WIDTH - dst_x) {
            return Err(OutOfBounds);
        }
        let mut j: usize = 0;
        while j < width
            invariant
                j <= width,
                self.wf(),
                source.wf(),
                line_params_ok(src_x as int, dst_x as int, width as int),
                forall|k: int| dst_x <= k < dst_x + j ==> self@[k] == source@[src_x + (k - dst_x)],
                forall|k: int|
                    0 <= k < TOTAL_WIDTH && !(dst_x <= k < dst_x + j) ==> self@[k] == old(self)@[k],
            decreases width - j,
        {
            let v = source.bytes[src_x + j];
            self.bytes.set(dst_x + j, v);
            j = j + 1;
        }
        proof {
            assert(self@ =~= line_copied(old(self)@, source@, src_x as int, dst_x as int, width as int));
        }
        Ok(())
    }

    /// Copies `width` contiguous cells of this row, starting at column
    /// `src_x`, onto this same row starting at column `dst_x`. The two column
    /// ranges may overlap: the result equals a copy performed as if every
    /// source cell were read before any cell is written. Reports
    /// [`OutOfBounds`] without mutating when the parameters do not fit the
    /// row.
    pub fn copy_line_within(&mut self, src_x: usize, dst_x: usize, width: usize) -> (r: Result<
        (),
        OutOfBounds,
    >)
        requires
            old(self).wf(),
        ensures
            final(self).wf(),
            r is Ok <==> line_params_ok(src_x as int, dst_x as int, width as int),
            line_params_ok(src_x as int, dst_x as int, width as int) ==> final(self)@
                == line_copied(old(self)@, old(self)@, src_x as int, dst_x as int, width as int),
            !line_params_ok(src_x as int, dst_x as int, width as int) ==> r == Err::<
                (),
                OutOfBounds,
            >(OutOfBounds) && final(self)@ == old(self)@,
    {
        if !(src_x < TOTAL_WIDTH && dst_x < TOTAL_WIDTH && width <= TOTAL_WIDTH - src_x && width
            <= TOTAL_WIDTH - dst_x) {
            return Err(OutOfBounds);
        }
        let mut taken: Vec<u8> = Vec::new();
        let mut j: usize = 0;
        while j < width
            invariant
                j <= width,
                self.wf(),
                self@ == old(self)@,
                line_params_ok(src_x as int, dst_x as int, width as int),
                taken@.len() == j,
                forall|k: int| 0 <= k < j ==> taken@[k] == old(self)@[src_x + k],
            decreases width - j,
        {
            taken.push(self.bytes[src_x + j]);
            j = j + 1;
        }
        let mut j: usize = 0;
        while j < width
            invariant
                j <= width,
                self.wf(),
                line_params_ok(src_x as int, dst_x as int, width as int),
                taken@.len() == width,
                forall|k: int| 0 <= k < width ==> taken@[k] == old(self)@[src_x + k],
                forall|k: int| dst_x <= k < dst_x + j ==> self@[k] == old(self)@[src_x + (k - dst_x)],
                forall|k: int|
                    0 <= k < TOTAL_WIDTH && !(dst_x <= k < dst_x + j) ==> self@[k] == old(self)@[k],
            decreases width - j,
        {
            let v = taken[j];
            self.bytes.set(dst_x + j, v);
            j = j + 1;
        }
        proof {
            assert(self@ =~= line_copied(old(self)@, old(self)@, src_x as int, dst_x as int, width as int));
        }
        Ok(())
    }

    /// Returns a new row holding the same cells as this one.
    pub fn duplicate(&self) -> (r: ScanLine)
        requires
            self.wf(),
        ensures
            r.wf(),
            r@ == self@,
    {
        let mut r = ScanLine::new();
        let _ = r.copy_line(self, 0, 0, TOTAL_WIDTH);
        proof {
            assert(r@ =~= self@);
        }
        r
    }
}

} // verus!
