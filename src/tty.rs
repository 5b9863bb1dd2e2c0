use vstd::prelude::*;

verus! {

/// The size of a terminal, with the fields of the `winsize` record that the
/// terminal-size ioctl fills in.
#[derive(Clone, Copy, Debug, PartialEq, Eq, Structural)]
pub struct Size {
    pub rows: u16,
    pub cols: u16,
    pub pixel_rows: u16,
    pub pixel_cols: u16,
}

impl Default for Size {
    fn default() -> (r: Size)
        ensures
            r == Size::zero(),
    {
        Size { rows: 0, cols: 0, pixel_rows: 0, pixel_cols: 0 }
    }
}

impl Size {
    /// The size with every field zero.
    pub open spec fn zero() -> Size {
        Size { rows: 0, cols: 0, pixel_rows: 0, pixel_cols: 0 }
    }

    /// A size of `rows` by `cols` cells, with no pixel dimensions.
    pub fn new(rows: u16, cols: u16) -> (r: Size)
        ensures
            r.rows == rows,
            r.cols == cols,
            r.pixel_rows == 0,
            r.pixel_cols == 0,
    {
        Size { rows, cols, pixel_rows: 0, pixel_cols: 0 }
    }
}

} // verus!
