//! The set of tiles the viewer currently sees.

use vstd::prelude::*;

verus! {

/// A visibility grid stored column by column: `cells[x][y]` is true where the
/// tile at `(x, y)` is in view.
pub struct FovMap {
    cells: Vec<Vec<bool>>,
}

impl FovMap {
    /// Every column has the same height, and both dimensions fit the signed
    /// coordinates used for positions.
    pub closed spec fn wf(&self) -> bool {
        &&& self.cells@.len() <= i32::MAX
        &&& forall|x: int| 0 <= x < self.cells@.len() ==> (#[trigger] self.cells@[x])@.len() == self.spec_height()
        &&& self.spec_height() <= i32::MAX
    }

    pub closed spec fn spec_width(&self) -> int {
        self.cells@.len() as int
    }

    pub closed spec fn spec_height(&self) -> int {
        if self.cells@.len() == 0 {
            0
        } else {
            self.cells@[0]@.len() as int
        }
    }

    /// The position `(x, y)` lies on the grid.
    pub open spec fn in_bounds(&self, x: int, y: int) -> bool {
        0 <= x < self.spec_width() && 0 <= y < self.spec_height()
    }

    /// The tile at `(x, y)` is in view. Nothing off the grid is.
    pub closed spec fn visible(&self, x: int, y: int) -> bool {
        self.in_bounds(x, y) && self.cells@[x]@[y]
    }

    /// A grid of the given size on which nothing is in view.
    pub fn new(width: i32, height: i32) -> (f: FovMap)
        requires
            0 <= width,
            0 <= height,
        ensures
            f.wf(),
            f.spec_width() == width,
            f.spec_height() == (if width > 0 {
                height as int
            } else {
                0
            }),
            forall|x: int, y: int| !f.visible(x, y),
    {
        let mut cells: Vec<Vec<bool>> = Vec::new();
        let mut x: i32 = 0;
        while x < width
            invariant
                0 <= x <= width,
                0 <= height,
                cells@.len() == x,
                forall|i: int| 0 <= i < x ==> (#[trigger] cells@[i])@.len() == height,
                forall|i: int, j: int| 0 <= i < x && 0 <= j < height ==> !(#[trigger] cells@[i]@[j]),
            decreases width - x,
        {
            let mut column: Vec<bool> = Vec::new();
            let mut y: i32 = 0;
            while y < height
                invariant
                    0 <= y <= height,
                    column@.len() == y,
                    forall|j: int| 0 <= j < y ==> !(#[trigger] column@[j]),
                decreases height - y,
            {
                column.push(false);
                y = y + 1;
            }
            cells.push(column);
            x = x + 1;
        }
        FovMap { cells }
    }

    /// Marks the tile at `(x, y)` as in view or not; a position off the grid
    /// is ignored.
    pub fn set_visible(&mut self, x: i32, y: i32, seen: bool)
        requires
            old(self).wf(),
        ensures
            final(self).wf(),
            final(self).spec_width() == old(self).spec_width(),
            final(self).spec_height() == old(self).spec_height(),
            forall|i: int, j: int|
                final(self).visible(i, j) == (if i == x && j == y && old(self).in_bounds(i, j) {
                    seen
                } else {
                    old(self).visible(i, j)
                }),
    {
        if x >= 0 && y >= 0 && (x as usize) < self.cells.len() && (y as usize)
            < self.cells[0].len() {
            self.cells[x as usize][y as usize] = seen;
        }
    }

    /// Whether the tile at `(x, y)` is in view.
    pub fn is_in_fov(&self, x: i32, y: i32) -> (b: bool)
        requires
            self.wf(),
        ensures
            b == self.visible(x as int, y as int),
    {
        if x >= 0 && y >= 0 && (x as usize) < self.cells.len() && (y as usize)
            < self.cells[0].len() {
            self.cells[x as usize][y as usize]
        } else {
            false
        }
    }
}

} // verus!
