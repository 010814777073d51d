//! The rectangular tile grid of one dungeon level.

use vstd::prelude::*;
use crate::geometry::Tile;

verus! {

/// A grid of tiles stored column by column: `tiles[x][y]`.
pub struct Grid {
    tiles: Vec<Vec<Tile>>,
}

impl Grid {
    /// Every column has the same height, and both dimensions fit the signed
    /// coordinates used for positions.
    pub closed spec fn wf(&self) -> bool {
        &&& self.tiles@.len() <= i32::MAX
        &&& forall|x: int| 0 <= x < self.tiles@.len() ==> (#[trigger] self.tiles@[x])@.len() == self.spec_height()
        &&& self.spec_height() <= i32::MAX
    }

    pub closed spec fn spec_width(&self) -> int {
        self.tiles@.len() as int
    }

    pub closed spec fn spec_height(&self) -> int {
        if self.tiles@.len() == 0 {
            0
        } else {
            self.tiles@[0]@.len() as int
        }
    }

    /// The position `(x, y)` names a tile of the grid.
    pub open spec fn in_bounds(&self, x: int, y: int) -> bool {
        0 <= x < self.spec_width() && 0 <= y < self.spec_height()
    }

    /// The tile at `(x, y)`; meaningful only in bounds.
    pub closed spec fn at(&self, x: int, y: int) -> Tile {
        self.tiles@[x]@[y]
    }

    /// Same dimensions as `other`.
    pub open spec fn same_size(&self, other: &Grid) -> bool {
        self.spec_width() == other.spec_width() && self.spec_height() == other.spec_height()
    }

    /// Equal to `other` everywhere but possibly at `(x, y)`.
    pub open spec fn same_except(&self, other: &Grid, x: int, y: int) -> bool {
        &&& self.same_size(other)
        &&& forall|i: int, j: int|
            self.in_bounds(i, j) && !(i == x && j == y) ==> #[trigger] self.at(i, j) == other.at(
                i,
                j,
            )
    }

    pub proof fn lemma_dimensions(&self)
        requires
            self.wf(),
        ensures
            0 <= self.spec_width() <= i32::MAX,
            0 <= self.spec_height() <= i32::MAX,
    {
    }

    /// A grid of the given size filled with walls.
    pub fn walls(width: i32, height: i32) -> (g: Grid)
        requires
            0 <= width,
            0 <= height,
        ensures
            g.wf(),
            g.spec_width() == width,
            g.spec_height() == (if width > 0 {
                height as int
            } else {
                0
            }),
            forall|x: int, y: int| g.in_bounds(x, y) ==> #[trigger] g.at(x, y) == Tile::spec_wall(),
    {
        let mut tiles: Vec<Vec<Tile>> = Vec::new();
        let mut x: i32 = 0;
        while x < width
            invariant
                0 <= x <= width,
                0 <= height,
                tiles@.len() == x,
                forall|i: int| 0 <= i < x ==> (#[trigger] tiles@[i])@.len() == height,
                forall|i: int, j: int|
                    0 <= i < x && 0 <= j < height ==> (#[trigger] tiles@[i]@[j]) == Tile::spec_wall(),
            decreases width - x,
        {
            let mut column: Vec<Tile> = Vec::new();
            let mut y: i32 = 0;
            while y < height
                invariant
                    0 <= y <= height,
                    column@.len() == y,
                    forall|j: int| 0 <= j < y ==> (#[trigger] column@[j]) == Tile::spec_wall(),
                decreases height - y,
            {
                column.push(Tile::wall());
                y = y + 1;
            }
            tiles.push(column);
            x = x + 1;
        }
        Grid { tiles }
    }

    pub fn width(&self) -> (w: i32)
        requires
            self.wf(),
        ensures
            w == self.spec_width(),
            0 <= w,
    {
        self.tiles.len() as i32
    }

    pub fn height(&self) -> (h: i32)
        requires
            self.wf(),
        ensures
            h == self.spec_height(),
            0 <= h,
    {
        if self.tiles.len() == 0 {
            0
        } else {
            self.tiles[0].len() as i32
        }
    }

    /// Whether `(x, y)` names a tile of the grid.
    pub fn contains(&self, x: i32, y: i32) -> (b: bool)
        requires
            self.wf(),
        ensures
            b == self.in_bounds(x as int, y as int),
    {
        x >= 0 && y >= 0 && x < self.width() && y < self.height()
    }

    /// The tile at `(x, y)`.
    pub fn tile(&self, x: i32, y: i32) -> (t: Tile)
        requires
            self.wf(),
            self.in_bounds(x as int, y as int),
        ensures
            t == self.at(x as int, y as int),
    {
        self.tiles[x as usize][y as usize]
    }

    /// Replaces the tile at `(x, y)`, leaving every other tile as it was.
    pub fn set_tile(&mut self, x: i32, y: i32, tile: Tile)
        requires
            old(self).wf(),
            old(self).in_bounds(x as int, y as int),
        ensures
            final(self).wf(),
            final(self).same_except(old(self), x as int, y as int),
            final(self).at(x as int, y as int) == tile,
    {
        self.tiles[x as usize][y as usize] = tile;
    }
}

} // verus!
