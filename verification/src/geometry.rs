//! Tiles, rectangles and the tile grid.

use vstd::prelude::*;

verus! {

/// One cell of the dungeon grid.
#[derive(Clone, Copy, Debug, PartialEq, Eq, Structural)]
pub struct Tile {
    pub blocked: bool,
    pub explored: bool,
    pub block_sight: bool,
}

impl Tile {
    /// The open floor tile: passable, transparent, not yet seen.
    pub open spec fn spec_empty() -> Tile {
        Tile { blocked: false, explored: false, block_sight: false }
    }

    /// The wall tile: impassable, opaque, not yet seen.
    pub open spec fn spec_wall() -> Tile {
        Tile { blocked: true, explored: false, block_sight: true }
    }

    #[verifier::when_used_as_spec(spec_empty)]
    pub fn empty() -> (t: Tile)
        ensures
            t == Tile::spec_empty(),
    {
        Tile { blocked: false, explored: false, block_sight: false }
    }

    #[verifier::when_used_as_spec(spec_wall)]
    pub fn wall() -> (t: Tile)
        ensures
            t == Tile::spec_wall(),
    {
        Tile { blocked: true, explored: false, block_sight: true }
    }
}

/// A rectangle on the grid, given by two opposite corners.
#[derive(Clone, Copy, Debug, PartialEq, Eq, Structural)]
pub struct Rect {
    pub x1: i32,
    pub y1: i32,
    pub x2: i32,
    pub y2: i32,
}

/// Floor of the mean of two coordinates, rounded toward zero as machine
/// division does.
pub open spec fn midpoint(a: int, b: int) -> int {
    if a + b >= 0 {
        (a + b) / 2
    } else {
        -((-(a + b)) / 2)
    }
}

impl Rect {
    /// The overlap test: the two rectangles share at least one point,
    /// borders included.
    pub open spec fn overlaps(self, other: Rect) -> bool {
        &&& self.x1 <= other.x2
        &&& self.x2 >= other.x1
        &&& self.y1 <= other.y2
        &&& self.y2 >= other.y1
    }

    /// The point `(x, y)` lies strictly inside the rectangle, off its border.
    pub open spec fn interior(self, x: int, y: int) -> bool {
        self.x1 < x < self.x2 && self.y1 < y < self.y2
    }

    pub open spec fn center_x(self) -> int {
        midpoint(self.x1 as int, self.x2 as int)
    }

    pub open spec fn center_y(self) -> int {
        midpoint(self.y1 as int, self.y2 as int)
    }

    /// The rectangle with top-left corner `(x, y)`, width `w` and height `h`.
    pub fn new(x: i32, y: i32, w: i32, h: i32) -> (r: Rect)
        requires
            i32::MIN <= x + w <= i32::MAX,
            i32::MIN <= y + h <= i32::MAX,
        ensures
            r == (Rect { x1: x, y1: y, x2: (x + w) as i32, y2: (y + h) as i32 }),
    {
        Rect { x1: x, y1: y, x2: x + w, y2: y + h }
    }

    /// The centre point, each coordinate the mean of the two bounds.
    pub fn center(&self) -> (c: (i32, i32))
        ensures
            c.0 == self.center_x(),
            c.1 == self.center_y(),
    {
        let center_x: i64 = (self.x1 as i64 + self.x2 as i64) / 2;
        let center_y: i64 = (self.y1 as i64 + self.y2 as i64) / 2;
        (center_x as i32, center_y as i32)
    }

    /// Whether this rectangle overlaps `other`.
    pub fn intersects_with(&self, other: &Rect) -> (b: bool)
        ensures
            b == self.overlaps(*other),
    {
        (self.x1 <= other.x2) && (self.x2 >= other.x1) && (self.y1 <= other.y2) && (self.y2
            >= other.y1)
    }
}

/// The overlap test does not depend on the order of its two rectangles.
pub proof fn lemma_overlap_symmetric(a: Rect, b: Rect)
    ensures
        a.overlaps(b) == b.overlaps(a),
{
}

} // verus!
