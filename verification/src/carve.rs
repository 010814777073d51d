//! Carving rooms and corridors out of a grid of walls.

use vstd::prelude::*;
use crate::geometry::{Rect, Tile};
use crate::grid::Grid;

verus! {

/// The smaller of two coordinates.
pub open spec fn low(a: int, b: int) -> int {
    if a <= b {
        a
    } else {
        b
    }
}

/// The larger of two coordinates.
pub open spec fn high(a: int, b: int) -> int {
    if a <= b {
        b
    } else {
        a
    }
}

/// `(x, y)` lies on the horizontal corridor in row `row` between columns `x1`
/// and `x2`, ends included, whichever of the two is larger.
pub open spec fn on_h_tunnel(x1: int, x2: int, row: int, x: int, y: int) -> bool {
    y == row && low(x1, x2) <= x <= high(x1, x2)
}

/// `(x, y)` lies on the vertical corridor in column `column` between rows
/// `y1` and `y2`, ends included, whichever of the two is larger.
pub open spec fn on_v_tunnel(y1: int, y2: int, column: int, x: int, y: int) -> bool {
    x == column && low(y1, y2) <= y <= high(y1, y2)
}

/// `after` is `before` with the interior of `room` turned into open floor.
pub open spec fn room_carved(before: Grid, after: Grid, room: Rect) -> bool {
    &&& after.same_size(&before)
    &&& forall|x: int, y: int| 
        after.in_bounds(x, y) ==> #[trigger] after.at(x, y) == (if room.interior(x, y) {
            Tile::spec_empty()
        } else {
            before.at(x, y)
        })
}

/// `after` is `before` with the horizontal corridor turned into open floor.
pub open spec fn h_tunnel_carved(before: Grid, after: Grid, x1: int, x2: int, row: int) -> bool {
    &&& after.same_size(&before)
    &&& forall|x: int, y: int| 
        after.in_bounds(x, y) ==> #[trigger] after.at(x, y) == (if on_h_tunnel(x1, x2, row, x, y) {
            Tile::spec_empty()
        } else {
            before.at(x, y)
        })
}

/// `after` is `before` with the vertical corridor turned into open floor.
pub open spec fn v_tunnel_carved(before: Grid, after: Grid, y1: int, y2: int, column: int) -> bool {
    &&& after.same_size(&before)
    &&& forall|x: int, y: int| 
        after.in_bounds(x, y) ==> #[trigger] after.at(x, y) == (if on_v_tunnel(y1, y2, column, x, y) {
            Tile::spec_empty()
        } else {
            before.at(x, y)
        })
}

/// Turns every tile strictly inside `room` into open floor.
pub fn create_room(room: Rect, map: &mut Grid)
    requires
        old(map).wf(),
        forall|x: int, y: int| room.interior(x, y) ==> old(map).in_bounds(x, y),
    ensures
        final(map).wf(),
        room_carved(*old(map), *final(map), room),
{
    if room.x1 as i64 >= room.x2 as i64 - 1 || room.y1 as i64 >= room.y2 as i64 - 1 {
        return ;
    }
    assert(room.interior(room.x1 + 1, room.y1 + 1));
    assert(room.interior(room.x2 - 1, room.y2 - 1));
    let mut x: i32 = room.x1 + 1;
    while x < room.x2
        invariant
            room.x1 < x <= room.x2,
            room.y1 < room.y2 - 1,
            map.wf(),
            map.same_size(old(map)),
            forall|i: int, j: int| room.interior(i, j) ==> old(map).in_bounds(i, j),
            forall|i: int, j: int| 
                map.in_bounds(i, j) ==> #[trigger] map.at(i, j) == (if room.interior(i, j) && i < x {
                    Tile::spec_empty()
                } else {
                    old(map).at(i, j)
                }),
        decreases room.x2 - x,
    {
        let mut y: i32 = room.y1 + 1;
        while y < room.y2
            invariant
                room.x1 < x < room.x2,
                room.y1 < y <= room.y2,
                map.wf(),
                map.same_size(old(map)),
                forall|i: int, j: int| room.interior(i, j) ==> old(map).in_bounds(i, j),
                forall|i: int, j: int| 
                    map.in_bounds(i, j) ==> #[trigger] map.at(i, j) == (if room.interior(i, j) && (i < x || (i
                        == x && j < y)) {
                        Tile::spec_empty()
                    } else {
                        old(map).at(i, j)
                    }),
            decreases room.y2 - y,
        {
            assert(room.interior(x as int, y as int));
            map.set_tile(x, y, Tile::empty());
            y = y + 1;
        }
        x = x + 1;
    }
}

/// Carves the horizontal corridor in row `y` between columns `x1` and `x2`.
pub fn create_h_tunnel(x1: i32, x2: i32, y: i32, map: &mut Grid)
    requires
        old(map).wf(),
        old(map).in_bounds(x1 as int, y as int),
        old(map).in_bounds(x2 as int, y as int),
    ensures
        final(map).wf(),
        h_tunnel_carved(*old(map), *final(map), x1 as int, x2 as int, y as int),
{
    let first = if x1 <= x2 {
        x1
    } else {
        x2
    };
    let last = if x1 <= x2 {
        x2
    } else {
        x1
    };
    proof {
        old(map).lemma_dimensions();
    }
    let mut x: i32 = first;
    while x <= last
        invariant
            first == low(x1 as int, x2 as int),
            last == high(x1 as int, x2 as int),
            first <= x <= last + 1,
            last < i32::MAX,
            map.wf(),
            map.same_size(old(map)),
            old(map).in_bounds(first as int, y as int),
            old(map).in_bounds(last as int, y as int),
            forall|i: int, j: int| 
                map.in_bounds(i, j) ==> #[trigger] map.at(i, j) == (if on_h_tunnel(
                    x1 as int,
                    x2 as int,
                    y as int,
                    i,
                    j,
                ) && i < x {
                    Tile::spec_empty()
                } else {
                    old(map).at(i, j)
                }),
        decreases last + 1 - x,
    {
        map.set_tile(x, y, Tile::empty());
        x = x + 1;
    }
}

/// Carves the vertical corridor in column `x` between rows `y1` and `y2`.
pub fn create_v_tunnel(y1: i32, y2: i32, x: i32, map: &mut Grid)
    requires
        old(map).wf(),
        old(map).in_bounds(x as int, y1 as int),
        old(map).in_bounds(x as int, y2 as int),
    ensures
        final(map).wf(),
        v_tunnel_carved(*old(map), *final(map), y1 as int, y2 as int, x as int),
{
    let first = if y1 <= y2 {
        y1
    } else {
        y2
    };
    let last = if y1 <= y2 {
        y2
    } else {
        y1
    };
    proof {
        old(map).lemma_dimensions();
    }
    let mut y: i32 = first;
    while y <= last
        invariant
            first == low(y1 as int, y2 as int),
            last == high(y1 as int, y2 as int),
            first <= y <= last + 1,
            last < i32::MAX,
            map.wf(),
            map.same_size(old(map)),
            old(map).in_bounds(x as int, first as int),
            old(map).in_bounds(x as int, last as int),
            forall|i: int, j: int| 
                map.in_bounds(i, j) ==> #[trigger] map.at(i, j) == (if on_v_tunnel(
                    y1 as int,
                    y2 as int,
                    x as int,
                    i,
                    j,
                ) && j < y {
                    Tile::spec_empty()
                } else {
                    old(map).at(i, j)
                }),
        decreases last + 1 - y,
    {
        map.set_tile(x, y, Tile::empty());
        y = y + 1;
    }
}

/// A corridor covers the same tiles whichever end it is carved from.
pub proof fn lemma_tunnel_ends_commute(a: int, b: int, fixed: int, x: int, y: int)
    ensures
        on_h_tunnel(a, b, fixed, x, y) == on_h_tunnel(b, a, fixed, x, y),
        on_v_tunnel(a, b, fixed, x, y) == on_v_tunnel(b, a, fixed, x, y),
{
}

/// Carving a horizontal corridor from either end gives the same grid, tile
/// by tile.
pub proof fn lemma_h_tunnel_order_independent(
    before: Grid,
    forth: Grid,
    back: Grid,
    x1: int,
    x2: int,
    row: int,
)
    requires
        h_tunnel_carved(before, forth, x1, x2, row),
        h_tunnel_carved(before, back, x2, x1, row),
    ensures
        forth.same_size(&back),
        forall|x: int, y: int| forth.in_bounds(x, y) ==> #[trigger] forth.at(x, y) == back.at(x, y),
{
    assert forall|x: int, y: int| forth.in_bounds(x, y) implies #[trigger] forth.at(x, y)
        == back.at(x, y) by {
        lemma_tunnel_ends_commute(x1, x2, row, x, y);
        assert(back.in_bounds(x, y));
    }
}

/// Carving a vertical corridor from either end gives the same grid, tile by
/// tile.
pub proof fn lemma_v_tunnel_order_independent(
    before: Grid,
    forth: Grid,
    back: Grid,
    y1: int,
    y2: int,
    column: int,
)
    requires
        v_tunnel_carved(before, forth, y1, y2, column),
        v_tunnel_carved(before, back, y2, y1, column),
    ensures
        forth.same_size(&back),
        forall|x: int, y: int| forth.in_bounds(x, y) ==> #[trigger] forth.at(x, y) == back.at(x, y),
{
    assert forall|x: int, y: int| forth.in_bounds(x, y) implies #[trigger] forth.at(x, y)
        == back.at(x, y) by {
        lemma_tunnel_ends_commute(y1, y2, column, x, y);
        assert(back.in_bounds(x, y));
    }
}

} // verus!
