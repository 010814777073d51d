//! Walking the open floor: every open tile of a generated level can be
//! reached from the first room.

use vstd::prelude::*;
use crate::carve::{high, low, on_h_tunnel, on_v_tunnel};
use crate::geometry::Rect;
use crate::grid::Grid;
use crate::mapgen::{in_rooms, on_corridors, room_fits, Dungeon, MapConfig};

verus! {

/// The tile at `p` is on the grid and can be walked on.
pub open spec fn is_floor(map: Grid, p: (int, int)) -> bool {
    map.in_bounds(p.0, p.1) && !map.at(p.0, p.1).blocked
}

/// The two tiles share an edge.
pub open spec fn beside(a: (int, int), b: (int, int)) -> bool {
    ||| a.0 == b.0 && (a.1 == b.1 + 1 || a.1 + 1 == b.1)
    ||| a.1 == b.1 && (a.0 == b.0 + 1 || a.0 + 1 == b.0)
}

/// `path` is a walk over open floor, each tile sharing an edge with the
/// next.
pub open spec fn is_walk(map: Grid, path: Seq<(int, int)>) -> bool {
    &&& path.len() > 0
    &&& forall|i: int| 0 <= i < path.len() ==> is_floor(map, #[trigger] path[i])
    &&& forall|i: int| 0 <= i < path.len() - 1 ==> beside(#[trigger] path[i], path[i + 1])
}

/// There is a walk over open floor from `a` to `b`.
pub open spec fn reachable(map: Grid, a: (int, int), b: (int, int)) -> bool {
    exists|path: Seq<(int, int)>| #[trigger]
        is_walk(map, path) && path.first() == a && path.last() == b
}

/// An open tile is reached from itself.
pub proof fn lemma_reach_self(map: Grid, a: (int, int))
    requires
        is_floor(map, a),
    ensures
        reachable(map, a, a),
{
    let path = seq![a];
    assert(is_walk(map, path));
    assert(path.first() == a && path.last() == a);
}

/// One step between open tiles that share an edge is a walk.
pub proof fn lemma_reach_step(map: Grid, a: (int, int), b: (int, int))
    requires
        is_floor(map, a),
        is_floor(map, b),
        beside(a, b),
    ensures
        reachable(map, a, b),
{
    let path = seq![a, b];
    assert(is_walk(map, path));
    assert(path.first() == a && path.last() == b);
}

/// Two walks that meet make one walk.
pub proof fn lemma_reach_trans(map: Grid, a: (int, int), b: (int, int), c: (int, int))
    requires
        reachable(map, a, b),
        reachable(map, b, c),
    ensures
        reachable(map, a, c),
{
    let p = choose|path: Seq<(int, int)>| #[trigger]
        is_walk(map, path) && path.first() == a && path.last() == b;
    let q = choose|path: Seq<(int, int)>| #[trigger]
        is_walk(map, path) && path.first() == b && path.last() == c;
    let rest = q.subrange(1, q.len() as int);
    let path = p + rest;
    assert forall|i: int| 0 <= i < path.len() implies is_floor(map, #[trigger] path[i]) by {
        if i < p.len() {
            assert(path[i] == p[i]);
        } else {
            assert(path[i] == q[i - p.len() + 1]);
        }
    }
    assert forall|i: int| 0 <= i < path.len() - 1 implies
        beside(#[trigger] path[i], path[i + 1]) by {
        if i < p.len() - 1 {
            assert(path[i] == p[i] && path[i + 1] == p[i + 1]);
        } else if i == p.len() - 1 {
            assert(path[i] == p[i]);
            assert(p[i] == q[0]);
            assert(path[i + 1] == q[1]);
            assert(beside(q[0], q[1]));
        } else {
            let k = i - p.len() + 1;
            assert(path[i] == q[k] && path[i + 1] == q[k + 1]);
            assert(beside(q[k], q[k + 1]));
        }
    }
    assert(is_walk(map, path));
    assert(path.first() == p[0]);
    if q.len() == 1 {
        assert(path =~= p);
    } else {
        assert(path.last() == q[q.len() - 1]);
    }
}

/// A row of open tiles can be walked from end to end.
pub proof fn lemma_reach_along_row(map: Grid, x1: int, x2: int, y: int)
    requires
        forall|x: int| low(x1, x2) <= x <= high(x1, x2) ==> #[trigger] is_floor(map, (x, y)),
    ensures
        reachable(map, (x1, y), (x2, y)),
    decreases high(x1, x2) - low(x1, x2),
{
    if x1 == x2 {
        lemma_reach_self(map, (x1, y));
    } else {
        let next = if x1 < x2 {
            x1 + 1
        } else {
            x1 - 1
        };
        assert forall|x: int| low(next, x2) <= x <= high(next, x2) implies
            #[trigger] is_floor(map, (x, y)) by {}
        lemma_reach_along_row(map, next, x2, y);
        assert(is_floor(map, (x1, y)));
        assert(is_floor(map, (next, y)));
        lemma_reach_step(map, (x1, y), (next, y));
        lemma_reach_trans(map, (x1, y), (next, y), (x2, y));
    }
}

/// A column of open tiles can be walked from end to end.
pub proof fn lemma_reach_along_column(map: Grid, y1: int, y2: int, x: int)
    requires
        forall|y: int| low(y1, y2) <= y <= high(y1, y2) ==> #[trigger] is_floor(map, (x, y)),
    ensures
        reachable(map, (x, y1), (x, y2)),
    decreases high(y1, y2) - low(y1, y2),
{
    if y1 == y2 {
        lemma_reach_self(map, (x, y1));
    } else {
        let next = if y1 < y2 {
            y1 + 1
        } else {
            y1 - 1
        };
        assert forall|y: int| low(next, y2) <= y <= high(next, y2) implies
            #[trigger] is_floor(map, (x, y)) by {}
        lemma_reach_along_column(map, next, y2, x);
        assert(is_floor(map, (x, y1)));
        assert(is_floor(map, (x, next)));
        lemma_reach_step(map, (x, y1), (x, next));
        lemma_reach_trans(map, (x, y1), (x, next), (x, y2));
    }
}

/// The centre of room `i`.
pub open spec fn room_center(rooms: Seq<Rect>, i: int) -> (int, int) {
    (rooms[i].center_x(), rooms[i].center_y())
}

/// Every tile inside a room of a sound level is open floor.
proof fn lemma_room_is_floor(dungeon: Dungeon, config: MapConfig, i: int, x: int, y: int)
    requires
        config.valid(),
        dungeon.sound(config),
        0 <= i < dungeon.rooms@.len(),
        dungeon.rooms@[i].interior(x, y),
    ensures
        is_floor(dungeon.map, (x, y)),
{
    assert(room_fits(config, dungeon.rooms@[i]));
    assert(in_rooms(dungeon.rooms@, x, y));
}

/// Every tile on a corridor of a sound level is open floor.
proof fn lemma_corridor_is_floor(dungeon: Dungeon, config: MapConfig, i: int, x: int, y: int)
    requires
        config.valid(),
        dungeon.sound(config),
        0 <= i < dungeon.corridors@.len(),
        dungeon.corridors@[i].covers(x, y),
    ensures
        is_floor(dungeon.map, (x, y)),
{
    assert(dungeon.corridors@[i].joins(dungeon.rooms@[i], dungeon.rooms@[i + 1]));
    assert(room_fits(config, dungeon.rooms@[i]));
    assert(room_fits(config, dungeon.rooms@[i + 1]));
    assert(on_corridors(dungeon.corridors@, x, y));
}

/// From any tile inside a room its centre can be reached.
pub proof fn lemma_reach_room_center(dungeon: Dungeon, config: MapConfig, i: int, x: int, y: int)
    requires
        config.valid(),
        dungeon.sound(config),
        0 <= i < dungeon.rooms@.len(),
        dungeon.rooms@[i].interior(x, y),
    ensures
        reachable(dungeon.map, (x, y), room_center(dungeon.rooms@, i)),
{
    let room = dungeon.rooms@[i];
    let (cx, cy) = room_center(dungeon.rooms@, i);
    assert(room_fits(config, room));
    assert(room.interior(cx, cy));
    assert forall|t: int| low(x, cx) <= t <= high(x, cx) implies
        #[trigger] is_floor(dungeon.map, (t, y)) by {
        lemma_room_is_floor(dungeon, config, i, t, y);
    }
    lemma_reach_along_row(dungeon.map, x, cx, y);
    assert forall|t: int| low(y, cy) <= t <= high(y, cy) implies
        #[trigger] is_floor(dungeon.map, (cx, t)) by {
        lemma_room_is_floor(dungeon, config, i, cx, t);
    }
    lemma_reach_along_column(dungeon.map, y, cy, cx);
    lemma_reach_trans(dungeon.map, (x, y), (cx, y), (cx, cy));
}

/// From any tile on a corridor its start can be reached.
pub proof fn lemma_reach_corridor_start(dungeon: Dungeon, config: MapConfig, i: int, x: int, y: int)
    requires
        config.valid(),
        dungeon.sound(config),
        0 <= i < dungeon.corridors@.len(),
        dungeon.corridors@[i].covers(x, y),
    ensures
        reachable(
            dungeon.map,
            (x, y),
            (dungeon.corridors@[i].from_x as int, dungeon.corridors@[i].from_y as int),
        ),
{
    let c = dungeon.corridors@[i];
    let map = dungeon.map;
    let (fx, fy) = (c.from_x as int, c.from_y as int);
    let (tx, ty) = (c.to_x as int, c.to_y as int);
    if c.horizontal_first {
        assert forall|t: int| low(tx, fx) <= t <= high(tx, fx) implies
            #[trigger] is_floor(map, (t, fy)) by {
            assert(on_h_tunnel(fx, tx, fy, t, fy));
            lemma_corridor_is_floor(dungeon, config, i, t, fy);
        }
        if on_h_tunnel(fx, tx, fy, x, y) {
            assert forall|t: int| low(x, fx) <= t <= high(x, fx) implies
                #[trigger] is_floor(map, (t, y)) by {}
            lemma_reach_along_row(map, x, fx, y);
        } else {
            assert(on_v_tunnel(fy, ty, tx, x, y));
            assert forall|t: int| low(y, fy) <= t <= high(y, fy) implies
                #[trigger] is_floor(map, (x, t)) by {
                assert(on_v_tunnel(fy, ty, tx, x, t));
                lemma_corridor_is_floor(dungeon, config, i, x, t);
            }
            lemma_reach_along_column(map, y, fy, x);
            lemma_reach_along_row(map, tx, fx, fy);
            lemma_reach_trans(map, (x, y), (tx, fy), (fx, fy));
        }
    } else {
        assert forall|t: int| low(ty, fy) <= t <= high(ty, fy) implies
            #[trigger] is_floor(map, (fx, t)) by {
            assert(on_v_tunnel(fy, ty, fx, fx, t));
            lemma_corridor_is_floor(dungeon, config, i, fx, t);
        }
        if on_v_tunnel(fy, ty, fx, x, y) {
            assert forall|t: int| low(y, fy) <= t <= high(y, fy) implies
                #[trigger] is_floor(map, (x, t)) by {}
            lemma_reach_along_column(map, y, fy, x);
        } else {
            assert(on_h_tunnel(fx, tx, ty, x, y));
            assert forall|t: int| low(x, fx) <= t <= high(x, fx) implies
                #[trigger] is_floor(map, (t, y)) by {
                assert(on_h_tunnel(fx, tx, ty, t, y));
                lemma_corridor_is_floor(dungeon, config, i, t, y);
            }
            lemma_reach_along_row(map, x, fx, y);
            lemma_reach_along_column(map, ty, fy, fx);
            lemma_reach_trans(map, (x, y), (fx, ty), (fx, fy));
        }
    }
}

/// From the centre of any room the centre of the first room can be reached,
/// along the corridors that join each room to the one before it.
pub proof fn lemma_reach_first_room(dungeon: Dungeon, config: MapConfig, i: int)
    requires
        config.valid(),
        dungeon.sound(config),
        0 <= i < dungeon.rooms@.len(),
    ensures
        reachable(dungeon.map, room_center(dungeon.rooms@, i), room_center(dungeon.rooms@, 0)),
    decreases i,
{
    let rooms = dungeon.rooms@;
    if i == 0 {
        assert(room_fits(config, rooms[0]));
        let (cx, cy) = room_center(rooms, 0);
        assert(rooms[0].interior(cx, cy));
        lemma_room_is_floor(dungeon, config, 0, cx, cy);
        lemma_reach_self(dungeon.map, room_center(rooms, 0));
    } else {
        let c = dungeon.corridors@[i - 1];
        assert(c.joins(rooms[i - 1], rooms[i]));
        assert(c.covers(c.to_x as int, c.to_y as int));
        lemma_reach_corridor_start(dungeon, config, i - 1, c.to_x as int, c.to_y as int);
        lemma_reach_first_room(dungeon, config, i - 1);
        lemma_reach_trans(
            dungeon.map,
            room_center(rooms, i),
            room_center(rooms, i - 1),
            room_center(rooms, 0),
        );
    }
}

/// All open floor of a sound level hangs together: from every open tile the
/// centre of the first room can be reached over open floor.
pub proof fn lemma_open_floor_connected(dungeon: Dungeon, config: MapConfig, x: int, y: int)
    requires
        config.valid(),
        dungeon.sound(config),
        is_floor(dungeon.map, (x, y)),
    ensures
        dungeon.rooms@.len() >= 1,
        reachable(dungeon.map, (x, y), room_center(dungeon.rooms@, 0)),
{
    let rooms = dungeon.rooms@;
    let corridors = dungeon.corridors@;
    assert(in_rooms(rooms, x, y) || on_corridors(corridors, x, y));
    if in_rooms(rooms, x, y) {
        let i = choose|i: int| 0 <= i < rooms.len() && (#[trigger] rooms[i]).interior(x, y);
        lemma_reach_room_center(dungeon, config, i, x, y);
        lemma_reach_first_room(dungeon, config, i);
        lemma_reach_trans(dungeon.map, (x, y), room_center(rooms, i), room_center(rooms, 0));
    } else {
        let i = choose|i: int| 0 <= i < corridors.len() && (#[trigger] corridors[i]).covers(x, y);
        let c = corridors[i];
        assert(c.joins(rooms[i], rooms[i + 1]));
        lemma_reach_corridor_start(dungeon, config, i, x, y);
        lemma_reach_first_room(dungeon, config, i);
        lemma_reach_trans(dungeon.map, (x, y), room_center(rooms, i), room_center(rooms, 0));
    }
}

} // verus!
