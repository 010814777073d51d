//! The dungeon generator: rooms that do not overlap, joined by corridors.

use vstd::prelude::*;
use crate::carve::{
    create_h_tunnel, create_room, create_v_tunnel, on_h_tunnel, on_v_tunnel,
};
use crate::entity::{Object, PLAYER};
use crate::geometry::{Rect, Tile};
use crate::grid::Grid;
use crate::rng::{coin_flip, random_in_range};
use crate::spawn::{is_item, is_monster, place_objects, placed_well, room_populated};

verus! {

/// The parameters of the generator.
#[derive(Clone, Copy, Debug, PartialEq, Eq, Structural)]
pub struct MapConfig {
    /// Width of the grid in tiles.
    pub width: i32,
    /// Height of the grid in tiles.
    pub height: i32,
    /// How many rooms are tried; those that overlap an earlier one are dropped.
    pub max_rooms: i32,
    /// Smallest width or height of a room.
    pub room_min_size: i32,
    /// Largest width or height of a room.
    pub room_max_size: i32,
    /// Most monsters tried per room.
    pub max_room_monsters: i32,
    /// Most items tried per room.
    pub max_room_items: i32,
}

impl MapConfig {
    /// The parameters make sense: rooms have an interior and fit on the grid
    /// with room to spare, and no count is negative.
    pub open spec fn valid(&self) -> bool {
        &&& 2 <= self.room_min_size <= self.room_max_size
        &&& self.room_max_size < self.width
        &&& self.room_max_size < self.height
        &&& 0 <= self.max_rooms
        &&& 0 <= self.max_room_monsters < i32::MAX
        &&& 0 <= self.max_room_items < i32::MAX
    }

    /// Whether the parameters make sense.
    pub fn is_valid(&self) -> (b: bool)
        ensures
            b == self.valid(),
    {
        2 <= self.room_min_size && self.room_min_size <= self.room_max_size && self.room_max_size
            < self.width && self.room_max_size < self.height && 0 <= self.max_rooms && 0
            <= self.max_room_monsters && self.max_room_monsters < i32::MAX && 0
            <= self.max_room_items && self.max_room_items < i32::MAX
    }

    /// The usual dungeon: 80 by 43 tiles, 30 tries at rooms of 6 to 10 tiles,
    /// up to 3 monsters and 2 items in each.
    pub fn standard() -> (c: MapConfig)
        ensures
            c.valid(),
            c == (MapConfig {
                width: 80,
                height: 43,
                max_rooms: 30,
                room_min_size: 6,
                room_max_size: 10,
                max_room_monsters: 3,
                max_room_items: 2,
            }),
    {
        MapConfig {
            width: 80,
            height: 43,
            max_rooms: 30,
            room_min_size: 6,
            room_max_size: 10,
            max_room_monsters: 3,
            max_room_items: 2,
        }
    }
}

/// An L-shaped corridor between two points.
#[derive(Clone, Copy, Debug, PartialEq, Eq, Structural)]
pub struct Corridor {
    pub from_x: i32,
    pub from_y: i32,
    pub to_x: i32,
    pub to_y: i32,
    /// Whether the corridor leaves its start along the row and turns into the
    /// column of its end, or the other way round.
    pub horizontal_first: bool,
}

impl Corridor {
    /// `(x, y)` lies on the corridor.
    pub open spec fn covers(self, x: int, y: int) -> bool {
        if self.horizontal_first {
            on_h_tunnel(self.from_x as int, self.to_x as int, self.from_y as int, x, y)
                || on_v_tunnel(self.from_y as int, self.to_y as int, self.to_x as int, x, y)
        } else {
            on_v_tunnel(self.from_y as int, self.to_y as int, self.from_x as int, x, y)
                || on_h_tunnel(self.from_x as int, self.to_x as int, self.to_y as int, x, y)
        }
    }

    /// The corridor runs from the centre of `from` to the centre of `to`.
    pub open spec fn joins(self, from: Rect, to: Rect) -> bool {
        &&& self.from_x == from.center_x()
        &&& self.from_y == from.center_y()
        &&& self.to_x == to.center_x()
        &&& self.to_y == to.center_y()
    }
}

/// `(x, y)` lies strictly inside one of the rooms.
pub open spec fn in_rooms(rooms: Seq<Rect>, x: int, y: int) -> bool {
    exists|i: int| 0 <= i < rooms.len() && (#[trigger] rooms[i]).interior(x, y)
}

/// `(x, y)` lies on one of the corridors.
pub open spec fn on_corridors(corridors: Seq<Corridor>, x: int, y: int) -> bool {
    exists|i: int| 0 <= i < corridors.len() && (#[trigger] corridors[i]).covers(x, y)
}

/// No two of the rooms overlap.
pub open spec fn rooms_disjoint(rooms: Seq<Rect>) -> bool {
    forall|i: int, j: int|
        0 <= i < j < rooms.len() ==> !(#[trigger] rooms[i]).overlaps(#[trigger] rooms[j])
}

/// `room` overlaps one of `rooms`.
pub open spec fn overlaps_some(room: Rect, rooms: Seq<Rect>) -> bool {
    exists|i: int| 0 <= i < rooms.len() && room.overlaps(#[trigger] rooms[i])
}

/// The room has a size that the parameters allow and lies on the grid, off
/// its last column and row.
pub open spec fn room_fits(config: MapConfig, room: Rect) -> bool {
    &&& 0 <= room.x1
    &&& 0 <= room.y1
    &&& config.room_min_size <= room.x2 - room.x1 <= config.room_max_size
    &&& config.room_min_size <= room.y2 - room.y1 <= config.room_max_size
    &&& room.x2 < config.width
    &&& room.y2 < config.height
}

/// Each room but the first is joined to the one before it.
pub open spec fn rooms_linked(rooms: Seq<Rect>, corridors: Seq<Corridor>) -> bool {
    &&& rooms.len() == 0 ==> corridors.len() == 0
    &&& rooms.len() > 0 ==> corridors.len() == rooms.len() - 1
    &&& forall|i: int|
        0 <= i < corridors.len() ==> (#[trigger] corridors[i]).joins(rooms[i], rooms[i + 1])
}

/// The open floor of the grid is exactly what the rooms and corridors cover;
/// every other tile is a wall.
pub open spec fn carved_out(map: Grid, rooms: Seq<Rect>, corridors: Seq<Corridor>) -> bool {
    forall|x: int, y: int|
        map.in_bounds(x, y) ==> #[trigger] map.at(x, y) == (if in_rooms(rooms, x, y) || on_corridors(
            corridors,
            x,
            y,
        ) {
            Tile::spec_empty()
        } else {
            Tile::spec_wall()
        })
}

/// A generated level: the grid and the rooms and corridors it was carved
/// from, in the order in which they were made.
pub struct Dungeon {
    pub map: Grid,
    pub rooms: Vec<Rect>,
    pub corridors: Vec<Corridor>,
}

impl Dungeon {
    /// The level is what the generator promises: a grid of the configured
    /// size; rooms that fit it, do not overlap and are joined in a chain; and
    /// walls everywhere else.
    pub open spec fn sound(&self, config: MapConfig) -> bool {
        &&& self.map.wf()
        &&& self.map.spec_width() == config.width
        &&& self.map.spec_height() == config.height
        &&& forall|i: int| 0 <= i < self.rooms@.len() ==> room_fits(config, #[trigger] self.rooms@[i])
        &&& rooms_disjoint(self.rooms@)
        &&& rooms_linked(self.rooms@, self.corridors@)
        &&& carved_out(self.map, self.rooms@, self.corridors@)
    }
}

/// Entity `k` is a fresh monster or item inside one of the rooms, on a tile
/// that no earlier entity other than the player blocks.
pub open spec fn newcomer_ok(rooms: Seq<Rect>, objects: Seq<Object>, k: int) -> bool {
    &&& is_monster(objects[k]) || is_item(objects[k])
    &&& in_rooms(rooms, objects[k].x as int, objects[k].y as int)
    &&& forall|j: int|
        1 <= j < k ==> !((#[trigger] objects[j]).blocks && objects[j].is_at(
            objects[k].x as int,
            objects[k].y as int,
        ))
}

/// What the generator does to the entity list: the player is put at the
/// centre of the first room, if there is a room; the other entities that were
/// there are untouched; and after them come at most `most` newcomers for each
/// room, all in good standing.
pub open spec fn populated(rooms: Seq<Rect>, before: Seq<Object>, after: Seq<Object>, most: int) -> bool {
    &&& before.len() <= after.len() <= before.len() + rooms.len() * most
    &&& after[0] == (if rooms.len() > 0 {
        Object { x: rooms[0].center_x() as i32, y: rooms[0].center_y() as i32, ..before[0] }
    } else {
        before[0]
    })
    &&& forall|j: int| 1 <= j < before.len() ==> #[trigger] after[j] == before[j]
    &&& forall|k: int| before.len() <= k < after.len() ==> #[trigger] newcomer_ok(rooms, after, k)
}

/// Whether `room` overlaps one of `rooms`.
pub fn overlaps_any(room: &Rect, rooms: &Vec<Rect>) -> (b: bool)
    ensures
        b == overlaps_some(*room, rooms@),
{
    let mut i: usize = 0;
    while i < rooms.len()
        invariant
            i <= rooms@.len(),
            forall|j: int| 0 <= j < i ==> !room.overlaps(#[trigger] rooms@[j]),
        decreases rooms@.len() - i,
    {
        if room.intersects_with(&rooms[i]) {
            return true;
        }
        i = i + 1;
    }
    false
}

/// Carves `corridor` into the grid.
pub fn dig_corridor(corridor: Corridor, map: &mut Grid)
    requires
        old(map).wf(),
        old(map).in_bounds(corridor.from_x as int, corridor.from_y as int),
        old(map).in_bounds(corridor.to_x as int, corridor.to_y as int),
    ensures
        final(map).wf(),
        final(map).same_size(old(map)),
        forall|x: int, y: int|
            final(map).in_bounds(x, y) ==> #[trigger] final(map).at(x, y) == (if corridor.covers(x, y) {
                Tile::spec_empty()
            } else {
                old(map).at(x, y)
            }),
{
    if corridor.horizontal_first {
        create_h_tunnel(corridor.from_x, corridor.to_x, corridor.from_y, map);
        create_v_tunnel(corridor.from_y, corridor.to_y, corridor.to_x, map);
    } else {
        create_v_tunnel(corridor.from_y, corridor.to_y, corridor.from_x, map);
        create_h_tunnel(corridor.from_x, corridor.to_x, corridor.to_y, map);
    }
}

/// Adding a room adds its interior to what the rooms cover.
pub proof fn lemma_in_rooms_push(rooms: Seq<Rect>, room: Rect, x: int, y: int)
    ensures
        in_rooms(rooms.push(room), x, y) == (in_rooms(rooms, x, y) || room.interior(x, y)),
{
    let more = rooms.push(room);
    if in_rooms(rooms, x, y) {
        let i = choose|i: int| 0 <= i < rooms.len() && (#[trigger] rooms[i]).interior(x, y);
        assert(more[i].interior(x, y));
    }
    if room.interior(x, y) {
        assert(more[rooms.len() as int].interior(x, y));
    }
    if in_rooms(more, x, y) {
        let i = choose|i: int| 0 <= i < more.len() && (#[trigger] more[i]).interior(x, y);
        if i < rooms.len() {
            assert(rooms[i].interior(x, y));
        }
    }
}

/// Adding a corridor adds its tiles to what the corridors cover.
pub proof fn lemma_on_corridors_push(corridors: Seq<Corridor>, corridor: Corridor, x: int, y: int)
    ensures
        on_corridors(corridors.push(corridor), x, y) == (on_corridors(corridors, x, y)
            || corridor.covers(x, y)),
{
    let more = corridors.push(corridor);
    if on_corridors(corridors, x, y) {
        let i = choose|i: int| 0 <= i < corridors.len() && (#[trigger] corridors[i]).covers(x, y);
        assert(more[i].covers(x, y));
    }
    if corridor.covers(x, y) {
        assert(more[corridors.len() as int].covers(x, y));
    }
    if on_corridors(more, x, y) {
        let i = choose|i: int| 0 <= i < more.len() && (#[trigger] more[i]).covers(x, y);
        if i < corridors.len() {
            assert(corridors[i].covers(x, y));
        }
    }
}

/// What accepting `room` does to the entity list: the player moves to the
/// centre of a first room and stays put otherwise; the other entities that
/// were there are untouched; and after them come at most `most` fresh
/// monsters and items, each inside the room on a tile that no earlier entity
/// other than the player blocks.
pub open spec fn room_settled(
    first: bool,
    room: Rect,
    before: Seq<Object>,
    after: Seq<Object>,
    most: int,
) -> bool {
    &&& before.len() <= after.len() <= before.len() + most
    &&& after[0] == (if first {
        Object { x: room.center_x() as i32, y: room.center_y() as i32, ..before[0] }
    } else {
        before[0]
    })
    &&& forall|j: int| 1 <= j < before.len() ==> #[trigger] after[j] == before[j]
    &&& forall|k: int| before.len() <= k < after.len() ==> #[trigger] newcomer_ok(seq![room], after, k)
}

/// Tries to add `room` to the level. A room that overlaps an earlier one is
/// dropped and nothing changes. Any other is carved, populated, and joined to
/// the room before it by a corridor that bends as `horizontal_first` says; the
/// first room gets the player instead.
pub fn add_room(
    dungeon: &mut Dungeon,
    room: Rect,
    horizontal_first: bool,
    objects: &mut Vec<Object>,
    config: &MapConfig,
) -> (accepted: bool)
    requires
        config.valid(),
        old(dungeon).sound(*config),
        room_fits(*config, room),
        old(objects)@.len() > 0,
    ensures
        final(dungeon).sound(*config),
        accepted == !overlaps_some(room, old(dungeon).rooms@),
        !accepted ==> {
            &&& final(dungeon).rooms@ == old(dungeon).rooms@
            &&& final(dungeon).corridors@ == old(dungeon).corridors@
            &&& final(dungeon).map == old(dungeon).map
            &&& final(objects)@ == old(objects)@
        },
        accepted ==> {
            &&& final(dungeon).rooms@ == old(dungeon).rooms@.push(room)
            &&& final(dungeon).corridors@ == (if old(dungeon).rooms@.len() == 0 {
                old(dungeon).corridors@
            } else {
                old(dungeon).corridors@.push(
                    Corridor {
                        from_x: old(dungeon).rooms@.last().center_x() as i32,
                        from_y: old(dungeon).rooms@.last().center_y() as i32,
                        to_x: room.center_x() as i32,
                        to_y: room.center_y() as i32,
                        horizontal_first,
                    },
                )
            })
            &&& room_settled(
                old(dungeon).rooms@.len() == 0,
                room,
                old(objects)@,
                final(objects)@,
                config.max_room_monsters + config.max_room_items,
            )
        },
{
    if overlaps_any(&room, &dungeon.rooms) {
        return false;
    }
    create_room(room, &mut dungeon.map);
    let ghost carved = dungeon.map;
    place_objects(room, &dungeon.map, objects, config.max_room_monsters, config.max_room_items);
    let ghost crowd = objects@;
    let (new_x, new_y) = room.center();
    let ghost link = Corridor {
        from_x: old(dungeon).rooms@.last().center_x() as i32,
        from_y: old(dungeon).rooms@.last().center_y() as i32,
        to_x: new_x,
        to_y: new_y,
        horizontal_first,
    };
    if dungeon.rooms.len() == 0 {
        objects[PLAYER].set_pos(new_x, new_y);
    } else {
        let (prev_x, prev_y) = dungeon.rooms[dungeon.rooms.len() - 1].center();
        let corridor = Corridor {
            from_x: prev_x,
            from_y: prev_y,
            to_x: new_x,
            to_y: new_y,
            horizontal_first,
        };
        assert(room_fits(*config, old(dungeon).rooms@[old(dungeon).rooms@.len() - 1]));
        dig_corridor(corridor, &mut dungeon.map);
        dungeon.corridors.push(corridor);
    }
    dungeon.rooms.push(room);
    proof {
        let rooms0 = old(dungeon).rooms@;
        let rooms = dungeon.rooms@;
        let corridors0 = old(dungeon).corridors@;
        let corridors = dungeon.corridors@;
        assert forall|i: int| 0 <= i < rooms.len() implies room_fits(*config, #[trigger] rooms[i]) by {
            if i < rooms0.len() {
                assert(rooms[i] == rooms0[i]);
            }
        }
        assert forall|i: int, j: int| 0 <= i < j < rooms.len() implies !(#[trigger] rooms[i]).overlaps(
            #[trigger] rooms[j],
        ) by {
            if j < rooms0.len() {
                assert(rooms[i] == rooms0[i] && rooms[j] == rooms0[j]);
            } else {
                assert(rooms[i] == rooms0[i]);
                assert(!room.overlaps(rooms0[i]));
            }
        }
        assert forall|i: int| 0 <= i < corridors.len() implies (#[trigger] corridors[i]).joins(
            rooms[i],
            rooms[i + 1],
        ) by {
            if i < corridors0.len() {
                assert(corridors0[i].joins(rooms0[i], rooms0[i + 1]));
            }
        }
        assert forall|x: int, y: int| dungeon.map.in_bounds(x, y) implies #[trigger] dungeon.map.at(
            x,
            y,
        ) == (if in_rooms(rooms, x, y) || on_corridors(corridors, x, y) {
            Tile::spec_empty()
        } else {
            Tile::spec_wall()
        }) by {
            lemma_in_rooms_push(rooms0, room, x, y);
            assert(old(dungeon).map.in_bounds(x, y));
            assert(carved.in_bounds(x, y));
            if rooms0.len() > 0 {
                lemma_on_corridors_push(corridors0, link, x, y);
            }
        }
        let monsters_end = choose|monsters_end: int| #[trigger]
            room_populated(
                carved,
                room,
                old(objects)@,
                crowd,
                config.max_room_monsters as int,
                config.max_room_items as int,
                monsters_end,
            );
        let after = objects@;
        assert forall|j: int| 1 <= j < old(objects)@.len() implies #[trigger] after[j] == old(
            objects,
        )@[j] by {
            assert(crowd.take(old(objects)@.len() as int)[j] == crowd[j]);
        }
        assert(crowd.take(old(objects)@.len() as int)[0] == crowd[0]);
        assert forall|k: int| old(objects)@.len() <= k < after.len() implies #[trigger] newcomer_ok(
            seq![room],
            after,
            k,
        ) by {
            assert(placed_well(carved, room, crowd, k));
            assert(after[k] == crowd[k]);
            assert(seq![room][0].interior(after[k].x as int, after[k].y as int));
            assert forall|j: int| 1 <= j < k implies !((#[trigger] after[j]).blocks && after[j].is_at(
                after[k].x as int,
                after[k].y as int,
            )) by {
                assert(after[j] == crowd[j]);
                assert(crowd.take(k)[j] == crowd[j]);
            }
        }
    }
    true
}

/// Settling one more room keeps the entity list as the generator promises
/// it.
proof fn lemma_settled_keeps_populated(
    rooms: Seq<Rect>,
    room: Rect,
    start: Seq<Object>,
    before: Seq<Object>,
    after: Seq<Object>,
    most: int,
)
    requires
        start.len() > 0,
        populated(rooms, start, before, most),
        room_settled(rooms.len() == 0, room, before, after, most),
    ensures
        populated(rooms.push(room), start, after, most),
{
    let more = rooms.push(room);
    assert((rooms.len() + 1) * most == rooms.len() * most + most) by (nonlinear_arith);
    assert(more[0] == if rooms.len() == 0 {
        room
    } else {
        rooms[0]
    });
    assert forall|j: int| 1 <= j < start.len() implies #[trigger] after[j] == start[j] by {
        assert(after[j] == before[j]);
    }
    assert forall|k: int| start.len() <= k < after.len() implies #[trigger] newcomer_ok(
        more,
        after,
        k,
    ) by {
        let x = after[k].x as int;
        let y = after[k].y as int;
        lemma_in_rooms_push(rooms, room, x, y);
        if k < before.len() {
            assert(newcomer_ok(rooms, before, k));
            assert(after[k] == before[k]);
            assert forall|j: int| 1 <= j < k implies !((#[trigger] after[j]).blocks && after[j].is_at(
                x,
                y,
            )) by {
                assert(after[j] == before[j]);
            }
        } else {
            assert(newcomer_ok(seq![room], after, k));
            let i = choose|i: int| 0 <= i < seq![room].len() && (#[trigger] seq![room][i]).interior(x, y);
            assert(seq![room][i] == room);
        }
    }
}

/// Generates a level. Up to `max_rooms` times a room of random size is put
/// at a random place on a grid of walls; one that overlaps an earlier room is
/// dropped. Each room that stays is carved, populated, and joined to the room
/// before it by a corridor with a random bend. The player, first in the
/// entity list, is put at the centre of the first room.
///
/// Whatever the dice say, the level is sound, it has a room if any was
/// tried, since the first room tried overlaps nothing, and the entity list is
/// the old one with the player moved and the newcomers added.
pub fn make_map(objects: &mut Vec<Object>, config: &MapConfig) -> (dungeon: Dungeon)
    requires
        config.valid(),
        old(objects)@.len() > 0,
    ensures
        dungeon.sound(*config),
        dungeon.rooms@.len() <= config.max_rooms,
        config.max_rooms >= 1 ==> dungeon.rooms@.len() >= 1,
        populated(
            dungeon.rooms@,
            old(objects)@,
            final(objects)@,
            config.max_room_monsters + config.max_room_items,
        ),
{
    let mut dungeon = Dungeon {
        map: Grid::walls(config.width, config.height),
        rooms: Vec::new(),
        corridors: Vec::new(),
    };
    assert(!in_rooms(dungeon.rooms@, 0, 0));
    assert forall|x: int, y: int| !in_rooms(dungeon.rooms@, x, y) && !on_corridors(
        dungeon.corridors@,
        x,
        y,
    ) by {}
    let mut n: i32 = 0;
    while n < config.max_rooms
        invariant
            config.valid(),
            0 <= n <= config.max_rooms,
            old(objects)@.len() > 0,
            dungeon.sound(*config),
            dungeon.rooms@.len() <= n,
            n >= 1 ==> dungeon.rooms@.len() >= 1,
            populated(
                dungeon.rooms@,
                old(objects)@,
                objects@,
                config.max_room_monsters + config.max_room_items,
            ),
        decreases config.max_rooms - n,
    {
        let w = random_in_range(config.room_min_size, config.room_max_size + 1);
        let h = random_in_range(config.room_min_size, config.room_max_size + 1);
        let x = random_in_range(0, config.width - w);
        let y = random_in_range(0, config.height - h);
        let new_room = Rect::new(x, y, w, h);
        let horizontal_first = coin_flip();
        let ghost rooms = dungeon.rooms@;
        let ghost before = objects@;
        let accepted = add_room(&mut dungeon, new_room, horizontal_first, objects, config);
        proof {
            if accepted {
                lemma_settled_keeps_populated(
                    rooms,
                    new_room,
                    old(objects)@,
                    before,
                    objects@,
                    config.max_room_monsters + config.max_room_items,
                );
            }
        }
        n = n + 1;
    }
    dungeon
}

/// In a sound level no two rooms overlap, every tile inside a room is open
/// floor, and every tile that neither a room nor a corridor covers is a
/// wall.
pub proof fn lemma_sound_level(dungeon: Dungeon, config: MapConfig)
    requires
        config.valid(),
        dungeon.sound(config),
    ensures
        forall|i: int, j: int|
            0 <= i < dungeon.rooms@.len() && 0 <= j < dungeon.rooms@.len() && i != j ==> !(
            #[trigger] dungeon.rooms@[i]).overlaps(#[trigger] dungeon.rooms@[j]),
        forall|i: int, x: int, y: int|
            0 <= i < dungeon.rooms@.len() && (#[trigger] dungeon.rooms@[i]).interior(x, y) ==> {
                &&& dungeon.map.in_bounds(x, y)
                &&& !(#[trigger] dungeon.map.at(x, y)).blocked
            },
        forall|x: int, y: int|
            dungeon.map.in_bounds(x, y) && !in_rooms(dungeon.rooms@, x, y) && !on_corridors(
                dungeon.corridors@,
                x,
                y,
            ) ==> #[trigger] dungeon.map.at(x, y) == Tile::spec_wall(),
{
    let rooms = dungeon.rooms@;
    assert forall|i: int, j: int| 0 <= i < rooms.len() && 0 <= j < rooms.len() && i != j implies !(
    #[trigger] rooms[i]).overlaps(#[trigger] rooms[j]) by {
        if j < i {
            assert(!rooms[j].overlaps(rooms[i]));
        }
    }
    assert forall|i: int, x: int, y: int|
        0 <= i < rooms.len() && (#[trigger] rooms[i]).interior(x, y) implies dungeon.map.in_bounds(
        x,
        y,
    ) && !(#[trigger] dungeon.map.at(x, y)).blocked by {
        assert(room_fits(config, rooms[i]));
        assert(in_rooms(rooms, x, y));
    }
}

/// In a level with a room the player stands on open floor, at the centre of
/// the first room.
pub proof fn lemma_player_on_open_floor(
    dungeon: Dungeon,
    config: MapConfig,
    before: Seq<Object>,
    after: Seq<Object>,
    most: int,
)
    requires
        config.valid(),
        dungeon.sound(config),
        dungeon.rooms@.len() >= 1,
        populated(dungeon.rooms@, before, after, most),
    ensures
        after[0].is_at(dungeon.rooms@[0].center_x(), dungeon.rooms@[0].center_y()),
        dungeon.rooms@[0].interior(after[0].x as int, after[0].y as int),
        dungeon.map.in_bounds(after[0].x as int, after[0].y as int),
        dungeon.map.at(after[0].x as int, after[0].y as int) == Tile::spec_empty(),
{
    let room = dungeon.rooms@[0];
    assert(room_fits(config, room));
    assert(in_rooms(dungeon.rooms@, room.center_x(), room.center_y()));
}

} // verus!
