//! Populating a room with monsters and items.

use vstd::prelude::*;
use crate::color::Color;
use crate::entity::{Ai, DeathCallback, Fighter, Item, Object};
use crate::geometry::Rect;
use crate::grid::Grid;
use crate::movement::blocked;
use crate::rng::random_in_range;

verus! {

/// Out of a hundred monsters, this many are orcs; the rest are trolls.
pub const ORC_PERCENT: i32 = 80;

/// Out of a hundred items, this many are healing potions.
pub const HEAL_PERCENT: i32 = 70;

/// Out of a hundred items, this many are scrolls of lightning bolt; what is
/// left after potions and these are scrolls of confusion.
pub const LIGHTNING_PERCENT: i32 = 10;

/// `o` is a fresh orc.
pub open spec fn is_orc(o: Object) -> bool {
    &&& o.char == 'o'
    &&& o.name@ == "orc"@
    &&& o.color == Color::DesaturatedGreen
    &&& o.blocks
    &&& o.alive
    &&& o.fighter == Some(
        Fighter { max_hp: 10, hp: 10, defense: 0, power: 3, on_death: DeathCallback::Monster },
    )
    &&& o.ai == Some(Ai::Basic)
    &&& o.item is None
}

/// `o` is a fresh troll.
pub open spec fn is_troll(o: Object) -> bool {
    &&& o.char == 'T'
    &&& o.name@ == "troll"@
    &&& o.color == Color::DarkerGreen
    &&& o.blocks
    &&& o.alive
    &&& o.fighter == Some(
        Fighter { max_hp: 16, hp: 16, defense: 1, power: 4, on_death: DeathCallback::Monster },
    )
    &&& o.ai == Some(Ai::Basic)
    &&& o.item is None
}

/// `o` is an item of the given kind lying on the floor.
pub open spec fn is_item_of(o: Object, kind: Item) -> bool {
    &&& o.char == (if kind == Item::Heal {
        '!'
    } else {
        '#'
    })
    &&& o.name@ == (match kind {
        Item::Heal => "healing potion"@,
        Item::Lightning => "scroll of lightning bolt"@,
        Item::Confuse => "scroll of confusion"@,
    })
    &&& o.color == (if kind == Item::Heal {
        Color::Violet
    } else {
        Color::LightYellow
    })
    &&& !o.blocks
    &&& !o.alive
    &&& o.fighter is None
    &&& o.ai is None
    &&& o.item == Some(kind)
}

/// The kind of item that a roll out of a hundred selects.
pub open spec fn item_for_roll(roll: int) -> Item {
    if roll < HEAL_PERCENT {
        Item::Heal
    } else if roll < HEAL_PERCENT + LIGHTNING_PERCENT {
        Item::Lightning
    } else {
        Item::Confuse
    }
}

/// `o` is the monster that a roll out of a hundred selects.
pub open spec fn is_monster_for_roll(o: Object, roll: int) -> bool {
    if roll < ORC_PERCENT {
        is_orc(o)
    } else {
        is_troll(o)
    }
}

/// `o` is a fresh monster of either species.
pub open spec fn is_monster(o: Object) -> bool {
    is_orc(o) || is_troll(o)
}

/// `o` is a fresh item of any kind.
pub open spec fn is_item(o: Object) -> bool {
    is_item_of(o, Item::Heal) || is_item_of(o, Item::Lightning) || is_item_of(o, Item::Confuse)
}

/// Entity `k` stands inside `room` on a tile that was free when it arrived:
/// the tile is open floor and nothing before it in the list blocks it.
pub open spec fn placed_well(map: Grid, room: Rect, objects: Seq<Object>, k: int) -> bool {
    &&& room.interior(objects[k].x as int, objects[k].y as int)
    &&& !blocked(map, objects.take(k), objects[k].x as int, objects[k].y as int)
}

/// The monster that `roll` selects, standing on `(x, y)`.
pub fn make_monster(x: i32, y: i32, roll: i32) -> (monster: Object)
    ensures
        monster.is_at(x as int, y as int),
        is_monster_for_roll(monster, roll as int),
{
    let mut monster = if roll < ORC_PERCENT {
        let mut orc = Object::new(x, y, 'o', "orc", Color::DesaturatedGreen, true);
        orc.fighter = Some(
            Fighter { max_hp: 10, hp: 10, defense: 0, power: 3, on_death: DeathCallback::Monster },
        );
        orc.ai = Some(Ai::Basic);
        orc
    } else {
        let mut troll = Object::new(x, y, 'T', "troll", Color::DarkerGreen, true);
        troll.fighter = Some(
            Fighter { max_hp: 16, hp: 16, defense: 1, power: 4, on_death: DeathCallback::Monster },
        );
        troll.ai = Some(Ai::Basic);
        troll
    };
    monster.alive = true;
    monster
}

/// The item that `roll` selects, lying on `(x, y)`.
pub fn make_item(x: i32, y: i32, roll: i32) -> (item: Object)
    ensures
        item.is_at(x as int, y as int),
        is_item_of(item, item_for_roll(roll as int)),
{
    if roll < HEAL_PERCENT {
        let mut object = Object::new(x, y, '!', "healing potion", Color::Violet, false);
        object.item = Some(Item::Heal);
        object
    } else if roll < HEAL_PERCENT + LIGHTNING_PERCENT {
        let mut object = Object::new(
            x,
            y,
            '#',
            "scroll of lightning bolt",
            Color::LightYellow,
            false,
        );
        object.item = Some(Item::Lightning);
        object
    } else {
        let mut object = Object::new(x, y, '#', "scroll of confusion", Color::LightYellow, false);
        object.item = Some(Item::Confuse);
        object
    }
}

/// Puts the monster that `roll` selects on `(x, y)`, unless something blocks
/// that tile. Says whether it did.
pub fn place_monster(x: i32, y: i32, roll: i32, map: &Grid, objects: &mut Vec<Object>) -> (placed:
    bool)
    requires
        map.wf(),
    ensures
        placed == !blocked(*map, old(objects)@, x as int, y as int),
        !placed ==> final(objects)@ == old(objects)@,
        placed ==> {
            &&& final(objects)@.len() == old(objects)@.len() + 1
            &&& final(objects)@.drop_last() == old(objects)@
            &&& final(objects)@.last().is_at(x as int, y as int)
            &&& is_monster_for_roll(final(objects)@.last(), roll as int)
        },
{
    if !Object::is_blocked(x, y, map, objects.as_slice()) {
        objects.push(make_monster(x, y, roll));
        assert(objects@.drop_last() =~= old(objects)@);
        true
    } else {
        false
    }
}

/// Puts the item that `roll` selects on `(x, y)`, unless something blocks
/// that tile. Says whether it did.
pub fn place_item(x: i32, y: i32, roll: i32, map: &Grid, objects: &mut Vec<Object>) -> (placed:
    bool)
    requires
        map.wf(),
    ensures
        placed == !blocked(*map, old(objects)@, x as int, y as int),
        !placed ==> final(objects)@ == old(objects)@,
        placed ==> {
            &&& final(objects)@.len() == old(objects)@.len() + 1
            &&& final(objects)@.drop_last() == old(objects)@
            &&& final(objects)@.last().is_at(x as int, y as int)
            &&& is_item_of(final(objects)@.last(), item_for_roll(roll as int))
        },
{
    if !Object::is_blocked(x, y, map, objects.as_slice()) {
        objects.push(make_item(x, y, roll));
        assert(objects@.drop_last() =~= old(objects)@);
        true
    } else {
        false
    }
}

/// What `place_objects` leaves behind, whatever the dice say: the entities
/// that were there come first and are untouched; after them come at most
/// `max_monsters` fresh monsters and then at most `max_items` fresh items,
/// `monsters_end` being where the items begin; and each newcomer stands inside
/// the room on a tile that was free when it arrived.
pub open spec fn room_populated(
    map: Grid,
    room: Rect,
    before: Seq<Object>,
    after: Seq<Object>,
    max_monsters: int,
    max_items: int,
    monsters_end: int,
) -> bool {
    &&& before.len() <= monsters_end <= after.len()
    &&& monsters_end - before.len() <= max_monsters
    &&& after.len() - monsters_end <= max_items
    &&& after.take(before.len() as int) == before
    &&& forall|k: int| before.len() <= k < monsters_end ==> is_monster(#[trigger] after[k])
    &&& forall|k: int| monsters_end <= k < after.len() ==> is_item(#[trigger] after[k])
    &&& forall|k: int| before.len() <= k < after.len() ==> #[trigger] placed_well(map, room, after, k)
}

/// Adding an entity at the end leaves the standing of the earlier ones as it
/// was.
pub proof fn lemma_placed_well_push(map: Grid, room: Rect, objects: Seq<Object>, extra: Object, k: int)
    requires
        0 <= k < objects.len(),
    ensures
        placed_well(map, room, objects.push(extra), k) == placed_well(map, room, objects, k),
{
    assert(objects.push(extra).take(k) =~= objects.take(k));
}

/// Populates `room` with a random number of monsters, up to `max_monsters`,
/// and then of items, up to `max_items`, each on a random tile inside the
/// room. A monster or item whose tile is blocked is left out.
pub fn place_objects(
    room: Rect,
    map: &Grid,
    objects: &mut Vec<Object>,
    max_monsters: i32,
    max_items: i32,
)
    requires
        map.wf(),
        room.x2 - room.x1 >= 2,
        room.y2 - room.y1 >= 2,
        0 <= max_monsters < i32::MAX,
        0 <= max_items < i32::MAX,
    ensures
        exists|monsters_end: int| #[trigger]
            room_populated(
                *map,
                room,
                old(objects)@,
                final(objects)@,
                max_monsters as int,
                max_items as int,
                monsters_end,
            ),
{
    let num_monsters = random_in_range(0, max_monsters + 1);
    let mut n: i32 = 0;
    while n < num_monsters
        invariant
            map.wf(),
            room.x2 - room.x1 >= 2,
            room.y2 - room.y1 >= 2,
            0 <= n <= num_monsters <= max_monsters,
            old(objects)@.len() <= objects@.len() <= old(objects)@.len() + n,
            objects@.take(old(objects)@.len() as int) == old(objects)@,
            forall|k: int| old(objects)@.len() <= k < objects@.len() ==> is_monster(#[trigger] objects@[k]),
            forall|k: int|
                old(objects)@.len() <= k < objects@.len() ==> #[trigger] placed_well(
                    *map,
                    room,
                    objects@,
                    k,
                ),
        decreases num_monsters - n,
    {
        let x = random_in_range(room.x1 + 1, room.x2);
        let y = random_in_range(room.y1 + 1, room.y2);
        let roll = random_in_range(0, 100);
        let ghost earlier = objects@;
        let placed = place_monster(x, y, roll, map, objects);
        proof {
            if placed {
                assert(objects@ =~= earlier.push(objects@.last()));
                assert(objects@.take(earlier.len() as int) =~= earlier);
                assert(objects@.take(old(objects)@.len() as int) =~= old(objects)@);
                assert forall|k: int| old(objects)@.len() <= k < objects@.len() implies #[trigger] placed_well(
                    *map,
                    room,
                    objects@,
                    k,
                ) by {
                    if k < earlier.len() {
                        lemma_placed_well_push(*map, room, earlier, objects@.last(), k);
                    }
                }
            }
        }
        n = n + 1;
    }
    let ghost monsters_end = objects@.len() as int;
    let num_items = random_in_range(0, max_items + 1);
    let mut n: i32 = 0;
    while n < num_items
        invariant
            map.wf(),
            room.x2 - room.x1 >= 2,
            room.y2 - room.y1 >= 2,
            0 <= n <= num_items <= max_items,
            old(objects)@.len() <= monsters_end <= objects@.len() <= monsters_end + n,
            monsters_end - old(objects)@.len() <= max_monsters,
            objects@.take(old(objects)@.len() as int) == old(objects)@,
            forall|k: int| old(objects)@.len() <= k < monsters_end ==> is_monster(#[trigger] objects@[k]),
            forall|k: int| monsters_end <= k < objects@.len() ==> is_item(#[trigger] objects@[k]),
            forall|k: int|
                old(objects)@.len() <= k < objects@.len() ==> #[trigger] placed_well(
                    *map,
                    room,
                    objects@,
                    k,
                ),
        decreases num_items - n,
    {
        let x = random_in_range(room.x1 + 1, room.x2);
        let y = random_in_range(room.y1 + 1, room.y2);
        let roll = random_in_range(0, 100);
        let ghost earlier = objects@;
        let placed = place_item(x, y, roll, map, objects);
        proof {
            if placed {
                assert(objects@ =~= earlier.push(objects@.last()));
                assert(objects@.take(earlier.len() as int) =~= earlier);
                assert(objects@.take(old(objects)@.len() as int) =~= old(objects)@);
                assert forall|k: int| old(objects)@.len() <= k < objects@.len() implies #[trigger] placed_well(
                    *map,
                    room,
                    objects@,
                    k,
                ) by {
                    if k < earlier.len() {
                        lemma_placed_well_push(*map, room, earlier, objects@.last(), k);
                    }
                }
            }
        }
        n = n + 1;
    }
    assert(room_populated(
        *map,
        room,
        old(objects)@,
        objects@,
        max_monsters as int,
        max_items as int,
        monsters_end,
    ));
}

} // verus!
