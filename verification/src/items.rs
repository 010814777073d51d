//! Picking items up and using them.

use vstd::prelude::*;
use vstd::string::StringExecFns;
use crate::color::Color;
use crate::combat::{damage_applied, damage_lines, healed, logged};
use crate::entity::{Ai, Game, Item, Object, INVENTORY_CAPACITY, PLAYER};
use crate::fov::FovMap;
use crate::movement::distance_squared;
use crate::text::{decimal, decimal_text, join3};

verus! {

/// Hit points that a healing potion gives back.
pub const HEAL_AMOUNT: i32 = 4;

/// Hit points that a lightning bolt takes away.
pub const LIGHTNING_DAMAGE: i32 = 40;

/// How far a lightning bolt reaches.
pub const LIGHTNING_RANGE: i32 = 5;

/// How far a scroll of confusion reaches.
pub const CONFUSE_RANGE: i32 = 8;

/// The turn counter a confused monster starts with.
pub const CONFUSE_NUM_TURNS: i32 = 10;

/// How the use of an item ended.
#[derive(Clone, Copy, Debug, PartialEq, Eq, Structural)]
pub enum UseResult {
    /// The item did its work and is gone.
    UsedUp,
    /// Nothing happened and the item is kept.
    Cancelled,
}

/// The square of the distance from the player to entity `i`.
pub open spec fn player_distance_squared(objects: Seq<Object>, i: int) -> int {
    distance_squared(objects[0].x as int, objects[0].y as int, objects[i].x as int, objects[i].y as int)
}

/// Entity `i` can be targeted: it is not the player, it fights and acts, it is
/// in view, and it is no further than `max_range` from the player.
pub open spec fn is_target(objects: Seq<Object>, fov: FovMap, i: int, max_range: int) -> bool {
    &&& 0 < i < objects.len()
    &&& objects[i].fighter is Some
    &&& objects[i].ai is Some
    &&& fov.visible(objects[i].x as int, objects[i].y as int)
    &&& max_range >= 0
    &&& player_distance_squared(objects, i) <= max_range * max_range
}

/// Entity `i` is the nearest target, and the first in the list among those as
/// near.
pub open spec fn is_closest_target(objects: Seq<Object>, fov: FovMap, i: int, max_range: int) -> bool {
    &&& is_target(objects, fov, i, max_range)
    &&& forall|j: int| #[trigger]
        is_target(objects, fov, j, max_range) ==> {
            ||| player_distance_squared(objects, i) < player_distance_squared(objects, j)
            ||| player_distance_squared(objects, i) == player_distance_squared(objects, j) && i <= j
        }
}

/// The nearest target, if there is any target at all.
pub open spec fn closest_target(objects: Seq<Object>, fov: FovMap, max_range: int) -> Option<int> {
    if exists|i: int| is_closest_target(objects, fov, i, max_range) {
        Some(choose|i: int| is_closest_target(objects, fov, i, max_range))
    } else {
        None
    }
}

/// Two nearest targets are the same entity.
pub proof fn lemma_closest_target_unique(
    objects: Seq<Object>,
    fov: FovMap,
    i: int,
    j: int,
    max_range: int,
)
    requires
        is_closest_target(objects, fov, i, max_range),
        is_closest_target(objects, fov, j, max_range),
    ensures
        i == j,
{
}

/// The line logged when a potion is drunk at full health.
pub open spec fn full_health_text() -> Seq<char> {
    "You are already at full health."@
}

/// The line logged when a potion heals.
pub open spec fn healing_text() -> Seq<char> {
    "Your wounds start to feel better!"@
}

/// The line logged when a scroll finds no target.
pub open spec fn no_enemy_text() -> Seq<char> {
    "No enemy is close enough to strike."@
}

/// The line logged when lightning strikes `name`.
pub open spec fn lightning_text(name: Seq<char>) -> Seq<char> {
    "A lightning bolt strikes the "@ + name + " with a loud thunder! The damage is "@ + decimal(
        LIGHTNING_DAMAGE as int,
    ) + " hit points."@
}

/// The line logged when `name` gets confused.
pub open spec fn confusion_text(name: Seq<char>) -> Seq<char> {
    "The eyes of "@ + name + " look vacant, as he starts to stumble around!"@
}

/// The line logged for an item that cannot be picked up.
pub open spec fn inventory_full_text(name: Seq<char>) -> Seq<char> {
    "Your inventory is full. You cannot pick up "@ + name + "."@
}

/// The line logged for an item that was picked up.
pub open spec fn picked_up_text(name: Seq<char>) -> Seq<char> {
    "You picked up a "@ + name + "!"@
}

/// `before` with its behaviour wrapped in a fresh confusion.
pub open spec fn confused(before: Object) -> Object {
    Object {
        ai: Some(
            Ai::Confused {
                previous_ai: Box::new(
                    match before.ai {
                        Some(ai) => ai,
                        None => Ai::Basic,
                    },
                ),
                num_turns: CONFUSE_NUM_TURNS,
            },
        ),
        ..before
    }
}

impl Object {
    /// Finds the nearest monster in view that is no further than `max_range`
    /// from the player. Among monsters at the same distance the first in the
    /// list wins. A negative range reaches nobody.
    pub fn closest_monster(fov: &FovMap, objects: &[Object], max_range: i32) -> (found: Option<
        usize,
    >)
        requires
            fov.wf(),
            objects@.len() > 0,
        ensures
            match found {
                Some(i) => closest_target(objects@, *fov, max_range as int) == Some(i as int),
                None => closest_target(objects@, *fov, max_range as int) is None,
            },
            found matches Some(i) ==> is_closest_target(objects@, *fov, i as int, max_range as int),
            found is None ==> forall|j: int| !is_target(objects@, *fov, j, max_range as int),
    {
        if max_range < 0 {
            assert forall|i: int| !is_closest_target(objects@, *fov, i, max_range as int) by {}
            return None;
        }
        let range: i128 = max_range as i128;
        assert(0 <= range * range <= 0x1_0000_0000_0000_0000) by (nonlinear_arith)
            requires
                0 <= range <= 0x1_0000_0000,
        ;
        let mut closest_enemy: Option<usize> = None;
        let mut closest_dist: i128 = range * range + 1;
        let mut id: usize = 1;
        while id < objects.len()
            invariant
                1 <= id <= objects@.len(),
                fov.wf(),
                range == max_range,
                range >= 0,
                closest_dist <= range * range + 1,
                closest_enemy is None ==> closest_dist == range * range + 1,
                closest_enemy is None ==> forall|j: int|
                    0 <= j < id ==> !is_target(objects@, *fov, j, max_range as int),
                closest_enemy matches Some(c) ==> {
                    &&& c < id
                    &&& is_target(objects@, *fov, c as int, max_range as int)
                    &&& closest_dist == player_distance_squared(objects@, c as int)
                    &&& forall|j: int|
                        0 <= j < id && #[trigger] is_target(objects@, *fov, j, max_range as int) ==> {
                            ||| closest_dist < player_distance_squared(objects@, j)
                            ||| closest_dist == player_distance_squared(objects@, j) && c <= j
                        }
                },
            decreases objects@.len() - id,
        {
            let object = &objects[id];
            if object.fighter.is_some() && object.ai.is_some() && fov.is_in_fov(object.x, object.y) {
                let dist = objects[PLAYER].distance_squared_to(object);
                if dist < closest_dist {
                    closest_enemy = Some(id);
                    closest_dist = dist;
                }
            }
            id = id + 1;
        }
        proof {
            match closest_enemy {
                Some(c) => {
                    assert(is_closest_target(objects@, *fov, c as int, max_range as int));
                    let k = choose|k: int| is_closest_target(objects@, *fov, k, max_range as int);
                    lemma_closest_target_unique(objects@, *fov, c as int, k, max_range as int);
                },
                None => {
                    assert forall|i: int| !is_closest_target(objects@, *fov, i, max_range as int) by {}
                },
            }
        }
        closest_enemy
    }

    /// Moves the item at `object_id` from the map into the inventory, unless
    /// the inventory is full. The entities that stay keep their order.
    pub fn pick_item_up(object_id: usize, game: &mut Game, objects: &mut Vec<Object>)
        requires
            0 < object_id < old(objects)@.len(),
        ensures
            final(game).map == old(game).map,
            old(game).inventory@.len() <= INVENTORY_CAPACITY ==> final(game).inventory@.len()
                <= INVENTORY_CAPACITY,
            old(game).inventory@.len() >= INVENTORY_CAPACITY ==> {
                &&& final(objects)@ == old(objects)@
                &&& final(game).inventory@ == old(game).inventory@
                &&& final(game).messages.log() == old(game).messages.log().push(
                    (inventory_full_text(old(objects)@[object_id as int].name@), Color::Red),
                )
            },
            old(game).inventory@.len() < INVENTORY_CAPACITY ==> {
                &&& final(objects)@ == old(objects)@.remove(object_id as int)
                &&& final(game).inventory@ == old(game).inventory@.push(
                    old(objects)@[object_id as int],
                )
                &&& final(game).messages.log() == old(game).messages.log().push(
                    (picked_up_text(old(objects)@[object_id as int].name@), Color::Green),
                )
            },
    {
        if game.inventory.len() >= INVENTORY_CAPACITY {
            let line = join3(
                "Your inventory is full. You cannot pick up ",
                objects[object_id].name.as_str(),
                ".",
            );
            game.messages.add(line, Color::Red);
        } else {
            let item = objects.remove(object_id);
            game.messages.add(join3("You picked up a ", item.name.as_str(), "!"), Color::Green);
            game.inventory.push(item);
        }
    }
}

/// The lines a healing potion logs for the player `before`.
pub open spec fn heal_lines(before: Object) -> Seq<(Seq<char>, Color)> {
    match before.fighter {
        None => Seq::empty(),
        Some(f) => if f.hp == f.max_hp {
            seq![(full_health_text(), Color::Red)]
        } else {
            seq![(healing_text(), Color::LightViolet)]
        },
    }
}

/// A healing potion is used up exactly on a fighter below or above its full
/// health.
pub open spec fn heal_uses_up(before: Object) -> bool {
    before.fighter matches Some(f) && f.hp != f.max_hp
}

/// Heals the player, unless the player is at full health already.
pub fn cast_heal(game: &mut Game, objects: &mut [Object]) -> (result: UseResult)
    requires
        old(objects)@.len() > 0,
    ensures
        (result == UseResult::UsedUp) == heal_uses_up(old(objects)@[0]),
        final(objects)@ == old(objects)@.update(
            0,
            if heal_uses_up(old(objects)@[0]) {
                healed(old(objects)@[0], HEAL_AMOUNT as int)
            } else {
                old(objects)@[0]
            },
        ),
        logged(*old(game), *final(game), heal_lines(old(objects)@[0])),
{
    match objects[PLAYER].fighter {
        Some(fighter) => {
            if fighter.hp == fighter.max_hp {
                game.messages.add(String::from_str("You are already at full health."), Color::Red);
                assert(objects@ =~= old(objects)@.update(0, old(objects)@[0]));
                return UseResult::Cancelled;
            }
            game.messages.add(
                String::from_str("Your wounds start to feel better!"),
                Color::LightViolet,
            );
            objects[PLAYER].heal(HEAL_AMOUNT);
            UseResult::UsedUp
        },
        None => {
            assert(objects@ =~= old(objects)@.update(0, old(objects)@[0]));
            assert(game.messages.log() + heal_lines(old(objects)@[0]) =~= game.messages.log());
            UseResult::Cancelled
        },
    }
}

/// The lines a lightning bolt logs.
pub open spec fn lightning_lines(objects: Seq<Object>, fov: FovMap) -> Seq<(Seq<char>, Color)> {
    match closest_target(objects, fov, LIGHTNING_RANGE as int) {
        Some(t) => seq![(lightning_text(objects[t].name@), Color::LightBlue)] + damage_lines(
            objects[t],
            LIGHTNING_DAMAGE as int,
        ),
        None => seq![(no_enemy_text(), Color::Red)],
    }
}

/// Strikes the nearest monster in view and in range with lightning, which
/// ignores its defense.
pub fn cast_lightning(fov: &FovMap, game: &mut Game, objects: &mut [Object]) -> (result: UseResult)
    requires
        fov.wf(),
        old(objects)@.len() > 0,
    ensures
        final(objects)@.len() == old(objects)@.len(),
        match closest_target(old(objects)@, *fov, LIGHTNING_RANGE as int) {
            Some(t) => {
                &&& result == UseResult::UsedUp
                &&& final(objects)@ == old(objects)@.update(t, final(objects)@[t])
                &&& damage_applied(old(objects)@[t], final(objects)@[t], LIGHTNING_DAMAGE as int)
            },
            None => result == UseResult::Cancelled && final(objects)@ == old(objects)@,
        },
        logged(*old(game), *final(game), lightning_lines(old(objects)@, *fov)),
{
    let monster_id = Object::closest_monster(fov, objects, LIGHTNING_RANGE);
    match monster_id {
        Some(monster_id) => {
            let amount = decimal_text(LIGHTNING_DAMAGE as i64);
            let line = join3(
                "A lightning bolt strikes the ",
                objects[monster_id].name.as_str(),
                " with a loud thunder! The damage is ",
            );
            let line = join3(line.as_str(), amount.as_str(), " hit points.");
            assert(line@ =~= lightning_text(objects@[monster_id as int].name@));
            game.messages.add(line, Color::LightBlue);
            objects[monster_id].take_damage(LIGHTNING_DAMAGE, game);
            assert(objects@ =~= old(objects)@.update(monster_id as int, objects@[monster_id as int]));
            assert(game.messages.log() =~= old(game).messages.log() + lightning_lines(
                old(objects)@,
                *fov,
            ));
            UseResult::UsedUp
        },
        None => {
            game.messages.add(String::from_str("No enemy is close enough to strike."), Color::Red);
            UseResult::Cancelled
        },
    }
}

/// The lines a scroll of confusion logs.
pub open spec fn confuse_lines(objects: Seq<Object>, fov: FovMap) -> Seq<(Seq<char>, Color)> {
    match closest_target(objects, fov, CONFUSE_RANGE as int) {
        Some(t) => seq![(confusion_text(objects[t].name@), Color::LightGreen)],
        None => seq![(no_enemy_text(), Color::Red)],
    }
}

/// Confuses the nearest monster in view and in range: its behaviour is
/// wrapped, to be restored when the confusion wears off.
pub fn cast_confuse(fov: &FovMap, game: &mut Game, objects: &mut [Object]) -> (result: UseResult)
    requires
        fov.wf(),
        old(objects)@.len() > 0,
    ensures
        match closest_target(old(objects)@, *fov, CONFUSE_RANGE as int) {
            Some(t) => {
                &&& result == UseResult::UsedUp
                &&& final(objects)@ == old(objects)@.update(t, confused(old(objects)@[t]))
            },
            None => result == UseResult::Cancelled && final(objects)@ == old(objects)@,
        },
        logged(*old(game), *final(game), confuse_lines(old(objects)@, *fov)),
{
    let monster_id = Object::closest_monster(fov, objects, CONFUSE_RANGE);
    match monster_id {
        Some(monster_id) => {
            let taken = objects[monster_id].ai.take();
            let old_ai = match taken {
                Some(ai) => ai,
                None => Ai::Basic,
            };
            objects[monster_id].ai = Some(
                Ai::Confused { previous_ai: Box::new(old_ai), num_turns: CONFUSE_NUM_TURNS },
            );
            let line = join3(
                "The eyes of ",
                objects[monster_id].name.as_str(),
                " look vacant, as he starts to stumble around!",
            );
            game.messages.add(line, Color::LightGreen);
            assert(objects@ =~= old(objects)@.update(
                monster_id as int,
                confused(old(objects)@[monster_id as int]),
            ));
            UseResult::UsedUp
        },
        None => {
            game.messages.add(String::from_str("No enemy is close enough to strike."), Color::Red);
            UseResult::Cancelled
        },
    }
}

/// Whether using an item of this kind consumes it.
pub open spec fn effect_uses_up(kind: Item, objects: Seq<Object>, fov: FovMap) -> bool {
    match kind {
        Item::Heal => heal_uses_up(objects[0]),
        Item::Lightning => closest_target(objects, fov, LIGHTNING_RANGE as int) is Some,
        Item::Confuse => closest_target(objects, fov, CONFUSE_RANGE as int) is Some,
    }
}

/// The lines the effect of an item of this kind logs.
pub open spec fn effect_lines(kind: Item, objects: Seq<Object>, fov: FovMap) -> Seq<
    (Seq<char>, Color),
> {
    match kind {
        Item::Heal => heal_lines(objects[0]),
        Item::Lightning => lightning_lines(objects, fov),
        Item::Confuse => confuse_lines(objects, fov),
    }
}

/// What the effect of an item of this kind does to the entities.
pub open spec fn effect_applied(kind: Item, before: Seq<Object>, after: Seq<Object>, fov: FovMap) -> bool {
    match kind {
        Item::Heal => after == before.update(
            0,
            if heal_uses_up(before[0]) {
                healed(before[0], HEAL_AMOUNT as int)
            } else {
                before[0]
            },
        ),
        Item::Lightning => match closest_target(before, fov, LIGHTNING_RANGE as int) {
            Some(t) => after == before.update(t, after[t]) && damage_applied(
                before[t],
                after[t],
                LIGHTNING_DAMAGE as int,
            ),
            None => after == before,
        },
        Item::Confuse => match closest_target(before, fov, CONFUSE_RANGE as int) {
            Some(t) => after == before.update(t, confused(before[t])),
            None => after == before,
        },
    }
}

/// The lines logged by the use of an item: those of its effect, or the plain
/// notice when a cancelled effect gave no reason of its own.
pub open spec fn use_lines(kind: Item, objects: Seq<Object>, fov: FovMap) -> Seq<(Seq<char>, Color)> {
    let lines = effect_lines(kind, objects, fov);
    if !effect_uses_up(kind, objects, fov) && lines.len() == 0 {
        seq![("Cancelled"@, Color::White)]
    } else {
        lines
    }
}

/// Uses the inventory entry at `inventory_id`. An item that did its work
/// leaves the inventory; a cancelled one stays. An entry that is no item is
/// left alone and `None` is returned.
pub fn use_item(inventory_id: usize, fov: &FovMap, game: &mut Game, objects: &mut [Object]) -> (result:
    Option<UseResult>)
    requires
        fov.wf(),
        inventory_id < old(game).inventory@.len(),
        old(objects)@.len() > 0,
    ensures
        final(game).map == old(game).map,
        match old(game).inventory@[inventory_id as int].item {
            None => {
                &&& result is None
                &&& final(objects)@ == old(objects)@
                &&& final(game).inventory@ == old(game).inventory@
                &&& final(game).messages.log() == old(game).messages.log()
            },
            Some(kind) => {
                let used = effect_uses_up(kind, old(objects)@, *fov);
                &&& result == Some(if used { UseResult::UsedUp } else { UseResult::Cancelled })
                &&& effect_applied(kind, old(objects)@, final(objects)@, *fov)
                &&& final(game).inventory@ == (if used {
                    old(game).inventory@.remove(inventory_id as int)
                } else {
                    old(game).inventory@
                })
                &&& final(game).messages.log() == old(game).messages.log() + use_lines(
                    kind,
                    old(objects)@,
                    *fov,
                )
            },
        },
{
    match game.inventory[inventory_id].item {
        Some(item) => {
            let logged_before = game.messages.len();
            let outcome = match item {
                Item::Heal => cast_heal(game, objects),
                Item::Lightning => cast_lightning(fov, game, objects),
                Item::Confuse => cast_confuse(fov, game, objects),
            };
            match outcome {
                UseResult::UsedUp => {
                    let _ = game.inventory.remove(inventory_id);
                },
                UseResult::Cancelled => {
                    if game.messages.len() == logged_before {
                        game.messages.add(String::from_str("Cancelled"), Color::White);
                    }
                },
            }
            Some(outcome)
        },
        None => None,
    }
}

/// A potion drunk at full health is kept: the effect is cancelled with its
/// own notice, and the player is as before.
pub proof fn lemma_heal_at_full_health(objects: Seq<Object>, after: Seq<Object>, fov: FovMap)
    requires
        objects.len() > 0,
        objects[0].fighter matches Some(f) && f.hp == f.max_hp,
        effect_applied(Item::Heal, objects, after, fov),
    ensures
        !effect_uses_up(Item::Heal, objects, fov),
        use_lines(Item::Heal, objects, fov) == seq![(full_health_text(), Color::Red)],
        after == objects,
{
    assert(after =~= objects);
}

} // verus!
