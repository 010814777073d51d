//! Where entities may stand and how they move.

use vstd::prelude::*;
use crate::color::Color;
use crate::combat::{attack_applied, attack_lines, logged};
use crate::entity::{Game, Object, PLAYER};
use crate::grid::Grid;

verus! {

/// Borrows two different elements of a slice mutably at the same time.
pub fn mut_two<T>(first_index: usize, second_index: usize, items: &mut [T]) -> (pair: (
    &mut T,
    &mut T,
))
    requires
        first_index != second_index,
        first_index < old(items)@.len(),
        second_index < old(items)@.len(),
    ensures
        *pair.0 == old(items)@[first_index as int],
        *pair.1 == old(items)@[second_index as int],
        final(items)@ == old(items)@.update(first_index as int, *final(pair.0)).update(
            second_index as int,
            *final(pair.1),
        ),
{
    let split_at_index = if first_index < second_index {
        second_index
    } else {
        first_index
    };
    let (first_slice, second_slice) = items.split_at_mut(split_at_index);
    if first_index < second_index {
        (&mut first_slice[first_index], &mut second_slice[0])
    } else {
        (&mut second_slice[0], &mut first_slice[second_index])
    }
}

/// The tile at `(x, y)` cannot be entered: it is off the grid or blocked.
pub open spec fn tile_blocked(map: Grid, x: int, y: int) -> bool {
    !map.in_bounds(x, y) || map.at(x, y).blocked
}

/// A blocking entity stands on `(x, y)`.
pub open spec fn occupied(objects: Seq<Object>, x: int, y: int) -> bool {
    exists|i: int| 0 <= i < objects.len() && (#[trigger] objects[i]).blocks && objects[i].is_at(x, y)
}

/// Nothing can move onto `(x, y)`.
pub open spec fn blocked(map: Grid, objects: Seq<Object>, x: int, y: int) -> bool {
    tile_blocked(map, x, y) || occupied(objects, x, y)
}

/// The entity list after entity `id` tries to move by `(dx, dy)`: it moves if
/// the destination is free and stays put otherwise.
pub open spec fn move_result(map: Grid, objects: Seq<Object>, id: int, dx: int, dy: int) -> Seq<
    Object,
> {
    let x = objects[id].x + dx;
    let y = objects[id].y + dy;
    if blocked(map, objects, x, y) {
        objects
    } else {
        objects.update(id, Object { x: x as i32, y: y as i32, ..objects[id] })
    }
}

/// One step along an axis toward a target that is `d` away on this axis and
/// `other` away on the other: the unit direction, rounded to the nearest of
/// -1, 0 and 1.
pub open spec fn step_toward(d: int, other: int) -> int {
    if d != 0 && 3 * d * d >= other * other {
        if d > 0 {
            1
        } else {
            -1
        }
    } else {
        0
    }
}

/// The square of the distance between two points.
pub open spec fn distance_squared(x1: int, y1: int, x2: int, y2: int) -> int {
    (x2 - x1) * (x2 - x1) + (y2 - y1) * (y2 - y1)
}

/// Index `i` is the first entity with a combat component on `(x, y)`.
pub open spec fn is_first_fighter_at(objects: Seq<Object>, i: int, x: int, y: int) -> bool {
    &&& 0 <= i < objects.len()
    &&& objects[i].fighter is Some
    &&& objects[i].is_at(x, y)
    &&& forall|j: int| 0 <= j < i ==> !((#[trigger] objects[j]).fighter is Some && objects[j].is_at(x, y))
}

/// The first entity with a combat component on `(x, y)`, if there is one.
pub open spec fn first_fighter_at(objects: Seq<Object>, x: int, y: int) -> Option<int> {
    if exists|i: int| is_first_fighter_at(objects, i, x, y) {
        Some(choose|i: int| is_first_fighter_at(objects, i, x, y))
    } else {
        None
    }
}

/// Two indices that are both first are the same index.
pub proof fn lemma_first_fighter_unique(objects: Seq<Object>, i: int, j: int, x: int, y: int)
    requires
        is_first_fighter_at(objects, i, x, y),
        is_first_fighter_at(objects, j, x, y),
    ensures
        i == j,
{
    if i < j {
        assert(!(objects[i].fighter is Some && objects[i].is_at(x, y)));
    } else if j < i {
        assert(!(objects[j].fighter is Some && objects[j].is_at(x, y)));
    }
}

/// Finds the first entity with a combat component on `(x, y)`.
pub fn find_fighter_at(objects: &[Object], x: i64, y: i64) -> (found: Option<usize>)
    ensures
        match found {
            Some(i) => first_fighter_at(objects@, x as int, y as int) == Some(i as int),
            None => first_fighter_at(objects@, x as int, y as int) is None,
        },
        found matches Some(i) ==> is_first_fighter_at(objects@, i as int, x as int, y as int),
{
    let mut i: usize = 0;
    while i < objects.len()
        invariant
            i <= objects@.len(),
            forall|j: int|
                0 <= j < i ==> !((#[trigger] objects@[j]).fighter is Some && objects@[j].is_at(
                    x as int,
                    y as int,
                )),
        decreases objects@.len() - i,
    {
        if objects[i].fighter.is_some() && objects[i].x as i64 == x && objects[i].y as i64 == y {
            proof {
                assert(is_first_fighter_at(objects@, i as int, x as int, y as int));
                let c = choose|k: int| is_first_fighter_at(objects@, k, x as int, y as int);
                lemma_first_fighter_unique(objects@, i as int, c, x as int, y as int);
            }
            return Some(i);
        }
        i = i + 1;
    }
    assert forall|k: int| !is_first_fighter_at(objects@, k, x as int, y as int) by {
        if 0 <= k < objects@.len() {
            assert(!(objects@[k].fighter is Some && objects@[k].is_at(x as int, y as int)));
        }
    }
    None
}

impl Object {
    /// Whether anything keeps an entity from moving onto `(x, y)`: the tile
    /// itself, the edge of the grid, or a blocking entity.
    pub fn is_blocked(x: i32, y: i32, map: &Grid, objects: &[Object]) -> (b: bool)
        requires
            map.wf(),
        ensures
            b == blocked(*map, objects@, x as int, y as int),
    {
        if !map.contains(x, y) {
            return true;
        }
        if map.tile(x, y).blocked {
            return true;
        }
        let mut i: usize = 0;
        while i < objects.len()
            invariant
                i <= objects@.len(),
                forall|j: int|
                    0 <= j < i ==> !((#[trigger] objects@[j]).blocks && objects@[j].is_at(
                        x as int,
                        y as int,
                    )),
            decreases objects@.len() - i,
        {
            if objects[i].blocks && objects[i].x == x && objects[i].y == y {
                return true;
            }
            i = i + 1;
        }
        false
    }

    /// Moves entity `id` by `(dx, dy)` if the destination is free; otherwise
    /// nothing changes.
    pub fn move_by(id: usize, dx: i32, dy: i32, map: &Grid, objects: &mut [Object])
        requires
            map.wf(),
            id < old(objects)@.len(),
        ensures
            final(objects)@ == move_result(*map, old(objects)@, id as int, dx as int, dy as int),
    {
        let x: i64 = objects[id].x as i64 + dx as i64;
        let y: i64 = objects[id].y as i64 + dy as i64;
        proof {
            map.lemma_dimensions();
        }
        if x < i32::MIN as i64 || x > i32::MAX as i64 || y < i32::MIN as i64 || y
            > i32::MAX as i64 {
            return ;
        }
        if !Object::is_blocked(x as i32, y as i32, map, objects) {
            objects[id].set_pos(x as i32, y as i32);
        }
    }

    /// The square of the distance to `other`.
    pub fn distance_squared_to(&self, other: &Object) -> (d: i128)
        ensures
            d == distance_squared(self.x as int, self.y as int, other.x as int, other.y as int),
    {
        let dx: i128 = other.x as i128 - self.x as i128;
        let dy: i128 = other.y as i128 - self.y as i128;
        assert(0 <= dx * dx <= 0x1_0000_0000_0000_0000) by (nonlinear_arith)
            requires
                -0x1_0000_0000 <= dx <= 0x1_0000_0000,
        ;
        assert(0 <= dy * dy <= 0x1_0000_0000_0000_0000) by (nonlinear_arith)
            requires
                -0x1_0000_0000 <= dy <= 0x1_0000_0000,
        ;
        dx * dx + dy * dy
    }

    /// Moves entity `id` one step toward `(target_x, target_y)`, if that step
    /// is free. Standing on the target already, it stays.
    pub fn move_towards(id: usize, target_x: i32, target_y: i32, map: &Grid, objects: &mut [Object])
        requires
            map.wf(),
            id < old(objects)@.len(),
        ensures
            final(objects)@ == move_result(
                *map,
                old(objects)@,
                id as int,
                step_toward(target_x - old(objects)@[id as int].x, target_y - old(objects)@[id as int].y),
                step_toward(target_y - old(objects)@[id as int].y, target_x - old(objects)@[id as int].x),
            ),
    {
        let dx: i128 = target_x as i128 - objects[id].x as i128;
        let dy: i128 = target_y as i128 - objects[id].y as i128;
        let step_x = unit_step(dx, dy);
        let step_y = unit_step(dy, dx);
        Object::move_by(id, step_x, step_y, map, objects);
    }

    /// The player steps by `(dx, dy)`, or attacks the first entity with a
    /// combat component that stands there.
    pub fn player_move_or_attack(dx: i32, dy: i32, game: &mut Game, objects: &mut [Object])
        requires
            old(game).map.wf(),
            old(objects)@.len() > 0,
            !(old(objects)@[0].fighter is Some && dx == 0 && dy == 0),
        ensures
            final(objects)@.len() == old(objects)@.len(),
            match first_fighter_at(
                old(objects)@,
                old(objects)@[0].x + dx,
                old(objects)@[0].y + dy,
            ) {
                Some(t) => {
                    &&& final(objects)@ == old(objects)@.update(t, final(objects)@[t])
                    &&& attack_applied(old(objects)@[0], old(objects)@[t], final(objects)@[t])
                    &&& logged(
                        *old(game),
                        *final(game),
                        attack_lines(old(objects)@[0], old(objects)@[t]),
                    )
                },
                None => {
                    &&& final(objects)@ == move_result(
                        old(game).map,
                        old(objects)@,
                        0,
                        dx as int,
                        dy as int,
                    )
                    &&& logged(*old(game), *final(game), Seq::empty())
                },
            },
    {
        let x: i64 = objects[PLAYER].x as i64 + dx as i64;
        let y: i64 = objects[PLAYER].y as i64 + dy as i64;
        let target_id = find_fighter_at(objects, x, y);
        match target_id {
            Some(target_id) => {
                let (monster, player) = mut_two(target_id, PLAYER, objects);
                player.attack(monster, game);
                assert(objects@ =~= old(objects)@.update(target_id as int, objects@[target_id as int]));
            },
            None => {
                Object::move_by(PLAYER, dx, dy, &game.map, objects);
                assert(game.messages.log() + Seq::<(Seq<char>, Color)>::empty()
                    =~= game.messages.log());
            },
        }
    }
}

/// The unit step along one axis for offsets `d` on this axis and `other` on
/// the other one.
fn unit_step(d: i128, other: i128) -> (s: i32)
    requires
        -0x1_0000_0000 <= d <= 0x1_0000_0000,
        -0x1_0000_0000 <= other <= 0x1_0000_0000,
    ensures
        s == step_toward(d as int, other as int),
{
    assert(0 <= d * d <= 0x1_0000_0000_0000_0000) by (nonlinear_arith)
        requires
            -0x1_0000_0000 <= d <= 0x1_0000_0000,
    ;
    assert(0 <= other * other <= 0x1_0000_0000_0000_0000) by (nonlinear_arith)
        requires
            -0x1_0000_0000 <= other <= 0x1_0000_0000,
    ;
    assert(3 * d * d == 3 * (d * d)) by (nonlinear_arith);
    if d != 0 && 3 * (d * d) >= other * other {
        if d > 0 {
            1
        } else {
            -1
        }
    } else {
        0
    }
}

/// A move changes nothing but the position of the entity that moves.
pub proof fn lemma_move_keeps_components(
    map: Grid,
    objects: Seq<Object>,
    id: int,
    dx: int,
    dy: int,
)
    requires
        0 <= id < objects.len(),
    ensures
        ({
            let after = move_result(map, objects, id, dx, dy);
            &&& after.len() == objects.len()
            &&& forall|j: int| 0 <= j < objects.len() && j != id ==> after[j] == objects[j]
            &&& after[id] == (Object { x: after[id].x, y: after[id].y, ..objects[id] })
        }),
{
}

/// A move never ends on a blocked tile or on a tile that a blocking entity
/// held before the move: the entity either keeps its position, or stands on
/// the destination, which is on the grid, unblocked and unoccupied.
pub proof fn lemma_move_lands_on_free_tile(
    map: Grid,
    objects: Seq<Object>,
    id: int,
    dx: int,
    dy: int,
)
    requires
        map.wf(),
        0 <= id < objects.len(),
    ensures
        ({
            let after = move_result(map, objects, id, dx, dy);
            let x = objects[id].x + dx;
            let y = objects[id].y + dy;
            &&& after.len() == objects.len()
            &&& forall|j: int| 0 <= j < objects.len() && j != id ==> after[j] == objects[j]
            &&& blocked(map, objects, x, y) ==> after[id] == objects[id]
            &&& dx == 0 && dy == 0 ==> after == objects
            &&& !blocked(map, objects, x, y) ==> {
                &&& after[id].is_at(x, y)
                &&& map.in_bounds(x, y)
                &&& !map.at(x, y).blocked
                &&& !occupied(objects, x, y)
            }
        }),
{
    map.lemma_dimensions();
    if dx == 0 && dy == 0 {
        assert(move_result(map, objects, id, dx, dy) =~= objects);
    }
}

} // verus!
