//! What a monster does on its turn.

use vstd::prelude::*;
use crate::color::Color;
use crate::combat::{attack_applied, attack_lines, logged};
use crate::entity::{Ai, Game, Object, PLAYER};
use crate::fov::FovMap;
use crate::grid::Grid;
use crate::movement::{
    distance_squared, lemma_move_keeps_components, move_result, mut_two, step_toward,
};
use crate::rng::random_in_range;
use crate::text::join3;

verus! {

/// The line logged when the confusion of `name` wears off.
pub open spec fn recovered_text(name: Seq<char>) -> Seq<char> {
    "The "@ + name + " is no longer confused!"@
}

/// The behaviour a monster has after one turn with behaviour `ai`.
pub open spec fn next_ai(ai: Ai) -> Ai {
    match ai {
        Ai::Basic => Ai::Basic,
        Ai::Confused { previous_ai, num_turns } => if num_turns >= 0 {
            Ai::Confused { previous_ai, num_turns: (num_turns - 1) as i32 }
        } else {
            *previous_ai
        },
    }
}

/// The behaviour a monster has after `turns` turns, starting from `ai`.
pub open spec fn ai_after(ai: Ai, turns: nat) -> Ai
    decreases turns,
{
    if turns == 0 {
        ai
    } else {
        ai_after(next_ai(ai), (turns - 1) as nat)
    }
}

/// A basic monster can reach the player: it stands next to it or on it.
pub open spec fn adjacent_to_player(objects: Seq<Object>, id: int) -> bool {
    distance_squared(
        objects[id].x as int,
        objects[id].y as int,
        objects[0].x as int,
        objects[0].y as int,
    ) < 4
}

/// The player can still be attacked: it fights and has hit points left.
pub open spec fn player_standing(objects: Seq<Object>) -> bool {
    objects[0].fighter matches Some(f) && f.hp > 0
}

/// What the turn of a basic monster does to the entities: out of view it
/// waits, at a distance it steps toward the player, in reach it attacks a
/// player that still stands.
pub open spec fn basic_turn(
    map: Grid,
    fov: FovMap,
    before: Seq<Object>,
    after: Seq<Object>,
    id: int,
) -> bool {
    if !fov.visible(before[id].x as int, before[id].y as int) {
        after == before
    } else if !adjacent_to_player(before, id) {
        after == move_result(
            map,
            before,
            id,
            step_toward(before[0].x - before[id].x, before[0].y - before[id].y),
            step_toward(before[0].y - before[id].y, before[0].x - before[id].x),
        )
    } else if player_standing(before) {
        after == before.update(0, after[0]) && attack_applied(before[id], before[0], after[0])
    } else {
        after == before
    }
}

/// The lines the turn of a basic monster logs: those of its attack, if it
/// makes one.
pub open spec fn basic_lines(fov: FovMap, before: Seq<Object>, id: int) -> Seq<(Seq<char>, Color)> {
    if fov.visible(before[id].x as int, before[id].y as int) && adjacent_to_player(before, id)
        && player_standing(before) {
        attack_lines(before[id], before[0])
    } else {
        Seq::empty()
    }
}

/// What the turn of a confused monster with `num_turns` left does to the
/// entities when it stumbles by `(dx, dy)`: nothing once the confusion is
/// over.
pub open spec fn confused_turn(
    map: Grid,
    before: Seq<Object>,
    id: int,
    dx: int,
    dy: int,
    num_turns: int,
) -> Seq<Object> {
    if num_turns >= 0 {
        move_result(map, before, id, dx, dy)
    } else {
        before
    }
}

/// The lines the turn of a confused monster logs: the recovery, once the
/// confusion is over.
pub open spec fn confused_lines(before: Seq<Object>, id: int, num_turns: int) -> Seq<
    (Seq<char>, Color),
> {
    if num_turns >= 0 {
        Seq::empty()
    } else {
        seq![(recovered_text(before[id].name@), Color::Red)]
    }
}

/// The entity list with the behaviour of entity `id` taken out.
pub open spec fn without_ai(objects: Seq<Object>, id: int) -> Seq<Object> {
    objects.update(id, Object { ai: None, ..objects[id] })
}

/// What one turn of entity `id` does to the entities, `(dx, dy)` being the
/// offset it stumbles by if it is confused. An entity without behaviour does
/// nothing. Any other acts with its behaviour taken out and gets the next
/// behaviour put in afterwards.
pub open spec fn turn_taken(
    map: Grid,
    fov: FovMap,
    before: Seq<Object>,
    after: Seq<Object>,
    id: int,
    dx: int,
    dy: int,
) -> bool {
    match before[id].ai {
        None => after == before,
        Some(ai) => {
            &&& after.len() == before.len()
            &&& after[id].ai == Some(next_ai(ai))
            &&& match ai {
                Ai::Basic => basic_turn(
                    map,
                    fov,
                    without_ai(before, id),
                    without_ai(after, id),
                    id,
                ),
                Ai::Confused { previous_ai, num_turns } => without_ai(after, id) == confused_turn(
                    map,
                    without_ai(before, id),
                    id,
                    dx,
                    dy,
                    num_turns as int,
                ),
            }
        },
    }
}

/// The lines one turn of entity `id` logs.
pub open spec fn turn_lines(fov: FovMap, before: Seq<Object>, id: int) -> Seq<(Seq<char>, Color)> {
    match before[id].ai {
        None => Seq::empty(),
        Some(Ai::Basic) => basic_lines(fov, without_ai(before, id), id),
        Some(Ai::Confused { previous_ai, num_turns }) => confused_lines(
            before,
            id,
            num_turns as int,
        ),
    }
}

impl Object {
    /// One turn of entity `monster_id`: its behaviour is taken out, run, and
    /// the behaviour that results is put back.
    pub fn ai_take_turn(monster_id: usize, fov: &FovMap, game: &mut Game, objects: &mut [Object])
        requires
            fov.wf(),
            old(game).map.wf(),
            0 < monster_id < old(objects)@.len(),
        ensures
            final(objects)@.len() == old(objects)@.len(),
            exists|dx: int, dy: int|
                -1 <= dx <= 1 && -1 <= dy <= 1 && #[trigger] turn_taken(
                    old(game).map,
                    *fov,
                    old(objects)@,
                    final(objects)@,
                    monster_id as int,
                    dx,
                    dy,
                ),
            logged(*old(game), *final(game), turn_lines(*fov, old(objects)@, monster_id as int)),
    {
        let taken = objects[monster_id].ai.take();
        let ghost stripped = objects@;
        assert(stripped =~= without_ai(old(objects)@, monster_id as int));
        match taken {
            Some(ai) => {
                let ghost confusion = ai is Confused;
                let new_ai = match ai {
                    Ai::Basic => Object::ai_basic(monster_id, fov, game, objects),
                    Ai::Confused { previous_ai, num_turns } => Object::ai_confused(
                        monster_id,
                        game,
                        objects,
                        previous_ai,
                        num_turns,
                    ),
                };
                let ghost mid = objects@;
                proof {
                    if confusion {
                        assert(mid.len() == stripped.len());
                    } else {
                        lemma_move_keeps_components(
                            game.map,
                            stripped,
                            monster_id as int,
                            step_toward(
                                stripped[0].x - stripped[monster_id as int].x,
                                stripped[0].y - stripped[monster_id as int].y,
                            ),
                            step_toward(
                                stripped[0].y - stripped[monster_id as int].y,
                                stripped[0].x - stripped[monster_id as int].x,
                            ),
                        );
                    }
                    assert(mid.len() == stripped.len());
                    assert(mid[monster_id as int].ai is None);
                }
                objects[monster_id].ai = Some(new_ai);
                proof {
                    assert(without_ai(objects@, monster_id as int) =~= mid);
                    if confusion {
                        let (dx, dy) = choose|dx: int, dy: int|
                            -1 <= dx <= 1 && -1 <= dy <= 1 && mid == #[trigger] confused_turn(
                                old(game).map,
                                stripped,
                                monster_id as int,
                                dx,
                                dy,
                                ai->num_turns as int,
                            );
                        assert(turn_taken(
                            old(game).map,
                            *fov,
                            old(objects)@,
                            objects@,
                            monster_id as int,
                            dx,
                            dy,
                        ));
                    } else {
                        assert(turn_taken(
                            old(game).map,
                            *fov,
                            old(objects)@,
                            objects@,
                            monster_id as int,
                            0,
                            0,
                        ));
                    }
                }
            },
            None => {
                assert(objects@ =~= old(objects)@);
                assert(game.messages.log() + Seq::<(Seq<char>, Color)>::empty()
                    =~= game.messages.log());
                assert(turn_taken(
                    old(game).map,
                    *fov,
                    old(objects)@,
                    objects@,
                    monster_id as int,
                    0,
                    0,
                ));
            },
        }
    }

    /// The turn of a basic monster; it stays basic.
    pub fn ai_basic(monster_id: usize, fov: &FovMap, game: &mut Game, objects: &mut [Object]) -> (ai:
        Ai)
        requires
            fov.wf(),
            old(game).map.wf(),
            0 < monster_id < old(objects)@.len(),
        ensures
            ai == Ai::Basic,
            basic_turn(old(game).map, *fov, old(objects)@, final(objects)@, monster_id as int),
            logged(*old(game), *final(game), basic_lines(*fov, old(objects)@, monster_id as int)),
    {
        let (monster_x, monster_y) = objects[monster_id].pos();
        if fov.is_in_fov(monster_x, monster_y) {
            if objects[monster_id].distance_squared_to(&objects[PLAYER]) >= 4 {
                let (player_x, player_y) = objects[PLAYER].pos();
                Object::move_towards(monster_id, player_x, player_y, &game.map, objects);
                assert(game.messages.log() + Seq::<(Seq<char>, Color)>::empty()
                    =~= game.messages.log());
            } else if player_has_hp(&objects[PLAYER]) {
                let (monster, player) = mut_two(monster_id, PLAYER, objects);
                monster.attack(player, game);
                assert(objects@ =~= old(objects)@.update(0, objects@[0]));
            } else {
                assert(game.messages.log() + Seq::<(Seq<char>, Color)>::empty()
                    =~= game.messages.log());
            }
        } else {
            assert(game.messages.log() + Seq::<(Seq<char>, Color)>::empty()
                =~= game.messages.log());
        }
        Ai::Basic
    }

    /// The turn of a confused monster that stumbles by `(dx, dy)`: while
    /// turns are left it tries that step and counts one turn down; after that
    /// it recovers and gets its earlier behaviour back.
    pub fn confused_step(
        monster_id: usize,
        dx: i32,
        dy: i32,
        game: &mut Game,
        objects: &mut [Object],
        previous_ai: Box<Ai>,
        num_turns: i32,
    ) -> (ai: Ai)
        requires
            old(game).map.wf(),
            monster_id < old(objects)@.len(),
        ensures
            ai == next_ai(Ai::Confused { previous_ai, num_turns }),
            final(objects)@ == confused_turn(
                old(game).map,
                old(objects)@,
                monster_id as int,
                dx as int,
                dy as int,
                num_turns as int,
            ),
            logged(
                *old(game),
                *final(game),
                confused_lines(old(objects)@, monster_id as int, num_turns as int),
            ),
    {
        if num_turns >= 0 {
            Object::move_by(monster_id, dx, dy, &game.map, objects);
            assert(game.messages.log() + Seq::<(Seq<char>, Color)>::empty()
                =~= game.messages.log());
            Ai::Confused { previous_ai: previous_ai, num_turns: num_turns - 1 }
        } else {
            game.messages.add(
                join3("The ", objects[monster_id].name.as_str(), " is no longer confused!"),
                Color::Red,
            );
            *previous_ai
        }
    }

    /// The turn of a confused monster: it stumbles by a random offset of at
    /// most one tile along each axis.
    pub fn ai_confused(
        monster_id: usize,
        game: &mut Game,
        objects: &mut [Object],
        previous_ai: Box<Ai>,
        num_turns: i32,
    ) -> (ai: Ai)
        requires
            old(game).map.wf(),
            monster_id < old(objects)@.len(),
        ensures
            ai == next_ai(Ai::Confused { previous_ai, num_turns }),
            exists|dx: int, dy: int|
                -1 <= dx <= 1 && -1 <= dy <= 1 && final(objects)@ == #[trigger] confused_turn(
                    old(game).map,
                    old(objects)@,
                    monster_id as int,
                    dx,
                    dy,
                    num_turns as int,
                ),
            logged(
                *old(game),
                *final(game),
                confused_lines(old(objects)@, monster_id as int, num_turns as int),
            ),
    {
        if num_turns >= 0 {
            let dx = random_in_range(-1, 2);
            let dy = random_in_range(-1, 2);
            Object::confused_step(monster_id, dx, dy, game, objects, previous_ai, num_turns)
        } else {
            let ai = Object::confused_step(monster_id, 0, 0, game, objects, previous_ai, num_turns);
            assert(objects@ == confused_turn(
                old(game).map,
                old(objects)@,
                monster_id as int,
                0,
                0,
                num_turns as int,
            ));
            ai
        }
    }
}

/// Whether the player fights and has hit points left.
fn player_has_hp(player: &Object) -> (b: bool)
    ensures
        b == (player.fighter matches Some(f) && f.hp > 0),
{
    match player.fighter {
        Some(f) => f.hp > 0,
        None => false,
    }
}

/// A monster confused with `n` turns on its counter stays confused for
/// exactly `n + 1` turns, the counter going down by one each turn, and on the
/// turn after those it has the behaviour it had before the confusion.
pub proof fn lemma_confusion_round_trip(previous_ai: Ai, n: i32, k: nat)
    requires
        n >= 0,
        k <= n + 1,
    ensures
        ai_after(Ai::Confused { previous_ai: Box::new(previous_ai), num_turns: n }, k)
            == (Ai::Confused { previous_ai: Box::new(previous_ai), num_turns: (n - k) as i32 }),
        ai_after(
            Ai::Confused { previous_ai: Box::new(previous_ai), num_turns: n },
            (n + 2) as nat,
        ) == previous_ai,
{
    let start = Ai::Confused { previous_ai: Box::new(previous_ai), num_turns: n };
    lemma_ai_after_confused(previous_ai, n, k);
    lemma_ai_after_confused(previous_ai, n, (n + 1) as nat);
    lemma_ai_after_step(start, (n + 1) as nat);
}

/// The behaviour after `k` turns of confusion, for `k` up to `n + 1`.
proof fn lemma_ai_after_confused(previous_ai: Ai, n: i32, k: nat)
    requires
        n >= 0,
        k <= n + 1,
    ensures
        ai_after(Ai::Confused { previous_ai: Box::new(previous_ai), num_turns: n }, k)
            == (Ai::Confused { previous_ai: Box::new(previous_ai), num_turns: (n - k) as i32 }),
    decreases k,
{
    let start = Ai::Confused { previous_ai: Box::new(previous_ai), num_turns: n };
    if k > 0 {
        lemma_ai_after_confused(previous_ai, n, (k - 1) as nat);
        lemma_ai_after_step(start, (k - 1) as nat);
    }
}

/// One more turn after `k` turns is the step applied to the behaviour after
/// `k` turns.
proof fn lemma_ai_after_step(ai: Ai, k: nat)
    ensures
        ai_after(ai, k + 1) == next_ai(ai_after(ai, k)),
    decreases k,
{
    assert(ai_after(ai, k + 1) == ai_after(next_ai(ai), k));
    if k > 0 {
        lemma_ai_after_step(next_ai(ai), (k - 1) as nat);
        assert(ai_after(ai, k) == ai_after(next_ai(ai), (k - 1) as nat));
    } else {
        assert(ai_after(next_ai(ai), 0) == next_ai(ai));
    }
}

} // verus!
