//! One turn of the game: what a key press asks for, what the player then
//! does, and the round of the monsters that follows.

use vstd::prelude::*;
use vstd::string::StrSliceExecFns;
use crate::ai::{turn_lines, turn_taken};
use crate::color::Color;
use crate::combat::{attack_applied, attack_lines, logged};
use crate::entity::{Game, Object, INVENTORY_CAPACITY, PLAYER};
use crate::fov::FovMap;
use crate::grid::Grid;
use crate::items::{inventory_full_text, picked_up_text};
use crate::movement::{first_fighter_at, move_result};

verus! {

/// What the player's input came to.
#[derive(Clone, Copy, Debug, PartialEq, Eq, Structural)]
pub enum PlayerAction {
    /// The player acted; the monsters get their round.
    TookTurn,
    /// Nothing that costs a turn happened.
    DidNotTakeTurn,
    /// The player wants to leave the game.
    Exit,
}

/// The kinds of key the game tells apart.
#[derive(Clone, Copy, Debug, PartialEq, Eq, Structural)]
pub enum KeyCode {
    Up,
    Down,
    Left,
    Right,
    /// A key that types text; the text says which.
    Text,
    Enter,
    Escape,
    /// Any other key, or none.
    Other,
}

/// One key press.
#[derive(Debug)]
pub struct Key {
    pub code: KeyCode,
    /// What the key types, for a `Text` key.
    pub text: String,
    /// Whether an Alt key was held.
    pub alt: bool,
}

/// What a key press asks for.
#[derive(Clone, Copy, Debug, PartialEq, Eq, Structural)]
pub enum Intent {
    /// Step, or attack, in the given direction.
    Step { dx: i32, dy: i32 },
    /// Pick up what lies under the player.
    PickUp,
    /// Show the inventory and use what is chosen there.
    OpenInventory,
    /// Switch between window and full screen.
    ToggleFullscreen,
    /// Leave the game.
    Quit,
    /// Nothing.
    Idle,
}

/// What a letter asks of a living player.
pub open spec fn letter_intent(c: char) -> Intent {
    if c == 'k' {
        Intent::Step { dx: 0, dy: -1i32 }
    } else if c == 'j' {
        Intent::Step { dx: 0, dy: 1 }
    } else if c == 'h' {
        Intent::Step { dx: -1i32, dy: 0 }
    } else if c == 'l' {
        Intent::Step { dx: 1, dy: 0 }
    } else if c == 'y' {
        Intent::Step { dx: -1i32, dy: -1i32 }
    } else if c == 'u' {
        Intent::Step { dx: 1, dy: -1i32 }
    } else if c == 'b' {
        Intent::Step { dx: -1i32, dy: 1 }
    } else if c == 'n' {
        Intent::Step { dx: 1, dy: 1 }
    } else if c == 'g' {
        Intent::PickUp
    } else if c == 'i' {
        Intent::OpenInventory
    } else {
        Intent::Idle
    }
}

/// What a key press asks for. Only a living player moves, picks up or opens
/// the inventory; Alt+Enter and Escape work at any time.
pub open spec fn intent_of(code: KeyCode, text: Seq<char>, alt: bool, player_alive: bool) -> Intent {
    match code {
        KeyCode::Up => if player_alive {
            Intent::Step { dx: 0, dy: -1i32 }
        } else {
            Intent::Idle
        },
        KeyCode::Down => if player_alive {
            Intent::Step { dx: 0, dy: 1 }
        } else {
            Intent::Idle
        },
        KeyCode::Left => if player_alive {
            Intent::Step { dx: -1i32, dy: 0 }
        } else {
            Intent::Idle
        },
        KeyCode::Right => if player_alive {
            Intent::Step { dx: 1, dy: 0 }
        } else {
            Intent::Idle
        },
        KeyCode::Text => if player_alive && text.len() == 1 {
            letter_intent(text[0])
        } else {
            Intent::Idle
        },
        KeyCode::Enter => if alt {
            Intent::ToggleFullscreen
        } else {
            Intent::Idle
        },
        KeyCode::Escape => Intent::Quit,
        KeyCode::Other => Intent::Idle,
    }
}

/// What an intent comes to for the turn order: only a step takes a turn.
pub open spec fn action_of(intent: Intent) -> PlayerAction {
    match intent {
        Intent::Step { dx, dy } => PlayerAction::TookTurn,
        Intent::Quit => PlayerAction::Exit,
        _ => PlayerAction::DidNotTakeTurn,
    }
}

/// Index `i` is the first entity other than the player that is an item and
/// lies on the player's tile.
pub open spec fn is_first_item_here(objects: Seq<Object>, i: int) -> bool {
    &&& 0 < i < objects.len()
    &&& objects[i].item is Some
    &&& objects[i].is_at(objects[0].x as int, objects[0].y as int)
    &&& forall|j: int|
        0 < j < i ==> !((#[trigger] objects[j]).item is Some && objects[j].is_at(
            objects[0].x as int,
            objects[0].y as int,
        ))
}

/// The first item under the player, if there is one.
pub open spec fn first_item_here(objects: Seq<Object>) -> Option<int> {
    if exists|i: int| is_first_item_here(objects, i) {
        Some(choose|i: int| is_first_item_here(objects, i))
    } else {
        None
    }
}

/// What carrying out an intent does to the session and the entities. A step
/// moves the player or attacks; picking up moves the first item under the
/// player into the inventory or reports that it is full; everything else
/// leaves the world as it is.
pub open spec fn intent_applied(
    intent: Intent,
    game: Game,
    objects: Seq<Object>,
    game_after: Game,
    objects_after: Seq<Object>,
) -> bool {
    match intent {
        Intent::Step { dx, dy } => match first_fighter_at(
            objects,
            objects[0].x + dx,
            objects[0].y + dy,
        ) {
            Some(t) => {
                &&& objects_after == objects.update(t, objects_after[t])
                &&& attack_applied(objects[0], objects[t], objects_after[t])
                &&& logged(game, game_after, attack_lines(objects[0], objects[t]))
            },
            None => {
                &&& objects_after == move_result(game.map, objects, 0, dx as int, dy as int)
                &&& logged(game, game_after, Seq::empty())
            },
        },
        Intent::PickUp => match first_item_here(objects) {
            Some(i) => if game.inventory@.len() >= INVENTORY_CAPACITY {
                &&& objects_after == objects
                &&& logged(game, game_after, seq![(inventory_full_text(objects[i].name@), Color::Red)])
            } else {
                &&& objects_after == objects.remove(i)
                &&& game_after.map == game.map
                &&& game_after.inventory@ == game.inventory@.push(objects[i])
                &&& game_after.messages.log() == game.messages.log() + seq![
                    (picked_up_text(objects[i].name@), Color::Green),
                ]
            },
            None => objects_after == objects && logged(game, game_after, Seq::empty()),
        },
        _ => objects_after == objects && logged(game, game_after, Seq::empty()),
    }
}

/// The one character of `text`, if it has exactly one.
fn single_char(text: &str) -> (c: Option<char>)
    ensures
        match c {
            Some(c) => text@ == seq![c],
            None => text@.len() != 1,
        },
{
    if text.unicode_len() == 1 {
        let c = text.get_char(0);
        assert(text@ =~= seq![c]);
        Some(c)
    } else {
        None
    }
}

/// Reads a letter key.
fn decode_letter(c: char) -> (intent: Intent)
    ensures
        intent == letter_intent(c),
{
    if c == 'k' {
        Intent::Step { dx: 0, dy: -1i32 }
    } else if c == 'j' {
        Intent::Step { dx: 0, dy: 1 }
    } else if c == 'h' {
        Intent::Step { dx: -1i32, dy: 0 }
    } else if c == 'l' {
        Intent::Step { dx: 1, dy: 0 }
    } else if c == 'y' {
        Intent::Step { dx: -1i32, dy: -1i32 }
    } else if c == 'u' {
        Intent::Step { dx: 1, dy: -1i32 }
    } else if c == 'b' {
        Intent::Step { dx: -1i32, dy: 1 }
    } else if c == 'n' {
        Intent::Step { dx: 1, dy: 1 }
    } else if c == 'g' {
        Intent::PickUp
    } else if c == 'i' {
        Intent::OpenInventory
    } else {
        Intent::Idle
    }
}

/// Reads a key press.
pub fn decode_key(key: &Key, player_alive: bool) -> (intent: Intent)
    ensures
        intent == intent_of(key.code, key.text@, key.alt, player_alive),
{
    match key.code {
        KeyCode::Up => if player_alive {
            Intent::Step { dx: 0, dy: -1i32 }
        } else {
            Intent::Idle
        },
        KeyCode::Down => if player_alive {
            Intent::Step { dx: 0, dy: 1 }
        } else {
            Intent::Idle
        },
        KeyCode::Left => if player_alive {
            Intent::Step { dx: -1i32, dy: 0 }
        } else {
            Intent::Idle
        },
        KeyCode::Right => if player_alive {
            Intent::Step { dx: 1, dy: 0 }
        } else {
            Intent::Idle
        },
        KeyCode::Text => {
            if !player_alive {
                return Intent::Idle;
            }
            match single_char(key.text.as_str()) {
                Some(c) => decode_letter(c),
                None => Intent::Idle,
            }
        },
        KeyCode::Enter => if key.alt {
            Intent::ToggleFullscreen
        } else {
            Intent::Idle
        },
        KeyCode::Escape => Intent::Quit,
        KeyCode::Other => Intent::Idle,
    }
}

/// Finds the first item under the player.
pub fn find_item_here(objects: &[Object]) -> (found: Option<usize>)
    requires
        objects@.len() > 0,
    ensures
        match found {
            Some(i) => first_item_here(objects@) == Some(i as int),
            None => first_item_here(objects@) is None,
        },
        found matches Some(i) ==> is_first_item_here(objects@, i as int),
{
    let (x, y) = objects[PLAYER].pos();
    let mut i: usize = 1;
    while i < objects.len()
        invariant
            1 <= i <= objects@.len(),
            x == objects@[0].x,
            y == objects@[0].y,
            forall|j: int|
                0 < j < i ==> !((#[trigger] objects@[j]).item is Some && objects@[j].is_at(
                    x as int,
                    y as int,
                )),
        decreases objects@.len() - i,
    {
        if objects[i].x == x && objects[i].y == y && objects[i].item.is_some() {
            proof {
                assert(is_first_item_here(objects@, i as int));
                let c = choose|k: int| is_first_item_here(objects@, k);
                if c < i {
                    assert(!(objects@[c].item is Some && objects@[c].is_at(x as int, y as int)));
                } else if i < c {
                    assert(!(objects@[i as int].item is Some && objects@[i as int].is_at(
                        x as int,
                        y as int,
                    )));
                }
            }
            return Some(i);
        }
        i = i + 1;
    }
    assert forall|k: int| !is_first_item_here(objects@, k) by {
        if 0 < k < objects@.len() {
            assert(!(objects@[k].item is Some && objects@[k].is_at(x as int, y as int)));
        }
    }
    None
}

/// Carries out what the player asked for, as far as it happens in the world.
/// Showing the inventory and switching to full screen are for the caller to
/// do; they change nothing here.
pub fn apply_intent(intent: Intent, game: &mut Game, objects: &mut Vec<Object>) -> (action:
    PlayerAction)
    requires
        old(game).map.wf(),
        old(objects)@.len() > 0,
        intent matches Intent::Step { dx, dy } ==> !(old(objects)@[0].fighter is Some && dx == 0 && dy
            == 0),
    ensures
        action == action_of(intent),
        intent_applied(intent, *old(game), old(objects)@, *final(game), final(objects)@),
        final(objects)@.len() > 0,
        final(game).map == old(game).map,
{
    match intent {
        Intent::Step { dx, dy } => {
            Object::player_move_or_attack(dx, dy, game, objects.as_mut_slice());
            PlayerAction::TookTurn
        },
        Intent::PickUp => {
            let item_id = find_item_here(objects.as_slice());
            match item_id {
                Some(item_id) => {
                    Object::pick_item_up(item_id, game, objects);
                    assert(game.messages.log() =~= old(game).messages.log() + seq![
                        (
                            if old(game).inventory@.len() >= INVENTORY_CAPACITY {
                                inventory_full_text(old(objects)@[item_id as int].name@)
                            } else {
                                picked_up_text(old(objects)@[item_id as int].name@)
                            },
                            if old(game).inventory@.len() >= INVENTORY_CAPACITY {
                                Color::Red
                            } else {
                                Color::Green
                            },
                        ),
                    ]);
                },
                None => {
                    assert(game.messages.log() + Seq::<(Seq<char>, Color)>::empty()
                        =~= game.messages.log());
                },
            }
            PlayerAction::DidNotTakeTurn
        },
        Intent::Quit => {
            assert(game.messages.log() + Seq::<(Seq<char>, Color)>::empty()
                =~= game.messages.log());
            PlayerAction::Exit
        },
        _ => {
            assert(game.messages.log() + Seq::<(Seq<char>, Color)>::empty()
                =~= game.messages.log());
            PlayerAction::DidNotTakeTurn
        },
    }
}

/// Reads a key press and carries out what it asks for. The intent is handed
/// back so that the caller can show the inventory or switch to full screen
/// where that was asked.
pub fn handle_keys(key: &Key, game: &mut Game, objects: &mut Vec<Object>) -> (outcome: (
    PlayerAction,
    Intent,
))
    requires
        old(game).map.wf(),
        old(objects)@.len() > 0,
    ensures
        outcome.1 == intent_of(key.code, key.text@, key.alt, old(objects)@[0].alive),
        outcome.0 == action_of(outcome.1),
        intent_applied(outcome.1, *old(game), old(objects)@, *final(game), final(objects)@),
        final(objects)@.len() > 0,
        final(game).map == old(game).map,
{
    let player_alive = objects[PLAYER].alive;
    let intent = decode_key(key, player_alive);
    let action = apply_intent(intent, game, objects);
    (action, intent)
}

/// How the entities and the log change when the entities from index `from`
/// on take their turns one after the other, in list order.
pub open spec fn round_from(
    map: Grid,
    fov: FovMap,
    before: Seq<Object>,
    log_before: Seq<(Seq<char>, Color)>,
    after: Seq<Object>,
    log_after: Seq<(Seq<char>, Color)>,
    from: int,
) -> bool
    decreases before.len() - from,
{
    if from >= before.len() {
        after == before && log_after == log_before
    } else {
        exists|mid: Seq<Object>, dx: int, dy: int|
            {
                &&& -1 <= dx <= 1
                &&& -1 <= dy <= 1
                &&& mid.len() == before.len()
                &&& #[trigger] turn_taken(map, fov, before, mid, from, dx, dy)
                &&& round_from(
                    map,
                    fov,
                    mid,
                    log_before + turn_lines(fov, before, from),
                    after,
                    log_after,
                    from + 1,
                )
            }
    }
}

/// Lets the entities from index `start` on take their turns, in list order.
pub fn monsters_act_from(start: usize, fov: &FovMap, game: &mut Game, objects: &mut [Object])
    requires
        fov.wf(),
        old(game).map.wf(),
        1 <= start,
    ensures
        final(objects)@.len() == old(objects)@.len(),
        final(game).map == old(game).map,
        final(game).inventory@ == old(game).inventory@,
        round_from(
            old(game).map,
            *fov,
            old(objects)@,
            old(game).messages.log(),
            final(objects)@,
            final(game).messages.log(),
            start as int,
        ),
    decreases old(objects)@.len() - start,
{
    if start < objects.len() {
        Object::ai_take_turn(start, fov, game, objects);
        let ghost mid = objects@;
        let ghost log_mid = game.messages.log();
        monsters_act_from(start + 1, fov, game, objects);
        proof {
            let (dx, dy) = choose|dx: int, dy: int|
                -1 <= dx <= 1 && -1 <= dy <= 1 && #[trigger] turn_taken(
                    old(game).map,
                    *fov,
                    old(objects)@,
                    mid,
                    start as int,
                    dx,
                    dy,
                );
            assert(log_mid == old(game).messages.log() + turn_lines(
                *fov,
                old(objects)@,
                start as int,
            ));
        }
    }
}

/// The round of the monsters after the player's action: every entity but the
/// player takes its turn, in list order, provided the player took a turn and
/// is alive. An action that was no turn, or that ends the game, gives the
/// monsters no round.
pub fn monsters_turn(action: PlayerAction, fov: &FovMap, game: &mut Game, objects: &mut [Object])
    requires
        fov.wf(),
        old(game).map.wf(),
        old(objects)@.len() > 0,
    ensures
        final(objects)@.len() == old(objects)@.len(),
        final(game).map == old(game).map,
        final(game).inventory@ == old(game).inventory@,
        if old(objects)@[0].alive && action == PlayerAction::TookTurn {
            round_from(
                old(game).map,
                *fov,
                old(objects)@,
                old(game).messages.log(),
                final(objects)@,
                final(game).messages.log(),
                1,
            )
        } else {
            final(objects)@ == old(objects)@ && final(game).messages.log() == old(
                game,
            ).messages.log()
        },
{
    if objects[PLAYER].alive && action == PlayerAction::TookTurn {
        monsters_act_from(1, fov, game, objects);
    }
}

} // verus!
