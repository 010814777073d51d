use roguelike::carve::create_room;
use roguelike::color::Color;
use roguelike::entity::{Ai, DeathCallback, Fighter, Game, Item, Messages, Object};
use roguelike::fov::FovMap;
use roguelike::geometry::Rect;
use roguelike::grid::Grid;
use roguelike::items::{cast_confuse, cast_heal, cast_lightning, use_item, UseResult};

fn hall_game() -> Game {
    let mut map = Grid::walls(30, 30);
    create_room(Rect::new(0, 0, 29, 29), &mut map);
    Game { map, messages: Messages::new(), inventory: Vec::new() }
}

fn all_seen() -> FovMap {
    let mut fov = FovMap::new(30, 30);
    for x in 0..30 {
        for y in 0..30 {
            fov.set_visible(x, y, true);
        }
    }
    fov
}

fn hero(x: i32, y: i32, hp: i32) -> Object {
    let mut o = Object::new(x, y, '@', "player", Color::White, true);
    o.alive = true;
    o.fighter = Some(Fighter { max_hp: 30, hp, defense: 2, power: 5, on_death: DeathCallback::Player });
    o
}

fn beast(x: i32, y: i32, name: &str, hp: i32) -> Object {
    let mut o = Object::new(x, y, 'o', name, Color::DesaturatedGreen, true);
    o.alive = true;
    o.fighter = Some(Fighter { max_hp: hp, hp, defense: 0, power: 3, on_death: DeathCallback::Monster });
    o.ai = Some(Ai::Basic);
    o
}

fn thing(x: i32, y: i32, name: &str, kind: Item) -> Object {
    let mut o = Object::new(x, y, '!', name, Color::Violet, false);
    o.item = Some(kind);
    o
}

fn item_lines(game: &Game) -> Vec<(String, Color)> {
    game.messages.iter().to_vec()
}

#[test]
fn closest_monster_is_the_nearest_in_view_and_range() {
    let fov = all_seen();
    let objects = vec![hero(10, 10, 30), beast(14, 10, "far", 5), beast(10, 12, "near", 5)];
    assert_eq!(Object::closest_monster(&fov, &objects, 5), Some(2));
    assert_eq!(Object::closest_monster(&fov, &objects, 2), Some(2));
    assert_eq!(Object::closest_monster(&fov, &objects, 1), None);
    assert_eq!(Object::closest_monster(&fov, &objects, 0), None);
    assert_eq!(Object::closest_monster(&fov, &objects, -1), None);
    assert_eq!(Object::closest_monster(&fov, &objects, -5), None);
    assert_eq!(Object::closest_monster(&fov, &objects, i32::MAX), Some(2));
    assert_eq!(Object::closest_monster(&fov, &objects, i32::MIN), None);
}

#[test]
fn closest_monster_reaches_as_far_as_the_range_and_no_further() {
    let fov = all_seen();
    let objects = vec![hero(10, 10, 30), beast(15, 10, "edge", 5)];
    assert_eq!(Object::closest_monster(&fov, &objects, 5), Some(1));
    assert_eq!(Object::closest_monster(&fov, &objects, 4), None);
    let objects = vec![hero(10, 10, 30), beast(13, 14, "diagonal", 5)];
    assert_eq!(Object::closest_monster(&fov, &objects, 5), Some(1));
    assert_eq!(Object::closest_monster(&fov, &objects, 4), None);
    let objects = vec![hero(10, 10, 30), beast(15, 12, "beyond", 5)];
    assert_eq!(Object::closest_monster(&fov, &objects, 5), None);
    assert_eq!(Object::closest_monster(&fov, &objects, 6), Some(1));
    let objects = vec![hero(10, 10, 30), beast(15, 13, "further", 5)];
    assert_eq!(Object::closest_monster(&fov, &objects, 5), None);
    let objects = vec![hero(10, 10, 30), beast(15, 11, "close by", 5)];
    assert_eq!(Object::closest_monster(&fov, &objects, 5), None);
}

#[test]
fn a_range_of_nothing_reaches_the_player_s_own_tile() {
    let fov = all_seen();
    let mut ghost = beast(10, 10, "ghost", 5);
    ghost.blocks = false;
    let objects = vec![hero(10, 10, 30), beast(11, 10, "next", 5), ghost];
    assert_eq!(Object::closest_monster(&fov, &objects, 0), Some(2));
    assert_eq!(Object::closest_monster(&fov, &objects, -1), None);
    assert_eq!(Object::closest_monster(&fov, &objects, 1), Some(2));
}

#[test]
fn lightning_does_not_reach_past_its_range() {
    let fov = all_seen();
    let mut game = hall_game();
    game.inventory.push(thing(0, 0, "scroll of lightning bolt", Item::Lightning));
    let mut objects = vec![hero(10, 10, 30), beast(15, 12, "orc", 10)];
    assert_eq!(Object::closest_monster(&fov, &objects, 5), None);
    assert_eq!(use_item(0, &fov, &mut game, &mut objects), Some(UseResult::Cancelled));
    assert_eq!(game.inventory.len(), 1);
    assert_eq!(objects[1].fighter.unwrap().hp, 10);
    assert_eq!(
        item_lines(&game),
        vec![("No enemy is close enough to strike.".to_string(), Color::Red)]
    );
    objects[1].set_pos(14, 13);
    assert_eq!(cast_lightning(&fov, &mut game, &mut objects), UseResult::UsedUp);
    assert_eq!(objects[1].name, "remains of orc");
}

#[test]
fn confusion_does_not_reach_past_its_range() {
    let fov = all_seen();
    let mut game = hall_game();
    let mut objects = vec![hero(10, 10, 30), beast(18, 11, "orc", 10)];
    assert_eq!(cast_confuse(&fov, &mut game, &mut objects), UseResult::Cancelled);
    assert_eq!(objects[1].ai, Some(Ai::Basic));
    objects[1].set_pos(18, 10);
    assert_eq!(cast_confuse(&fov, &mut game, &mut objects), UseResult::UsedUp);
}

#[test]
fn closest_monster_takes_the_first_of_equals() {
    let fov = all_seen();
    let objects = vec![
        hero(10, 10, 30),
        beast(13, 10, "east", 5),
        beast(10, 13, "south", 5),
        beast(7, 10, "west", 5),
    ];
    assert_eq!(Object::closest_monster(&fov, &objects, 5), Some(1));
}

#[test]
fn closest_monster_skips_what_is_out_of_view_or_no_monster() {
    let mut fov = all_seen();
    fov.set_visible(11, 10, false);
    let mut statue = beast(10, 11, "statue", 5);
    statue.ai = None;
    let mut spirit = beast(9, 10, "spirit", 5);
    spirit.fighter = None;
    let objects = vec![hero(10, 10, 30), beast(11, 10, "hidden", 5), statue, spirit, beast(13, 13, "seen", 5)];
    assert_eq!(Object::closest_monster(&fov, &objects, 8), Some(4));
    let mut twin = hero(10, 10, 30);
    twin.ai = Some(Ai::Basic);
    assert_eq!(Object::closest_monster(&fov, &vec![twin], 8), None);
}

#[test]
fn pick_up_moves_the_item_into_the_inventory() {
    let mut game = hall_game();
    let mut objects = vec![
        hero(5, 5, 30),
        beast(6, 6, "orc", 5),
        thing(5, 5, "healing potion", Item::Heal),
        beast(7, 7, "troll", 5),
    ];
    Object::pick_item_up(2, &mut game, &mut objects);
    assert_eq!(objects.len(), 3);
    assert_eq!(objects[0].name, "player");
    assert_eq!(objects[1].name, "orc");
    assert_eq!(objects[2].name, "troll");
    assert_eq!(game.inventory.len(), 1);
    assert_eq!(game.inventory[0].name, "healing potion");
    assert_eq!(game.inventory[0].item, Some(Item::Heal));
    assert_eq!(
        item_lines(&game),
        vec![("You picked up a healing potion!".to_string(), Color::Green)]
    );
}

#[test]
fn inventory_holds_twenty_six_items_and_no_more() {
    let mut game = hall_game();
    let mut objects = vec![hero(5, 5, 30)];
    for n in 0..27 {
        objects.push(thing(5, 5, &format!("scroll {}", n), Item::Confuse));
    }
    for n in 0..26 {
        Object::pick_item_up(1, &mut game, &mut objects);
        assert_eq!(game.inventory.len(), n + 1);
    }
    assert_eq!(objects.len(), 2);
    assert_eq!(game.messages.len(), 26);
    Object::pick_item_up(1, &mut game, &mut objects);
    assert_eq!(game.inventory.len(), 26);
    assert_eq!(objects.len(), 2);
    assert_eq!(objects[1].name, "scroll 26");
    assert_eq!(objects[1].pos(), (5, 5));
    assert_eq!(game.inventory[25].name, "scroll 25");
    assert_eq!(
        item_lines(&game)[26],
        ("Your inventory is full. You cannot pick up scroll 26.".to_string(), Color::Red)
    );
}

#[test]
fn heal_raises_hp_by_four() {
    let mut game = hall_game();
    let mut objects = vec![hero(5, 5, 20)];
    assert_eq!(cast_heal(&mut game, &mut objects), UseResult::UsedUp);
    assert_eq!(objects[0].fighter.unwrap().hp, 24);
    assert_eq!(
        item_lines(&game),
        vec![("Your wounds start to feel better!".to_string(), Color::LightViolet)]
    );
}

#[test]
fn heal_does_not_go_over_the_maximum() {
    let mut game = hall_game();
    let mut objects = vec![hero(5, 5, 29)];
    assert_eq!(cast_heal(&mut game, &mut objects), UseResult::UsedUp);
    assert_eq!(objects[0].fighter.unwrap().hp, 30);
}

#[test]
fn heal_at_full_health_is_cancelled() {
    let mut game = hall_game();
    let mut objects = vec![hero(5, 5, 30)];
    assert_eq!(cast_heal(&mut game, &mut objects), UseResult::Cancelled);
    assert_eq!(objects[0].fighter.unwrap().hp, 30);
    assert_eq!(
        item_lines(&game),
        vec![("You are already at full health.".to_string(), Color::Red)]
    );
}

#[test]
fn heal_without_fighter_is_cancelled_silently() {
    let mut game = hall_game();
    let mut objects = vec![Object::new(5, 5, '@', "player", Color::White, true)];
    assert_eq!(cast_heal(&mut game, &mut objects), UseResult::Cancelled);
    assert_eq!(game.messages.len(), 0);
}

#[test]
fn lightning_strikes_the_nearest_monster() {
    let fov = all_seen();
    let mut game = hall_game();
    let mut objects = vec![hero(10, 10, 30), beast(13, 10, "orc", 10), beast(11, 10, "troll", 50)];
    assert_eq!(cast_lightning(&fov, &mut game, &mut objects), UseResult::UsedUp);
    assert_eq!(objects[2].fighter.unwrap().hp, 10);
    assert_eq!(objects[1].fighter.unwrap().hp, 10);
    assert_eq!(
        item_lines(&game),
        vec![(
            "A lightning bolt strikes the troll with a loud thunder! The damage is 40 hit points."
                .to_string(),
            Color::LightBlue
        )]
    );
}

#[test]
fn lightning_kills_and_ignores_defense() {
    let fov = all_seen();
    let mut game = hall_game();
    let mut armoured = beast(11, 10, "orc", 40);
    armoured.fighter = Some(Fighter { defense: 100, ..armoured.fighter.unwrap() });
    let mut objects = vec![hero(10, 10, 30), armoured];
    assert_eq!(cast_lightning(&fov, &mut game, &mut objects), UseResult::UsedUp);
    assert_eq!(objects[1].name, "remains of orc");
    assert!(!objects[1].alive);
    assert_eq!(item_lines(&game)[1], ("orc is dead!".to_string(), Color::Orange));
}

#[test]
fn lightning_without_target_is_cancelled() {
    let mut fov = all_seen();
    fov.set_visible(12, 10, false);
    let mut game = hall_game();
    game.inventory.push(thing(0, 0, "scroll of lightning bolt", Item::Lightning));
    let mut objects = vec![hero(10, 10, 30), beast(20, 10, "far", 10), beast(12, 10, "hidden", 10)];
    assert_eq!(use_item(0, &fov, &mut game, &mut objects), Some(UseResult::Cancelled));
    assert_eq!(game.inventory.len(), 1);
    assert_eq!(game.inventory[0].name, "scroll of lightning bolt");
    assert_eq!(objects[1].fighter.unwrap().hp, 10);
    assert_eq!(objects[2].fighter.unwrap().hp, 10);
    assert_eq!(
        item_lines(&game),
        vec![("No enemy is close enough to strike.".to_string(), Color::Red)]
    );
}

#[test]
fn confuse_wraps_the_behaviour_of_the_nearest_monster() {
    let fov = all_seen();
    let mut game = hall_game();
    let mut objects = vec![hero(10, 10, 30), beast(18, 10, "orc", 10), beast(19, 10, "troll", 10)];
    assert_eq!(cast_confuse(&fov, &mut game, &mut objects), UseResult::UsedUp);
    assert_eq!(
        objects[1].ai,
        Some(Ai::Confused { previous_ai: Box::new(Ai::Basic), num_turns: 10 })
    );
    assert_eq!(objects[2].ai, Some(Ai::Basic));
    assert_eq!(
        item_lines(&game),
        vec![(
            "The eyes of orc look vacant, as he starts to stumble around!".to_string(),
            Color::LightGreen
        )]
    );
    assert_eq!(cast_confuse(&fov, &mut game, &mut objects), UseResult::UsedUp);
    assert_eq!(
        objects[1].ai,
        Some(Ai::Confused {
            previous_ai: Box::new(Ai::Confused { previous_ai: Box::new(Ai::Basic), num_turns: 10 }),
            num_turns: 10
        })
    );
}

#[test]
fn confuse_without_target_is_cancelled() {
    let fov = all_seen();
    let mut game = hall_game();
    let mut objects = vec![hero(10, 10, 30), beast(19, 10, "orc", 10)];
    assert_eq!(cast_confuse(&fov, &mut game, &mut objects), UseResult::Cancelled);
    assert_eq!(objects[1].ai, Some(Ai::Basic));
    assert_eq!(
        item_lines(&game),
        vec![("No enemy is close enough to strike.".to_string(), Color::Red)]
    );
}

#[test]
fn a_used_item_leaves_the_inventory() {
    let fov = all_seen();
    let mut game = hall_game();
    game.inventory.push(thing(0, 0, "a", Item::Confuse));
    game.inventory.push(thing(0, 0, "b", Item::Heal));
    game.inventory.push(thing(0, 0, "c", Item::Lightning));
    let mut objects = vec![hero(10, 10, 20)];
    assert_eq!(use_item(1, &fov, &mut game, &mut objects), Some(UseResult::UsedUp));
    assert_eq!(objects[0].fighter.unwrap().hp, 24);
    assert_eq!(game.inventory.len(), 2);
    assert_eq!(game.inventory[0].name, "a");
    assert_eq!(game.inventory[1].name, "c");
}

#[test]
fn a_potion_at_full_health_is_kept() {
    let fov = all_seen();
    let mut game = hall_game();
    game.inventory.push(thing(0, 0, "healing potion", Item::Heal));
    let mut objects = vec![hero(10, 10, 30)];
    assert_eq!(use_item(0, &fov, &mut game, &mut objects), Some(UseResult::Cancelled));
    assert_eq!(game.inventory.len(), 1);
    assert_eq!(game.inventory[0].name, "healing potion");
    assert_eq!(
        item_lines(&game),
        vec![("You are already at full health.".to_string(), Color::Red)]
    );
}

#[test]
fn a_cancelled_use_without_a_reason_gets_the_plain_notice() {
    let fov = all_seen();
    let mut game = hall_game();
    game.inventory.push(thing(0, 0, "healing potion", Item::Heal));
    let mut objects = vec![Object::new(5, 5, '@', "player", Color::White, true)];
    assert_eq!(use_item(0, &fov, &mut game, &mut objects), Some(UseResult::Cancelled));
    assert_eq!(game.inventory.len(), 1);
    assert_eq!(item_lines(&game), vec![("Cancelled".to_string(), Color::White)]);
}

#[test]
fn what_is_no_item_cannot_be_used() {
    let fov = all_seen();
    let mut game = hall_game();
    game.inventory.push(beast(0, 0, "orc", 5));
    let mut objects = vec![hero(10, 10, 20)];
    assert_eq!(use_item(0, &fov, &mut game, &mut objects), None);
    assert_eq!(game.inventory.len(), 1);
    assert_eq!(game.messages.len(), 0);
    assert_eq!(objects[0].fighter.unwrap().hp, 20);
}

#[test]
fn fov_map_answers_for_every_position() {
    let mut fov = FovMap::new(3, 2);
    assert!(!fov.is_in_fov(1, 1));
    fov.set_visible(1, 1, true);
    fov.set_visible(5, 5, true);
    fov.set_visible(-1, 0, true);
    assert!(fov.is_in_fov(1, 1));
    assert!(!fov.is_in_fov(0, 1));
    assert!(!fov.is_in_fov(5, 5));
    assert!(!fov.is_in_fov(-1, 0));
    assert!(!fov.is_in_fov(3, 0));
    assert!(!fov.is_in_fov(0, 2));
    fov.set_visible(1, 1, false);
    assert!(!fov.is_in_fov(1, 1));
    let empty = FovMap::new(0, 0);
    assert!(!empty.is_in_fov(0, 0));
}
