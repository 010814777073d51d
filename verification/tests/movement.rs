use roguelike::carve::create_room;
use roguelike::color::Color;
use roguelike::entity::{DeathCallback, Fighter, Game, Messages, Object};
use roguelike::geometry::Rect;
use roguelike::grid::Grid;
use roguelike::movement::{find_fighter_at, mut_two};

fn arena() -> Grid {
    let mut map = Grid::walls(12, 12);
    create_room(Rect::new(0, 0, 11, 11), &mut map);
    map
}

fn arena_game() -> Game {
    Game { map: arena(), messages: Messages::new(), inventory: Vec::new() }
}

fn walker(x: i32, y: i32, name: &str, blocks: bool) -> Object {
    Object::new(x, y, 'w', name, Color::White, blocks)
}

fn brawler(x: i32, y: i32, name: &str, hp: i32, defense: i32, power: i32) -> Object {
    let mut o = Object::new(x, y, 'b', name, Color::White, true);
    o.alive = true;
    o.fighter = Some(Fighter { max_hp: hp, hp, defense, power, on_death: DeathCallback::Monster });
    o
}

#[test]
fn mut_two_gives_both_elements() {
    let mut v = vec![10, 20, 30, 40];
    {
        let (a, b) = mut_two(3, 1, &mut v);
        assert_eq!((*a, *b), (40, 20));
        *a = 41;
        *b = 21;
    }
    {
        let (a, b) = mut_two(0, 2, &mut v);
        assert_eq!((*a, *b), (10, 30));
        *a += 1;
        *b += 1;
    }
    assert_eq!(v, vec![11, 21, 31, 41]);
}

#[test]
fn is_blocked_sees_walls_edges_and_blocking_entities() {
    let map = arena();
    let objects = vec![walker(3, 3, "guard", true), walker(4, 4, "potion", false)];
    assert!(Object::is_blocked(0, 0, &map, &objects));
    assert!(Object::is_blocked(11, 5, &map, &objects));
    assert!(Object::is_blocked(-1, 5, &map, &objects));
    assert!(Object::is_blocked(5, 12, &map, &objects));
    assert!(Object::is_blocked(i32::MAX, i32::MIN, &map, &objects));
    assert!(Object::is_blocked(3, 3, &map, &objects));
    assert!(!Object::is_blocked(4, 4, &map, &objects));
    assert!(!Object::is_blocked(5, 5, &map, &objects));
}

#[test]
fn move_by_moves_onto_a_free_tile() {
    let map = arena();
    let mut objects = vec![walker(3, 3, "a", true), walker(8, 8, "b", true)];
    Object::move_by(0, 1, -1, &map, &mut objects);
    assert_eq!(objects[0].pos(), (4, 2));
    assert_eq!(objects[1].pos(), (8, 8));
    Object::move_by(1, -2, 0, &map, &mut objects);
    assert_eq!(objects[1].pos(), (6, 8));
}

#[test]
fn move_by_into_a_wall_is_a_no_op() {
    let map = arena();
    let mut objects = vec![walker(1, 1, "a", true)];
    Object::move_by(0, -1, 0, &map, &mut objects);
    assert_eq!(objects[0].pos(), (1, 1));
    Object::move_by(0, 0, -1, &map, &mut objects);
    assert_eq!(objects[0].pos(), (1, 1));
    Object::move_by(0, -5, -5, &map, &mut objects);
    assert_eq!(objects[0].pos(), (1, 1));
    Object::move_by(0, i32::MAX, i32::MAX, &map, &mut objects);
    assert_eq!(objects[0].pos(), (1, 1));
    Object::move_by(0, i32::MIN, 0, &map, &mut objects);
    assert_eq!(objects[0].pos(), (1, 1));
}

#[test]
fn move_by_onto_a_blocking_entity_is_a_no_op() {
    let map = arena();
    let mut objects = vec![walker(3, 3, "a", true), walker(4, 3, "b", true), walker(3, 4, "c", false)];
    Object::move_by(0, 1, 0, &map, &mut objects);
    assert_eq!(objects[0].pos(), (3, 3));
    Object::move_by(0, 0, 1, &map, &mut objects);
    assert_eq!(objects[0].pos(), (3, 4));
}

#[test]
fn move_by_nothing_keeps_the_position() {
    let map = arena();
    let mut objects = vec![walker(3, 3, "a", true), walker(5, 5, "b", false)];
    Object::move_by(0, 0, 0, &map, &mut objects);
    Object::move_by(1, 0, 0, &map, &mut objects);
    assert_eq!(objects[0].pos(), (3, 3));
    assert_eq!(objects[1].pos(), (5, 5));
}

#[test]
fn move_towards_steps_in_the_nearest_of_eight_directions() {
    let map = arena();
    let cases = [
        ((9, 5), (6, 5)),
        ((1, 5), (4, 5)),
        ((5, 9), (5, 6)),
        ((5, 1), (5, 4)),
        ((9, 9), (6, 6)),
        ((1, 1), (4, 4)),
        ((9, 7), (6, 5)),
        ((9, 8), (6, 6)),
        ((7, 9), (5, 6)),
        ((8, 9), (6, 6)),
        ((6, 7), (5, 6)),
        ((1, 4), (4, 5)),
        ((2, 3), (4, 4)),
    ];
    for (target, expected) in cases {
        let mut objects = vec![walker(5, 5, "a", true)];
        Object::move_towards(0, target.0, target.1, &map, &mut objects);
        assert_eq!(objects[0].pos(), expected, "toward {:?}", target);
    }
}

#[test]
fn move_towards_agrees_with_rounding_the_unit_vector() {
    let mut map = Grid::walls(40, 40);
    create_room(Rect::new(0, 0, 39, 39), &mut map);
    for tx in 1..39 {
        for ty in 1..39 {
            let mut objects = vec![walker(20, 20, "a", false)];
            Object::move_towards(0, tx, ty, &map, &mut objects);
            let dx = (tx - 20) as f32;
            let dy = (ty - 20) as f32;
            let distance = (dx * dx + dy * dy).sqrt();
            let expected = if distance == 0.0 {
                (20, 20)
            } else {
                (20 + (dx / distance).round() as i32, 20 + (dy / distance).round() as i32)
            };
            assert_eq!(objects[0].pos(), expected);
        }
    }
}

#[test]
fn move_towards_its_own_tile_stays() {
    let map = arena();
    let mut objects = vec![walker(5, 5, "a", true)];
    Object::move_towards(0, 5, 5, &map, &mut objects);
    assert_eq!(objects[0].pos(), (5, 5));
    let mut objects = vec![walker(5, 5, "a", false)];
    Object::move_towards(0, 5, 5, &map, &mut objects);
    assert_eq!(objects[0].pos(), (5, 5));
}

#[test]
fn move_towards_a_far_target_does_not_overflow() {
    let map = arena();
    let mut objects = vec![walker(5, 5, "a", true)];
    Object::move_towards(0, i32::MAX, i32::MIN, &map, &mut objects);
    assert_eq!(objects[0].pos(), (6, 4));
    objects[0].set_pos(i32::MIN, i32::MAX);
    Object::move_towards(0, i32::MAX, i32::MIN, &map, &mut objects);
    assert_eq!(objects[0].pos(), (i32::MIN, i32::MAX));
}

#[test]
fn distance_squared_is_the_sum_of_squares() {
    let a = walker(1, 2, "a", true);
    let b = walker(4, 6, "b", true);
    assert_eq!(a.distance_squared_to(&b), 25);
    assert_eq!(b.distance_squared_to(&a), 25);
    assert_eq!(a.distance_squared_to(&a), 0);
    let far = walker(i32::MAX, i32::MIN, "far", true);
    let near = walker(i32::MIN, i32::MAX, "near", true);
    let side: i128 = (1i128 << 32) - 1;
    assert_eq!(far.distance_squared_to(&near), 2 * side * side);
}

#[test]
fn find_fighter_at_takes_the_first() {
    let objects = vec![
        walker(3, 3, "a", true),
        brawler(4, 4, "b", 5, 0, 1),
        brawler(4, 4, "c", 5, 0, 1),
    ];
    assert_eq!(find_fighter_at(&objects, 4, 4), Some(1));
    assert_eq!(find_fighter_at(&objects, 3, 3), None);
    assert_eq!(find_fighter_at(&objects, 1 << 40, 4), None);
}

#[test]
fn player_moves_when_nobody_is_there() {
    let mut game = arena_game();
    let mut objects = vec![brawler(3, 3, "player", 30, 2, 5), walker(4, 3, "potion", false)];
    Object::player_move_or_attack(1, 0, &mut game, &mut objects);
    assert_eq!(objects[0].pos(), (4, 3));
    assert_eq!(game.messages.len(), 0);
}

#[test]
fn player_attacks_instead_of_moving() {
    let mut game = arena_game();
    let mut objects = vec![brawler(3, 3, "player", 30, 2, 5), brawler(3, 4, "orc", 10, 0, 3)];
    Object::player_move_or_attack(0, 1, &mut game, &mut objects);
    assert_eq!(objects[0].pos(), (3, 3));
    assert_eq!(objects[1].fighter.unwrap().hp, 5);
    assert_eq!(
        game.messages.iter().to_vec(),
        vec![("player attacks orc for 5 hit points.".to_string(), Color::White)]
    );
}

#[test]
fn player_attacks_a_fighter_that_does_not_block() {
    let mut game = arena_game();
    let mut ghost = brawler(3, 4, "ghost", 10, 0, 3);
    ghost.blocks = false;
    let mut objects = vec![brawler(3, 3, "player", 30, 2, 5), ghost];
    Object::player_move_or_attack(0, 1, &mut game, &mut objects);
    assert_eq!(objects[0].pos(), (3, 3));
    assert_eq!(objects[1].fighter.unwrap().hp, 5);
}

#[test]
fn player_walks_over_a_corpse() {
    let mut game = arena_game();
    let mut objects = vec![brawler(3, 3, "player", 30, 2, 50), brawler(3, 4, "orc", 10, 0, 3)];
    Object::player_move_or_attack(0, 1, &mut game, &mut objects);
    assert_eq!(objects[1].name, "remains of orc");
    assert_eq!(objects[0].pos(), (3, 3));
    Object::player_move_or_attack(0, 1, &mut game, &mut objects);
    assert_eq!(objects[0].pos(), (3, 4));
}

#[test]
fn player_at_the_edge_of_the_counter_stays() {
    let mut game = arena_game();
    let mut objects = vec![brawler(i32::MAX, i32::MAX, "player", 30, 2, 5)];
    Object::player_move_or_attack(1, 1, &mut game, &mut objects);
    assert_eq!(objects[0].pos(), (i32::MAX, i32::MAX));
}
