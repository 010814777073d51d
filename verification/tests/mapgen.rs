use roguelike::color::Color;
use roguelike::entity::{Ai, DeathCallback, Fighter, Item, Object};
use roguelike::geometry::{Rect, Tile};
use roguelike::grid::Grid;
use roguelike::mapgen::{add_room, dig_corridor, make_map, overlaps_any, Corridor, Dungeon, MapConfig};
use roguelike::spawn::{make_item, make_monster, place_item, place_monster, place_objects};

fn settler() -> Object {
    let mut o = Object::new(0, 0, '@', "player", Color::White, true);
    o.alive = true;
    o.fighter = Some(Fighter { max_hp: 30, hp: 30, defense: 2, power: 5, on_death: DeathCallback::Player });
    o
}

fn on_corridor(c: &Corridor, x: i32, y: i32) -> bool {
    let in_columns = c.from_x.min(c.to_x) <= x && x <= c.from_x.max(c.to_x);
    let in_rows = c.from_y.min(c.to_y) <= y && y <= c.from_y.max(c.to_y);
    if c.horizontal_first {
        (y == c.from_y && in_columns) || (x == c.to_x && in_rows)
    } else {
        (x == c.from_x && in_rows) || (y == c.to_y && in_columns)
    }
}

fn inside(r: &Rect, x: i32, y: i32) -> bool {
    r.x1 < x && x < r.x2 && r.y1 < y && y < r.y2
}

fn check_level(dungeon: &Dungeon, config: &MapConfig) {
    assert_eq!(dungeon.map.width(), config.width);
    assert_eq!(dungeon.map.height(), config.height);
    assert!(dungeon.rooms.len() as i32 <= config.max_rooms);
    for (i, a) in dungeon.rooms.iter().enumerate() {
        assert!(a.x1 >= 0 && a.y1 >= 0 && a.x2 < config.width && a.y2 < config.height);
        let (w, h) = (a.x2 - a.x1, a.y2 - a.y1);
        assert!(config.room_min_size <= w && w <= config.room_max_size);
        assert!(config.room_min_size <= h && h <= config.room_max_size);
        for (j, b) in dungeon.rooms.iter().enumerate() {
            if i != j {
                assert!(!a.intersects_with(b));
            }
        }
    }
    assert_eq!(dungeon.corridors.len(), dungeon.rooms.len().saturating_sub(1));
    for (i, c) in dungeon.corridors.iter().enumerate() {
        assert_eq!((c.from_x, c.from_y), dungeon.rooms[i].center());
        assert_eq!((c.to_x, c.to_y), dungeon.rooms[i + 1].center());
    }
    for x in 0..config.width {
        for y in 0..config.height {
            let open = dungeon.rooms.iter().any(|r| inside(r, x, y))
                || dungeon.corridors.iter().any(|c| on_corridor(c, x, y));
            let expected = if open { Tile::empty() } else { Tile::wall() };
            assert_eq!(dungeon.map.tile(x, y), expected);
        }
    }
}

#[test]
fn the_standard_configuration_is_valid() {
    let config = MapConfig::standard();
    assert!(config.is_valid());
    assert_eq!(config.width, 80);
    assert_eq!(config.height, 43);
    assert_eq!(config.max_rooms, 30);
    assert_eq!((config.room_min_size, config.room_max_size), (6, 10));
    assert_eq!((config.max_room_monsters, config.max_room_items), (3, 2));
}

#[test]
fn configurations_without_room_for_rooms_are_not_valid() {
    let good = MapConfig::standard();
    assert!(!MapConfig { room_min_size: 1, ..good }.is_valid());
    assert!(!MapConfig { room_min_size: 11, ..good }.is_valid());
    assert!(!MapConfig { width: 10, ..good }.is_valid());
    assert!(!MapConfig { height: 10, ..good }.is_valid());
    assert!(!MapConfig { max_rooms: -1, ..good }.is_valid());
    assert!(!MapConfig { max_room_monsters: -1, ..good }.is_valid());
    assert!(!MapConfig { max_room_items: i32::MAX, ..good }.is_valid());
    assert!(MapConfig { max_rooms: 0, width: 11, height: 11, ..good }.is_valid());
}

#[test]
fn one_empty_room_holds_the_player_at_its_centre() {
    let config = MapConfig { max_rooms: 1, max_room_monsters: 0, max_room_items: 0, ..MapConfig::standard() };
    for _ in 0..50 {
        let mut objects = vec![settler()];
        let dungeon = make_map(&mut objects, &config);
        assert_eq!(dungeon.rooms.len(), 1);
        assert!(dungeon.corridors.is_empty());
        assert_eq!(objects.len(), 1);
        assert_eq!(objects[0].pos(), dungeon.rooms[0].center());
        assert_eq!(objects[0].name, "player");
        assert!(!dungeon.map.tile(objects[0].x, objects[0].y).blocked);
        check_level(&dungeon, &config);
    }
}

#[test]
fn generated_levels_are_sound() {
    let config = MapConfig::standard();
    let mut sizes = Vec::new();
    for _ in 0..40 {
        let mut objects = vec![settler()];
        let dungeon = make_map(&mut objects, &config);
        check_level(&dungeon, &config);
        assert!(!dungeon.rooms.is_empty());
        assert_eq!(objects[0].pos(), dungeon.rooms[0].center());
        for (k, o) in objects.iter().enumerate().skip(1) {
            assert!(dungeon.rooms.iter().any(|r| inside(r, o.x, o.y)));
            assert!(!dungeon.map.tile(o.x, o.y).blocked);
            let monster = o.fighter.is_some() && o.ai == Some(Ai::Basic) && o.blocks && o.alive;
            let item = o.item.is_some() && !o.blocks && o.fighter.is_none() && o.ai.is_none();
            assert!(monster != item);
            for earlier in objects.iter().take(k).skip(1) {
                assert!(!(earlier.blocks && earlier.pos() == o.pos()));
            }
        }
        assert!(objects.len() <= 1 + dungeon.rooms.len() * 5);
        for r in dungeon.rooms.iter() {
            if !sizes.contains(&(r.x2 - r.x1)) {
                sizes.push(r.x2 - r.x1);
            }
        }
    }
    assert!(sizes.len() > 1);
}

#[test]
fn a_level_with_a_try_has_a_room_and_the_player_on_open_floor() {
    for max_rooms in [1, 2, 5] {
        let config = MapConfig { max_rooms, ..MapConfig::standard() };
        for _ in 0..30 {
            let mut objects = vec![settler()];
            let dungeon = make_map(&mut objects, &config);
            assert!(!dungeon.rooms.is_empty());
            assert_eq!(objects[0].pos(), dungeon.rooms[0].center());
            assert!(inside(&dungeon.rooms[0], objects[0].x, objects[0].y));
            assert_eq!(dungeon.map.tile(objects[0].x, objects[0].y), Tile::empty());
        }
    }
}

#[test]
fn no_tries_give_a_level_of_walls() {
    let config = MapConfig { max_rooms: 0, ..MapConfig::standard() };
    let mut objects = vec![settler(), settler()];
    objects[1].set_pos(4, 4);
    let dungeon = make_map(&mut objects, &config);
    assert!(dungeon.rooms.is_empty());
    assert_eq!(objects.len(), 2);
    assert_eq!(objects[0].pos(), (0, 0));
    assert_eq!(objects[1].pos(), (4, 4));
    check_level(&dungeon, &config);
}

#[test]
fn entities_that_were_there_stay_as_they_are() {
    let config = MapConfig::standard();
    let mut objects = vec![settler(), make_monster(-3, -3, 0), make_item(-4, -4, 99)];
    let dungeon = make_map(&mut objects, &config);
    assert_eq!(objects[0].pos(), dungeon.rooms[0].center());
    assert_eq!(objects[1].pos(), (-3, -3));
    assert_eq!(objects[1].name, "orc");
    assert_eq!(objects[2].pos(), (-4, -4));
    assert_eq!(objects[2].name, "scroll of confusion");
}

#[test]
fn overlaps_any_checks_every_room() {
    let rooms = vec![Rect::new(0, 0, 5, 5), Rect::new(10, 10, 5, 5)];
    assert!(overlaps_any(&Rect::new(5, 5, 2, 2), &rooms));
    assert!(overlaps_any(&Rect::new(12, 12, 1, 1), &rooms));
    assert!(!overlaps_any(&Rect::new(6, 6, 3, 3), &rooms));
    assert!(!overlaps_any(&Rect::new(0, 0, 5, 5), &Vec::new()));
}

#[test]
fn corridors_bend_as_told() {
    let mut map = Grid::walls(10, 10);
    let c = Corridor { from_x: 2, from_y: 7, to_x: 5, to_y: 3, horizontal_first: true };
    dig_corridor(c, &mut map);
    for x in 0..10 {
        for y in 0..10 {
            let open = (y == 7 && 2 <= x && x <= 5) || (x == 5 && 3 <= y && y <= 7);
            assert_eq!(!map.tile(x, y).blocked, open);
            assert_eq!(on_corridor(&c, x, y), open);
        }
    }
    let mut map = Grid::walls(10, 10);
    let c = Corridor { horizontal_first: false, ..c };
    dig_corridor(c, &mut map);
    for x in 0..10 {
        for y in 0..10 {
            let open = (x == 2 && 3 <= y && y <= 7) || (y == 3 && 2 <= x && x <= 5);
            assert_eq!(!map.tile(x, y).blocked, open);
        }
    }
}

#[test]
fn add_room_accepts_rooms_that_keep_clear_of_the_others() {
    let config = MapConfig { max_room_monsters: 0, max_room_items: 0, ..MapConfig::standard() };
    let mut dungeon = Dungeon { map: Grid::walls(80, 43), rooms: Vec::new(), corridors: Vec::new() };
    let mut objects = vec![settler()];
    assert!(add_room(&mut dungeon, Rect::new(2, 2, 6, 6), true, &mut objects, &config));
    assert_eq!(objects[0].pos(), (5, 5));
    assert!(!add_room(&mut dungeon, Rect::new(8, 8, 6, 6), true, &mut objects, &config));
    assert_eq!(dungeon.rooms.len(), 1);
    assert!(dungeon.map.tile(9, 9).blocked);
    assert!(add_room(&mut dungeon, Rect::new(20, 30, 8, 10), false, &mut objects, &config));
    assert_eq!(objects[0].pos(), (5, 5));
    assert_eq!(dungeon.rooms, vec![Rect::new(2, 2, 6, 6), Rect::new(20, 30, 8, 10)]);
    assert_eq!(
        dungeon.corridors,
        vec![Corridor { from_x: 5, from_y: 5, to_x: 24, to_y: 35, horizontal_first: false }]
    );
    assert!(!dungeon.map.tile(5, 20).blocked);
    assert!(!dungeon.map.tile(15, 35).blocked);
    assert!(dungeon.map.tile(15, 5).blocked);
    check_level(&dungeon, &config);
    assert_eq!(objects.len(), 1);
}

#[test]
fn monsters_come_with_their_stat_blocks() {
    let orc = make_monster(3, 4, 79);
    assert_eq!(orc.pos(), (3, 4));
    assert_eq!((orc.char, orc.name.as_str(), orc.color), ('o', "orc", Color::DesaturatedGreen));
    assert!(orc.blocks && orc.alive);
    assert_eq!(
        orc.fighter,
        Some(Fighter { max_hp: 10, hp: 10, defense: 0, power: 3, on_death: DeathCallback::Monster })
    );
    assert_eq!(orc.ai, Some(Ai::Basic));
    assert!(orc.item.is_none());
    let troll = make_monster(3, 4, 80);
    assert_eq!((troll.char, troll.name.as_str(), troll.color), ('T', "troll", Color::DarkerGreen));
    assert!(troll.blocks && troll.alive);
    assert_eq!(
        troll.fighter,
        Some(Fighter { max_hp: 16, hp: 16, defense: 1, power: 4, on_death: DeathCallback::Monster })
    );
    assert_eq!(troll.ai, Some(Ai::Basic));
    assert_eq!(make_monster(0, 0, 0).name, "orc");
    assert_eq!(make_monster(0, 0, 99).name, "troll");
}

#[test]
fn items_come_in_three_kinds() {
    let potion = make_item(3, 4, 69);
    assert_eq!(potion.pos(), (3, 4));
    assert_eq!((potion.char, potion.name.as_str(), potion.color), ('!', "healing potion", Color::Violet));
    assert_eq!(potion.item, Some(Item::Heal));
    assert!(!potion.blocks && !potion.alive && potion.fighter.is_none() && potion.ai.is_none());
    let bolt = make_item(3, 4, 70);
    assert_eq!((bolt.char, bolt.name.as_str(), bolt.color), ('#', "scroll of lightning bolt", Color::LightYellow));
    assert_eq!(bolt.item, Some(Item::Lightning));
    assert_eq!(make_item(3, 4, 79).item, Some(Item::Lightning));
    let daze = make_item(3, 4, 80);
    assert_eq!((daze.char, daze.name.as_str(), daze.color), ('#', "scroll of confusion", Color::LightYellow));
    assert_eq!(daze.item, Some(Item::Confuse));
    assert_eq!(make_item(3, 4, 0).item, Some(Item::Heal));
    assert_eq!(make_item(3, 4, 99).item, Some(Item::Confuse));
}

#[test]
fn nothing_is_placed_on_a_blocked_tile() {
    let mut map = Grid::walls(10, 10);
    map.set_tile(3, 3, Tile::empty());
    map.set_tile(4, 4, Tile::empty());
    let mut objects = vec![settler()];
    assert!(!place_monster(2, 2, 10, &map, &mut objects));
    assert!(!place_item(2, 2, 10, &map, &mut objects));
    assert!(!place_monster(-1, 40, 10, &map, &mut objects));
    assert_eq!(objects.len(), 1);
    assert!(place_monster(3, 3, 10, &map, &mut objects));
    assert_eq!(objects.len(), 2);
    assert_eq!(objects[1].pos(), (3, 3));
    assert!(!place_monster(3, 3, 90, &map, &mut objects));
    assert!(!place_item(3, 3, 10, &map, &mut objects));
    assert!(place_item(4, 4, 75, &map, &mut objects));
    assert!(place_item(4, 4, 10, &map, &mut objects));
    assert!(place_monster(4, 4, 90, &map, &mut objects));
    assert_eq!(objects.len(), 5);
    assert_eq!(objects[4].name, "troll");
}

#[test]
fn rooms_are_populated_within_their_limits() {
    let mut map = Grid::walls(20, 20);
    let room = Rect::new(2, 2, 6, 5);
    roguelike::carve::create_room(room, &mut map);
    let mut most = 0;
    for _ in 0..200 {
        let mut objects = vec![settler()];
        place_objects(room, &map, &mut objects, 3, 2);
        assert!(objects.len() <= 6);
        most = most.max(objects.len());
        let mut items_began = false;
        for o in objects.iter().skip(1) {
            assert!(inside(&room, o.x, o.y));
            if o.item.is_some() {
                items_began = true;
            } else {
                assert!(!items_began);
                assert!(o.fighter.is_some());
            }
        }
    }
    assert!(most > 1);
    let mut objects = vec![settler()];
    place_objects(room, &map, &mut objects, 0, 0);
    assert_eq!(objects.len(), 1);
}

#[test]
fn all_open_floor_can_be_walked_from_the_player() {
    let config = MapConfig::standard();
    for _ in 0..30 {
        let mut objects = vec![settler()];
        let dungeon = make_map(&mut objects, &config);
        let (w, h) = (config.width, config.height);
        let mut reached = vec![false; (w * h) as usize];
        let mut frontier = vec![objects[0].pos()];
        reached[(objects[0].x * h + objects[0].y) as usize] = true;
        while let Some((x, y)) = frontier.pop() {
            for (nx, ny) in [(x + 1, y), (x - 1, y), (x, y + 1), (x, y - 1)] {
                if dungeon.map.contains(nx, ny)
                    && !dungeon.map.tile(nx, ny).blocked
                    && !reached[(nx * h + ny) as usize]
                {
                    reached[(nx * h + ny) as usize] = true;
                    frontier.push((nx, ny));
                }
            }
        }
        for x in 0..w {
            for y in 0..h {
                assert_eq!(reached[(x * h + y) as usize], !dungeon.map.tile(x, y).blocked);
            }
        }
    }
}
