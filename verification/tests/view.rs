use roguelike::color::Color;
use roguelike::entity::{DeathCallback, Fighter, Item, Object};
use roguelike::fov::FovMap;
use roguelike::geometry::Tile;
use roguelike::grid::Grid;
use roguelike::view::{
    draw_order, explore_visible, get_names_under_mouse, inventory_choice, inventory_options,
    menu_choice, menu_letter, needs_fov_recompute, player_health, tile_color,
};

fn lit(places: &[(i32, i32)]) -> FovMap {
    let mut fov = FovMap::new(8, 8);
    for &(x, y) in places {
        fov.set_visible(x, y, true);
    }
    fov
}

fn figure(x: i32, y: i32, name: &str, blocks: bool) -> Object {
    Object::new(x, y, 'f', name, Color::White, blocks)
}

#[test]
fn tiles_in_view_become_explored_and_stay_so() {
    let mut map = Grid::walls(8, 8);
    map.set_tile(2, 2, Tile::empty());
    explore_visible(&mut map, &lit(&[(1, 1), (2, 2)]));
    assert_eq!(map.tile(1, 1), Tile { explored: true, ..Tile::wall() });
    assert_eq!(map.tile(2, 2), Tile { explored: true, ..Tile::empty() });
    assert_eq!(map.tile(3, 3), Tile::wall());
    explore_visible(&mut map, &lit(&[(3, 3)]));
    assert!(map.tile(1, 1).explored);
    assert!(map.tile(2, 2).explored);
    assert!(map.tile(3, 3).explored);
    assert!(!map.tile(4, 4).explored);
    let mut explored = 0;
    for x in 0..8 {
        for y in 0..8 {
            if map.tile(x, y).explored {
                explored += 1;
            }
        }
    }
    assert_eq!(explored, 3);
}

#[test]
fn exploring_copes_with_grids_of_different_size() {
    let mut map = Grid::walls(3, 3);
    explore_visible(&mut map, &lit(&[(1, 1), (6, 6)]));
    assert!(map.tile(1, 1).explored);
    let mut wide = Grid::walls(12, 12);
    explore_visible(&mut wide, &lit(&[(1, 1)]));
    assert!(wide.tile(1, 1).explored);
    assert!(!wide.tile(10, 10).explored);
}

#[test]
fn tile_colours_depend_on_view_and_wall() {
    assert_eq!(tile_color(false, true), Color::DarkWall);
    assert_eq!(tile_color(false, false), Color::DarkGround);
    assert_eq!(tile_color(true, true), Color::LightWall);
    assert_eq!(tile_color(true, false), Color::LightGround);
}

#[test]
fn what_blocks_is_drawn_last() {
    let fov = lit(&[(1, 1), (2, 2), (3, 3)]);
    let objects = vec![
        figure(1, 1, "player", true),
        figure(1, 1, "potion", false),
        figure(5, 5, "hidden", false),
        figure(2, 2, "orc", true),
        figure(3, 3, "scroll", false),
        figure(6, 6, "lurker", true),
    ];
    assert_eq!(draw_order(&objects, &fov), vec![1, 4, 0, 3]);
    assert_eq!(draw_order(&[], &fov), Vec::<usize>::new());
}

#[test]
fn player_health_is_zero_without_fighter() {
    let mut player = figure(1, 1, "player", true);
    assert_eq!(player_health(&[figure(1, 1, "player", true)]), (0, 0));
    player.fighter = Some(Fighter { max_hp: 30, hp: 12, defense: 2, power: 5, on_death: DeathCallback::Player });
    assert_eq!(player_health(&[player]), (12, 30));
}

#[test]
fn names_under_the_pointer_are_joined_with_commas() {
    let fov = lit(&[(1, 1), (2, 2)]);
    let objects = vec![
        figure(1, 1, "player", true),
        figure(2, 2, "orc", true),
        figure(1, 1, "healing potion", false),
        figure(3, 3, "troll", true),
        figure(1, 1, "", false),
        figure(1, 1, "scroll", false),
    ];
    assert_eq!(get_names_under_mouse(1, 1, &objects, &fov), "player, healing potion, , scroll");
    assert_eq!(get_names_under_mouse(2, 2, &objects, &fov), "orc");
    assert_eq!(get_names_under_mouse(3, 3, &objects, &fov), "");
    assert_eq!(get_names_under_mouse(4, 4, &objects, &fov), "");
    assert_eq!(get_names_under_mouse(-1, 99, &objects, &fov), "");
}

#[test]
fn an_empty_inventory_shows_a_notice_that_cannot_be_picked() {
    assert_eq!(inventory_options(&[]), vec!["Inventory is empty.".to_string()]);
    assert_eq!(inventory_choice(&[], Some(0)), None);
    assert_eq!(inventory_choice(&[], None), None);
}

#[test]
fn the_inventory_menu_lists_the_names() {
    let mut potion = figure(0, 0, "healing potion", false);
    potion.item = Some(Item::Heal);
    let inventory = vec![potion, figure(0, 0, "scroll of confusion", false)];
    assert_eq!(
        inventory_options(&inventory),
        vec!["healing potion".to_string(), "scroll of confusion".to_string()]
    );
    assert_eq!(inventory_choice(&inventory, Some(1)), Some(1));
    assert_eq!(inventory_choice(&inventory, None), None);
}

#[test]
fn a_letter_picks_its_option() {
    assert_eq!(menu_choice('a', 3), Some(0));
    assert_eq!(menu_choice('c', 3), Some(2));
    assert_eq!(menu_choice('C', 3), Some(2));
    assert_eq!(menu_choice('d', 3), None);
    assert_eq!(menu_choice('z', 26), Some(25));
    assert_eq!(menu_choice('Z', 26), Some(25));
    assert_eq!(menu_choice('a', 0), None);
    assert_eq!(menu_choice('1', 26), None);
    assert_eq!(menu_choice(' ', 26), None);
    assert_eq!(menu_choice('\u{0}', 26), None);
    assert_eq!(menu_choice('é', 26), None);
    assert_eq!(menu_choice('{', 26), None);
    assert_eq!(menu_choice('`', 26), None);
    assert_eq!(menu_choice('@', 26), None);
    assert_eq!(menu_choice('[', 26), None);
}

#[test]
fn options_are_lettered_from_a() {
    assert_eq!(menu_letter(0), 'a');
    assert_eq!(menu_letter(1), 'b');
    assert_eq!(menu_letter(25), 'z');
    for index in 0..26 {
        assert_eq!(menu_choice(menu_letter(index), 26), Some(index));
    }
}

#[test]
fn the_view_is_computed_anew_only_after_a_move() {
    let objects = vec![figure(3, 4, "player", true), figure(9, 9, "orc", true)];
    assert!(!needs_fov_recompute((3, 4), &objects));
    assert!(needs_fov_recompute((-1, -1), &objects));
    assert!(needs_fov_recompute((3, 5), &objects));
    assert!(needs_fov_recompute((4, 4), &objects));
    assert!(needs_fov_recompute((9, 9), &objects));
}
