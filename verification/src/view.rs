//! What the screen shows: which tiles have been seen, what is drawn in which
//! order, the text under the pointer, and the choices of a menu.

use vstd::prelude::*;
use vstd::string::StringExecFns;
use crate::color::Color;
use crate::entity::{Object, PLAYER};
use crate::fov::FovMap;
use crate::geometry::Tile;
use crate::grid::Grid;

verus! {

/// Most options a menu can offer: one per letter.
pub const MENU_CAPACITY: usize = 26;

/// The grid after everything in view has been marked as explored.
pub open spec fn explored(before: Grid, after: Grid, fov: FovMap) -> bool {
    &&& after.same_size(&before)
    &&& forall|x: int, y: int|
        after.in_bounds(x, y) ==> #[trigger] after.at(x, y) == (if fov.visible(x, y) {
            Tile { explored: true, ..before.at(x, y) }
        } else {
            before.at(x, y)
        })
}

/// Marks every tile in view as explored. A tile that was explored stays so.
pub fn explore_visible(map: &mut Grid, fov: &FovMap)
    requires
        old(map).wf(),
        fov.wf(),
    ensures
        final(map).wf(),
        explored(*old(map), *final(map), *fov),
{
    let width = map.width();
    let height = map.height();
    let mut x: i32 = 0;
    while x < width
        invariant
            0 <= x <= width,
            0 <= height,
            width == map.spec_width(),
            height == map.spec_height(),
            map.wf(),
            fov.wf(),
            map.same_size(old(map)),
            forall|i: int, j: int|
                map.in_bounds(i, j) ==> #[trigger] map.at(i, j) == (if fov.visible(i, j) && i < x {
                    Tile { explored: true, ..old(map).at(i, j) }
                } else {
                    old(map).at(i, j)
                }),
        decreases width - x,
    {
        let mut y: i32 = 0;
        while y < height
            invariant
                0 <= x < width,
                0 <= y <= height,
                width == map.spec_width(),
                height == map.spec_height(),
                map.wf(),
                fov.wf(),
                map.same_size(old(map)),
                forall|i: int, j: int|
                    map.in_bounds(i, j) ==> #[trigger] map.at(i, j) == (if fov.visible(i, j) && (i < x
                        || (i == x && j < y)) {
                        Tile { explored: true, ..old(map).at(i, j) }
                    } else {
                        old(map).at(i, j)
                    }),
            decreases height - y,
        {
            if fov.is_in_fov(x, y) {
                let tile = map.tile(x, y);
                map.set_tile(x, y, Tile { explored: true, ..tile });
            }
            y = y + 1;
        }
        x = x + 1;
    }
}

/// The colour a tile is painted in.
pub open spec fn shade(visible: bool, wall: bool) -> Color {
    if visible {
        if wall {
            Color::LightWall
        } else {
            Color::LightGround
        }
    } else {
        if wall {
            Color::DarkWall
        } else {
            Color::DarkGround
        }
    }
}

/// The colour a tile is painted in: walls and floor each have a lit colour
/// for tiles in view and a dark one for the rest.
pub fn tile_color(visible: bool, wall: bool) -> (c: Color)
    ensures
        c == shade(visible, wall),
{
    match (visible, wall) {
        (false, true) => Color::DarkWall,
        (false, false) => Color::DarkGround,
        (true, true) => Color::LightWall,
        (true, false) => Color::LightGround,
    }
}

/// The indices below `n` of the entities in view that block, or that do not
/// block, in list order.
pub open spec fn shown(objects: Seq<Object>, fov: FovMap, blocks: bool, n: nat) -> Seq<usize>
    decreases n,
{
    if n == 0 {
        Seq::empty()
    } else {
        let rest = shown(objects, fov, blocks, (n - 1) as nat);
        let o = objects[n - 1];
        if fov.visible(o.x as int, o.y as int) && o.blocks == blocks {
            rest.push((n - 1) as usize)
        } else {
            rest
        }
    }
}

/// The order in which the entities in view are drawn: those that do not
/// block first, so that whatever blocks is drawn over them; within each group
/// the list order is kept.
pub fn draw_order(objects: &[Object], fov: &FovMap) -> (order: Vec<usize>)
    requires
        fov.wf(),
    ensures
        order@ == shown(objects@, *fov, false, objects@.len()) + shown(
            objects@,
            *fov,
            true,
            objects@.len(),
        ),
{
    let mut order: Vec<usize> = Vec::new();
    let mut i: usize = 0;
    while i < objects.len()
        invariant
            i <= objects@.len(),
            fov.wf(),
            order@ == shown(objects@, *fov, false, i as nat),
        decreases objects@.len() - i,
    {
        if fov.is_in_fov(objects[i].x, objects[i].y) && !objects[i].blocks {
            order.push(i);
        }
        i = i + 1;
    }
    let ghost front = order@;
    let mut i: usize = 0;
    while i < objects.len()
        invariant
            i <= objects@.len(),
            fov.wf(),
            order@ == front + shown(objects@, *fov, true, i as nat),
        decreases objects@.len() - i,
    {
        if fov.is_in_fov(objects[i].x, objects[i].y) && objects[i].blocks {
            order.push(i);
            assert(order@ =~= front + shown(objects@, *fov, true, (i + 1) as nat));
        }
        i = i + 1;
    }
    order
}

/// The player's hit points and their maximum; zero for a player that does
/// not fight.
pub fn player_health(objects: &[Object]) -> (health: (i32, i32))
    requires
        objects@.len() > 0,
    ensures
        health == (match objects@[0].fighter {
            Some(f) => (f.hp, f.max_hp),
            None => (0i32, 0i32),
        }),
{
    match objects[PLAYER].fighter {
        Some(f) => (f.hp, f.max_hp),
        None => (0, 0),
    }
}

/// Whether what the player sees has to be computed anew: only when the
/// player no longer stands where the view was last computed from.
pub fn needs_fov_recompute(previous: (i32, i32), objects: &[Object]) -> (b: bool)
    requires
        objects@.len() > 0,
    ensures
        b == (previous != (objects@[0].x, objects@[0].y)),
{
    previous.0 != objects[PLAYER].x || previous.1 != objects[PLAYER].y
}

/// The names of the first `n` entities that stand on `(x, y)` and are in
/// view, in list order.
pub open spec fn names_at(objects: Seq<Object>, fov: FovMap, x: int, y: int, n: nat) -> Seq<
    Seq<char>,
>
    decreases n,
{
    if n == 0 {
        Seq::empty()
    } else {
        let rest = names_at(objects, fov, x, y, (n - 1) as nat);
        let o = objects[n - 1];
        if o.is_at(x, y) && fov.visible(x, y) {
            rest.push(o.name@)
        } else {
            rest
        }
    }
}

/// The names written one after the other with `", "` between them.
pub open spec fn comma_list(names: Seq<Seq<char>>) -> Seq<char>
    decreases names.len(),
{
    if names.len() == 0 {
        Seq::empty()
    } else if names.len() == 1 {
        names[0]
    } else {
        comma_list(names.drop_last()) + ", "@ + names.last()
    }
}

/// The names of all entities in view on the tile `(x, y)`, separated by
/// commas.
pub fn get_names_under_mouse(x: i32, y: i32, objects: &[Object], fov: &FovMap) -> (names: String)
    requires
        fov.wf(),
    ensures
        names@ == comma_list(names_at(objects@, *fov, x as int, y as int, objects@.len())),
{
    let mut names = String::new();
    let mut any = false;
    let seen = fov.is_in_fov(x, y);
    let mut i: usize = 0;
    while i < objects.len()
        invariant
            i <= objects@.len(),
            seen == fov.visible(x as int, y as int),
            any == (names_at(objects@, *fov, x as int, y as int, i as nat).len() > 0),
            names@ == comma_list(names_at(objects@, *fov, x as int, y as int, i as nat)),
        decreases objects@.len() - i,
    {
        if objects[i].x == x && objects[i].y == y && seen {
            let ghost earlier = names_at(objects@, *fov, x as int, y as int, i as nat);
            let ghost listed = earlier.push(objects@[i as int].name@);
            if any {
                names.append(", ");
            }
            names.append(objects[i].name.as_str());
            proof {
                assert(listed.drop_last() =~= earlier);
                if !any {
                    assert(names@ =~= comma_list(listed));
                }
            }
            any = true;
        }
        i = i + 1;
    }
    names
}

/// The lines of the inventory menu: the names of the items, or a single
/// notice when there are none.
pub fn inventory_options(inventory: &[Object]) -> (options: Vec<String>)
    ensures
        options@.map_values(|s: String| s@) == (if inventory@.len() == 0 {
            seq!["Inventory is empty."@]
        } else {
            inventory@.map_values(|o: Object| o.name@)
        }),
{
    let mut options: Vec<String> = Vec::new();
    if inventory.len() == 0 {
        options.push(String::from_str("Inventory is empty."));
        assert(options@.map_values(|s: String| s@) =~= seq!["Inventory is empty."@]);
        return options;
    }
    let mut i: usize = 0;
    while i < inventory.len()
        invariant
            i <= inventory@.len(),
            options@.len() == i,
            forall|j: int| 0 <= j < i ==> (#[trigger] options@[j])@ == inventory@[j].name@,
        decreases inventory@.len() - i,
    {
        options.push(inventory[i].name.clone());
        i = i + 1;
    }
    assert(options@.map_values(|s: String| s@) =~= inventory@.map_values(|o: Object| o.name@));
    options
}

/// What the inventory menu returns: the line that was picked, unless the
/// inventory is empty and the only line is the notice.
pub fn inventory_choice(inventory: &[Object], picked: Option<usize>) -> (choice: Option<usize>)
    ensures
        choice == (if inventory@.len() > 0 {
            picked
        } else {
            None
        }),
{
    if inventory.len() > 0 {
        picked
    } else {
        None
    }
}

/// The place of a letter in the alphabet, counted from zero, whether it is
/// written small or large.
pub open spec fn letter_index(c: char) -> Option<int> {
    if 'a' <= c <= 'z' {
        Some(c as u32 - 'a' as u32)
    } else if 'A' <= c <= 'Z' {
        Some(c as u32 - 'A' as u32)
    } else {
        None
    }
}

/// The option that a key picks from a menu of `options` lines: the one its
/// letter stands for, if there is such a line.
pub fn menu_choice(printable: char, options: usize) -> (choice: Option<usize>)
    requires
        options <= MENU_CAPACITY,
    ensures
        choice == (match letter_index(printable) {
            Some(i) => if i < options {
                Some(i as usize)
            } else {
                None
            },
            None => None,
        }),
{
    let code = printable as u32;
    let index: u32 = if code >= 'a' as u32 && code <= 'z' as u32 {
        code - 'a' as u32
    } else if code >= 'A' as u32 && code <= 'Z' as u32 {
        code - 'A' as u32
    } else {
        return None;
    };
    if (index as usize) < options {
        Some(index as usize)
    } else {
        None
    }
}

/// The letter that stands for option `index` of a menu.
pub fn menu_letter(index: usize) -> (c: char)
    requires
        index < MENU_CAPACITY,
    ensures
        letter_index(c) == Some(index as int),
        'a' <= c <= 'z',
{
    let code: u8 = 97u8 + index as u8;
    code as char
}

} // verus!
