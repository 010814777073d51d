//! The entity record, its optional components, the message log and the
//! session state that the rules act on.

use vstd::prelude::*;
use vstd::string::StringExecFns;
use crate::color::Color;
use crate::grid::Grid;

verus! {

/// Index of the player in the entity list.
pub const PLAYER: usize = 0;

/// Most items the inventory holds: one per letter of the selection menu.
pub const INVENTORY_CAPACITY: usize = 26;

/// Which death routine runs when a fighter's hit points are used up.
#[derive(Clone, Copy, Debug, PartialEq, Eq, Structural)]
pub enum DeathCallback {
    Player,
    Monster,
}

/// The combat component.
#[derive(Clone, Copy, Debug, PartialEq, Eq, Structural)]
pub struct Fighter {
    pub max_hp: i32,
    pub hp: i32,
    pub defense: i32,
    pub power: i32,
    pub on_death: DeathCallback,
}

/// The behaviour component of a monster.
#[derive(Debug, PartialEq, Eq)]
pub enum Ai {
    /// Chase the player while in view and attack when adjacent.
    Basic,
    /// Stumble around for a while, then go back to `previous_ai`.
    Confused { previous_ai: Box<Ai>, num_turns: i32 },
}

/// What an item does when used.
#[derive(Clone, Copy, Debug, PartialEq, Eq, Structural)]
pub enum Item {
    Heal,
    Lightning,
    Confuse,
}

/// Anything that stands on the map: the player, a monster, an item, a corpse.
#[derive(Debug)]
pub struct Object {
    pub x: i32,
    pub y: i32,
    pub char: char,
    pub color: Color,
    pub name: String,
    pub blocks: bool,
    pub alive: bool,
    pub fighter: Option<Fighter>,
    pub ai: Option<Ai>,
    pub item: Option<Item>,
}

impl Object {
    /// A new entity without components; it starts out not alive.
    pub fn new(x: i32, y: i32, char: char, name: &str, color: Color, blocks: bool) -> (o: Object)
        ensures
            o.x == x,
            o.y == y,
            o.char == char,
            o.name@ == name@,
            o.color == color,
            o.blocks == blocks,
            !o.alive,
            o.fighter is None,
            o.ai is None,
            o.item is None,
    {
        Object {
            x: x,
            y: y,
            char: char,
            color: color,
            name: String::from_str(name),
            blocks: blocks,
            alive: false,
            fighter: None,
            ai: None,
            item: None,
        }
    }

    /// The position as a pair.
    pub fn pos(&self) -> (p: (i32, i32))
        ensures
            p == (self.x, self.y),
    {
        (self.x, self.y)
    }

    /// Moves the entity to `(x, y)` and changes nothing else.
    pub fn set_pos(&mut self, x: i32, y: i32)
        ensures
            *final(self) == (Object { x: x, y: y, ..*old(self) }),
    {
        self.x = x;
        self.y = y;
    }

    /// The entity stands on `(x, y)`.
    pub open spec fn is_at(&self, x: int, y: int) -> bool {
        self.x == x && self.y == y
    }

    /// The attack strength, zero without a combat component.
    pub open spec fn power(&self) -> int {
        match self.fighter {
            Some(f) => f.power as int,
            None => 0,
        }
    }

    /// The armour, zero without a combat component.
    pub open spec fn defense(&self) -> int {
        match self.fighter {
            Some(f) => f.defense as int,
            None => 0,
        }
    }
}

/// The message log: lines of text with their colour, oldest first.
pub struct Messages {
    messages: Vec<(String, Color)>,
}

impl Messages {
    /// The logged lines, oldest first.
    pub closed spec fn log(&self) -> Seq<(Seq<char>, Color)> {
        self.messages@.map_values(|m: (String, Color)| (m.0@, m.1))
    }

    /// An empty log.
    pub fn new() -> (m: Messages)
        ensures
            m.log() == Seq::<(Seq<char>, Color)>::empty(),
    {
        let m = Messages { messages: Vec::new() };
        assert(m.log() =~= Seq::<(Seq<char>, Color)>::empty());
        m
    }

    /// Appends one line; earlier lines stay as they are.
    pub fn add(&mut self, message: String, color: Color)
        ensures
            final(self).log() == old(self).log().push((message@, color)),
            final(self).log() == old(self).log() + seq![(message@, color)],
    {
        self.messages.push((message, color));
        assert(self.log() =~= old(self).log().push((message@, color)));
        assert(self.log() =~= old(self).log() + seq![(message@, color)]);
    }

    /// Number of lines logged so far.
    pub fn len(&self) -> (n: usize)
        ensures
            n == self.log().len(),
    {
        self.messages.len()
    }

    /// The lines in the order they were logged.
    pub fn iter(&self) -> (lines: &[(String, Color)])
        ensures
            lines@.map_values(|m: (String, Color)| (m.0@, m.1)) == self.log(),
    {
        self.messages.as_slice()
    }
}

/// The session state besides the entity list.
pub struct Game {
    pub map: Grid,
    pub messages: Messages,
    pub inventory: Vec<Object>,
}

} // verus!
