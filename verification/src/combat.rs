//! Damage, healing, attacks and the death transitions.

use vstd::prelude::*;
use vstd::string::StringExecFns;
use crate::color::Color;
use crate::entity::{DeathCallback, Fighter, Game, Object};
use crate::text::{decimal, decimal_text, join2, join3};

verus! {

/// A hit-point total brought back into the range the counter can hold.
pub open spec fn clamp_hp(v: int) -> int {
    if v < i32::MIN {
        i32::MIN as int
    } else if v > i32::MAX {
        i32::MAX as int
    } else {
        v
    }
}

/// The line logged for a hit.
pub open spec fn hit_text(attacker: Seq<char>, target: Seq<char>, damage: int) -> Seq<char> {
    attacker + " attacks "@ + target + " for "@ + decimal(damage) + " hit points."@
}

/// The line logged for an attack that does no damage.
pub open spec fn miss_text(attacker: Seq<char>, target: Seq<char>) -> Seq<char> {
    attacker + " attacks "@ + target + ", but it has no effect!"@
}

/// The line logged when a monster dies.
pub open spec fn death_text(name: Seq<char>) -> Seq<char> {
    name + " is dead!"@
}

/// The name a monster's corpse goes by.
pub open spec fn corpse_name(name: Seq<char>) -> Seq<char> {
    "remains of "@ + name
}

/// `after` is `before` with the same map and inventory and with `lines`
/// appended to the log.
pub open spec fn logged(before: Game, after: Game, lines: Seq<(Seq<char>, Color)>) -> bool {
    &&& after.map == before.map
    &&& after.inventory@ == before.inventory@
    &&& after.messages.log() == before.messages.log() + lines
}

/// `after` is the corpse marker that the monster `before` leaves behind.
pub open spec fn is_monster_corpse(before: Object, after: Object) -> bool {
    &&& after.x == before.x
    &&& after.y == before.y
    &&& after.char == '%'
    &&& after.color == Color::DarkerRed
    &&& after.name@ == corpse_name(before.name@)
    &&& !after.blocks
    &&& after.alive == before.alive
    &&& after.fighter is None
    &&& after.ai is None
    &&& after.item == before.item
}

/// `after` is the player `before` turned into a corpse that stays in place.
pub open spec fn is_player_corpse(before: Object, after: Object) -> bool {
    after == (Object { char: '%', color: Color::DarkerRed, ..before })
}

/// `before` with its combat component replaced.
pub open spec fn with_fighter(before: Object, fighter: Fighter) -> Object {
    Object { fighter: Some(fighter), ..before }
}

/// The hit points left after losing `amount` of `hp`.
pub open spec fn hp_after(hp: int, amount: int) -> int {
    clamp_hp(hp - amount)
}

/// Losing `amount` hit points kills `before`: it is a living fighter and is
/// left with none.
pub open spec fn dies_from(before: Object, amount: int) -> bool {
    match before.fighter {
        Some(f) => before.alive && hp_after(f.hp as int, amount) <= 0,
        None => false,
    }
}

/// The lines that `take_damage` logs: the death notice, if the damage kills.
pub open spec fn damage_lines(before: Object, amount: int) -> Seq<(Seq<char>, Color)> {
    if dies_from(before, amount) {
        match before.fighter.unwrap().on_death {
            DeathCallback::Player => seq![("You died!"@, Color::Red)],
            DeathCallback::Monster => seq![(death_text(before.name@), Color::Orange)],
        }
    } else {
        Seq::empty()
    }
}

/// What `take_damage` does to an entity.
pub open spec fn damage_applied(before: Object, after: Object, amount: int) -> bool {
    match before.fighter {
        None => after == before,
        Some(f) => {
            let hurt = with_fighter(
                before,
                Fighter { hp: hp_after(f.hp as int, amount) as i32, ..f },
            );
            if !dies_from(before, amount) {
                after == hurt
            } else {
                match f.on_death {
                    DeathCallback::Player => is_player_corpse(
                        Object { alive: false, ..hurt },
                        after,
                    ),
                    DeathCallback::Monster => is_monster_corpse(
                        Object { alive: false, ..hurt },
                        after,
                    ),
                }
            }
        },
    }
}

/// The damage of one attack: the attacker's power less the target's defense.
pub open spec fn attack_damage(attacker: Object, target: Object) -> int {
    attacker.power() - target.defense()
}

/// The lines that `attack` logs: the hit and what follows from the damage, or
/// the miss.
pub open spec fn attack_lines(attacker: Object, target: Object) -> Seq<(Seq<char>, Color)> {
    let damage = attack_damage(attacker, target);
    if damage > 0 {
        seq![(hit_text(attacker.name@, target.name@, damage), Color::White)] + damage_lines(
            target,
            damage,
        )
    } else {
        seq![(miss_text(attacker.name@, target.name@), Color::White)]
    }
}

/// What `attack` does to the target.
pub open spec fn attack_applied(attacker: Object, before: Object, after: Object) -> bool {
    let damage = attack_damage(attacker, before);
    if damage > 0 {
        damage_applied(before, after, damage)
    } else {
        after == before
    }
}

/// Turns the player into a corpse that stays where it fell.
pub fn player_death(player: &mut Object, game: &mut Game)
    ensures
        is_player_corpse(*old(player), *final(player)),
        logged(*old(game), *final(game), seq![("You died!"@, Color::Red)]),
{
    game.messages.add(String::from_str("You died!"), Color::Red);
    player.char = '%';
    player.color = Color::DarkerRed;
}

/// Turns a monster into a corpse: it no longer blocks, fights or acts.
pub fn monster_death(monster: &mut Object, game: &mut Game)
    ensures
        is_monster_corpse(*old(monster), *final(monster)),
        logged(*old(game), *final(game), seq![(death_text(old(monster).name@), Color::Orange)]),
{
    game.messages.add(join2(monster.name.as_str(), " is dead!"), Color::Orange);
    monster.char = '%';
    monster.color = Color::DarkerRed;
    monster.blocks = false;
    monster.fighter = None;
    monster.ai = None;
    monster.name = join2("remains of ", monster.name.as_str());
}

impl DeathCallback {
    /// Runs the death routine that the tag selects.
    pub fn callback(self, object: &mut Object, game: &mut Game)
        ensures
            self == DeathCallback::Player ==> is_player_corpse(*old(object), *final(object))
                && logged(*old(game), *final(game), seq![("You died!"@, Color::Red)]),
            self == DeathCallback::Monster ==> is_monster_corpse(*old(object), *final(object))
                && logged(
                *old(game),
                *final(game),
                seq![(death_text(old(object).name@), Color::Orange)],
            ),
    {
        match self {
            DeathCallback::Player => player_death(object, game),
            DeathCallback::Monster => monster_death(object, game),
        }
    }
}

impl Object {
    /// Takes `amount` hit points away, stopping at the limits of the counter,
    /// and runs the death routine if a living fighter is left with none.
    fn lose_hp(&mut self, amount: i64, game: &mut Game)
        ensures
            damage_applied(*old(self), *final(self), amount as int),
            logged(*old(game), *final(game), damage_lines(*old(self), amount as int)),
    {
        match self.fighter {
            None => {
                assert(game.messages.log() + damage_lines(*old(self), amount as int)
                    =~= game.messages.log());
            },
            Some(fighter) => {
                let wide: i128 = fighter.hp as i128 - amount as i128;
                let hp: i32 = if wide < i32::MIN as i128 {
                    i32::MIN
                } else if wide > i32::MAX as i128 {
                    i32::MAX
                } else {
                    wide as i32
                };
                self.fighter = Some(Fighter { hp: hp, ..fighter });
                if hp <= 0 && self.alive {
                    self.alive = false;
                    fighter.on_death.callback(self, game);
                } else {
                    assert(game.messages.log() + damage_lines(*old(self), amount as int)
                        =~= game.messages.log());
                }
            },
        }
    }

    /// Applies `damage` to the combat component, if there is one, and runs the
    /// death routine when a living fighter's hit points are used up.
    pub fn take_damage(&mut self, damage: i32, game: &mut Game)
        ensures
            damage_applied(*old(self), *final(self), damage as int),
            logged(*old(game), *final(game), damage_lines(*old(self), damage as int)),
    {
        self.lose_hp(damage as i64, game);
    }

    /// Attacks `target`: a positive difference of power and defense is logged
    /// and taken from the target's hit points, anything else is logged as a
    /// miss.
    pub fn attack(&self, target: &mut Object, game: &mut Game)
        ensures
            attack_applied(*self, *old(target), *final(target)),
            logged(*old(game), *final(game), attack_lines(*self, *old(target))),
    {
        let power: i64 = match self.fighter {
            Some(f) => f.power as i64,
            None => 0,
        };
        let defense: i64 = match target.fighter {
            Some(f) => f.defense as i64,
            None => 0,
        };
        let damage: i64 = power - defense;
        let line = join3(self.name.as_str(), " attacks ", target.name.as_str());
        if damage > 0 {
            let amount = decimal_text(damage);
            let line = join3(line.as_str(), " for ", amount.as_str());
            let line = join2(line.as_str(), " hit points.");
            assert(line@ =~= hit_text(self.name@, target.name@, damage as int));
            game.messages.add(line, Color::White);
            target.lose_hp(damage, game);
            assert(game.messages.log() =~= old(game).messages.log() + attack_lines(
                *self,
                *old(target),
            ));
        } else {
            let line = join2(line.as_str(), ", but it has no effect!");
            game.messages.add(line, Color::White);
        }
    }

    /// Gives back `amount` hit points without going over the maximum.
    pub fn heal(&mut self, amount: i32)
        ensures
            *final(self) == healed(*old(self), amount as int),
            final(self).fighter matches Some(f) ==> f.hp <= f.max_hp,
    {
        match self.fighter {
            Some(fighter) => {
                let wide: i64 = fighter.hp as i64 + amount as i64;
                let hp: i32 = if wide > fighter.max_hp as i64 {
                    fighter.max_hp
                } else if wide < i32::MIN as i64 {
                    i32::MIN
                } else {
                    wide as i32
                };
                self.fighter = Some(Fighter { hp: hp, ..fighter });
            },
            None => {},
        }
    }
}

/// The hit points after healing by `amount`: the sum, capped at `max_hp` and
/// held at the lower limit of the counter.
pub open spec fn healed_hp(hp: int, max_hp: int, amount: int) -> int {
    if hp + amount > max_hp {
        max_hp
    } else if hp + amount < i32::MIN {
        i32::MIN as int
    } else {
        hp + amount
    }
}

/// `before` after healing by `amount`.
pub open spec fn healed(before: Object, amount: int) -> Object {
    match before.fighter {
        Some(f) => with_fighter(
            before,
            Fighter { hp: healed_hp(f.hp as int, f.max_hp as int, amount) as i32, ..f },
        ),
        None => before,
    }
}

/// An attack whose power does not exceed the target's defense leaves the
/// target as it was. Any other takes exactly the difference from the target's
/// hit points, as far as the counter reaches, and kills a living target
/// exactly when that leaves it with none: a monster then loses its combat
/// component, and a player keeps it.
pub proof fn lemma_attack_takes_the_difference(attacker: Object, before: Object, after: Object)
    requires
        before.fighter is Some,
        attack_applied(attacker, before, after),
    ensures
        ({
            let f = before.fighter.unwrap();
            let d = attacker.power() - f.defense;
            let left = f.hp - d;
            &&& d <= 0 ==> after == before
            &&& d > 0 && left >= i32::MIN && !(before.alive && left <= 0) ==> {
                after == with_fighter(before, Fighter { hp: left as i32, ..f })
            }
            &&& d > 0 && before.alive && left <= 0 ==> {
                &&& !after.alive
                &&& after.char == '%'
                &&& f.on_death == DeathCallback::Monster ==> after.fighter is None && after.ai is None
                    && !after.blocks && after.name@ == corpse_name(before.name@)
                &&& f.on_death == DeathCallback::Player && left >= i32::MIN ==> after.fighter == Some(
                    Fighter { hp: left as i32, ..f },
                )
            }
        }),
{
}

/// Healing never leaves a fighter above its maximum.
pub proof fn lemma_heal_within_maximum(before: Object, amount: int)
    requires
        before.fighter is Some,
    ensures
        healed(before, amount).fighter.unwrap().hp <= before.fighter.unwrap().max_hp,
        healed(before, amount).fighter.unwrap().max_hp == before.fighter.unwrap().max_hp,
{
}

} // verus!
