//! Actors: the player and the monsters. A `Unit` carries its grid position,
//! render hints (glyph and color), combat stats, an alive flag, a
//! point-blocking flag, the id of the room it spawned in, and an AI tag.

use vstd::prelude::*;

verus! {

/// What the input-mapping collaborator reports about the last player intent.
#[derive(PartialEq, Eq, Structural)]
pub enum UserActions {
    TookTurn,
    DidNotTakeTurn,
    Exit,
}

/// How a target cell classifies for an actor: step onto it, attack its
/// occupant, or neither (AFK).
#[derive(Clone, Copy, Debug, PartialEq, Eq, Structural)]
pub enum UnitActions {
    Attack,
    Move,
    AFK,
}

/// The AI tag: exactly one unit in a dungeon is the player.
#[derive(Clone, Copy, Debug, PartialEq, Eq, Structural)]
pub enum AI {
    Basic,
    Player,
}

/// A grid position.
#[derive(Clone, Copy, Debug)]
pub struct Coordinates {
    pub x: i32,
    pub y: i32,
}

impl Coordinates {
    pub fn is_equal(&self, point: &Coordinates) -> (r: bool)
        ensures
            r == (self.x == point.x && self.y == point.y),
    {
        self.x == point.x && self.y == point.y
    }
}

/// A render-hint color.
#[derive(Clone, Copy, Debug, PartialEq, Eq, Structural)]
pub struct Rgb {
    pub r: u8,
    pub g: u8,
    pub b: u8,
}

/// The player's color.
pub open spec fn white() -> Rgb {
    Rgb { r: 255, g: 255, b: 255 }
}

/// The color a unit takes on death.
pub open spec fn grey() -> Rgb {
    Rgb { r: 127, g: 127, b: 127 }
}

/// The weak monster archetype's color.
pub open spec fn desaturated_green() -> Rgb {
    Rgb { r: 63, g: 127, b: 63 }
}

/// The strong monster archetype's color.
pub open spec fn dark_green() -> Rgb {
    Rgb { r: 0, g: 191, b: 0 }
}

/// Combat stats. `current_hp` may go below zero under overkill damage;
/// `alive` latches to false the first time it reaches zero or less.
#[derive(Clone, Copy, Debug, PartialEq, Eq, Structural)]
pub struct UnitStats {
    pub max_hp: i32,
    pub current_hp: i32,
    pub defense: i32,
    pub damage: i32,
}

/// What one call of `attack` did, for the caller to report.
#[derive(Clone, Copy, Debug, PartialEq, Eq, Structural)]
pub enum AttackOutcome {
    /// Positive damage went through; `killed` says whether it was lethal.
    Hit { damage: i32, killed: bool },
    /// The attacker's damage stat is zero or less: categorically too weak.
    TooWeak,
    /// Damage was positive but the defense absorbed all of it.
    Absorbed,
}

/// A positioned actor.
#[derive(Clone, Debug)]
pub struct Unit {
    pub position: Coordinates,
    pub glyph: char,
    pub color: Rgb,
    pub name: String,
    pub blocks_point: bool,
    pub alive: bool,
    pub spawn_room: u32,
    pub stats: UnitStats,
    pub ai: AI,
}

/// Squared Euclidean distance between two grid positions.
pub open spec fn dist_sq(a: Coordinates, b: Coordinates) -> int {
    crate::num::dist2(a.x as int, a.y as int, b.x as int, b.y as int)
}

/// One axis of the unit step toward a target: the rounded result of
/// normalizing the displacement `(d, other)` to length 1. Over the reals,
/// `round(d / sqrt(d*d + other*other))` is `sign(d)` exactly when
/// `2*|d| >= sqrt(d*d + other*other)`, that is when `3*d*d >= other*other`,
/// and `0` otherwise (a zero displacement steps nowhere).
pub open spec fn step_component(d: int, other: int) -> int {
    if d == 0 {
        0
    } else if 3 * d * d >= other * other {
        if d > 0 {
            1
        } else {
            -1
        }
    } else {
        0
    }
}

/// The unit after `damage` hit points are subtracted: on the transition to
/// zero-or-less hit points it stops being alive, stops blocking its cell,
/// and turns the dead color.
pub open spec fn spec_damaged(u: Unit, damage: int) -> Unit {
    let new_hp = u.stats.current_hp - damage;
    let stats = UnitStats { current_hp: new_hp as i32, ..u.stats };
    if new_hp <= 0 {
        Unit { stats, alive: false, blocks_point: false, color: grey(), ..u }
    } else {
        Unit { stats, ..u }
    }
}

/// The damage an attack deals before the positivity test.
pub open spec fn attack_damage(attacker: Unit, defender: Unit) -> int {
    attacker.stats.damage - defender.stats.defense
}

/// The defender after one attack: damaged if the attack deals positive
/// damage, untouched otherwise. Both zero-effect outcomes leave the
/// defender exactly as it was.
pub open spec fn spec_attacked(attacker: Unit, defender: Unit) -> Unit {
    if attack_damage(attacker, defender) > 0 {
        spec_damaged(defender, attack_damage(attacker, defender))
    } else {
        defender
    }
}

/// The outcome `attack` reports, mirroring `spec_attacked` case by case.
pub open spec fn spec_attack_outcome(attacker: Unit, defender: Unit) -> AttackOutcome {
    let damage = attack_damage(attacker, defender);
    if damage > 0 {
        AttackOutcome::Hit {
            damage: damage as i32,
            killed: defender.stats.current_hp - damage <= 0,
        }
    } else if attacker.stats.damage <= 0 {
        AttackOutcome::TooWeak
    } else {
        AttackOutcome::Absorbed
    }
}

/// Bounds that every unit inside a dungeon keeps: stats small enough that
/// combat arithmetic stays far from `i32` overflow, hit points no higher
/// than the maximum, positive hit points while alive, and a corpse that
/// neither blocks its cell nor comes back.
pub open spec fn combat_bounds(u: Unit) -> bool {
    &&& 0 <= u.stats.max_hp <= 1000
    &&& 0 <= u.stats.defense <= 1000
    &&& 0 <= u.stats.damage <= 1000
    &&& u.stats.current_hp <= u.stats.max_hp
    &&& u.stats.current_hp >= -200_000
    &&& (u.alive ==> u.stats.current_hp >= 1)
    &&& (u.blocks_point ==> u.alive)
}

impl Unit {
    pub fn new(
        x: i32,
        y: i32,
        glyph: char,
        color: Rgb,
        name: &str,
        blocks_point: bool,
        alive: bool,
        spawn_room: u32,
        ai: AI,
        max_hp: i32,
        current_hp: i32,
        defense: i32,
        damage: i32,
    ) -> (u: Unit)
        ensures
            u.position == (Coordinates { x, y }),
            u.glyph == glyph,
            u.color == color,
            u.name@ == name@,
            u.blocks_point == blocks_point,
            u.alive == alive,
            u.spawn_room == spawn_room,
            u.ai == ai,
            u.stats == (UnitStats { max_hp, current_hp, defense, damage }),
    {
        Unit {
            position: Coordinates { x, y },
            glyph,
            color,
            alive,
            blocks_point,
            name: name.to_string(),
            spawn_room,
            stats: UnitStats { max_hp, current_hp, defense, damage },
            ai,
        }
    }

    /// Displace this unit by the given amounts; nothing else changes.
    pub fn move_by(&mut self, x: i32, y: i32)
        requires
            i32::MIN <= old(self).position.x + x <= i32::MAX,
            i32::MIN <= old(self).position.y + y <= i32::MAX,
        ensures
            *final(self) == (Unit {
                position: Coordinates {
                    x: (old(self).position.x + x) as i32,
                    y: (old(self).position.y + y) as i32,
                },
                ..*old(self)
            }),
    {
        self.position.x += x;
        self.position.y += y;
    }

    /// The squared distance to `target` and the one-cell step toward it.
    /// The first component squares the Euclidean distance, so the engine's
    /// "distance at least 2" test reads `dist_sq >= 4`.
    pub fn monster_step(&self, target: &Coordinates) -> (r: (i64, i32, i32))
        requires
            -0x2000_0000 <= self.position.x <= 0x2000_0000,
            -0x2000_0000 <= self.position.y <= 0x2000_0000,
            -0x2000_0000 <= target.x <= 0x2000_0000,
            -0x2000_0000 <= target.y <= 0x2000_0000,
        ensures
            r.0 == dist_sq(self.position, *target),
            r.1 == step_component(target.x - self.position.x, target.y - self.position.y),
            r.2 == step_component(target.y - self.position.y, target.x - self.position.x),
    {
        let dx: i64 = target.x as i64 - self.position.x as i64;
        let dy: i64 = target.y as i64 - self.position.y as i64;
        proof {
            assert(0 <= dx * dx <= 0x1000_0000_0000_0000 && 0 <= dy * dy
                <= 0x1000_0000_0000_0000 && 0 <= 3 * dx * dx <= 0x3000_0000_0000_0000
                && 0 <= 3 * dy * dy <= 0x3000_0000_0000_0000) by (nonlinear_arith)
                requires
                    -0x4000_0000 <= dx <= 0x4000_0000,
                    -0x4000_0000 <= dy <= 0x4000_0000,
            ;
        }
        let distance_sq: i64 = dx * dx + dy * dy;

        let sx: i32 = if dx == 0 {
            0
        } else if 3 * dx * dx >= dy * dy {
            if dx > 0 { 1 } else { -1 }
        } else {
            0
        };
        let sy: i32 = if dy == 0 {
            0
        } else if 3 * dy * dy >= dx * dx {
            if dy > 0 { 1 } else { -1 }
        } else {
            0
        };

        (distance_sq, sx, sy)
    }

    /// Subtract `damage` hit points; on the transition to zero or less,
    /// latch `alive` and `blocks_point` to false and turn the dead color.
    pub fn take_damage(&mut self, damage: i32)
        requires
            i32::MIN <= old(self).stats.current_hp - damage <= i32::MAX,
        ensures
            *final(self) == spec_damaged(*old(self), damage as int),
    {
        self.stats.current_hp -= damage;

        if self.stats.current_hp <= 0 {
            self.alive = false;
            self.blocks_point = false;
            self.color = Rgb { r: 127, g: 127, b: 127 };
        }
    }

    /// Resolve one attack against `target`: damage is the attacker's damage
    /// stat minus the target's defense, applied only when positive. An
    /// attacker whose damage stat is zero or less is categorically too weak,
    /// a distinct outcome from positive damage fully absorbed by defense.
    pub fn attack(&self, target: &mut Unit) -> (outcome: AttackOutcome)
        requires
            i32::MIN <= self.stats.damage - old(target).stats.defense <= i32::MAX,
            i32::MIN <= old(target).stats.current_hp - attack_damage(*self, *old(target)),
        ensures
            *final(target) == spec_attacked(*self, *old(target)),
            outcome == spec_attack_outcome(*self, *old(target)),
    {
        let damage = self.stats.damage - target.stats.defense;

        if damage > 0 {
            let killed = target.stats.current_hp - damage <= 0;
            target.take_damage(damage);
            AttackOutcome::Hit { damage, killed }
        } else if self.stats.damage <= 0 {
            AttackOutcome::TooWeak
        } else {
            AttackOutcome::Absorbed
        }
    }

    pub fn get_position(&self) -> (p: &Coordinates)
        ensures
            *p == self.position,
    {
        &self.position
    }

    pub fn is_blocks_point(&self) -> (b: bool)
        ensures
            b == self.blocks_point,
    {
        self.blocks_point
    }

    pub fn is_alive(&self) -> (b: bool)
        ensures
            b == self.alive,
    {
        self.alive
    }

    pub fn name(&self) -> (n: &String)
        ensures
            n@ == self.name@,
    {
        &self.name
    }

    pub fn spawn_room(&self) -> (r: u32)
        ensures
            r == self.spawn_room,
    {
        self.spawn_room
    }

    pub fn defense(&self) -> (d: i32)
        ensures
            d == self.stats.defense,
    {
        self.stats.defense
    }

    pub fn max_hp(&self) -> (h: i32)
        ensures
            h == self.stats.max_hp,
    {
        self.stats.max_hp
    }

    pub fn current_hp(&self) -> (h: i32)
        ensures
            h == self.stats.current_hp,
    {
        self.stats.current_hp
    }

    pub fn get_glyph(&self) -> (g: char)
        ensures
            g == self.glyph,
    {
        self.glyph
    }

    pub fn get_color(&self) -> (c: Rgb)
        ensures
            c == self.color,
    {
        self.color
    }
}

/// The player preset at a position.
pub open spec fn is_player_preset(u: Unit, x: int, y: int) -> bool {
    &&& u.position.x == x
    &&& u.position.y == y
    &&& u.glyph == '@'
    &&& u.color == white()
    &&& u.name@ == "Player"@
    &&& u.blocks_point
    &&& u.alive
    &&& u.spawn_room == 0
    &&& u.ai == AI::Player
    &&& u.stats == (UnitStats { max_hp: 30, current_hp: 30, defense: 2, damage: 5 })
}

/// The weak monster preset at a position.
pub open spec fn is_orc_preset(u: Unit, x: int, y: int, spawn_room: int) -> bool {
    &&& u.position.x == x
    &&& u.position.y == y
    &&& u.glyph == 'o'
    &&& u.color == desaturated_green()
    &&& u.name@ == "Orc"@
    &&& u.blocks_point
    &&& u.alive
    &&& u.spawn_room == spawn_room
    &&& u.ai == AI::Basic
    &&& u.stats == (UnitStats { max_hp: 10, current_hp: 10, defense: 0, damage: 3 })
}

/// The strong monster preset at a position.
pub open spec fn is_troll_preset(u: Unit, x: int, y: int, spawn_room: int) -> bool {
    &&& u.position.x == x
    &&& u.position.y == y
    &&& u.glyph == 'T'
    &&& u.color == dark_green()
    &&& u.name@ == "Troll"@
    &&& u.blocks_point
    &&& u.alive
    &&& u.spawn_room == spawn_room
    &&& u.ai == AI::Basic
    &&& u.stats == (UnitStats { max_hp: 16, current_hp: 16, defense: 1, damage: 4 })
}

/// A monster the generator may spawn: one of the two archetype presets,
/// standing at its own position, tagged with the room it spawned in.
pub open spec fn is_monster_preset_at(u: Unit, room_idx: int) -> bool {
    ||| is_orc_preset(u, u.position.x as int, u.position.y as int, room_idx)
    ||| is_troll_preset(u, u.position.x as int, u.position.y as int, room_idx)
}

impl Unit {
    pub fn player(x: i32, y: i32) -> (u: Unit)
        ensures
            is_player_preset(u, x as int, y as int),
    {
        Unit {
            position: Coordinates { x, y },
            glyph: '@',
            color: Rgb { r: 255, g: 255, b: 255 },
            name: "Player".to_string(),
            blocks_point: true,
            alive: true,
            spawn_room: 0,
            ai: AI::Player,
            stats: UnitStats { max_hp: 30, current_hp: 30, defense: 2, damage: 5 },
        }
    }

    pub fn orc(x: i32, y: i32, spawn_room: u32) -> (u: Unit)
        ensures
            is_orc_preset(u, x as int, y as int, spawn_room as int),
    {
        Unit {
            position: Coordinates { x, y },
            glyph: 'o',
            color: Rgb { r: 63, g: 127, b: 63 },
            alive: true,
            blocks_point: true,
            name: "Orc".to_string(),
            spawn_room,
            ai: AI::Basic,
            stats: UnitStats { max_hp: 10, current_hp: 10, defense: 0, damage: 3 },
        }
    }

    pub fn troll(x: i32, y: i32, spawn_room: u32) -> (u: Unit)
        ensures
            is_troll_preset(u, x as int, y as int, spawn_room as int),
    {
        Unit {
            position: Coordinates { x, y },
            glyph: 'T',
            color: Rgb { r: 0, g: 191, b: 0 },
            alive: true,
            blocks_point: true,
            name: "Troll".to_string(),
            spawn_room,
            ai: AI::Basic,
            stats: UnitStats { max_hp: 16, current_hp: 16, defense: 1, damage: 4 },
        }
    }
}

/// One attack subtracts exactly `max(0, attacker.damage - defender.defense)`
/// hit points from the defender, atomically: nothing else about its stats
/// changes.
pub proof fn lemma_attack_damage_formula(attacker: Unit, defender: Unit)
    requires
        i32::MIN <= defender.stats.current_hp - attack_damage(attacker, defender),
    ensures
        spec_attacked(attacker, defender).stats.current_hp == defender.stats.current_hp
            - crate::num::max_i(0, attack_damage(attacker, defender)),
        spec_attacked(attacker, defender).stats.max_hp == defender.stats.max_hp,
        spec_attacked(attacker, defender).stats.defense == defender.stats.defense,
        spec_attacked(attacker, defender).stats.damage == defender.stats.damage,
{
}

/// Combat never raises hit points: whatever the stats, the defender leaves
/// an attack with no more hit points than it entered with.
pub proof fn lemma_hp_never_rises(attacker: Unit, defender: Unit)
    requires
        i32::MIN <= defender.stats.current_hp - attack_damage(attacker, defender),
    ensures
        spec_attacked(attacker, defender).stats.current_hp <= defender.stats.current_hp,
{
}

/// Death is permanent: a unit that is already down — not alive, not blocking
/// its cell, at zero or fewer hit points — stays that way through any further
/// attack.
pub proof fn lemma_death_is_permanent(attacker: Unit, defender: Unit)
    requires
        i32::MIN <= defender.stats.current_hp - attack_damage(attacker, defender),
        defender.stats.current_hp <= 0,
        !defender.alive,
        !defender.blocks_point,
    ensures
        !spec_attacked(attacker, defender).alive,
        !spec_attacked(attacker, defender).blocks_point,
        spec_attacked(attacker, defender).stats.current_hp <= 0,
{
}

} // verus!
