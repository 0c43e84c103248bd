use vstd::prelude::*;

use crate::gamedata::TILE_SIZE;
use crate::rect::{clamped_position, Rect, RectView};

verus! {

/// The kinds of power that can lie on the floor.
#[derive(Clone, Copy, Debug, PartialEq, Eq, Structural)]
pub enum PowerType {
    /// No power at all.
    Empty,
    Fireball,
    Slimeball,
    Shield,
    Dash,
    Rock,
}

/// The damage that a power of the given kind deals: a rock 8, a fireball 5,
/// a slimeball 3, any other power 2.
pub open spec fn power_damage(t: PowerType) -> int {
    match t {
        PowerType::Rock => 8,
        PowerType::Fireball => 5,
        PowerType::Slimeball => 3,
        _ => 2,
    }
}

/// A power's state in plain terms.
pub struct PowerView {
    pub pos: RectView,
    pub src: RectView,
    pub power_type: PowerType,
    pub collected: bool,
    pub damage: int,
}

/// A power lying in the world at `pos`, drawn from the `src` part of its
/// sprite sheet, until the player collects it.
pub struct Power {
    pos: Rect,
    src: Rect,
    power_type: PowerType,
    collected: bool,
    damage: i32,
}

impl View for Power {
    type V = PowerView;

    closed spec fn view(&self) -> PowerView {
        PowerView {
            pos: self.pos@,
            src: self.src@,
            power_type: self.power_type,
            collected: self.collected,
            damage: self.damage as int,
        }
    }
}

/// The part of the sprite sheet that every power is drawn from: one tile at
/// the origin.
pub open spec fn power_sprite() -> RectView {
    RectView { x: 0, y: 0, w: TILE_SIZE as int, h: TILE_SIZE as int }
}

impl Power {
    /// A power of kind `power_type` at `pos`, not yet collected, with the
    /// damage that `power_damage` gives its kind.
    pub fn new(pos: Rect, power_type: PowerType) -> (p: Power)
        ensures
            p@ == (PowerView {
                pos: pos@,
                src: power_sprite(),
                power_type,
                collected: false,
                damage: power_damage(power_type),
            }),
    {
        let src = Rect::new(0, 0, TILE_SIZE, TILE_SIZE);
        assert(clamped_position(0) == 0);
        let collected = false;
        let damage: i32;
        match power_type {
            PowerType::Rock => {
                damage = 8;
            },
            PowerType::Fireball => {
                damage = 5;
            },
            PowerType::Slimeball => {
                damage = 3;
            },
            _ => {
                damage = 2;
            },
        }
        Power { pos, src, power_type, collected, damage }
    }

    /// The horizontal position in the world.
    pub fn x(&self) -> (r: i32)
        ensures
            r == self@.pos.x,
    {
        self.pos.x()
    }

    /// The vertical position in the world.
    pub fn y(&self) -> (r: i32)
        ensures
            r == self@.pos.y,
    {
        self.pos.y()
    }

    /// Where the power lies in the world.
    pub fn pos(&self) -> (r: Rect)
        ensures
            r@ == self@.pos,
    {
        self.pos
    }

    /// The part of the sprite sheet it is drawn from.
    pub fn src(&self) -> (r: Rect)
        ensures
            r@ == self@.src,
    {
        self.src
    }

    /// Whether the player has collected it.
    pub fn collected(&self) -> (r: bool)
        ensures
            r == self@.collected,
    {
        self.collected
    }

    /// Marks the power as collected; nothing else changes.
    pub fn set_collected(&mut self)
        ensures
            final(self)@ == (PowerView { collected: true, ..old(self)@ }),
    {
        self.collected = true;
    }

    /// Its kind.
    pub fn power_type(&self) -> (r: &PowerType)
        ensures
            *r == self@.power_type,
    {
        &self.power_type
    }
}

} // verus!
