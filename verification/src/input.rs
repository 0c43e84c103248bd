use vstd::prelude::*;

use crate::projectile::ProjectileType;

verus! {

/// Which movement keys are held: W up, A left, S down, D right.
#[derive(Clone, Copy, Debug, PartialEq, Eq, Structural)]
pub struct MovementKeys {
    pub up: bool,
    pub left: bool,
    pub down: bool,
    pub right: bool,
}

/// The player's velocity change for this frame and which way it faces.
#[derive(Clone, Copy, Debug, PartialEq, Eq, Structural)]
pub struct Motion {
    pub x_delta: i32,
    pub y_delta: i32,
    pub facing_right: bool,
}

/// The vertical delta after W, before S.
pub open spec fn after_up(keys: MovementKeys, m: Motion, accel: i32) -> int {
    if keys.up {
        m.y_delta - accel
    } else {
        m.y_delta as int
    }
}

/// The vertical delta after W and S.
pub open spec fn after_down(keys: MovementKeys, m: Motion, accel: i32) -> int {
    if keys.down {
        after_up(keys, m, accel) + accel
    } else {
        after_up(keys, m, accel)
    }
}

/// The horizontal delta after A, before D.
pub open spec fn after_left(keys: MovementKeys, m: Motion, accel: i32) -> int {
    if keys.left {
        m.x_delta - accel
    } else {
        m.x_delta as int
    }
}

/// The horizontal delta after A and D.
pub open spec fn after_right(keys: MovementKeys, m: Motion, accel: i32) -> int {
    if keys.right {
        after_left(keys, m, accel) + accel
    } else {
        after_left(keys, m, accel)
    }
}

/// Which way the player faces after A and D: D wins over A, and with
/// neither the facing stays.
pub open spec fn facing_after(keys: MovementKeys, m: Motion) -> bool {
    if keys.right {
        true
    } else if keys.left {
        false
    } else {
        m.facing_right
    }
}

/// Every step of the update stays within `i32`.
pub open spec fn movement_fits(keys: MovementKeys, m: Motion, accel: i32) -> bool {
    &&& i32::MIN <= after_up(keys, m, accel) <= i32::MAX
    &&& i32::MIN <= after_down(keys, m, accel) <= i32::MAX
    &&& i32::MIN <= after_left(keys, m, accel) <= i32::MAX
    &&& i32::MIN <= after_right(keys, m, accel) <= i32::MAX
}

/// Applies the held movement keys to the player's deltas, in the order W, A,
/// S, D: W subtracts `accel` from the vertical delta, S adds it; A subtracts
/// it from the horizontal delta and turns the player left, D adds it and
/// turns the player right.
pub fn apply_movement(keys: MovementKeys, motion: Motion, accel: i32) -> (r: Motion)
    requires
        movement_fits(keys, motion, accel),
    ensures
        r.y_delta == after_down(keys, motion, accel),
        r.x_delta == after_right(keys, motion, accel),
        r.facing_right == facing_after(keys, motion),
        r.x_delta == motion.x_delta - (if keys.left {
            accel as int
        } else {
            0
        }) + (if keys.right {
            accel as int
        } else {
            0
        }),
        r.y_delta == motion.y_delta - (if keys.up {
            accel as int
        } else {
            0
        }) + (if keys.down {
            accel as int
        } else {
            0
        }),
        keys.right ==> r.facing_right,
        keys.left && !keys.right ==> !r.facing_right,
        !keys.left && !keys.right ==> r.facing_right == motion.facing_right,
{
    let mut m = motion;
    if keys.up {
        m.y_delta = m.y_delta - accel;
    }
    if keys.left {
        m.x_delta = m.x_delta - accel;
        m.facing_right = false;
    }
    if keys.down {
        m.y_delta = m.y_delta + accel;
    }
    if keys.right {
        m.x_delta = m.x_delta + accel;
        m.facing_right = true;
    }
    m
}

/// How the keys move and turn the player, whatever its state: each held key
/// of an axis moves the delta by `accel` in its direction, so the two keys of
/// an axis cancel; D always turns the player right, A alone turns it left,
/// and with neither the facing stays.
pub proof fn lemma_movement_laws(keys: MovementKeys, m: Motion, accel: i32)
    ensures
        after_right(keys, m, accel) == m.x_delta - (if keys.left {
            accel as int
        } else {
            0
        }) + (if keys.right {
            accel as int
        } else {
            0
        }),
        after_down(keys, m, accel) == m.y_delta - (if keys.up {
            accel as int
        } else {
            0
        }) + (if keys.down {
            accel as int
        } else {
            0
        }),
        keys.right ==> facing_after(keys, m),
        keys.left && !keys.right ==> !facing_after(keys, m),
        !keys.left && !keys.right ==> facing_after(keys, m) == m.facing_right,
{
}

/// Holding both keys of an axis leaves that axis' delta as it was.
pub proof fn lemma_opposite_keys_cancel(keys: MovementKeys, m: Motion, accel: i32)
    ensures
        keys.up && keys.down ==> after_down(keys, m, accel) == m.y_delta,
        keys.left && keys.right ==> after_right(keys, m, accel) == m.x_delta,
{
}

/// Whether the attack key starts a melee attack: only when none is under way.
pub fn may_attack(pressed: bool, is_attacking: bool) -> (r: bool)
    ensures
        r == (pressed && !is_attacking),
{
    pressed && !is_attacking
}

/// Whether a fire trigger shoots: only when the player is not already firing
/// and has mana left.
pub fn may_fire(pressed: bool, is_firing: bool, mana: i32) -> (r: bool)
    ensures
        r == (pressed && !is_firing && mana > 0),
{
    pressed && !is_firing && mana > 0
}

/// What decides whether the player can fire.
#[derive(Clone, Copy, Debug, PartialEq, Eq, Structural)]
pub struct FireState {
    pub is_firing: bool,
    pub mana: i32,
}

/// Whether a trigger shoots from the given state.
pub open spec fn fires(pressed: bool, s: FireState) -> bool {
    pressed && !s.is_firing && s.mana > 0
}

/// The shots one input step appends to the player's projectiles, in order:
/// first a bullet, when the mouse button is down and the player can fire in
/// state `before`; then a fireball, when F is held and the player can fire in
/// the state after that first step (`after_bullet` if a bullet was fired,
/// else still `before`).
pub open spec fn fired_shots(mouse_left: bool, f_held: bool, before: FireState, after_bullet: FireState) -> Seq<
    ProjectileType,
> {
    let bullet = fires(mouse_left, before);
    let state = if bullet {
        after_bullet
    } else {
        before
    };
    (if bullet {
        seq![ProjectileType::Bullet]
    } else {
        seq![]
    }) + if fires(f_held, state) {
        seq![ProjectileType::Fireball]
    } else {
        seq![]
    }
}

/// The shots one input step appends, as `fired_shots` says; `after_bullet`
/// is the firing state that firing a bullet leaves behind.
pub fn shots_fired(mouse_left: bool, f_held: bool, before: FireState, after_bullet: FireState) -> (r: Vec<
    ProjectileType,
>)
    ensures
        r@ == fired_shots(mouse_left, f_held, before, after_bullet),
        r@.contains(ProjectileType::Bullet) == (mouse_left && !before.is_firing && before.mana > 0),
        r@.contains(ProjectileType::Fireball) == (f_held && if r@.contains(ProjectileType::Bullet) {
            !after_bullet.is_firing && after_bullet.mana > 0
        } else {
            !before.is_firing && before.mana > 0
        }),
        r.len() <= 2,
        r@.no_duplicates(),
        r.len() > 0 && r@.contains(ProjectileType::Bullet) ==> r[0] == ProjectileType::Bullet,
{
    let mut out: Vec<ProjectileType> = Vec::new();
    let mut state = before;
    if may_fire(mouse_left, before.is_firing, before.mana) {
        out.push(ProjectileType::Bullet);
        state = after_bullet;
    }
    if may_fire(f_held, state.is_firing, state.mana) {
        out.push(ProjectileType::Fireball);
    }
    assert(out@ =~= fired_shots(mouse_left, f_held, before, after_bullet));
    proof {
        if out.len() == 2 {
            assert(out@[0] == ProjectileType::Bullet && out@[1] == ProjectileType::Fireball);
        } else if out.len() == 1 {
            assert(out@.contains(out@[0]));
        }
    }
    out
}

/// A bullet, when fired, always comes before the fireball of the same step,
/// and at most one of each is fired.
pub proof fn lemma_bullet_before_fireball(mouse_left: bool, f_held: bool, before: FireState, after_bullet: FireState)
    ensures
        fired_shots(mouse_left, f_held, before, after_bullet).len() <= 2,
        fired_shots(mouse_left, f_held, before, after_bullet).len() == 2 ==> fired_shots(
            mouse_left,
            f_held,
            before,
            after_bullet,
        ) =~= seq![ProjectileType::Bullet, ProjectileType::Fireball],
{
}

} // verus!
