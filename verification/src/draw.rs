use vstd::prelude::*;

use crate::gamedata::TILE_SIZE;
use crate::rect::{clamped_position, clamped_size, Point, Rect, RectView, MAX_INT_VALUE, MIN_INT_VALUE};

verus! {

/// Where the weapon sprite goes on screen and the point it turns about,
/// relative to the sprite's top-left corner.
pub struct WeaponPlacement {
    pub pos: Rect,
    pub pivot: Point,
}

/// The weapon's rectangle: `attack_length` wide and one tile high, half a
/// tile below the player's top; to the right of the player's tile when it
/// faces right, ending at the player's left side when it faces left.
pub open spec fn weapon_rect(cam: RectView, facing_right: bool, attack_length: u32) -> RectView {
    RectView {
        x: clamped_position(
            if facing_right {
                cam.x + TILE_SIZE
            } else {
                cam.x - attack_length
            },
        ),
        y: clamped_position(cam.y + TILE_SIZE / 2),
        w: clamped_size(attack_length as int),
        h: TILE_SIZE as int,
    }
}

/// The point the weapon turns about: the middle of its edge next to the
/// player (a point's coordinates are clamped as `clamped_position` says).
pub open spec fn weapon_pivot(facing_right: bool, attack_length: u32) -> (int, int) {
    (if facing_right { 0 } else { clamped_position(attack_length as int) }, (TILE_SIZE / 2) as int)
}

/// Places the weapon beside the player drawn at `cam`.
pub fn weapon_placement(cam: &Rect, facing_right: bool, attack_length: u32) -> (r: WeaponPlacement)
    requires
        attack_length <= i32::MAX,
        !facing_right ==> cam@.x - attack_length >= i32::MIN,
    ensures
        r.pos@ == weapon_rect(cam@, facing_right, attack_length),
        r.pivot@ == weapon_pivot(facing_right, attack_length),
{
    let tile = TILE_SIZE as i32;
    let half = (TILE_SIZE / 2) as i32;
    if facing_right {
        let pos = Rect::new(cam.x() + tile, cam.y() + half, attack_length, TILE_SIZE);
        let pivot = Point::new(0, half);
        WeaponPlacement { pos, pivot }
    } else {
        let len = attack_length as i32;
        let pos = Rect::new(cam.x() - len, cam.y() + half, attack_length, TILE_SIZE);
        let pivot = Point::new(len, half);
        WeaponPlacement { pos, pivot }
    }
}

/// The weapon's angle in whole degrees: -60 at rest; while attacking it
/// sweeps from -60 by 60 degrees per 250 timer units; mirrored when the
/// player faces left.
pub open spec fn swing_degrees(is_attacking: bool, attack_timer: u64, facing_right: bool) -> int {
    let a = if is_attacking {
        attack_timer * 60 / 250 - 60
    } else {
        -60
    };
    if facing_right {
        a
    } else {
        -a
    }
}

/// The weapon's angle in whole degrees, as `swing_degrees` says.
pub fn swing_angle(is_attacking: bool, attack_timer: u64, facing_right: bool) -> (r: i64)
    requires
        is_attacking ==> attack_timer * 60 <= u64::MAX,
    ensures
        r == swing_degrees(is_attacking, attack_timer, facing_right),
        !is_attacking ==> r == (if facing_right {
            -60
        } else {
            60
        }),
        is_attacking && facing_right ==> r == attack_timer * 60 / 250 - 60,
        is_attacking && !facing_right ==> r == 60 - attack_timer * 60 / 250,
{
    let a: i64 = if is_attacking {
        let step: u64 = attack_timer * 60 / 250;
        assert(step <= u64::MAX / 250);
        step as i64 - 60
    } else {
        -60
    };
    if facing_right {
        a
    } else {
        -a
    }
}

/// Facing left mirrors the swing: the angle is the negation of the one
/// facing right.
pub proof fn lemma_swing_mirrored(is_attacking: bool, attack_timer: u64)
    ensures
        swing_degrees(is_attacking, attack_timer, false) == -swing_degrees(
            is_attacking,
            attack_timer,
            true,
        ),
{
}

/// Facing left mirrors the weapon about the player's tile: facing right it
/// starts at the tile's right side with its pivot at its own left end,
/// facing left it ends at the tile's left side with its pivot at its own
/// right end, at the same height and with the same size. This holds wherever
/// no coordinate is clamped.
pub proof fn lemma_weapon_mirrored(cam: RectView, attack_length: u32)
    requires
        cam.wf(),
        1 <= attack_length <= MAX_INT_VALUE,
        cam.x + TILE_SIZE <= MAX_INT_VALUE,
        cam.x - attack_length >= MIN_INT_VALUE,
        cam.y + TILE_SIZE / 2 <= MAX_INT_VALUE,
    ensures
        weapon_rect(cam, true, attack_length).left() == cam.x + TILE_SIZE,
        weapon_rect(cam, false, attack_length).right() == cam.x,
        weapon_rect(cam, true, attack_length).y == weapon_rect(cam, false, attack_length).y,
        weapon_rect(cam, true, attack_length).w == weapon_rect(cam, false, attack_length).w,
        weapon_rect(cam, true, attack_length).h == weapon_rect(cam, false, attack_length).h,
        weapon_pivot(true, attack_length).0 == 0,
        weapon_pivot(false, attack_length).0 == weapon_rect(cam, false, attack_length).w,
        weapon_pivot(true, attack_length).1 == weapon_pivot(false, attack_length).1,
{
}

/// The screen rectangle, one tile square, of a thing at world position
/// `(world_x, world_y)` when the player stands at `(player_x, player_y)` and
/// is drawn at screen position `(center_w, center_h)`.
pub fn screen_rect(
    world_x: i32,
    world_y: i32,
    center_w: i32,
    center_h: i32,
    player_x: i32,
    player_y: i32,
) -> (r: Rect)
    requires
        i32::MIN <= center_w - player_x <= i32::MAX,
        i32::MIN <= center_h - player_y <= i32::MAX,
        i32::MIN <= world_x + (center_w - player_x) <= i32::MAX,
        i32::MIN <= world_y + (center_h - player_y) <= i32::MAX,
    ensures
        r@ == (RectView {
            x: clamped_position(world_x + (center_w - player_x)),
            y: clamped_position(world_y + (center_h - player_y)),
            w: TILE_SIZE as int,
            h: TILE_SIZE as int,
        }),
{
    Rect::new(world_x + (center_w - player_x), world_y + (center_h - player_y), TILE_SIZE, TILE_SIZE)
}

/// The view rectangle, `cam_w` by `cam_h`, centred on the middle of the
/// player's `pw` by `ph` box at `(px, py)`.
pub fn camera_rect(px: i32, py: i32, pw: u32, ph: u32, cam_w: u32, cam_h: u32) -> (r: Rect)
    requires
        i32::MIN <= px + pw / 2 <= i32::MAX,
        i32::MIN <= py + ph / 2 <= i32::MAX,
        i32::MIN <= px + pw / 2 - cam_w / 2 <= i32::MAX,
        i32::MIN <= py + ph / 2 - cam_h / 2 <= i32::MAX,
    ensures
        r@ == (RectView {
            x: clamped_position(px + pw / 2 - cam_w / 2),
            y: clamped_position(py + ph / 2 - cam_h / 2),
            w: clamped_size(cam_w as int),
            h: clamped_size(cam_h as int),
        }),
{
    let x = (px + (pw / 2) as i32) - (cam_w / 2) as i32;
    let y = (py + (ph / 2) as i32) - (cam_h / 2) as i32;
    Rect::new(x, y, cam_w, cam_h)
}

/// Halving rounded toward zero, as integer division by 2 does in Rust.
pub open spec fn half_toward_zero(v: int) -> int {
    if v >= 0 {
        v / 2
    } else {
        -((-v) / 2)
    }
}

/// The world coordinate at which the player starts along one axis: the
/// start cell's pixel position, less half of what the view shows beyond one
/// tile, so that the player is drawn in the middle of a `cam_extent`-pixel
/// view.
pub fn start_coordinate(cell: i32, cam_extent: i32) -> (r: i32)
    requires
        i32::MIN <= cell * TILE_SIZE <= i32::MAX,
        i32::MIN <= cam_extent - TILE_SIZE,
        i32::MIN <= cell * TILE_SIZE - half_toward_zero(cam_extent - TILE_SIZE) <= i32::MAX,
    ensures
        r == cell * TILE_SIZE - half_toward_zero(cam_extent - TILE_SIZE),
{
    let tile = TILE_SIZE as i32;
    cell * tile - (cam_extent - tile) / 2
}

} // verus!
