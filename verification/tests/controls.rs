use roguelike::draw::{camera_rect, screen_rect, start_coordinate, swing_angle, weapon_placement};
use roguelike::input::{apply_movement, may_attack, may_fire, shots_fired, FireState, Motion, MovementKeys};
use roguelike::projectile::{projectile_texture, ProjectileType};
use roguelike::rect::{Point, Rect};

fn keys(up: bool, left: bool, down: bool, right: bool) -> MovementKeys {
    MovementKeys { up, left, down, right }
}

#[test]
fn movement_keys_change_deltas() {
    let start = Motion { x_delta: 0, y_delta: 0, facing_right: true };
    let m = apply_movement(keys(true, true, false, false), start, 3);
    assert_eq!(m, Motion { x_delta: -3, y_delta: -3, facing_right: false });
    let m = apply_movement(keys(false, false, true, true), start, 3);
    assert_eq!(m, Motion { x_delta: 3, y_delta: 3, facing_right: true });
}

#[test]
fn no_keys_leave_motion_unchanged() {
    let start = Motion { x_delta: 7, y_delta: -2, facing_right: false };
    assert_eq!(apply_movement(keys(false, false, false, false), start, 5), start);
}

#[test]
fn opposite_keys_cancel() {
    let start = Motion { x_delta: 4, y_delta: 9, facing_right: false };
    let m = apply_movement(keys(true, true, true, true), start, 6);
    assert_eq!(m, Motion { x_delta: 4, y_delta: 9, facing_right: true });
}

#[test]
fn attack_and_fire_rules() {
    assert!(may_attack(true, false));
    assert!(!may_attack(true, true));
    assert!(!may_attack(false, false));
    assert!(may_fire(true, false, 1));
    assert!(!may_fire(true, false, 0));
    assert!(!may_fire(true, true, 10));
    assert!(!may_fire(false, false, 10));
}

#[test]
fn weapon_sits_beside_the_player() {
    let cam = Rect::new(100, 200, 64, 64);
    let right = weapon_placement(&cam, true, 96);
    assert_eq!(right.pos, Rect::new(164, 232, 96, 64));
    assert_eq!(right.pivot, Point::new(0, 32));
    let left = weapon_placement(&cam, false, 96);
    assert_eq!(left.pos, Rect::new(4, 232, 96, 64));
    assert_eq!(left.pivot, Point::new(96, 32));
}

#[test]
fn swing_angle_sweeps_and_mirrors() {
    assert_eq!(swing_angle(false, 1234, true), -60);
    assert_eq!(swing_angle(false, 1234, false), 60);
    assert_eq!(swing_angle(true, 0, true), -60);
    assert_eq!(swing_angle(true, 500, true), 60);
    assert_eq!(swing_angle(true, 500, false), -60);
    assert_eq!(swing_angle(true, 249, true), -1);
}

#[test]
fn screen_rect_places_relative_to_player() {
    assert_eq!(screen_rect(300, 400, 640, 360, 100, 50), Rect::new(840, 710, 64, 64));
    let r = screen_rect(100, 50, 640, 360, 100, 50);
    assert_eq!((r.x(), r.y()), (640, 360));
}

#[test]
fn camera_is_centred_on_player() {
    assert_eq!(camera_rect(100, 100, 64, 64, 1280, 720), Rect::new(-508, -228, 1280, 720));
}

#[test]
fn start_coordinate_centres_the_start_cell() {
    assert_eq!(start_coordinate(3, 1280), -416);
    assert_eq!(start_coordinate(0, 0), 32);
    assert_eq!(start_coordinate(0, 63), 0);
}

#[test]
fn projectile_images() {
    assert_eq!(projectile_texture(ProjectileType::Bullet), "images/abilities/bullet.png");
    assert_eq!(projectile_texture(ProjectileType::Fireball), "images/abilities/beng.png");
}

#[test]
fn shots_fired_in_order() {
    let ready = FireState { is_firing: false, mana: 5 };
    let busy = FireState { is_firing: true, mana: 4 };
    let empty = FireState { is_firing: false, mana: 0 };
    assert_eq!(shots_fired(true, true, ready, busy), vec![ProjectileType::Bullet]);
    assert_eq!(shots_fired(true, true, ready, ready), vec![ProjectileType::Bullet, ProjectileType::Fireball]);
    assert_eq!(shots_fired(false, true, ready, busy), vec![ProjectileType::Fireball]);
    assert_eq!(shots_fired(true, false, ready, ready), vec![ProjectileType::Bullet]);
    assert!(shots_fired(true, true, empty, ready).is_empty());
    assert!(shots_fired(false, false, ready, ready).is_empty());
}
