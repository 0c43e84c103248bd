use roguelike::collision::{
    active_indices, check_collision, hits, melee_hit, next_hit, player_hits, touching, Body, PlayerHit,
};
use roguelike::rect::{Point, Rect, MAX_INT_VALUE, MIN_INT_VALUE};

#[test]
fn rect_keeps_in_range_values() {
    let r = Rect::new(1, 2, 3, 4);
    assert_eq!(r.x(), 1);
    assert_eq!(r.y(), 2);
    assert_eq!(r.width(), 3);
    assert_eq!(r.height(), 4);
    assert_eq!(r.left(), 1);
    assert_eq!(r.right(), 4);
    assert_eq!(r.top(), 2);
    assert_eq!(r.bottom(), 6);
}

#[test]
fn rect_empty_size_becomes_one() {
    let r = Rect::new(-7, 9, 0, 0);
    assert_eq!(r.width(), 1);
    assert_eq!(r.height(), 1);
    assert_eq!(r.right(), -6);
    assert_eq!(r.bottom(), 10);
}

#[test]
fn rect_clamps_extremes() {
    let r = Rect::new(i32::MAX, i32::MIN, u32::MAX, 5);
    assert_eq!(r.x(), 1073741823);
    assert_eq!(r.y(), -1073741824);
    assert_eq!(r.width(), MAX_INT_VALUE);
    assert_eq!(r.height(), 5);
    assert_eq!(r.right(), 2147483646);
    assert_eq!(r.y(), MIN_INT_VALUE);
}

#[test]
fn point_clamps_coordinates() {
    let p = Point::new(i32::MAX, -5);
    assert_eq!(p.x(), 1073741823);
    assert_eq!(p.y(), -5);
    let q = Point::new(3, i32::MIN);
    assert_eq!(q.x(), 3);
    assert_eq!(q.y(), -1073741824);
}

#[test]
fn touching_rects_collide() {
    let a = Rect::new(0, 0, 10, 10);
    let b = Rect::new(10, 10, 5, 5);
    assert!(check_collision(&a, &b));
    assert!(check_collision(&b, &a));
}

#[test]
fn separated_rects_do_not_collide() {
    let a = Rect::new(0, 0, 10, 10);
    let right_of = Rect::new(11, 0, 5, 5);
    let below = Rect::new(0, 11, 5, 5);
    let above = Rect::new(0, -20, 5, 5);
    let left_of = Rect::new(-20, 0, 5, 5);
    assert!(!check_collision(&a, &right_of));
    assert!(!check_collision(&a, &below));
    assert!(!check_collision(&a, &above));
    assert!(!check_collision(&a, &left_of));
}

#[test]
fn collision_is_symmetric_and_reflexive() {
    let rects = [
        Rect::new(0, 0, 10, 10),
        Rect::new(5, 5, 2, 2),
        Rect::new(-3, 8, 4, 9),
        Rect::new(20, 20, 1, 1),
    ];
    for a in rects.iter() {
        assert!(check_collision(a, a));
        for b in rects.iter() {
            assert_eq!(check_collision(a, b), check_collision(b, a));
        }
    }
}

#[test]
fn nested_rect_collides() {
    let outer = Rect::new(0, 0, 100, 100);
    let inner = Rect::new(40, 40, 5, 5);
    assert!(check_collision(&outer, &inner));
}

#[test]
fn hits_lists_bodies_in_play_that_touch() {
    let player = Rect::new(0, 0, 10, 10);
    let bodies = vec![
        Body { pos: Rect::new(5, 5, 2, 2), in_play: true },
        Body { pos: Rect::new(5, 5, 2, 2), in_play: false },
        Body { pos: Rect::new(50, 5, 2, 2), in_play: true },
        Body { pos: Rect::new(10, 10, 2, 2), in_play: true },
    ];
    assert_eq!(hits(&player, &bodies), vec![0, 3]);
    assert!(hits(&player, &vec![]).is_empty());
}

#[test]
fn touching_flags_each_rect() {
    let player = Rect::new(0, 0, 10, 10);
    let crates = vec![Rect::new(9, 9, 4, 4), Rect::new(30, 0, 4, 4), Rect::new(-4, 0, 4, 4)];
    assert_eq!(touching(&player, &crates), vec![true, false, true]);
}

fn body(x: i32, y: i32, in_play: bool) -> Body {
    Body { pos: Rect::new(x, y, 4, 4), in_play }
}

#[test]
fn player_hits_follow_the_enemy_order() {
    let player = Rect::new(0, 0, 10, 10);
    let enemies = vec![body(50, 50, true), body(2, 2, true), body(3, 3, false), body(8, 8, true)];
    let shots = vec![body(1, 1, true), body(60, 60, true), body(5, 5, false), body(9, 0, true)];
    assert_eq!(
        player_hits(&player, &enemies, &shots),
        vec![PlayerHit::Shot(0), PlayerHit::Shot(3), PlayerHit::Contact(1), PlayerHit::Contact(3)]
    );
}

#[test]
fn contact_with_first_live_enemy_comes_before_shots() {
    let player = Rect::new(0, 0, 10, 10);
    let enemies = vec![body(20, 20, false), body(2, 2, true)];
    let shots = vec![body(1, 1, true)];
    assert_eq!(player_hits(&player, &enemies, &shots), vec![PlayerHit::Contact(1), PlayerHit::Shot(0)]);
}

#[test]
fn no_live_enemy_means_no_hits() {
    let player = Rect::new(0, 0, 10, 10);
    let enemies = vec![body(2, 2, false)];
    let shots = vec![body(1, 1, true)];
    assert!(player_hits(&player, &enemies, &shots).is_empty());
    assert!(player_hits(&player, &vec![], &shots).is_empty());
}

#[test]
fn active_indices_lists_set_flags() {
    assert_eq!(active_indices(&vec![false, true, true, false, true]), vec![1, 2, 4]);
    assert!(active_indices(&vec![false, false]).is_empty());
}

#[test]
fn next_hit_steps_through_projectiles() {
    let enemy = Rect::new(0, 0, 10, 10);
    let mut shots = vec![body(50, 50, true), body(2, 2, true), body(3, 3, false), body(8, 8, true)];
    assert_eq!(next_hit(&enemy, &shots, 0), Some(1));
    shots[1].in_play = false;
    assert_eq!(next_hit(&enemy, &shots, 2), Some(3));
    assert_eq!(next_hit(&enemy, &shots, 4), None);
    let moved = Rect::new(100, 100, 10, 10);
    assert_eq!(next_hit(&moved, &shots, 0), None);
    assert_eq!(next_hit(&enemy, &shots, 0), Some(3));
}

#[test]
fn melee_needs_an_attack_and_contact() {
    let attack = Rect::new(0, 0, 10, 10);
    let near = Rect::new(5, 5, 10, 10);
    let far = Rect::new(50, 5, 10, 10);
    assert!(melee_hit(true, &attack, &near));
    assert!(!melee_hit(false, &attack, &near));
    assert!(!melee_hit(true, &attack, &far));
}
