use roguelike::background::{tile_at, tile_screen_rect, tile_source_rect, visible_tiles, Tile, VisibleTile};
use roguelike::enemies::{
    advance_move_timer, gold_droppers, kind_for_roll, melee_spawn_rect, ranged_spawn_rect, spawn_points, EnemyKind, EnemyState,
    Spawn,
};
use roguelike::rect::Rect;

#[test]
fn tile_values_map_to_tiles() {
    let map = vec![vec![0, 1, 2, 3, 4, 5, -1]];
    assert_eq!(tile_at(&map, 0, 0), None);
    assert_eq!(tile_at(&map, 0, 1), Some(Tile::Floor));
    assert_eq!(tile_at(&map, 0, 2), Some(Tile::Wall));
    assert_eq!(tile_at(&map, 0, 3), Some(Tile::Upstairs));
    assert_eq!(tile_at(&map, 0, 4), Some(Tile::Downstairs));
    assert_eq!(tile_at(&map, 0, 5), None);
    assert_eq!(tile_at(&map, 0, 6), None);
}

#[test]
fn tiles_outside_the_map_are_not_drawn() {
    let map = vec![vec![1, 1], vec![1, 1]];
    assert_eq!(tile_at(&map, -1, 0), None);
    assert_eq!(tile_at(&map, 0, -1), None);
    assert_eq!(tile_at(&map, 2, 0), None);
    assert_eq!(tile_at(&map, 0, 2), None);
    assert_eq!(tile_at(&map, 1, 1), Some(Tile::Floor));
}

#[test]
fn visible_tiles_lists_drawable_cells_in_order() {
    let map = vec![vec![0, 1], vec![2, 7]];
    let v = visible_tiles(&map, 2, 2, 0, 0);
    assert_eq!(
        v,
        vec![VisibleTile { h: 0, w: 1, tile: Tile::Floor }, VisibleTile { h: 1, w: 0, tile: Tile::Wall }]
    );
}

#[test]
fn visible_tiles_follow_the_offset() {
    let map = vec![vec![3, 0, 0], vec![0, 0, 4]];
    let v = visible_tiles(&map, 3, 4, -1, -1);
    assert_eq!(
        v,
        vec![VisibleTile { h: 1, w: 1, tile: Tile::Upstairs }, VisibleTile { h: 2, w: 3, tile: Tile::Downstairs }]
    );
    assert!(visible_tiles(&map, 2, 2, 5, 5).is_empty());
    assert!(visible_tiles(&map, 0, 4, 0, 0).is_empty());
}

#[test]
fn spawn_points_follow_the_grid() {
    let grid = vec![vec![0, 1, 2], vec![3, 2], vec![]];
    let s = spawn_points(&grid);
    assert_eq!(
        s,
        vec![
            Spawn { row: 0, col: 1, kind: EnemyKind::Melee },
            Spawn { row: 0, col: 2, kind: EnemyKind::Ranged },
            Spawn { row: 1, col: 1, kind: EnemyKind::Ranged },
        ]
    );
    assert!(spawn_points(&vec![vec![0, 0], vec![9]]).is_empty());
}

#[test]
fn melee_spawn_is_a_half_tile_at_the_cell() {
    assert_eq!(melee_spawn_rect(2, 3), Rect::new(192, 128, 32, 32));
    let r = melee_spawn_rect(0, 0);
    assert_eq!((r.x(), r.y(), r.width(), r.height()), (0, 0, 32, 32));
}

#[test]
fn move_timer_advances_first_entry_only() {
    let mut t = vec![5, 1, 2];
    let copy = advance_move_timer(&mut t);
    assert_eq!(t, vec![6, 1, 2]);
    assert_eq!(copy, vec![6, 1, 2]);
    let copy = advance_move_timer(&mut t);
    assert_eq!(copy, vec![7, 1, 2]);
}

#[test]
fn dead_enemies_with_gold_drop_it() {
    let enemies = vec![
        EnemyState { alive: true, has_gold: true },
        EnemyState { alive: false, has_gold: true },
        EnemyState { alive: false, has_gold: false },
        EnemyState { alive: false, has_gold: true },
    ];
    assert_eq!(gold_droppers(&enemies), vec![1, 3]);
    assert!(gold_droppers(&vec![]).is_empty());
}

#[test]
fn rolls_four_and_five_give_ranged_enemies() {
    assert_eq!(kind_for_roll(4), EnemyKind::Ranged);
    assert_eq!(kind_for_roll(5), EnemyKind::Ranged);
    assert_eq!(kind_for_roll(1), EnemyKind::Melee);
    assert_eq!(kind_for_roll(3), EnemyKind::Melee);
}

#[test]
fn ranged_spawn_is_shifted_by_player_offset() {
    assert_eq!(ranged_spawn_rect(2, 3, 10, 20), Rect::new(182, 108, 32, 32));
    assert_eq!(ranged_spawn_rect(0, 0, 0, 0), melee_spawn_rect(0, 0));
}

#[test]
fn tiles_are_drawn_at_their_cell_less_the_offset() {
    assert_eq!(tile_screen_rect(1, 2, 5, 7), Rect::new(123, 57, 64, 64));
    assert_eq!(tile_screen_rect(0, 0, 0, 0), Rect::new(0, 0, 64, 64));
    assert_eq!(tile_source_rect(), Rect::new(0, 0, 64, 64));
}
