use roguelike::frame::{continues_after_collisions, frame_plan, FramePlan, WindowEvent};

#[test]
fn quit_and_escape_end_the_loop() {
    let plan = frame_plan(&vec![WindowEvent::Other, WindowEvent::Quit], 0, 0);
    assert!(plan.quit);
    assert!(frame_plan(&vec![WindowEvent::EscapePressed], 0, 0).quit);
    assert!(!frame_plan(&vec![WindowEvent::Other, WindowEvent::Other], 0, 0).quit);
    assert!(!frame_plan(&vec![], 0, 0).quit);
}

#[test]
fn timers_switch_on_strictly_after_their_second() {
    assert_eq!(frame_plan(&vec![], 1, 0), FramePlan { quit: false, refresh_fps: false, move_enemies: false });
    assert_eq!(frame_plan(&vec![], 1, 1), FramePlan { quit: false, refresh_fps: true, move_enemies: false });
    assert_eq!(frame_plan(&vec![], 2, 0), FramePlan { quit: false, refresh_fps: true, move_enemies: false });
    assert_eq!(frame_plan(&vec![], 2, 5), FramePlan { quit: false, refresh_fps: true, move_enemies: true });
    assert_eq!(frame_plan(&vec![], 7, 0), FramePlan { quit: false, refresh_fps: true, move_enemies: true });
}

#[test]
fn dead_player_ends_the_game() {
    assert!(!continues_after_collisions(true));
    assert!(continues_after_collisions(false));
}
