use vstd::prelude::*;

verus! {

/// What a window event means to the game.
#[derive(Clone, Copy, Debug, PartialEq, Eq, Structural)]
pub enum WindowEvent {
    /// The window was closed.
    Quit,
    /// The Escape key went down.
    EscapePressed,
    /// Anything else.
    Other,
}

/// What one frame does, decided from the events and the time since the game
/// loop started.
#[derive(Clone, Copy, Debug, PartialEq, Eq, Structural)]
pub struct FramePlan {
    /// Leave the game loop before doing anything else.
    pub quit: bool,
    /// Measure the frame rate again and rescale speed and acceleration.
    pub refresh_fps: bool,
    /// Let the enemies act.
    pub move_enemies: bool,
}

/// A span of `secs` seconds and `nanos` nanoseconds is longer than `limit`
/// whole seconds.
pub open spec fn longer_than(secs: u64, nanos: u32, limit: u64) -> bool {
    secs > limit || (secs == limit && nanos > 0)
}

/// Once a span is longer than a limit, every longer span is too; a span of
/// more whole seconds than the limit is always longer, and one of fewer never
/// is.
pub proof fn lemma_longer_than_monotone(secs1: u64, nanos1: u32, secs2: u64, nanos2: u32, limit: u64)
    ensures
        (secs1 < secs2 || (secs1 == secs2 && nanos1 <= nanos2)) && longer_than(secs1, nanos1, limit)
            ==> longer_than(secs2, nanos2, limit),
        secs2 > limit ==> longer_than(secs2, nanos2, limit),
        secs2 < limit ==> !longer_than(secs2, nanos2, limit),
        secs2 == limit ==> (longer_than(secs2, nanos2, limit) <==> nanos2 > 0),
{
}

/// Whether a window event asks to leave the game.
pub open spec fn is_quit(e: WindowEvent) -> bool {
    e == WindowEvent::Quit || e == WindowEvent::EscapePressed
}

/// The plan for a frame: quit when some event closes the window or presses
/// Escape; refresh the frame rate once more than one second has passed since
/// the loop started; let the enemies act once more than two seconds have.
pub fn frame_plan(events: &Vec<WindowEvent>, elapsed_secs: u64, elapsed_nanos: u32) -> (r: FramePlan)
    ensures
        r.quit == exists|i: int| 0 <= i < events.len() && is_quit(#[trigger] events@[i]),
        r.refresh_fps == longer_than(elapsed_secs, elapsed_nanos, 1),
        r.move_enemies == longer_than(elapsed_secs, elapsed_nanos, 2),
        r.quit == exists|i: int|
            0 <= i < events.len() && (#[trigger] events@[i] == WindowEvent::Quit || events@[i]
                == WindowEvent::EscapePressed),
        r.refresh_fps == (elapsed_secs > 1 || (elapsed_secs == 1 && elapsed_nanos > 0)),
        r.move_enemies == (elapsed_secs > 2 || (elapsed_secs == 2 && elapsed_nanos > 0)),
        elapsed_secs > 2 ==> r.refresh_fps && r.move_enemies,
        elapsed_secs < 1 || (elapsed_secs == 1 && elapsed_nanos == 0) ==> !r.refresh_fps && !r.move_enemies,
{
    let mut quit = false;
    let mut i: usize = 0;
    while i < events.len()
        invariant_except_break
            !quit,
        invariant
            i <= events.len(),
            forall|j: int| 0 <= j < i ==> !is_quit(#[trigger] events@[j]),
        ensures
            quit == exists|j: int| 0 <= j < events.len() && is_quit(#[trigger] events@[j]),
        decreases events.len() - i,
    {
        let e = events[i];
        if e == WindowEvent::Quit || e == WindowEvent::EscapePressed {
            quit = true;
            assert(is_quit(events@[i as int]));
            break;
        }
        i = i + 1;
    }
    let refresh_fps = elapsed_secs > 1 || (elapsed_secs == 1 && elapsed_nanos > 0);
    let move_enemies = elapsed_secs > 2 || (elapsed_secs == 2 && elapsed_nanos > 0);
    FramePlan { quit, refresh_fps, move_enemies }
}

/// Whether the game loop goes on once collisions are settled: it ends as
/// soon as the player is dead.
pub fn continues_after_collisions(player_dead: bool) -> (r: bool)
    ensures
        r == !player_dead,
{
    !player_dead
}

} // verus!
