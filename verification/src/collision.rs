use vstd::prelude::*;

use crate::indices::{indices_where, lemma_indices_where_exact};
use crate::rect::{Rect, RectView};

verus! {

/// Two rectangles collide when their closed extents overlap on both axes:
/// touching edges count as a collision.
pub open spec fn collides(a: RectView, b: RectView) -> bool {
    !(a.bottom() < b.top() || a.top() > b.bottom() || a.right() < b.left() || a.left() > b.right())
}

/// The point `(px, py)` lies in the closed extent of `r`, edges included.
pub open spec fn contains_point(r: RectView, px: int, py: int) -> bool {
    r.left() <= px <= r.right() && r.top() <= py <= r.bottom()
}

/// Whether `a` and `b` collide; rectangles that only touch collide too.
pub fn check_collision(a: &Rect, b: &Rect) -> (r: bool)
    ensures
        r == collides(a@, b@),
{
    if a.bottom() < b.top() || a.top() > b.bottom() || a.right() < b.left() || a.left() > b.right() {
        false
    } else {
        true
    }
}

/// Collision does not depend on the order of the two rectangles.
pub proof fn lemma_collision_symmetric(a: RectView, b: RectView)
    ensures
        collides(a, b) == collides(b, a),
{
}

/// Every rectangle collides with itself.
pub proof fn lemma_collision_reflexive(a: RectView)
    requires
        a.wf(),
    ensures
        collides(a, a),
{
}

/// Two rectangles collide exactly when some point lies in both of them,
/// edges included.
pub proof fn lemma_collision_shared_point(a: RectView, b: RectView)
    requires
        a.wf(),
        b.wf(),
    ensures
        collides(a, b) <==> exists|px: int, py: int|
            contains_point(a, px, py) && contains_point(b, px, py),
{
    if collides(a, b) {
        let px = if a.left() < b.left() { b.left() } else { a.left() };
        let py = if a.top() < b.top() { b.top() } else { a.top() };
        assert(contains_point(a, px, py) && contains_point(b, px, py));
    }
}

/// Something that may be hit: a projectile in flight or a coin on the floor.
/// `in_play` is false once the projectile has died or the coin has been
/// collected.
#[derive(Clone, Copy, Debug, PartialEq, Eq)]
pub struct Body {
    pub pos: Rect,
    pub in_play: bool,
}

/// Body `k` is in play and collides with `target`.
pub open spec fn hits_target(target: RectView, bodies: Seq<Body>) -> spec_fn(int) -> bool {
    |k: int| bodies[k].in_play && collides(bodies[k].pos@, target)
}

/// The indices below `n` of the bodies in play that collide with `target`,
/// in order.
pub open spec fn hit_indices(target: RectView, bodies: Seq<Body>, n: int) -> Seq<usize> {
    indices_where(hits_target(target, bodies), n)
}

/// The indices of the bodies in play that collide with `target`, in order:
/// with the player as target and the coins on the floor as bodies, the coins
/// the player picks up.
pub fn hits(target: &Rect, bodies: &Vec<Body>) -> (r: Vec<usize>)
    ensures
        r@ == hit_indices(target@, bodies@, bodies.len() as int),
        forall|i: int|
            0 <= i < r.len() ==> (#[trigger] r[i]) < bodies.len() && bodies[r[i] as int].in_play
                && collides(bodies[r[i] as int].pos@, target@),
        forall|k: int|
            0 <= k < bodies.len() && (#[trigger] bodies[k]).in_play && collides(bodies[k].pos@, target@)
                ==> r@.contains(k as usize),
        forall|i: int, j: int| 0 <= i < j < r.len() ==> r[i] < r[j],
{
    let mut out: Vec<usize> = Vec::new();
    let mut i: usize = 0;
    while i < bodies.len()
        invariant
            i <= bodies.len(),
            out@ == hit_indices(target@, bodies@, i as int),
        decreases bodies.len() - i,
    {
        let b = &bodies[i];
        if check_collision(&b.pos, target) && b.in_play {
            out.push(i);
        }
        i = i + 1;
    }
    proof {
        lemma_hit_indices_exact(target@, bodies@, bodies.len() as int);
    }
    out
}

/// An index is listed exactly when it names a body in play that collides
/// with the target, each once and in increasing order.
pub proof fn lemma_hit_indices_exact(target: RectView, bodies: Seq<Body>, n: int)
    requires
        0 <= n <= bodies.len(),
        n <= usize::MAX + 1,
    ensures
        forall|i: int|
            0 <= i < hit_indices(target, bodies, n).len() ==> {
                let k = #[trigger] hit_indices(target, bodies, n)[i] as int;
                &&& 0 <= k < n
                &&& bodies[k].in_play
                &&& collides(bodies[k].pos@, target)
            },
        forall|k: int|
            0 <= k < n && (#[trigger] bodies[k]).in_play && collides(bodies[k].pos@, target)
                ==> hit_indices(target, bodies, n).contains(k as usize),
        forall|i: int, j: int|
            0 <= i < j < hit_indices(target, bodies, n).len() ==> hit_indices(target, bodies, n)[i]
                < hit_indices(target, bodies, n)[j],
{
    let p = hits_target(target, bodies);
    lemma_indices_where_exact(p, n);
    assert forall|k: int|
        0 <= k < n && (#[trigger] bodies[k]).in_play && collides(bodies[k].pos@, target)
            implies hit_indices(target, bodies, n).contains(k as usize) by {
        assert(p(k));
    }
}

/// For each rectangle, whether it collides with `target`: which crates the
/// player pushes this frame.
pub fn touching(target: &Rect, rects: &Vec<Rect>) -> (r: Vec<bool>)
    ensures
        r.len() == rects.len(),
        forall|i: int| 0 <= i < rects.len() ==> r[i] == collides(target@, #[trigger] rects[i]@),
{
    let mut out: Vec<bool> = Vec::new();
    let mut i: usize = 0;
    while i < rects.len()
        invariant
            i <= rects.len(),
            out.len() == i,
            forall|j: int| 0 <= j < i ==> out[j] == collides(target@, #[trigger] rects[j]@),
        decreases rects.len() - i,
    {
        out.push(check_collision(target, &rects[i]));
        i = i + 1;
    }
    out
}

/// Something that hurts the player: contact with the enemy of that index, or
/// the enemy projectile of that index, which is spent by the hit.
#[derive(Clone, Copy, Debug, PartialEq, Eq, Structural)]
pub enum PlayerHit {
    Contact(usize),
    Shot(usize),
}

/// Whether any of the bodies below `n` is in play.
pub open spec fn any_in_play(bodies: Seq<Body>, n: int) -> bool
    decreases n,
{
    if n <= 0 {
        false
    } else {
        any_in_play(bodies, n - 1) || bodies[n - 1].in_play
    }
}

/// The hits of the enemy projectiles in play that touch the player, in order.
pub open spec fn shot_hits(player: RectView, shots: Seq<Body>) -> Seq<PlayerHit> {
    hit_indices(player, shots, shots.len() as int).map_values(|k: usize| PlayerHit::Shot(k))
}

/// The hits the player takes from the enemies below `n` (`in_play` meaning
/// alive) and from the enemy projectiles: going through the live enemies in
/// order, contact with each that touches the player; and, right after the
/// first live enemy, every enemy projectile in play that touches the player.
/// With no enemy alive the player takes no hit at all.
pub open spec fn player_hit_events(player: RectView, enemies: Seq<Body>, shots: Seq<Body>, n: int) -> Seq<
    PlayerHit,
>
    decreases n,
{
    if n <= 0 {
        seq![]
    } else {
        player_hit_events(player, enemies, shots, n - 1) + if enemies[n - 1].in_play {
            (if collides(player, enemies[n - 1].pos@) {
                seq![PlayerHit::Contact((n - 1) as usize)]
            } else {
                seq![]
            }) + if !any_in_play(enemies, n - 1) {
                shot_hits(player, shots)
            } else {
                seq![]
            }
        } else {
            seq![]
        }
    }
}

/// The hits the player takes this frame, in the order they land, as
/// `player_hit_events` says; each costs the player health and makes it
/// briefly invincible.
pub fn player_hits(player: &Rect, enemies: &Vec<Body>, enemy_shots: &Vec<Body>) -> (r: Vec<PlayerHit>)
    ensures
        r@ == player_hit_events(player@, enemies@, enemy_shots@, enemies.len() as int),
        forall|i: int|
            0 <= i < r.len() ==> match #[trigger] r[i] {
                PlayerHit::Contact(k) => k < enemies.len() && enemies[k as int].in_play && collides(
                    player@,
                    enemies[k as int].pos@,
                ),
                PlayerHit::Shot(j) => j < enemy_shots.len() && enemy_shots[j as int].in_play && collides(
                    enemy_shots[j as int].pos@,
                    player@,
                ) && exists|k: int| #![auto] 0 <= k < enemies.len() && enemies[k].in_play,
            },
        forall|k: int|
            0 <= k < enemies.len() && (#[trigger] enemies[k]).in_play && collides(player@, enemies[k].pos@)
                ==> r@.contains(PlayerHit::Contact(k as usize)),
        forall|j: int|
            0 <= j < enemy_shots.len() && (#[trigger] enemy_shots[j]).in_play && collides(
                enemy_shots[j].pos@,
                player@,
            ) && (exists|k: int| 0 <= k < enemies.len() && (#[trigger] enemies[k]).in_play) ==> r@.contains(
                PlayerHit::Shot(j as usize),
            ),
        r@.no_duplicates(),
{
    let shot_list = hits(player, enemy_shots);
    let ghost shots_spec = shot_hits(player@, enemy_shots@);
    assert(shots_spec.len() == shot_list@.len());
    let mut out: Vec<PlayerHit> = Vec::new();
    let mut seen_alive = false;
    let mut i: usize = 0;
    while i < enemies.len()
        invariant
            i <= enemies.len(),
            shot_list@ == hit_indices(player@, enemy_shots@, enemy_shots.len() as int),
            shots_spec == shot_hits(player@, enemy_shots@),
            seen_alive == any_in_play(enemies@, i as int),
            out@ == player_hit_events(player@, enemies@, enemy_shots@, i as int),
        decreases enemies.len() - i,
    {
        let e = &enemies[i];
        if e.in_play {
            let ghost before = out@;
            if check_collision(player, &e.pos) {
                out.push(PlayerHit::Contact(i));
            }
            let ghost with_contact = out@;
            if !seen_alive {
                let mut j: usize = 0;
                while j < shot_list.len()
                    invariant
                        j <= shot_list.len(),
                        shots_spec.len() == shot_list@.len(),
                        forall|k: int| 0 <= k < shot_list.len() ==> #[trigger] shots_spec[k] == PlayerHit::Shot(shot_list@[k]),
                        out@ == with_contact + shots_spec.take(j as int),
                    decreases shot_list.len() - j,
                {
                    out.push(PlayerHit::Shot(shot_list[j]));
                    assert(shots_spec.take(j + 1) =~= shots_spec.take(j as int).push(shots_spec[j as int]));
                    j = j + 1;
                }
                assert(shots_spec.take(shot_list.len() as int) =~= shots_spec);
            }
            seen_alive = true;
        }
        i = i + 1;
    }
    proof {
        lemma_player_hit_events_exact(player@, enemies@, enemy_shots@, enemies.len() as int);
        lemma_any_in_play(enemies@, enemies.len() as int);
        assert forall|i: int| 0 <= i < out.len() implies match #[trigger] out[i] {
            PlayerHit::Contact(k) => k < enemies.len() && enemies[k as int].in_play && collides(
                player@,
                enemies[k as int].pos@,
            ),
            PlayerHit::Shot(j) => j < enemy_shots.len() && enemy_shots[j as int].in_play && collides(
                enemy_shots[j as int].pos@,
                player@,
            ) && exists|k: int| #![auto] 0 <= k < enemies.len() && enemies[k].in_play,
        } by {
            assert(hit_justified(player@, enemies@, enemy_shots@, enemies.len() as int, out@[i]));
        }
    }
    out
}

/// Some body below `n` is in play exactly when `any_in_play` says so.
pub proof fn lemma_any_in_play(bodies: Seq<Body>, n: int)
    requires
        0 <= n <= bodies.len(),
    ensures
        any_in_play(bodies, n) <==> exists|k: int| 0 <= k < n && (#[trigger] bodies[k]).in_play,
    decreases n,
{
    if n > 0 {
        lemma_any_in_play(bodies, n - 1);
        if exists|k: int| 0 <= k < n && (#[trigger] bodies[k]).in_play {
            let k = choose|k: int| 0 <= k < n && (#[trigger] bodies[k]).in_play;
            if k < n - 1 {
                assert(any_in_play(bodies, n - 1));
            }
        }
        if bodies[n - 1].in_play {
            assert(0 <= n - 1 < n && bodies[n - 1].in_play);
        }
    }
}

/// Why a hit lands on the player: a contact names a live enemy below `n`
/// that touches the player; a shot names an enemy projectile in play that
/// touches the player, while some enemy below `n` is alive.
pub open spec fn hit_justified(player: RectView, enemies: Seq<Body>, shots: Seq<Body>, n: int, h: PlayerHit) -> bool {
    match h {
        PlayerHit::Contact(k) => k < n && enemies[k as int].in_play && collides(player, enemies[k as int].pos@),
        PlayerHit::Shot(j) => j < shots.len() && shots[j as int].in_play && collides(shots[j as int].pos@, player)
            && any_in_play(enemies, n),
    }
}

/// Two hits in this order keep the order of their sources: contacts by
/// increasing enemy index, shots by increasing projectile index.
pub open spec fn hits_in_order(a: PlayerHit, b: PlayerHit) -> bool {
    match (a, b) {
        (PlayerHit::Contact(x), PlayerHit::Contact(y)) => x < y,
        (PlayerHit::Shot(x), PlayerHit::Shot(y)) => x < y,
        _ => true,
    }
}

/// The hits the player takes are exactly the justified ones: every listed
/// hit is justified; every live enemy that touches the player hurts it by
/// contact; while some enemy is alive every enemy projectile in play that
/// touches the player hits it; no hit is listed twice, and hits of one kind
/// keep the order of their sources.
pub proof fn lemma_player_hit_events_exact(player: RectView, enemies: Seq<Body>, shots: Seq<Body>, n: int)
    requires
        0 <= n <= enemies.len(),
        n <= usize::MAX + 1,
        shots.len() <= usize::MAX + 1,
    ensures
        forall|i: int|
            0 <= i < player_hit_events(player, enemies, shots, n).len() ==> hit_justified(
                player,
                enemies,
                shots,
                n,
                #[trigger] player_hit_events(player, enemies, shots, n)[i],
            ),
        forall|k: int|
            0 <= k < n && (#[trigger] enemies[k]).in_play && collides(player, enemies[k].pos@)
                ==> player_hit_events(player, enemies, shots, n).contains(PlayerHit::Contact(k as usize)),
        forall|j: int|
            0 <= j < shots.len() && (#[trigger] shots[j]).in_play && collides(shots[j].pos@, player)
                && any_in_play(enemies, n) ==> player_hit_events(player, enemies, shots, n).contains(
                PlayerHit::Shot(j as usize),
            ),
        forall|i: int, j: int|
            0 <= i < j < player_hit_events(player, enemies, shots, n).len() ==> hits_in_order(
                player_hit_events(player, enemies, shots, n)[i],
                player_hit_events(player, enemies, shots, n)[j],
            ),
        player_hit_events(player, enemies, shots, n).no_duplicates(),
    decreases n,
{
    lemma_hit_indices_exact(player, shots, shots.len() as int);
    if n > 0 {
        lemma_player_hit_events_exact(player, enemies, shots, n - 1);
        let prev = player_hit_events(player, enemies, shots, n - 1);
        let cur = player_hit_events(player, enemies, shots, n);
        let e = enemies[n - 1];
        let hi = hit_indices(player, shots, shots.len() as int);
        let sh = shot_hits(player, shots);
        assert(sh.len() == hi.len());
        assert forall|m: int| 0 <= m < sh.len() implies #[trigger] sh[m] == PlayerHit::Shot(hi[m]) by {}
        let contact: Seq<PlayerHit> = if collides(player, e.pos@) {
            seq![PlayerHit::Contact((n - 1) as usize)]
        } else {
            seq![]
        };
        let block: Seq<PlayerHit> = if !any_in_play(enemies, n - 1) {
            sh
        } else {
            seq![]
        };
        if !e.in_play {
            assert(cur =~= prev);
            assert forall|i: int| 0 <= i < cur.len() implies hit_justified(
                player,
                enemies,
                shots,
                n,
                #[trigger] cur[i],
            ) by {
                assert(hit_justified(player, enemies, shots, n - 1, prev[i]));
            }
        } else {
            assert(cur =~= prev + contact + block);
            if !any_in_play(enemies, n - 1) {
                lemma_no_live_enemy_no_hits(player, enemies, shots, n - 1);
                assert(prev.len() == 0);
            }
            let pc = prev + contact;
            assert forall|i: int| 0 <= i < cur.len() implies hit_justified(
                player,
                enemies,
                shots,
                n,
                #[trigger] cur[i],
            ) by {
                if i < prev.len() {
                    assert(cur[i] == prev[i]);
                    assert(hit_justified(player, enemies, shots, n - 1, prev[i]));
                } else if i < pc.len() {
                    assert(cur[i] == contact[i - prev.len()]);
                } else {
                    assert(cur[i] == block[i - pc.len()]);
                    assert(!any_in_play(enemies, n - 1));
                    let m = i - pc.len();
                    assert(sh[m] == PlayerHit::Shot(hi[m]));
                }
            }
            assert forall|k: int|
                0 <= k < n && (#[trigger] enemies[k]).in_play && collides(player, enemies[k].pos@)
                    implies cur.contains(PlayerHit::Contact(k as usize)) by {
                if k < n - 1 {
                    let j = choose|j: int| 0 <= j < prev.len() && prev[j] == PlayerHit::Contact(k as usize);
                    assert(cur[j] == prev[j]);
                } else {
                    assert(cur[prev.len() as int] == PlayerHit::Contact(k as usize));
                }
            }
            assert forall|j: int|
                0 <= j < shots.len() && (#[trigger] shots[j]).in_play && collides(shots[j].pos@, player)
                    && any_in_play(enemies, n) implies cur.contains(PlayerHit::Shot(j as usize)) by {
                if any_in_play(enemies, n - 1) {
                    let i = choose|i: int| 0 <= i < prev.len() && prev[i] == PlayerHit::Shot(j as usize);
                    assert(cur[i] == prev[i]);
                } else {
                    assert(hits_target(player, shots)(j));
                    let m = choose|m: int| 0 <= m < hi.len() && hi[m] == j as usize;
                    assert(sh[m] == PlayerHit::Shot(j as usize));
                    assert(cur[pc.len() + m] == block[m]);
                }
            }
            assert forall|i: int, j: int| 0 <= i < j < cur.len() implies hits_in_order(
                cur[i],
                cur[j],
            ) by {
                if j < prev.len() {
                    assert(cur[i] == prev[i] && cur[j] == prev[j]);
                } else if j < pc.len() {
                    assert(cur[j] == PlayerHit::Contact((n - 1) as usize));
                    if i < prev.len() {
                        assert(cur[i] == prev[i]);
                        assert(hit_justified(player, enemies, shots, n - 1, prev[i]));
                    }
                } else {
                    let mj = j - pc.len();
                    assert(cur[j] == sh[mj]);
                    if i >= pc.len() {
                        let mi = i - pc.len();
                        assert(cur[i] == sh[mi]);
                        assert(hi[mi] < hi[mj]);
                    } else {
                        assert(i >= prev.len());
                    }
                }
            }
        }
        assert forall|i: int, j: int| 0 <= i < cur.len() && 0 <= j < cur.len() && i != j implies cur[i]
            != cur[j] by {
            if i < j {
                assert(hits_in_order(cur[i], cur[j]));
            } else {
                assert(hits_in_order(cur[j], cur[i]));
            }
        }
    }
}

/// With no enemy alive the player takes no hit, not even from projectiles
/// still in flight.
pub proof fn lemma_no_live_enemy_no_hits(player: RectView, enemies: Seq<Body>, shots: Seq<Body>, n: int)
    requires
        !any_in_play(enemies, n),
    ensures
        player_hit_events(player, enemies, shots, n) == Seq::<PlayerHit>::empty(),
    decreases n,
{
    if n > 0 {
        lemma_no_live_enemy_no_hits(player, enemies, shots, n - 1);
    }
}

/// When some enemy is alive, the projectile hits land exactly once, as one
/// block between contact hits; otherwise every hit is a contact.
pub proof fn lemma_shot_hits_land_once(player: RectView, enemies: Seq<Body>, shots: Seq<Body>, n: int)
    requires
        0 <= n <= enemies.len(),
    ensures
        any_in_play(enemies, n) ==> exists|a: Seq<PlayerHit>, b: Seq<PlayerHit>|
            player_hit_events(player, enemies, shots, n) == a + shot_hits(player, shots) + b
                && (forall|i: int| 0 <= i < a.len() ==> (#[trigger] a[i]) is Contact)
                && (forall|i: int| 0 <= i < b.len() ==> (#[trigger] b[i]) is Contact),
        !any_in_play(enemies, n) ==> forall|i: int|
            0 <= i < player_hit_events(player, enemies, shots, n).len() ==> (
            #[trigger] player_hit_events(player, enemies, shots, n)[i]) is Contact,
    decreases n,
{
    if n > 0 {
        lemma_shot_hits_land_once(player, enemies, shots, n - 1);
        let prev = player_hit_events(player, enemies, shots, n - 1);
        let cur = player_hit_events(player, enemies, shots, n);
        let e = enemies[n - 1];
        let contact: Seq<PlayerHit> = if collides(player, e.pos@) {
            seq![PlayerHit::Contact((n - 1) as usize)]
        } else {
            seq![]
        };
        if !e.in_play {
            assert(cur == prev + Seq::<PlayerHit>::empty());
            assert(cur =~= prev);
        } else if !any_in_play(enemies, n - 1) {
            assert(cur == prev + (contact + shot_hits(player, shots)));
            assert(cur =~= (prev + contact) + shot_hits(player, shots) + Seq::<PlayerHit>::empty());
            let a = prev + contact;
            assert forall|i: int| 0 <= i < a.len() implies (#[trigger] a[i]) is Contact by {
                if i < prev.len() {
                    assert(a[i] == prev[i]);
                } else {
                    assert(a[i] == contact[i - prev.len()]);
                }
            }
            let b = Seq::<PlayerHit>::empty();
            assert(cur == a + shot_hits(player, shots) + b);
        } else {
            let (a, b) = choose|a: Seq<PlayerHit>, b: Seq<PlayerHit>|
                prev == a + shot_hits(player, shots) + b
                    && (forall|i: int| 0 <= i < a.len() ==> (#[trigger] a[i]) is Contact)
                    && (forall|i: int| 0 <= i < b.len() ==> (#[trigger] b[i]) is Contact);
            assert(cur == prev + (contact + Seq::<PlayerHit>::empty()));
            let b2 = b + contact;
            assert(cur =~= a + shot_hits(player, shots) + b2);
            assert forall|i: int| 0 <= i < b2.len() implies (#[trigger] b2[i]) is Contact by {
                if i < b.len() {
                    assert(b2[i] == b[i]);
                } else {
                    assert(b2[i] == contact[i - b.len()]);
                }
            }
        }
    }
}

/// The indices of the entries that are set, in order. With the alive flags
/// of the enemies, entry `j` of the result is the enemy that uses movement
/// timer slot `j`; with the active flags of projectiles, the projectiles that
/// move this frame.
pub open spec fn set_indices(flags: Seq<bool>, n: int) -> Seq<usize> {
    indices_where(|k: int| flags[k], n)
}

/// The indices of the set flags, in order, as `set_indices` says.
pub fn active_indices(flags: &Vec<bool>) -> (r: Vec<usize>)
    ensures
        r@ == set_indices(flags@, flags.len() as int),
        forall|i: int| 0 <= i < r.len() ==> (#[trigger] r[i]) < flags.len() && flags[r[i] as int],
        forall|k: int| 0 <= k < flags.len() && #[trigger] flags[k] ==> r@.contains(k as usize),
        forall|i: int, j: int| 0 <= i < j < r.len() ==> r[i] < r[j],
{
    let mut out: Vec<usize> = Vec::new();
    let mut i: usize = 0;
    while i < flags.len()
        invariant
            i <= flags.len(),
            out@ == set_indices(flags@, i as int),
        decreases flags.len() - i,
    {
        if flags[i] {
            out.push(i);
        }
        i = i + 1;
    }
    proof {
        lemma_set_indices_slots(flags@, flags.len() as int);
    }
    out
}

/// The slot of a set flag is the number of set flags before it: entry `j`
/// of `set_indices` is set and has exactly `j` set flags before it; and
/// every set flag is listed.
pub proof fn lemma_set_indices_slots(flags: Seq<bool>, n: int)
    requires
        0 <= n <= flags.len(),
        n <= usize::MAX + 1,
    ensures
        forall|j: int|
            0 <= j < set_indices(flags, n).len() ==> {
                let k = #[trigger] set_indices(flags, n)[j] as int;
                &&& 0 <= k < n
                &&& flags[k]
                &&& set_indices(flags, k).len() == j
            },
        forall|k: int| 0 <= k < n && #[trigger] flags[k] ==> set_indices(flags, n).contains(k as usize),
        forall|i: int, j: int|
            0 <= i < j < set_indices(flags, n).len() ==> set_indices(flags, n)[i] < set_indices(flags, n)[j],
{
    let p = |k: int| flags[k];
    lemma_indices_where_exact(p, n);
    assert forall|j: int| 0 <= j < set_indices(flags, n).len() implies {
        let k = #[trigger] set_indices(flags, n)[j] as int;
        &&& 0 <= k < n
        &&& flags[k]
        &&& set_indices(flags, k).len() == j
    } by {
        let k = set_indices(flags, n)[j] as int;
        assert(p(k));
    }
    assert forall|k: int| 0 <= k < n && #[trigger] flags[k] implies set_indices(flags, n).contains(
        k as usize,
    ) by {
        assert(p(k));
    }
}

/// The next hit on an enemy at `target` from the player's projectiles: the
/// first projectile at index `from` or later that is in play and collides
/// with it. The caller spends that projectile and knocks the enemy back, then
/// asks again from the following index with the enemy's new position, so
/// each projectile is spent on the first live enemy it reaches.
pub fn next_hit(target: &Rect, bodies: &Vec<Body>, from: usize) -> (r: Option<usize>)
    ensures
        match r {
            Some(j) => {
                &&& from <= j < bodies.len()
                &&& hits_target(target@, bodies@)(j as int)
                &&& forall|k: int| from <= k < j ==> !#[trigger] hits_target(target@, bodies@)(k)
            },
            None => forall|k: int|
                from <= k < bodies.len() ==> !#[trigger] hits_target(target@, bodies@)(k),
        },
{
    let mut i = from;
    while i < bodies.len()
        invariant
            from <= i,
            forall|k: int| from <= k < i ==> !#[trigger] hits_target(target@, bodies@)(k),
        decreases bodies.len() - i,
    {
        let b = &bodies[i];
        if check_collision(&b.pos, target) && b.in_play {
            return Some(i);
        }
        i = i + 1;
    }
    None
}

/// While the target stays where it is, stepping with `next_hit` finds the
/// same hits, in the same order, as `hit_indices` lists: a hit at `j`, with
/// none between `from` and `j`, extends the list up to `from` by `j`.
pub proof fn lemma_next_hit_extends(target: RectView, bodies: Seq<Body>, from: int, j: int)
    requires
        0 <= from <= j,
        hits_target(target, bodies)(j),
        forall|k: int| from <= k < j ==> !#[trigger] hits_target(target, bodies)(k),
    ensures
        hit_indices(target, bodies, j + 1) == hit_indices(target, bodies, from).push(j as usize),
    decreases j - from,
{
    if from < j {
        assert(!hits_target(target, bodies)(from));
        lemma_next_hit_extends(target, bodies, from + 1, j);
        assert(hit_indices(target, bodies, from + 1) =~= hit_indices(target, bodies, from));
    } else {
        assert(hit_indices(target, bodies, j + 1) =~= hit_indices(target, bodies, j).push(j as usize));
    }
}

/// Whether the player's melee attack hits the enemy at `enemy`: only while
/// the player attacks, and only when the attack box collides with the enemy.
pub fn melee_hit(is_attacking: bool, attack_box: &Rect, enemy: &Rect) -> (r: bool)
    ensures
        r == (is_attacking && collides(attack_box@, enemy@)),
{
    if is_attacking {
        check_collision(attack_box, enemy)
    } else {
        false
    }
}

} // verus!
