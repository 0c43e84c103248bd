use vstd::prelude::*;

use crate::gamedata::TILE_SIZE;
use crate::indices::{indices_where, lemma_indices_where_exact};
use crate::rect::{clamped_position, Rect, RectView};

verus! {

/// The two kinds of enemy that the map places.
#[derive(Clone, Copy, Debug, PartialEq, Eq, Structural)]
pub enum EnemyKind {
    Melee,
    Ranged,
}

/// The enemy that a spawn-grid value asks for: 1 a melee enemy, 2 a ranged
/// one, any other value none.
pub open spec fn spawn_kind(v: i32) -> Option<EnemyKind> {
    if v == 1 {
        Some(EnemyKind::Melee)
    } else if v == 2 {
        Some(EnemyKind::Ranged)
    } else {
        None
    }
}

/// The kind of enemy a die roll of the scattered placement gives: a roll of
/// 4 or 5 a ranged enemy, anything else a melee one.
pub fn kind_for_roll(roll: i32) -> (r: EnemyKind)
    ensures
        r == (if roll == 4 || roll == 5 {
            EnemyKind::Ranged
        } else {
            EnemyKind::Melee
        }),
{
    if roll == 5 || roll == 4 {
        EnemyKind::Ranged
    } else {
        EnemyKind::Melee
    }
}

/// One enemy to create: of kind `kind`, in grid cell `(row, col)`.
#[derive(Clone, Copy, Debug, PartialEq, Eq, Structural)]
pub struct Spawn {
    pub row: usize,
    pub col: usize,
    pub kind: EnemyKind,
}

/// The spawns of grid row `row`, for the columns below `cols`, left to right.
pub open spec fn spawn_row(grid: Seq<Seq<i32>>, row: int, cols: int) -> Seq<Spawn>
    decreases cols,
{
    if cols <= 0 {
        seq![]
    } else {
        spawn_row(grid, row, cols - 1) + match spawn_kind(grid[row][cols - 1]) {
            Some(k) => seq![Spawn { row: row as usize, col: (cols - 1) as usize, kind: k }],
            None => seq![],
        }
    }
}

/// The spawns of the grid rows below `rows`, row by row.
pub open spec fn spawn_rows(grid: Seq<Seq<i32>>, rows: int) -> Seq<Spawn>
    decreases rows,
{
    if rows <= 0 {
        seq![]
    } else {
        spawn_rows(grid, rows - 1) + spawn_row(grid, rows - 1, grid[rows - 1].len() as int)
    }
}

/// Every spawn of a grid row asks for what its cell holds, and every cell of
/// the row that asks for an enemy appears.
proof fn lemma_spawn_row_exact(grid: Seq<Seq<i32>>, row: int, cols: int)
    requires
        0 <= row < grid.len(),
        row <= usize::MAX,
        0 <= cols <= grid[row].len(),
        cols <= usize::MAX + 1,
    ensures
        forall|i: int|
            0 <= i < spawn_row(grid, row, cols).len() ==> {
                let e = #[trigger] spawn_row(grid, row, cols)[i];
                &&& e.row == row
                &&& e.col < cols
                &&& spawn_kind(grid[row][e.col as int]) == Some(e.kind)
            },
        forall|c: int|
            0 <= c < cols && #[trigger] spawn_kind(grid[row][c]) is Some ==> spawn_row(
                grid,
                row,
                cols,
            ).contains(Spawn { row: row as usize, col: c as usize, kind: spawn_kind(grid[row][c])->0 }),
        forall|i: int, j: int|
            0 <= i < j < spawn_row(grid, row, cols).len() ==> spawn_row(grid, row, cols)[i].col < spawn_row(
                grid,
                row,
                cols,
            )[j].col,
    decreases cols,
{
    if cols > 0 {
        lemma_spawn_row_exact(grid, row, cols - 1);
        let prev = spawn_row(grid, row, cols - 1);
        let cur = spawn_row(grid, row, cols);
        assert forall|c: int|
            0 <= c < cols && #[trigger] spawn_kind(grid[row][c]) is Some implies cur.contains(
                Spawn { row: row as usize, col: c as usize, kind: spawn_kind(grid[row][c])->0 },
            ) by {
            let t = Spawn { row: row as usize, col: c as usize, kind: spawn_kind(grid[row][c])->0 };
            if c < cols - 1 {
                let j = choose|j: int| 0 <= j < prev.len() && prev[j] == t;
                assert(cur[j] == t);
            } else {
                assert(cur[cur.len() - 1] == t);
            }
        }
        assert forall|i: int, j: int| 0 <= i < j < cur.len() implies cur[i].col < cur[j].col by {
            assert(cur[i] == prev[i]);
            if j < prev.len() {
                assert(cur[j] == prev[j]);
            }
        }
    }
}

/// Where enemies come from: every spawn lies in the grid and asks for the
/// kind its cell holds, every cell that asks for an enemy is spawned, and the
/// spawns come in strictly row-major order, so each cell spawns at most one
/// enemy.
pub proof fn lemma_spawn_rows_exact(grid: Seq<Seq<i32>>, rows: int)
    requires
        0 <= rows <= grid.len(),
        rows <= usize::MAX + 1,
        forall|r: int| 0 <= r < grid.len() ==> #[trigger] grid[r].len() <= usize::MAX,
    ensures
        forall|i: int|
            0 <= i < spawn_rows(grid, rows).len() ==> {
                let e = #[trigger] spawn_rows(grid, rows)[i];
                &&& e.row < rows
                &&& e.col < grid[e.row as int].len()
                &&& spawn_kind(grid[e.row as int][e.col as int]) == Some(e.kind)
            },
        forall|r: int, c: int|
            0 <= r < rows && 0 <= c < grid[r].len() && #[trigger] spawn_kind(grid[r][c]) is Some
                ==> spawn_rows(grid, rows).contains(
                Spawn { row: r as usize, col: c as usize, kind: spawn_kind(grid[r][c])->0 },
            ),
        forall|i: int, j: int|
            #![trigger spawn_rows(grid, rows)[i], spawn_rows(grid, rows)[j]]
            0 <= i < j < spawn_rows(grid, rows).len() ==> spawn_rows(grid, rows)[i].row < spawn_rows(
                grid,
                rows,
            )[j].row || (spawn_rows(grid, rows)[i].row == spawn_rows(grid, rows)[j].row && spawn_rows(
                grid,
                rows,
            )[i].col < spawn_rows(grid, rows)[j].col),
    decreases rows,
{
    if rows > 0 {
        lemma_spawn_rows_exact(grid, rows - 1);
        lemma_spawn_row_exact(grid, rows - 1, grid[rows - 1].len() as int);
        let prev = spawn_rows(grid, rows - 1);
        let row = spawn_row(grid, rows - 1, grid[rows - 1].len() as int);
        let cur = spawn_rows(grid, rows);
        assert(cur == prev + row);
        assert forall|i: int| 0 <= i < cur.len() implies {
            let e = #[trigger] cur[i];
            &&& e.row < rows
            &&& e.col < grid[e.row as int].len()
            &&& spawn_kind(grid[e.row as int][e.col as int]) == Some(e.kind)
        } by {
            if i < prev.len() {
                assert(cur[i] == prev[i]);
            } else {
                assert(cur[i] == row[i - prev.len()]);
            }
        }
        assert forall|r: int, c: int|
            0 <= r < rows && 0 <= c < grid[r].len() && #[trigger] spawn_kind(grid[r][c]) is Some
                implies cur.contains(
                Spawn { row: r as usize, col: c as usize, kind: spawn_kind(grid[r][c])->0 },
            ) by {
            let t = Spawn { row: r as usize, col: c as usize, kind: spawn_kind(grid[r][c])->0 };
            if r < rows - 1 {
                let j = choose|j: int| 0 <= j < prev.len() && prev[j] == t;
                assert(cur[j] == t);
            } else {
                let j = choose|j: int| 0 <= j < row.len() && row[j] == t;
                assert(cur[prev.len() + j] == t);
            }
        }
        assert forall|i: int, j: int| 0 <= i < j < cur.len() implies cur[i].row < cur[j].row || (cur[i].row
            == cur[j].row && cur[i].col < cur[j].col) by {
            if j < prev.len() {
                assert(cur[i] == prev[i] && cur[j] == prev[j]);
            } else if i < prev.len() {
                assert(cur[i] == prev[i]);
                assert(cur[j] == row[j - prev.len()]);
            } else {
                assert(cur[i] == row[i - prev.len()]);
                assert(cur[j] == row[j - prev.len()]);
            }
        }
    }
}

/// The enemies that a spawn grid asks for, row by row and left to right; the
/// position of an entry in the result is the number the enemy is given.
pub fn spawn_points(grid: &Vec<Vec<i32>>) -> (r: Vec<Spawn>)
    ensures
        r@ == spawn_rows(grid.deep_view(), grid.len() as int),
        forall|i: int|
            0 <= i < r.len() ==> {
                let e = #[trigger] r[i];
                &&& e.row < grid.len()
                &&& e.col < grid[e.row as int].len()
                &&& (grid[e.row as int][e.col as int] == 1 && e.kind == EnemyKind::Melee
                    || grid[e.row as int][e.col as int] == 2 && e.kind == EnemyKind::Ranged)
            },
        forall|h: int, w: int|
            0 <= h < grid.len() && 0 <= w < grid[h].len() && #[trigger] grid[h][w] == 1 ==> r@.contains(
                Spawn { row: h as usize, col: w as usize, kind: EnemyKind::Melee },
            ),
        forall|h: int, w: int|
            0 <= h < grid.len() && 0 <= w < grid[h].len() && #[trigger] grid[h][w] == 2 ==> r@.contains(
                Spawn { row: h as usize, col: w as usize, kind: EnemyKind::Ranged },
            ),
        forall|i: int, j: int|
            0 <= i < j < r.len() ==> r[i].row < r[j].row || (r[i].row == r[j].row && r[i].col < r[j].col),
{
    let mut out: Vec<Spawn> = Vec::new();
    let mut h: usize = 0;
    while h < grid.len()
        invariant
            h <= grid.len(),
            out@ == spawn_rows(grid.deep_view(), h as int),
        decreases grid.len() - h,
    {
        let line = &grid[h];
        assert(line@ =~= grid.deep_view()[h as int]);
        let ghost before = out@;
        let mut w: usize = 0;
        while w < line.len()
            invariant
                h < grid.len(),
                line@ == grid.deep_view()[h as int],
                w <= line.len(),
                out@ == before + spawn_row(grid.deep_view(), h as int, w as int),
            decreases line.len() - w,
        {
            let v = line[w];
            if v == 1 {
                out.push(Spawn { row: h, col: w, kind: EnemyKind::Melee });
            } else if v == 2 {
                out.push(Spawn { row: h, col: w, kind: EnemyKind::Ranged });
            }
            w = w + 1;
        }
        h = h + 1;
    }
    proof {
        let g = grid.deep_view();
        assert forall|k: int| 0 <= k < g.len() implies (#[trigger] g[k]).len() <= usize::MAX by {
            assert(g[k] =~= grid@[k]@);
            assert(grid@[k]@.len() == grid@[k].len());
        }
        lemma_spawn_rows_exact(g, grid.len() as int);
        assert forall|h: int, w: int|
            0 <= h < grid.len() && 0 <= w < grid[h].len() && #[trigger] grid[h][w] == 1 implies out@.contains(
                Spawn { row: h as usize, col: w as usize, kind: EnemyKind::Melee },
            ) by {
            assert(g[h] =~= grid@[h]@);
            assert(spawn_kind(g[h][w]) is Some);
        }
        assert forall|h: int, w: int|
            0 <= h < grid.len() && 0 <= w < grid[h].len() && #[trigger] grid[h][w] == 2 implies out@.contains(
                Spawn { row: h as usize, col: w as usize, kind: EnemyKind::Ranged },
            ) by {
            assert(g[h] =~= grid@[h]@);
            assert(spawn_kind(g[h][w]) is Some);
        }
        assert forall|i: int| 0 <= i < out.len() implies {
            let e = #[trigger] out[i];
            &&& e.row < grid.len()
            &&& e.col < grid[e.row as int].len()
            &&& (grid[e.row as int][e.col as int] == 1 && e.kind == EnemyKind::Melee
                || grid[e.row as int][e.col as int] == 2 && e.kind == EnemyKind::Ranged)
        } by {
            let e = out[i];
            assert(g[e.row as int] =~= grid@[e.row as int]@);
        }
    }
    out
}

/// Where a melee enemy of grid cell `(row, col)` starts: a half-tile square
/// at the cell's top-left corner, in world pixels.
pub fn melee_spawn_rect(row: usize, col: usize) -> (r: Rect)
    requires
        row * TILE_SIZE <= i32::MAX,
        col * TILE_SIZE <= i32::MAX,
    ensures
        r@ == (RectView {
            x: clamped_position(col * TILE_SIZE),
            y: clamped_position(row * TILE_SIZE),
            w: (TILE_SIZE / 2) as int,
            h: (TILE_SIZE / 2) as int,
        }),
{
    Rect::new(col as i32 * TILE_SIZE as i32, row as i32 * TILE_SIZE as i32, TILE_SIZE / 2, TILE_SIZE / 2)
}

/// Where a ranged enemy of grid cell `(row, col)` starts: a half-tile square
/// at the cell's top-left corner, shifted up and left by the player's offset
/// `(off_x, off_y)` within its own tile, in world pixels.
pub fn ranged_spawn_rect(row: usize, col: usize, off_x: i32, off_y: i32) -> (r: Rect)
    requires
        row * TILE_SIZE <= i32::MAX,
        col * TILE_SIZE <= i32::MAX,
        i32::MIN <= col * TILE_SIZE - off_x <= i32::MAX,
        i32::MIN <= row * TILE_SIZE - off_y <= i32::MAX,
    ensures
        r@ == (RectView {
            x: clamped_position(col * TILE_SIZE - off_x),
            y: clamped_position(row * TILE_SIZE - off_y),
            w: (TILE_SIZE / 2) as int,
            h: (TILE_SIZE / 2) as int,
        }),
{
    Rect::new(
        col as i32 * TILE_SIZE as i32 - off_x,
        row as i32 * TILE_SIZE as i32 - off_y,
        TILE_SIZE / 2,
        TILE_SIZE / 2,
    )
}

/// Advances the shared movement timer, entry 0 of `timers`, by one and
/// returns a copy of all the timers.
pub fn advance_move_timer(timers: &mut Vec<i32>) -> (r: Vec<i32>)
    requires
        old(timers).len() > 0,
        old(timers)[0] < i32::MAX,
    ensures
        final(timers)@ == old(timers)@.update(0, (old(timers)[0] + 1) as i32),
        r@ == final(timers)@,
{
    let first = timers[0];
    timers.set(0, first + 1);
    let mut copy: Vec<i32> = Vec::new();
    let mut i: usize = 0;
    while i < timers.len()
        invariant
            i <= timers.len(),
            copy@ == timers@.take(i as int),
        decreases timers.len() - i,
    {
        copy.push(timers[i]);
        i = i + 1;
    }
    assert(timers@.take(timers.len() as int) =~= timers@);
    copy
}

/// What decides whether an enemy leaves gold behind.
#[derive(Clone, Copy, Debug, PartialEq, Eq, Structural)]
pub struct EnemyState {
    pub alive: bool,
    pub has_gold: bool,
}

/// The indices below `n` of the enemies that drop their gold: the dead ones
/// that still carry it, in order.
pub open spec fn droppers(enemies: Seq<EnemyState>, n: int) -> Seq<usize> {
    indices_where(|k: int| !enemies[k].alive && enemies[k].has_gold, n)
}

/// Each dead enemy that still carries gold drops it exactly once: an index
/// is listed exactly when it names such an enemy, and the list is strictly
/// increasing, so no enemy drops twice.
pub proof fn lemma_droppers_exact(enemies: Seq<EnemyState>, n: int)
    requires
        0 <= n <= enemies.len(),
        n <= usize::MAX + 1,
    ensures
        forall|i: int|
            0 <= i < droppers(enemies, n).len() ==> {
                let k = #[trigger] droppers(enemies, n)[i] as int;
                &&& 0 <= k < n
                &&& !enemies[k].alive
                &&& enemies[k].has_gold
            },
        forall|k: int|
            0 <= k < n && !(#[trigger] enemies[k]).alive && enemies[k].has_gold ==> droppers(
                enemies,
                n,
            ).contains(k as usize),
        forall|i: int, j: int|
            0 <= i < j < droppers(enemies, n).len() ==> droppers(enemies, n)[i] < droppers(enemies, n)[j],
{
    let p = |k: int| !enemies[k].alive && enemies[k].has_gold;
    lemma_indices_where_exact(p, n);
    assert forall|k: int| 0 <= k < n && !(#[trigger] enemies[k]).alive && enemies[k].has_gold implies droppers(
        enemies,
        n,
    ).contains(k as usize) by {
        assert(p(k));
    }
}

/// The indices of the enemies that drop their gold, in order.
pub fn gold_droppers(enemies: &Vec<EnemyState>) -> (r: Vec<usize>)
    ensures
        r@ == droppers(enemies@, enemies.len() as int),
        forall|i: int|
            0 <= i < r.len() ==> (#[trigger] r[i]) < enemies.len() && !enemies[r[i] as int].alive
                && enemies[r[i] as int].has_gold,
        forall|k: int|
            0 <= k < enemies.len() && !(#[trigger] enemies[k]).alive && enemies[k].has_gold
                ==> r@.contains(k as usize),
        forall|i: int, j: int| 0 <= i < j < r.len() ==> r[i] < r[j],
{
    let mut out: Vec<usize> = Vec::new();
    let mut i: usize = 0;
    while i < enemies.len()
        invariant
            i <= enemies.len(),
            out@ == droppers(enemies@, i as int),
        decreases enemies.len() - i,
    {
        let e = enemies[i];
        if !e.alive && e.has_gold {
            out.push(i);
        }
        i = i + 1;
    }
    proof {
        lemma_droppers_exact(enemies@, enemies.len() as int);
    }
    out
}

} // verus!
