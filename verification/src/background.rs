use vstd::prelude::*;

use crate::gamedata::TILE_SIZE;
use crate::rect::{clamped_position, Rect, RectView};

verus! {

/// What a drawn map cell shows.
#[derive(Clone, Copy, Debug, PartialEq, Eq, Structural)]
pub enum Tile {
    Floor,
    Wall,
    Upstairs,
    Downstairs,
}

/// The tile that a map value stands for: 1 floor, 2 wall, 3 upstairs,
/// 4 downstairs; any other value (0 is empty space) is not drawn.
pub open spec fn tile_of(v: i32) -> Option<Tile> {
    if v == 1 {
        Some(Tile::Floor)
    } else if v == 2 {
        Some(Tile::Wall)
    } else if v == 3 {
        Some(Tile::Upstairs)
    } else if v == 4 {
        Some(Tile::Downstairs)
    } else {
        None
    }
}

/// The tile drawn for cell `(row, col)` of `map`: none outside the map.
pub open spec fn map_tile(map: Seq<Seq<i32>>, row: int, col: int) -> Option<Tile> {
    if 0 <= row < map.len() && 0 <= col < map[row].len() {
        tile_of(map[row][col])
    } else {
        None
    }
}

/// One tile to draw: screen cell `(h, w)` shows `tile`.
#[derive(Clone, Copy, Debug, PartialEq, Eq, Structural)]
pub struct VisibleTile {
    pub h: u32,
    pub w: u32,
    pub tile: Tile,
}

/// The tiles to draw in screen row `h`, for the columns below `cols`, left to
/// right, with the screen's top-left cell over map cell `(h_off, w_off)`.
pub open spec fn visible_row(map: Seq<Seq<i32>>, h: int, cols: int, h_off: int, w_off: int) -> Seq<
    VisibleTile,
>
    decreases cols,
{
    if cols <= 0 {
        seq![]
    } else {
        visible_row(map, h, cols - 1, h_off, w_off) + match map_tile(map, h + h_off, cols - 1 + w_off) {
            Some(t) => seq![VisibleTile { h: h as u32, w: (cols - 1) as u32, tile: t }],
            None => seq![],
        }
    }
}

/// The tiles to draw on a screen of `rows` by `cols` cells, row by row, with
/// the screen's top-left cell over map cell `(h_off, w_off)`.
pub open spec fn visible_grid(map: Seq<Seq<i32>>, rows: int, cols: int, h_off: int, w_off: int) -> Seq<
    VisibleTile,
>
    decreases rows,
{
    if rows <= 0 {
        seq![]
    } else {
        visible_grid(map, rows - 1, cols, h_off, w_off) + visible_row(map, rows - 1, cols, h_off, w_off)
    }
}

/// Every entry of a screen row is a drawable cell of that row, and every
/// drawable cell of the row appears.
proof fn lemma_visible_row_exact(map: Seq<Seq<i32>>, h: int, cols: int, h_off: int, w_off: int)
    requires
        0 <= h <= u32::MAX,
        0 <= cols <= u32::MAX + 1,
    ensures
        forall|i: int|
            0 <= i < visible_row(map, h, cols, h_off, w_off).len() ==> {
                let e = #[trigger] visible_row(map, h, cols, h_off, w_off)[i];
                &&& e.h == h
                &&& e.w < cols
                &&& map_tile(map, h + h_off, e.w + w_off) == Some(e.tile)
            },
        forall|w: int|
            0 <= w < cols && #[trigger] map_tile(map, h + h_off, w + w_off) is Some ==> visible_row(
                map,
                h,
                cols,
                h_off,
                w_off,
            ).contains(VisibleTile { h: h as u32, w: w as u32, tile: map_tile(map, h + h_off, w + w_off)->0 }),
        forall|i: int, j: int|
            0 <= i < j < visible_row(map, h, cols, h_off, w_off).len() ==> visible_row(map, h, cols, h_off, w_off)[i].w
                < visible_row(map, h, cols, h_off, w_off)[j].w,
    decreases cols,
{
    if cols > 0 {
        lemma_visible_row_exact(map, h, cols - 1, h_off, w_off);
        let prev = visible_row(map, h, cols - 1, h_off, w_off);
        let cur = visible_row(map, h, cols, h_off, w_off);
        assert forall|w: int|
            0 <= w < cols && #[trigger] map_tile(map, h + h_off, w + w_off) is Some implies cur.contains(
                VisibleTile { h: h as u32, w: w as u32, tile: map_tile(map, h + h_off, w + w_off)->0 },
            ) by {
            let t = VisibleTile { h: h as u32, w: w as u32, tile: map_tile(map, h + h_off, w + w_off)->0 };
            if w < cols - 1 {
                let j = choose|j: int| 0 <= j < prev.len() && prev[j] == t;
                assert(cur[j] == t);
            } else {
                assert(cur[cur.len() - 1] == t);
            }
        }
        assert forall|i: int, j: int| 0 <= i < j < cur.len() implies cur[i].w < cur[j].w by {
            assert(cur[i] == prev[i]);
            if j < prev.len() {
                assert(cur[j] == prev[j]);
            }
        }
    }
}

/// What the screen shows of the map: every listed tile lies on the screen and
/// shows the map cell under it, every drawable map cell under the screen is
/// listed, and the list runs in strictly row-major order, so no cell is drawn
/// twice.
pub proof fn lemma_visible_grid_exact(map: Seq<Seq<i32>>, rows: int, cols: int, h_off: int, w_off: int)
    requires
        0 <= rows <= u32::MAX + 1,
        0 <= cols <= u32::MAX + 1,
    ensures
        forall|i: int|
            0 <= i < visible_grid(map, rows, cols, h_off, w_off).len() ==> {
                let e = #[trigger] visible_grid(map, rows, cols, h_off, w_off)[i];
                &&& e.h < rows
                &&& e.w < cols
                &&& map_tile(map, e.h + h_off, e.w + w_off) == Some(e.tile)
            },
        forall|h: int, w: int|
            0 <= h < rows && 0 <= w < cols && #[trigger] map_tile(map, h + h_off, w + w_off) is Some
                ==> visible_grid(map, rows, cols, h_off, w_off).contains(
                VisibleTile { h: h as u32, w: w as u32, tile: map_tile(map, h + h_off, w + w_off)->0 },
            ),
        forall|i: int, j: int|
            #![trigger visible_grid(map, rows, cols, h_off, w_off)[i], visible_grid(map, rows, cols, h_off, w_off)[j]]
            0 <= i < j < visible_grid(map, rows, cols, h_off, w_off).len() ==> visible_grid(
                map,
                rows,
                cols,
                h_off,
                w_off,
            )[i].h < visible_grid(map, rows, cols, h_off, w_off)[j].h || (visible_grid(
                map,
                rows,
                cols,
                h_off,
                w_off,
            )[i].h == visible_grid(map, rows, cols, h_off, w_off)[j].h && visible_grid(
                map,
                rows,
                cols,
                h_off,
                w_off,
            )[i].w < visible_grid(map, rows, cols, h_off, w_off)[j].w),
    decreases rows,
{
    if rows > 0 {
        lemma_visible_grid_exact(map, rows - 1, cols, h_off, w_off);
        lemma_visible_row_exact(map, rows - 1, cols, h_off, w_off);
        let prev = visible_grid(map, rows - 1, cols, h_off, w_off);
        let row = visible_row(map, rows - 1, cols, h_off, w_off);
        let cur = visible_grid(map, rows, cols, h_off, w_off);
        assert(cur == prev + row);
        assert forall|i: int| 0 <= i < cur.len() implies {
            let e = #[trigger] cur[i];
            &&& e.h < rows
            &&& e.w < cols
            &&& map_tile(map, e.h + h_off, e.w + w_off) == Some(e.tile)
        } by {
            if i < prev.len() {
                assert(cur[i] == prev[i]);
            } else {
                assert(cur[i] == row[i - prev.len()]);
            }
        }
        assert forall|h: int, w: int|
            0 <= h < rows && 0 <= w < cols && #[trigger] map_tile(map, h + h_off, w + w_off) is Some
                implies cur.contains(
                VisibleTile { h: h as u32, w: w as u32, tile: map_tile(map, h + h_off, w + w_off)->0 },
            ) by {
            let t = VisibleTile { h: h as u32, w: w as u32, tile: map_tile(map, h + h_off, w + w_off)->0 };
            if h < rows - 1 {
                let j = choose|j: int| 0 <= j < prev.len() && prev[j] == t;
                assert(cur[j] == t);
            } else {
                let j = choose|j: int| 0 <= j < row.len() && row[j] == t;
                assert(cur[prev.len() + j] == t);
            }
        }
        assert forall|i: int, j: int| 0 <= i < j < cur.len() implies cur[i].h < cur[j].h || (cur[i].h
            == cur[j].h && cur[i].w < cur[j].w) by {
            if j < prev.len() {
                assert(cur[i] == prev[i] && cur[j] == prev[j]);
            } else if i < prev.len() {
                assert(cur[i] == prev[i]);
                assert(cur[j] == row[j - prev.len()]);
            } else {
                assert(cur[i] == row[i - prev.len()]);
                assert(cur[j] == row[j - prev.len()]);
            }
        }
    }
}

/// The tile drawn for map cell `(row, col)`, if any.
pub fn tile_at(map: &Vec<Vec<i32>>, row: i32, col: i32) -> (r: Option<Tile>)
    ensures
        r == map_tile(map.deep_view(), row as int, col as int),
        r is Some ==> 0 <= row < map.len() && 0 <= col < map[row as int].len(),
        0 <= row < map.len() && 0 <= col < map[row as int].len() ==> {
            let v = map[row as int][col as int];
            &&& (v == 1 <==> r == Some(Tile::Floor))
            &&& (v == 2 <==> r == Some(Tile::Wall))
            &&& (v == 3 <==> r == Some(Tile::Upstairs))
            &&& (v == 4 <==> r == Some(Tile::Downstairs))
        },
{
    if row < 0 || col < 0 || row as usize >= map.len() {
        return None;
    }
    let line = &map[row as usize];
    assert(line@ =~= map.deep_view()[row as int]);
    if col as usize >= line.len() {
        return None;
    }
    let v = line[col as usize];
    if v == 1 {
        Some(Tile::Floor)
    } else if v == 2 {
        Some(Tile::Wall)
    } else if v == 3 {
        Some(Tile::Upstairs)
    } else if v == 4 {
        Some(Tile::Downstairs)
    } else {
        None
    }
}

/// The tiles to draw on a screen of `rows` by `cols` cells whose top-left
/// cell lies over map cell `(h_off, w_off)`, row by row and left to right.
pub fn visible_tiles(map: &Vec<Vec<i32>>, rows: u32, cols: u32, h_off: i32, w_off: i32) -> (r: Vec<
    VisibleTile,
>)
    requires
        rows <= i32::MAX + 1,
        cols <= i32::MAX + 1,
        rows == 0 || rows - 1 + h_off <= i32::MAX,
        cols == 0 || cols - 1 + w_off <= i32::MAX,
    ensures
        r@ == visible_grid(map.deep_view(), rows as int, cols as int, h_off as int, w_off as int),
        forall|i: int|
            0 <= i < r.len() ==> (#[trigger] r[i]).h < rows && r[i].w < cols && map_tile(
                map.deep_view(),
                r[i].h + h_off,
                r[i].w + w_off,
            ) == Some(r[i].tile),
        forall|h: int, w: int|
            0 <= h < rows && 0 <= w < cols && #[trigger] map_tile(map.deep_view(), h + h_off, w + w_off) is Some
                ==> r@.contains(
                VisibleTile { h: h as u32, w: w as u32, tile: map_tile(map.deep_view(), h + h_off, w + w_off)->0 },
            ),
        forall|i: int, j: int|
            0 <= i < j < r.len() ==> r[i].h < r[j].h || (r[i].h == r[j].h && r[i].w < r[j].w),
{
    let mut out: Vec<VisibleTile> = Vec::new();
    let mut h: u32 = 0;
    while h < rows
        invariant
            h <= rows,
            rows <= i32::MAX + 1,
            cols <= i32::MAX + 1,
            rows == 0 || rows - 1 + h_off <= i32::MAX,
            cols == 0 || cols - 1 + w_off <= i32::MAX,
            out@ == visible_grid(map.deep_view(), h as int, cols as int, h_off as int, w_off as int),
        decreases rows - h,
    {
        let ghost before = out@;
        let mut w: u32 = 0;
        while w < cols
            invariant
                h < rows,
                w <= cols,
                rows <= i32::MAX + 1,
                cols <= i32::MAX + 1,
                rows - 1 + h_off <= i32::MAX,
                cols == 0 || cols - 1 + w_off <= i32::MAX,
                out@ == before + visible_row(
                    map.deep_view(),
                    h as int,
                    w as int,
                    h_off as int,
                    w_off as int,
                ),
            decreases cols - w,
        {
            let row = h as i32 + h_off;
            let col = w as i32 + w_off;
            match tile_at(map, row, col) {
                Some(t) => {
                    out.push(VisibleTile { h, w, tile: t });
                },
                None => {},
            }
            w = w + 1;
        }
        h = h + 1;
    }
    proof {
        lemma_visible_grid_exact(map.deep_view(), rows as int, cols as int, h_off as int, w_off as int);
    }
    out
}

/// Where the tile of screen cell `(h, w)` is drawn: one tile square at the
/// cell's pixel position, shifted up and left by the player's offset
/// `(off_x, off_y)` within its own tile.
pub fn tile_screen_rect(h: u32, w: u32, off_x: i32, off_y: i32) -> (r: Rect)
    requires
        h * TILE_SIZE <= i32::MAX,
        w * TILE_SIZE <= i32::MAX,
        i32::MIN <= w * TILE_SIZE - off_x <= i32::MAX,
        i32::MIN <= h * TILE_SIZE - off_y <= i32::MAX,
    ensures
        r@ == (RectView {
            x: clamped_position(w * TILE_SIZE - off_x),
            y: clamped_position(h * TILE_SIZE - off_y),
            w: TILE_SIZE as int,
            h: TILE_SIZE as int,
        }),
{
    let tile = TILE_SIZE as i32;
    Rect::new(w as i32 * tile - off_x, h as i32 * tile - off_y, TILE_SIZE, TILE_SIZE)
}

/// The part of a tile image that is drawn: the whole tile, from the origin.
pub fn tile_source_rect() -> (r: Rect)
    ensures
        r@ == (RectView { x: 0, y: 0, w: TILE_SIZE as int, h: TILE_SIZE as int }),
{
    let r = Rect::new(0, 0, TILE_SIZE, TILE_SIZE);
    assert(clamped_position(0) == 0);
    r
}

} // verus!
