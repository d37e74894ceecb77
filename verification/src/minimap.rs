//! Top-down view of the grid with markers for the player and the pickups.

use vstd::prelude::*;
use crate::fixed::{floor_div, UNIT};
use crate::framebuffer::{Canvas, Framebuffer};
use crate::game::Item;
use crate::grid::{Grid, GridMap, MAX_SIDE};
use crate::player::Player;

verus! {

/// Side of the square, in pixels, that stands for one grid cell and for one marker.
pub const MINIMAP_SCALE: usize = 4;

/// Colour of a solid cell.
pub const MINIMAP_WALL: u32 = 0xFFFFFF;

/// Colour of an open cell.
pub const MINIMAP_OPEN: u32 = 0x000000;

/// Colour of the player's marker.
pub const MINIMAP_PLAYER: u32 = 0xFF0000;

/// Colour of the key's marker.
pub const MINIMAP_KEY: u32 = 0xFFFF00;

/// Colour of the goal's marker.
pub const MINIMAP_GOAL: u32 = 0x00FF00;

/// Pixel coordinate at which the marker of the world coordinate `v` starts:
/// `v` scaled to pixels and rounded down, and zero for a negative `v`.
pub open spec fn marker_origin(v: int) -> int {
    let m = (v * MINIMAP_SCALE) / (UNIT as int);
    if m < 0 {
        0
    } else {
        m
    }
}

/// Whether the pixel `(x, y)` belongs to the marker of the world point `(wx, wy)`.
pub open spec fn in_marker(x: int, y: int, wx: int, wy: int) -> bool {
    Canvas::in_rect(
        x,
        y,
        marker_origin(wx),
        marker_origin(wy),
        MINIMAP_SCALE as int,
        MINIMAP_SCALE as int,
    )
}

/// Colour of the pixel `(x, y)` under the grid alone: the colour of the cell
/// that the pixel stands for, or `prev` where it stands for none.
pub open spec fn cell_pixel(grid: Grid, prev: u32, x: int, y: int) -> u32 {
    let cx = x / (MINIMAP_SCALE as int);
    let cy = y / (MINIMAP_SCALE as int);
    if grid.contains(cx, cy) {
        if grid.wall_at(cx, cy) {
            MINIMAP_WALL
        } else {
            MINIMAP_OPEN
        }
    } else {
        prev
    }
}

/// Colour of the pixel `(x, y)` of the minimap, where `prev` was its colour
/// before: the goal's marker lies over the key's, which is shown until the
/// key is collected; both lie over the player's, and all markers over the
/// grid. Pixels that show neither keep their colour.
pub open spec fn minimap_pixel(
    grid: Grid,
    player: Player,
    key: Item,
    goal: Item,
    prev: u32,
    x: int,
    y: int,
) -> u32 {
    if in_marker(x, y, goal.x as int, goal.y as int) {
        MINIMAP_GOAL
    } else if !key.collected && in_marker(x, y, key.x as int, key.y as int) {
        MINIMAP_KEY
    } else if in_marker(x, y, player.x as int, player.y as int) {
        MINIMAP_PLAYER
    } else {
        cell_pixel(grid, prev, x, y)
    }
}

/// Paints the marker of the world point `(wx, wy)`.
fn draw_marker(framebuffer: &mut Framebuffer, wx: i64, wy: i64, color: u32)
    ensures
        final(framebuffer)@.same_size(old(framebuffer)@),
        forall|x: int, y: int|
            old(framebuffer)@.contains(x, y) ==> #[trigger] final(framebuffer)@.at(x, y) == (
            if in_marker(x, y, wx as int, wy as int) {
                color
            } else {
                old(framebuffer)@.at(x, y)
            }),
{
    proof {
        use_type_invariant(&*framebuffer);
    }
    let scale: i128 = MINIMAP_SCALE as i128;
    assert(scale == 4);
    let mx: i128 = floor_div(wx as i128 * scale, UNIT as i128);
    let my: i128 = floor_div(wy as i128 * scale, UNIT as i128);
    let left: i128 = if mx < 0 {
        0
    } else {
        mx
    };
    let top: i128 = if my < 0 {
        0
    } else {
        my
    };
    if left < framebuffer.width() as i128 && top < framebuffer.height() as i128 {
        framebuffer.fill_rect(left as usize, top as usize, MINIMAP_SCALE, MINIMAP_SCALE, color);
    }
}

/// Draws the minimap into the top-left corner of the framebuffer: every grid
/// cell as a square of `MINIMAP_SCALE` pixels, then the markers of the
/// player, of the key while it is not collected, and of the goal.
pub fn draw_minimap(
    map: &GridMap,
    player: &Player,
    framebuffer: &mut Framebuffer,
    key: &Item,
    goal: &Item,
)
    ensures
        final(framebuffer)@.same_size(old(framebuffer)@),
        forall|x: int, y: int|
            old(framebuffer)@.contains(x, y) ==> #[trigger] final(framebuffer)@.at(x, y)
                == minimap_pixel(map@, *player, *key, *goal, old(framebuffer)@.at(x, y), x, y),
{
    proof {
        use_type_invariant(&*framebuffer);
    }
    let width: usize = map.width();
    let height: usize = map.height();
    let mut cy: usize = 0;
    while cy < height
        invariant
            framebuffer@.same_size(old(framebuffer)@),
            width == map@.width,
            height == map@.height,
            width <= MAX_SIDE,
            height <= MAX_SIDE,
            cy <= height,
            forall|x: int, y: int|
                old(framebuffer)@.contains(x, y) ==> #[trigger] framebuffer@.at(x, y) == (if y
                    / 4 < cy {
                    cell_pixel(map@, old(framebuffer)@.at(x, y), x, y)
                } else {
                    old(framebuffer)@.at(x, y)
                }),
        decreases height - cy,
    {
        let mut cx: usize = 0;
        while cx < width
            invariant
                framebuffer@.same_size(old(framebuffer)@),
                width == map@.width,
                height == map@.height,
                width <= MAX_SIDE,
                height <= MAX_SIDE,
                cy < height,
                cx <= width,
                forall|x: int, y: int|
                    old(framebuffer)@.contains(x, y) ==> #[trigger] framebuffer@.at(x, y) == (if y
                        / 4 < cy || (y / 4 == cy && x / 4 < cx) {
                        cell_pixel(map@, old(framebuffer)@.at(x, y), x, y)
                    } else {
                        old(framebuffer)@.at(x, y)
                    }),
            decreases width - cx,
        {
            let color: u32 = if map.is_wall_cell(cx as i64, cy as i64) {
                MINIMAP_WALL
            } else {
                MINIMAP_OPEN
            };
            framebuffer.fill_rect(
                cx * MINIMAP_SCALE,
                cy * MINIMAP_SCALE,
                MINIMAP_SCALE,
                MINIMAP_SCALE,
                color,
            );
            cx = cx + 1;
        }
        cy = cy + 1;
    }
    draw_marker(framebuffer, player.x, player.y, MINIMAP_PLAYER);
    if !key.collected {
        draw_marker(framebuffer, key.x, key.y, MINIMAP_KEY);
    }
    draw_marker(framebuffer, goal.x, goal.y, MINIMAP_GOAL);
}

} // verus!
