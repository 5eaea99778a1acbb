//! The map: a grid of cell codes, stored row by row.
//!
//! Code 0 is an empty cell; a code `n > 0` is a wall that shows texture
//! `n - 1`. Everything outside the grid counts as solid.

use vstd::prelude::*;
use crate::fixed::{cell_index, cell_of, Vec2};

verus! {

/// Largest number of rows, and of columns, of a grid that rays are cast in.
pub const GRID_MAX: usize = 1_000_000;

/// Number of columns, read from the first row.
pub open spec fn grid_width(map: Seq<Vec<i32>>) -> int {
    if map.len() == 0 {
        0
    } else {
        map[0].len() as int
    }
}

/// Every row has the same length.
pub open spec fn rectangular(map: Seq<Vec<i32>>) -> bool {
    forall|y: int| 0 <= y < map.len() ==> (#[trigger] map[y]).len() == grid_width(map)
}

/// A rectangular grid whose cells all lie inside the world.
pub open spec fn grid_wf(map: Seq<Vec<i32>>) -> bool {
    &&& rectangular(map)
    &&& map.len() <= GRID_MAX
    &&& grid_width(map) <= GRID_MAX
}

/// Whether cell (`cx`, `cy`) lies on a rectangular grid.
pub open spec fn in_grid(map: Seq<Vec<i32>>, cx: int, cy: int) -> bool {
    0 <= cy < map.len() && 0 <= cx < grid_width(map)
}

/// Whether cell (`cx`, `cy`) stops movement: it holds a wall or lies outside
/// the grid.
pub open spec fn cell_solid(map: Seq<Vec<i32>>, cx: int, cy: int) -> bool {
    !(0 <= cy < map.len() && 0 <= cx < map[cy].len()) || map[cy][cx] > 0
}

/// Whether the cell under the point `p` is solid.
pub open spec fn point_solid(map: Seq<Vec<i32>>, p: Vec2) -> bool {
    cell_solid(map, cell_of(p.x as int), cell_of(p.y as int))
}

/// The outer ring of the grid is solid.
pub open spec fn enclosed(map: Seq<Vec<i32>>) -> bool {
    &&& rectangular(map)
    &&& forall|x: int, y: int|
        in_grid(map, x, y) && (x == 0 || y == 0 || x == grid_width(map) - 1 || y == map.len() - 1)
            ==> (#[trigger] map[y][x]) > 0
}

/// Tells whether cell (`cx`, `cy`) is solid.
pub fn solid_at(map: &[Vec<i32>], cx: i64, cy: i64) -> (b: bool)
    ensures
        b == cell_solid(map@, cx as int, cy as int),
{
    if cx < 0 || cy < 0 {
        return true;
    }
    if cy as u64 >= map.len() as u64 {
        return true;
    }
    let row: &Vec<i32> = &map[cy as usize];
    if cx as u64 >= row.len() as u64 {
        return true;
    }
    row[cx as usize] > 0
}

/// Tells whether the cell under the point `p` is solid.
pub fn solid_under(map: &[Vec<i32>], p: Vec2) -> (b: bool)
    ensures
        b == point_solid(map@, p),
{
    solid_at(map, cell_index(p.x), cell_index(p.y))
}

/// Tells whether every row has the length of the first and the grid is no
/// larger than [`GRID_MAX`] in either direction.
pub fn check_grid(map: &[Vec<i32>]) -> (b: bool)
    ensures
        b == grid_wf(map@),
{
    if map.len() == 0 {
        return true;
    }
    if map.len() > GRID_MAX {
        return false;
    }
    let w: usize = map[0].len();
    if w > GRID_MAX {
        return false;
    }
    let mut y: usize = 0;
    while y < map.len()
        invariant
            y <= map.len(),
            map.len() > 0,
            w == map@[0].len(),
            forall|k: int| 0 <= k < y ==> (#[trigger] map@[k]).len() == w,
        decreases map.len() - y,
    {
        if map[y].len() != w {
            return false;
        }
        y = y + 1;
    }
    true
}

} // verus!
