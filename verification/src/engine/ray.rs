//! Casting a ray through the grid: the walk from cell to cell that finds the
//! first wall, and how far away it is.

use vstd::prelude::*;
use crate::fixed::{cell_index, cell_of, div_floor, wide_mul, Vec2, SCALE};
use crate::grid::{enclosed, grid_wf, grid_width, in_grid, GRID_MAX};

verus! {

/// Largest magnitude of a coordinate of a ray's direction.
pub const RAY_MAX: i64 = 8_000_000;

/// Where a ray met a wall.
#[derive(Clone, Copy, Debug, PartialEq, Eq, Structural)]
pub struct RayHit {
    /// Column of the wall's cell.
    pub cell_x: i64,
    /// Row of the wall's cell.
    pub cell_y: i64,
    /// 0 where the ray entered the cell along x (a face that runs north to
    /// south), 1 where it entered along y.
    pub side: u8,
    /// Distance to the face that was crossed, along the direction of view,
    /// in units of the ray's length.
    pub distance: i64,
}

/// Whether both coordinates of a ray's direction are within [`RAY_MAX`].
pub open spec fn ray_vector(dir: Vec2) -> bool {
    -RAY_MAX <= dir.x <= RAY_MAX && -RAY_MAX <= dir.y <= RAY_MAX
}

pub open spec fn magnitude(v: int) -> int {
    if v < 0 {
        -v
    } else {
        v
    }
}

/// The cell step of a ray along an axis on which its direction is `d`.
pub open spec fn step_of(d: int) -> int {
    if d < 0 {
        -1
    } else {
        1
    }
}

/// Distance from the coordinate `p` to the first grid line in the
/// direction `d`.
pub open spec fn first_gap(p: int, d: int) -> int {
    if d < 0 {
        p - cell_of(p) * SCALE
    } else {
        (cell_of(p) + 1) * SCALE - p
    }
}

/// Whether the ray crosses its next line along x before its next line
/// along y, where those lie `gx` and `gy` away along their axes. A tie
/// goes to y.
pub open spec fn steps_x(dir: Vec2, gx: int, gy: int) -> bool {
    dir.x != 0 && (dir.y == 0 || gx * magnitude(dir.y as int) < gy * magnitude(dir.x as int))
}

/// A bound on the steps that a ray can still take on the grid from cell
/// (`cx`, `cy`).
pub open spec fn cells_ahead(map: Seq<Vec<i32>>, dir: Vec2, cx: int, cy: int) -> nat {
    if in_grid(map, cx, cy) {
        ((if dir.x < 0 {
            cx + 1
        } else {
            grid_width(map) - cx
        }) + (if dir.y < 0 {
            cy + 1
        } else {
            map.len() - cy
        })) as nat
    } else {
        0
    }
}

/// The distance at which a ray crosses a grid line that lies `gap` away
/// along an axis on which its direction is `d`.
pub open spec fn crossing(gap: int, d: int) -> int {
    (gap * SCALE) / magnitude(d)
}

/// The first wall that a ray meets after it leaves cell (`cx`, `cy`), with
/// its next grid lines `gx` and `gy` away: it steps to the neighbour across
/// the nearer line until that neighbour is a wall. A ray that leaves the
/// grid meets none.
pub open spec fn cast_from(map: Seq<Vec<i32>>, dir: Vec2, cx: int, cy: int, gx: int, gy: int) -> Option<
    RayHit,
>
    decreases cells_ahead(map, dir, cx, cy),
{
    if !in_grid(map, cx, cy) {
        None
    } else if steps_x(dir, gx, gy) {
        let nx = cx + step_of(dir.x as int);
        if in_grid(map, nx, cy) && map[cy][nx] > 0 {
            Some(
                RayHit {
                    cell_x: nx as i64,
                    cell_y: cy as i64,
                    side: 0,
                    distance: crossing(gx, dir.x as int) as i64,
                },
            )
        } else {
            cast_from(map, dir, nx, cy, gx + SCALE, gy)
        }
    } else {
        let ny = cy + step_of(dir.y as int);
        if in_grid(map, cx, ny) && map[ny][cx] > 0 {
            Some(
                RayHit {
                    cell_x: cx as i64,
                    cell_y: ny as i64,
                    side: 1,
                    distance: crossing(gy, dir.y as int) as i64,
                },
            )
        } else {
            cast_from(map, dir, cx, ny, gx, gy + SCALE)
        }
    }
}

/// The first wall that the ray from `pos` along `dir` meets. A ray without
/// direction meets none.
pub open spec fn ray_cast(map: Seq<Vec<i32>>, pos: Vec2, dir: Vec2) -> Option<RayHit> {
    if dir.x == 0 && dir.y == 0 {
        None
    } else {
        cast_from(
            map,
            dir,
            cell_of(pos.x as int),
            cell_of(pos.y as int),
            first_gap(pos.x as int, dir.x as int),
            first_gap(pos.y as int, dir.y as int),
        )
    }
}

/// A hit names a wall cell of the grid.
pub open spec fn hit_on_wall(map: Seq<Vec<i32>>, h: RayHit) -> bool {
    &&& in_grid(map, h.cell_x as int, h.cell_y as int)
    &&& map[h.cell_y as int][h.cell_x as int] > 0
    &&& h.side <= 1
    &&& 0 <= h.distance <= (GRID_MAX + 1) * SCALE * SCALE
}

/// Casts the ray from `pos` along `dir`.
pub fn cast_ray(map: &[Vec<i32>], pos: Vec2, dir: Vec2) -> (r: Option<RayHit>)
    requires
        grid_wf(map@),
        pos.wf(),
        ray_vector(dir),
    ensures
        r == ray_cast(map@, pos, dir),
        r matches Some(h) ==> hit_on_wall(map@, h),
{
    if dir.x == 0 && dir.y == 0 {
        return None;
    }
    let rows: i64 = map.len() as i64;
    let cols: i64 = if map.len() == 0 {
        0
    } else {
        map[0].len() as i64
    };
    let mut cx: i64 = cell_index(pos.x);
    let mut cy: i64 = cell_index(pos.y);
    let ax: i64 = if dir.x < 0 {
        -dir.x
    } else {
        dir.x
    };
    let ay: i64 = if dir.y < 0 {
        -dir.y
    } else {
        dir.y
    };
    let sx: i64 = if dir.x < 0 {
        -1
    } else {
        1
    };
    let sy: i64 = if dir.y < 0 {
        -1
    } else {
        1
    };
    let mut gx: i64 = if dir.x < 0 {
        pos.x - cx * SCALE
    } else {
        (cx + 1) * SCALE - pos.x
    };
    let mut gy: i64 = if dir.y < 0 {
        pos.y - cy * SCALE
    } else {
        (cy + 1) * SCALE - pos.y
    };
    if !(0 <= cx && cx < cols && 0 <= cy && cy < rows) {
        return None;
    }
    let ghost cx0: int = cx as int;
    let ghost cy0: int = cy as int;
    let ghost gx0: int = gx as int;
    let ghost gy0: int = gy as int;
    loop
        invariant
            grid_wf(map@),
            ray_vector(dir),
            !(dir.x == 0 && dir.y == 0),
            rows == map@.len(),
            cols == grid_width(map@),
            ax == magnitude(dir.x as int),
            ay == magnitude(dir.y as int),
            sx == step_of(dir.x as int),
            sy == step_of(dir.y as int),
            in_grid(map@, cx as int, cy as int),
            in_grid(map@, cx0, cy0),
            0 <= gx0 <= SCALE,
            0 <= gy0 <= SCALE,
            dir.x < 0 ==> cx <= cx0 && gx == gx0 + SCALE * (cx0 - cx),
            dir.x >= 0 ==> cx >= cx0 && gx == gx0 + SCALE * (cx - cx0),
            dir.y < 0 ==> cy <= cy0 && gy == gy0 + SCALE * (cy0 - cy),
            dir.y >= 0 ==> cy >= cy0 && gy == gy0 + SCALE * (cy - cy0),
            cast_from(map@, dir, cx as int, cy as int, gx as int, gy as int) == ray_cast(map@, pos, dir),
        decreases cells_ahead(map@, dir, cx as int, cy as int),
    {
        let step_x: bool = dir.x != 0 && (dir.y == 0 || wide_mul(gx, ay) < wide_mul(gy, ax));
        if step_x {
            let nx: i64 = cx + sx;
            if 0 <= nx && nx < cols {
                if map[cy as usize][nx as usize] > 0 {
                    let num: i128 = wide_mul(gx, SCALE);
                    let q: i128 = div_floor(num, ax as i128);
                    proof {
                        lemma_crossing_bound(gx as int, ax as int);
                    }
                    return Some(RayHit { cell_x: nx, cell_y: cy, side: 0, distance: q as i64 });
                }
                cx = nx;
                gx = gx + SCALE;
            } else {
                proof {
                    assert(cast_from(map@, dir, nx as int, cy as int, gx + SCALE, gy as int) == None::<
                        RayHit,
                    >);
                }
                return None;
            }
        } else {
            let ny: i64 = cy + sy;
            if 0 <= ny && ny < rows {
                if map[ny as usize][cx as usize] > 0 {
                    let num: i128 = wide_mul(gy, SCALE);
                    let q: i128 = div_floor(num, ay as i128);
                    proof {
                        lemma_crossing_bound(gy as int, ay as int);
                    }
                    return Some(RayHit { cell_x: cx, cell_y: ny, side: 1, distance: q as i64 });
                }
                cy = ny;
                gy = gy + SCALE;
            } else {
                proof {
                    assert(cast_from(map@, dir, cx as int, ny as int, gx as int, gy + SCALE) == None::<
                        RayHit,
                    >);
                }
                return None;
            }
        }
    }
}

/// A crossing is no farther than its gap is long.
pub proof fn lemma_crossing_bound(gap: int, m: int)
    requires
        gap >= 0,
        m >= 1,
    ensures
        0 <= (gap * SCALE) / m <= gap * SCALE,
{
    let n: int = gap * SCALE;
    assert(0 <= n / m <= n) by (nonlinear_arith)
        requires
            n >= 0,
            m >= 1,
    ;
}

/// On a grid with a solid outer ring, a ray that starts in a cell without a
/// wall always meets a wall.
pub proof fn lemma_enclosed_ray_hits(map: Seq<Vec<i32>>, dir: Vec2, cx: int, cy: int, gx: int, gy: int)
    requires
        enclosed(map),
        grid_wf(map),
        in_grid(map, cx, cy),
        map[cy][cx] <= 0,
    ensures
        cast_from(map, dir, cx, cy, gx, gy) matches Some(h) && in_grid(
            map,
            h.cell_x as int,
            h.cell_y as int,
        ) && map[h.cell_y as int][h.cell_x as int] > 0,
    decreases cells_ahead(map, dir, cx, cy),
{
    assert(0 < cx < grid_width(map) - 1 && 0 < cy < map.len() - 1);
    if steps_x(dir, gx, gy) {
        let nx = cx + step_of(dir.x as int);
        assert(in_grid(map, nx, cy));
        if map[cy][nx] > 0 {
        } else {
            lemma_enclosed_ray_hits(map, dir, nx, cy, gx + SCALE, gy);
        }
    } else {
        let ny = cy + step_of(dir.y as int);
        assert(in_grid(map, cx, ny));
        if map[ny][cx] > 0 {
        } else {
            lemma_enclosed_ray_hits(map, dir, cx, ny, gx, gy + SCALE);
        }
    }
}

/// Inside a grid with a solid outer ring every ray with a direction meets
/// a wall: from a point in a cell without a wall the cast finds one.
pub proof fn lemma_enclosed_cast_hits(map: Seq<Vec<i32>>, pos: Vec2, dir: Vec2)
    requires
        enclosed(map),
        grid_wf(map),
        in_grid(map, cell_of(pos.x as int), cell_of(pos.y as int)),
        map[cell_of(pos.y as int)][cell_of(pos.x as int)] <= 0,
        dir.x != 0 || dir.y != 0,
    ensures
        ray_cast(map, pos, dir) matches Some(h) && in_grid(map, h.cell_x as int, h.cell_y as int)
            && map[h.cell_y as int][h.cell_x as int] > 0,
{
    lemma_enclosed_ray_hits(
        map,
        dir,
        cell_of(pos.x as int),
        cell_of(pos.y as int),
        first_gap(pos.x as int, dir.x as int),
        first_gap(pos.y as int, dir.y as int),
    );
}

/// Distance along an axis from the coordinate `p` to the face through
/// which a ray of direction `d` enters the cell `cell`.
pub open spec fn gap_to_face(p: int, d: int, cell: int) -> int {
    if d < 0 {
        p - (cell + 1) * SCALE
    } else {
        cell * SCALE - p
    }
}

/// The distance of a hit is the distance at which the ray crosses the face
/// of the wall's cell that it enters through, whatever way it took there.
pub proof fn lemma_hit_distance(map: Seq<Vec<i32>>, pos: Vec2, dir: Vec2)
    requires
        grid_wf(map),
        ray_cast(map, pos, dir) is Some,
    ensures
        ({
            let h = ray_cast(map, pos, dir)->Some_0;
            &&& h.side == 0 ==> h.distance == crossing(
                gap_to_face(pos.x as int, dir.x as int, h.cell_x as int),
                dir.x as int,
            ) as i64
            &&& h.side == 1 ==> h.distance == crossing(
                gap_to_face(pos.y as int, dir.y as int, h.cell_y as int),
                dir.y as int,
            ) as i64
            &&& h.side == 0 || h.side == 1
        }),
{
    lemma_walk_distance(
        map,
        pos,
        dir,
        cell_of(pos.x as int),
        cell_of(pos.y as int),
        first_gap(pos.x as int, dir.x as int),
        first_gap(pos.y as int, dir.y as int),
    );
}

/// What [`lemma_hit_distance`] says, for a ray on its way: its next grid
/// lines are the faces of the neighbouring cells.
proof fn lemma_walk_distance(map: Seq<Vec<i32>>, pos: Vec2, dir: Vec2, cx: int, cy: int, gx: int, gy: int)
    requires
        grid_wf(map),
        gx == gap_to_face(pos.x as int, dir.x as int, cx + step_of(dir.x as int)),
        gy == gap_to_face(pos.y as int, dir.y as int, cy + step_of(dir.y as int)),
        cast_from(map, dir, cx, cy, gx, gy) is Some,
    ensures
        ({
            let h = cast_from(map, dir, cx, cy, gx, gy)->Some_0;
            &&& h.side == 0 ==> h.distance == crossing(
                gap_to_face(pos.x as int, dir.x as int, h.cell_x as int),
                dir.x as int,
            ) as i64
            &&& h.side == 1 ==> h.distance == crossing(
                gap_to_face(pos.y as int, dir.y as int, h.cell_y as int),
                dir.y as int,
            ) as i64
            &&& h.side == 0 || h.side == 1
        }),
    decreases cells_ahead(map, dir, cx, cy),
{
    if steps_x(dir, gx, gy) {
        let nx = cx + step_of(dir.x as int);
        if in_grid(map, nx, cy) && map[cy][nx] > 0 {
        } else {
            lemma_walk_distance(map, pos, dir, nx, cy, gx + SCALE, gy);
        }
    } else {
        let ny = cy + step_of(dir.y as int);
        if in_grid(map, cx, ny) && map[ny][cx] > 0 {
        } else {
            lemma_walk_distance(map, pos, dir, cx, ny, gx, gy + SCALE);
        }
    }
}

} // verus!
