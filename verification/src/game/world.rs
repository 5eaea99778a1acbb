//! The world: the grid of a level with its size, where the player starts,
//! and what the level is called.

use vstd::prelude::*;
use crate::fixed::{Vec2, SCALE};
use crate::game::maps::{MapError, MapFile, Vec2Def};
use crate::grid::{cell_solid, point_solid, solid_under};

verus! {

pub struct World {
    pub spawn_point: Vec2,
    pub spawn_direction: Vec2,
    pub map: Vec<Vec<i32>>,
    pub width: usize,
    pub height: usize,
    pub name: String,
    pub author: String,
    pub description: String,
}

/// Two grids hold the same codes.
pub open spec fn same_grid(a: Seq<Vec<i32>>, b: Seq<Vec<i32>>) -> bool {
    a.len() == b.len() && forall|y: int| 0 <= y < a.len() ==> (#[trigger] a[y])@ == b[y]@
}

/// The points of a route as a map file holds them.
pub open spec fn same_route(route: Seq<Vec2>, defs: Seq<Vec2Def>) -> bool {
    route.len() == defs.len() && forall|i: int|
        0 <= i < route.len() ==> #[trigger] route[i] == (Vec2 { x: defs[i].x, y: defs[i].y })
}

/// Copies a grid.
pub fn copy_grid(map: &[Vec<i32>]) -> (r: Vec<Vec<i32>>)
    ensures
        same_grid(r@, map@),
{
    let mut out: Vec<Vec<i32>> = Vec::new();
    let mut y: usize = 0;
    while y < map.len()
        invariant
            y <= map@.len(),
            out@.len() == y,
            forall|k: int| 0 <= k < y ==> (#[trigger] out@[k])@ == map@[k]@,
        decreases map@.len() - y,
    {
        let mut row: Vec<i32> = Vec::new();
        let mut x: usize = 0;
        while x < map[y].len()
            invariant
                y < map@.len(),
                x <= map@[y as int]@.len(),
                row@.len() == x,
                forall|k: int| 0 <= k < x ==> row@[k] == map@[y as int]@[k],
            decreases map@[y as int]@.len() - x,
        {
            row.push(map[y][x]);
            x = x + 1;
        }
        assert(row@ =~= map@[y as int]@);
        out.push(row);
        y = y + 1;
    }
    out
}

impl World {
    /// The grid has `height` rows of `width` cells.
    pub open spec fn wf(&self) -> bool {
        &&& self.map@.len() == self.height
        &&& forall|y: int| 0 <= y < self.map@.len() ==> (#[trigger] self.map@[y]).len() == self.width
    }

    /// The code of cell (`x`, `y`), if the grid has such a cell.
    pub open spec fn tile(&self, x: int, y: int) -> Option<i32> {
        if 0 <= y < self.map@.len() && 0 <= x < self.map@[y].len() {
            Some(self.map@[y][x])
        } else {
            None
        }
    }

    /// An empty level of the given size with walls all around.
    pub fn new(width: usize, height: usize) -> (w: World)
        requires
            width >= 1,
            height >= 1,
        ensures
            w.wf(),
            w.width == width,
            w.height == height,
            forall|x: int, y: int|
                0 <= x < width && 0 <= y < height ==> #[trigger] w.tile(x, y) == Some(
                    if x == 0 || y == 0 || x == width - 1 || y == height - 1 {
                        1i32
                    } else {
                        0i32
                    },
                ),
            w.spawn_point == (Vec2 { x: 1_500_000, y: 1_500_000 }),
            w.spawn_direction == (Vec2 { x: SCALE, y: 0 }),
            w.name@ == "Empty Map"@,
            w.author@ == "Unknown"@,
            w.description@ == "An empty map"@,
    {
        let mut map: Vec<Vec<i32>> = Vec::new();
        let mut y: usize = 0;
        while y < height
            invariant
                y <= height,
                width >= 1,
                map@.len() == y,
                forall|k: int| 0 <= k < y ==> (#[trigger] map@[k]).len() == width,
                forall|i: int, k: int|
                    0 <= i < width && 0 <= k < y ==> (#[trigger] map@[k][i]) == if i == 0 || k == 0 || i
                        == width - 1 || k == height - 1 {
                        1i32
                    } else {
                        0i32
                    },
            decreases height - y,
        {
            let mut row: Vec<i32> = Vec::new();
            let mut x: usize = 0;
            while x < width
                invariant
                    x <= width,
                    y < height,
                    row@.len() == x,
                    forall|i: int|
                        0 <= i < x ==> (#[trigger] row@[i]) == if i == 0 || y == 0 || i == width - 1 || y
                            == height - 1 {
                            1i32
                        } else {
                            0i32
                        },
                decreases width - x,
            {
                let wall: bool = x == 0 || y == 0 || x == width - 1 || y == height - 1;
                row.push(
                    if wall {
                        1
                    } else {
                        0
                    },
                );
                x = x + 1;
            }
            map.push(row);
            y = y + 1;
        }
        World {
            map,
            width,
            height,
            spawn_point: Vec2 { x: 1_500_000, y: 1_500_000 },
            spawn_direction: Vec2 { x: SCALE, y: 0 },
            name: "Empty Map".to_owned(),
            author: "Unknown".to_owned(),
            description: "An empty map".to_owned(),
        }
    }

    /// The world of a map file, and for each of its enemies the point where
    /// it starts and its patrol route.
    pub fn load_from_map(map_file: &MapFile) -> (r: Result<(World, Vec<(Vec2, Vec<Vec2>)>), MapError>)
        ensures
            r matches Ok((world, spawns)) && {
                &&& same_grid(world.map@, map_file.map.layout@)
                &&& world.width == map_file.map.width
                &&& world.height == map_file.map.height
                &&& world.spawn_point == (Vec2 { x: map_file.player.spawn.x, y: map_file.player.spawn.y })
                &&& world.spawn_direction == (Vec2 {
                    x: map_file.player.direction.x,
                    y: map_file.player.direction.y,
                })
                &&& world.name == map_file.map.name
                &&& world.author == map_file.metadata.author
                &&& world.description == map_file.metadata.description
                &&& spawns@.len() == map_file.enemies@.len()
                &&& forall|i: int|
                    0 <= i < spawns@.len() ==> {
                        &&& (#[trigger] spawns@[i]).0 == (Vec2 {
                            x: map_file.enemies@[i].position.x,
                            y: map_file.enemies@[i].position.y,
                        })
                        &&& same_route(spawns@[i].1@, map_file.enemies@[i].patrol_points@)
                    }
            },
    {
        let world = World {
            map: copy_grid(map_file.map.layout.as_slice()),
            width: map_file.map.width,
            height: map_file.map.height,
            spawn_point: Vec2 { x: map_file.player.spawn.x, y: map_file.player.spawn.y },
            spawn_direction: Vec2 { x: map_file.player.direction.x, y: map_file.player.direction.y },
            name: map_file.map.name.clone(),
            author: map_file.metadata.author.clone(),
            description: map_file.metadata.description.clone(),
        };
        let mut spawns: Vec<(Vec2, Vec<Vec2>)> = Vec::new();
        let mut i: usize = 0;
        while i < map_file.enemies.len()
            invariant
                i <= map_file.enemies@.len(),
                spawns@.len() == i,
                forall|k: int|
                    0 <= k < i ==> {
                        &&& (#[trigger] spawns@[k]).0 == (Vec2 {
                            x: map_file.enemies@[k].position.x,
                            y: map_file.enemies@[k].position.y,
                        })
                        &&& same_route(spawns@[k].1@, map_file.enemies@[k].patrol_points@)
                    },
            decreases map_file.enemies@.len() - i,
        {
            let def = &map_file.enemies[i];
            let mut route: Vec<Vec2> = Vec::new();
            let mut j: usize = 0;
            while j < def.patrol_points.len()
                invariant
                    j <= def.patrol_points@.len(),
                    route@.len() == j,
                    forall|k: int|
                        0 <= k < j ==> #[trigger] route@[k] == (Vec2 {
                            x: def.patrol_points@[k].x,
                            y: def.patrol_points@[k].y,
                        }),
                decreases def.patrol_points@.len() - j,
            {
                let p: Vec2Def = def.patrol_points[j];
                route.push(Vec2 { x: p.x, y: p.y });
                j = j + 1;
            }
            spawns.push((Vec2 { x: def.position.x, y: def.position.y }, route));
            i = i + 1;
        }
        Ok((world, spawns))
    }

    /// The code of cell (`x`, `y`), if the grid has such a cell.
    pub fn get_tile(&self, x: usize, y: usize) -> (t: Option<i32>)
        ensures
            t == self.tile(x as int, y as int),
    {
        if y < self.map.len() && x < self.map[y].len() {
            Some(self.map[y][x])
        } else {
            None
        }
    }

    /// Stores `value` in cell (`x`, `y`) and says whether there is such a
    /// cell; without one nothing changes.
    pub fn set_tile(&mut self, x: usize, y: usize, value: i32) -> (done: bool)
        requires
            old(self).wf(),
        ensures
            final(self).wf(),
            done == (x < old(self).width && y < old(self).height),
            final(self).width == old(self).width,
            final(self).height == old(self).height,
            final(self).spawn_point == old(self).spawn_point,
            final(self).spawn_direction == old(self).spawn_direction,
            final(self).name == old(self).name,
            final(self).author == old(self).author,
            final(self).description == old(self).description,
            forall|x2: int, y2: int|
                #[trigger] final(self).tile(x2, y2) == if done && x2 == x && y2 == y {
                    Some(value)
                } else {
                    old(self).tile(x2, y2)
                },
    {
        if x < self.width && y < self.height {
            self.map[y][x] = value;
            true
        } else {
            false
        }
    }

    /// Whether cell (`x`, `y`) holds a wall or lies outside the grid.
    pub fn is_solid(&self, x: usize, y: usize) -> (b: bool)
        ensures
            b == cell_solid(self.map@, x as int, y as int),
            b == match self.tile(x as int, y as int) {
                Some(t) => t > 0,
                None => true,
            },
    {
        match self.get_tile(x, y) {
            Some(t) => t > 0,
            None => true,
        }
    }

    /// Whether the cell under the point `pos` is solid.
    pub fn check_collision(&self, pos: Vec2) -> (b: bool)
        ensures
            b == point_solid(self.map@, pos),
    {
        solid_under(self.map.as_slice(), pos)
    }

    /// A level of ten by ten cells with two short walls inside.
    pub fn create_test_map() -> (w: World)
        ensures
            w.wf(),
            w.width == 10,
            w.height == 10,
            forall|x: int, y: int|
                0 <= x < 10 && 0 <= y < 10 ==> #[trigger] w.tile(x, y) == Some(
                    if x == 0 || y == 0 || x == 9 || y == 9 || (x == 3 && 3 <= y <= 5) || (x == 6 && 4
                        <= y <= 6) {
                        1i32
                    } else {
                        0i32
                    },
                ),
    {
        let mut world = World::new(10, 10);
        world.set_tile(3, 3, 1);
        world.set_tile(3, 4, 1);
        world.set_tile(3, 5, 1);
        world.set_tile(6, 4, 1);
        world.set_tile(6, 5, 1);
        world.set_tile(6, 6, 1);
        world
    }
}

} // verus!
