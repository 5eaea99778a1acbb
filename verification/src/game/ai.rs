//! Enemy behaviour.

pub mod enemy;

pub use enemy::{AIState, Enemy, EnemyType};

use vstd::prelude::*;
use crate::fixed::{Vec2, SCALE};
use crate::game::ai::enemy::{sample, sample_point, sight_steps};
use crate::grid::{point_solid, solid_under};

verus! {

/// The samples of the straight line from `from` to `to`, from the `i`-th
/// on, up to the first that lies in a solid cell.
pub open spec fn open_stretch(map: Seq<Vec<i32>>, from: Vec2, to: Vec2, i: int, steps: int) -> Seq<Vec2>
    decreases steps - i + 1,
{
    if i > steps || i < 0 || point_solid(map, sample(from, to, i, steps)) {
        Seq::empty()
    } else {
        seq![sample(from, to, i, steps)] + open_stretch(map, from, to, i + 1, steps)
    }
}

/// The straight path from `start` towards `end`: points two to the map
/// unit, as far as they lie in cells that are not solid.
pub fn find_path(start: Vec2, end: Vec2, map: &[Vec<i32>]) -> (path: Vec<Vec2>)
    requires
        start.wf(),
        end.wf(),
    ensures
        path@ == open_stretch(map@, start, end, 0, sight_steps(start, end)),
{
    let diff = Vec2 { x: start.x - end.x, y: start.y - end.y };
    let d: i64 = diff.length();
    let steps: i64 = (2 * d) / SCALE;
    assert(steps == sight_steps(start, end));
    let mut path: Vec<Vec2> = Vec::new();
    let mut i: i64 = 0;
    while i <= steps
        invariant
            0 <= i <= steps + 1,
            steps <= 6_000_000,
            steps == sight_steps(start, end),
            start.wf(),
            end.wf(),
            path@ + open_stretch(map@, start, end, i as int, steps as int) == open_stretch(
                map@,
                start,
                end,
                0,
                steps as int,
            ),
        decreases steps + 1 - i,
    {
        let point: Vec2 = sample_point(start, end, i, steps);
        if solid_under(map, point) {
            assert(open_stretch(map@, start, end, i as int, steps as int) == Seq::<Vec2>::empty());
            assert(path@ + Seq::<Vec2>::empty() == path@);
            return path;
        }
        let ghost before: Seq<Vec2> = path@;
        path.push(point);
        assert(path@ + open_stretch(map@, start, end, i + 1, steps as int) == before + (seq![point]
            + open_stretch(map@, start, end, i + 1, steps as int)));
        i = i + 1;
    }
    assert(open_stretch(map@, start, end, i as int, steps as int) == Seq::<Vec2>::empty());
    assert(path@ + Seq::<Vec2>::empty() == path@);
    path
}

} // verus!
