//! The camera: where the viewer stands and looks, and how it moves without
//! entering walls.

use vstd::prelude::*;
use crate::fixed::{cell_of, div_floor, fx_mul, in_world, scale_mul, wide_mul, Vec2, COORD_MAX, SCALE};
use crate::grid::{cell_solid, solid_at};

verus! {

/// Largest magnitude of a coordinate of the direction and plane vectors.
pub const DIR_MAX: i64 = 4_000_000;

/// Half the side of the clearance box that the camera keeps free of walls.
pub const COLLISION_BUFFER: i64 = 300_000;

/// Whether both coordinates of a view vector are within [`DIR_MAX`].
pub open spec fn view_vector(v: Vec2) -> bool {
    -DIR_MAX <= v.x <= DIR_MAX && -DIR_MAX <= v.y <= DIR_MAX
}

/// A coordinate of a vector turned by the angle with the given cosine and
/// sine, before it is rounded: [`SCALE`] times too long.
pub open spec fn turned_x(v: Vec2, cos: int, sin: int) -> int {
    v.x * cos - v.y * sin
}

pub open spec fn turned_y(v: Vec2, cos: int, sin: int) -> int {
    v.x * sin + v.y * cos
}

/// Whether `v`, turned and rounded down, is still a view vector.
pub open spec fn turn_fits(v: Vec2, cos: int, sin: int) -> bool {
    &&& -DIR_MAX <= turned_x(v, cos, sin) / (SCALE as int) <= DIR_MAX
    &&& -DIR_MAX <= turned_y(v, cos, sin) / (SCALE as int) <= DIR_MAX
}

/// `v` turned by the angle with the given cosine and sine, rounded down.
pub open spec fn turned(v: Vec2, cos: int, sin: int) -> Vec2 {
    Vec2 {
        x: (turned_x(v, cos, sin) / (SCALE as int)) as i64,
        y: (turned_y(v, cos, sin) / (SCALE as int)) as i64,
    }
}

/// The dot product of two vectors.
pub open spec fn dot(ax: int, ay: int, bx: int, by: int) -> int {
    ax * bx + ay * by
}

/// The cross product of two vectors.
pub open spec fn cross(ax: int, ay: int, bx: int, by: int) -> int {
    ax * by - ay * bx
}

/// Whether the clearance box around the point (`x`, `y`) meets a solid cell:
/// one of its four corners or its centre lies in one.
pub open spec fn box_blocked(map: Seq<Vec<i32>>, x: int, y: int) -> bool {
    let b = COLLISION_BUFFER as int;
    ||| cell_solid(map, cell_of(x - b), cell_of(y - b))
    ||| cell_solid(map, cell_of(x - b), cell_of(y + b))
    ||| cell_solid(map, cell_of(x + b), cell_of(y - b))
    ||| cell_solid(map, cell_of(x + b), cell_of(y + b))
    ||| cell_solid(map, cell_of(x), cell_of(y))
}

/// Whether a move along x may ignore walls: the camera moves away from a
/// wall that it already touches on the side it leaves.
pub open spec fn escapes_x(map: Seq<Vec<i32>>, pos: Vec2, dx: int) -> bool {
    ||| dx > 0 && box_blocked(map, pos.x - COLLISION_BUFFER, pos.y as int)
    ||| dx < 0 && box_blocked(map, pos.x + COLLISION_BUFFER, pos.y as int)
}

/// Whether a move along y may ignore walls.
pub open spec fn escapes_y(map: Seq<Vec<i32>>, pos: Vec2, dy: int) -> bool {
    ||| dy > 0 && box_blocked(map, pos.x as int, pos.y - COLLISION_BUFFER)
    ||| dy < 0 && box_blocked(map, pos.x as int, pos.y + COLLISION_BUFFER)
}

/// The x coordinate after a move by (`dx`, `dy`): the destination's, if it
/// lies in the world and is free of walls with the old y coordinate, or if
/// the camera escapes; else the old one.
pub open spec fn resolved_x(map: Seq<Vec<i32>>, pos: Vec2, dx: int) -> int {
    if in_world(pos.x + dx) && (!box_blocked(map, pos.x + dx, pos.y as int) || escapes_x(map, pos, dx)) {
        pos.x + dx
    } else {
        pos.x as int
    }
}

/// The y coordinate after a move by (`dx`, `dy`), decided with the x
/// coordinate that was settled on.
pub open spec fn resolved_y(map: Seq<Vec<i32>>, pos: Vec2, dx: int, dy: int) -> int {
    if in_world(pos.y + dy) && (!box_blocked(map, resolved_x(map, pos, dx), pos.y + dy) || escapes_y(
        map,
        pos,
        dy,
    )) {
        pos.y + dy
    } else {
        pos.y as int
    }
}

/// The map cell that holds the coordinate `v + off`.
fn cell_at_offset(v: i64, off: i64) -> (c: i64)
    ensures
        c == cell_of(v + off),
{
    let q: i128 = div_floor((v as i128) + (off as i128), SCALE as i128);
    q as i64
}

/// Tells whether the clearance box around (`x`, `y`) meets a solid cell.
pub fn clearance_blocked(map: &[Vec<i32>], x: i64, y: i64) -> (b: bool)
    ensures
        b == box_blocked(map@, x as int, y as int),
{
    let lo_x: i64 = cell_at_offset(x, -COLLISION_BUFFER);
    let hi_x: i64 = cell_at_offset(x, COLLISION_BUFFER);
    let lo_y: i64 = cell_at_offset(y, -COLLISION_BUFFER);
    let hi_y: i64 = cell_at_offset(y, COLLISION_BUFFER);
    solid_at(map, lo_x, lo_y) || solid_at(map, lo_x, hi_y) || solid_at(map, hi_x, lo_y) || solid_at(
        map,
        hi_x,
        hi_y,
    ) || solid_at(map, cell_at_offset(x, 0), cell_at_offset(y, 0))
}

/// The viewer: a position, the direction of view and the view plane, whose
/// length against the direction's sets the field of view.
#[derive(Clone, Copy, Debug, PartialEq, Eq, Structural)]
pub struct Camera {
    pub position: Vec2,
    pub direction: Vec2,
    pub plane: Vec2,
}

impl Camera {
    /// The position lies in the world, and direction and plane are view
    /// vectors.
    pub open spec fn wf(&self) -> bool {
        self.position.wf() && view_vector(self.direction) && view_vector(self.plane)
    }

    /// The camera after a move by (`dx`, `dy`), as far as walls allow.
    pub open spec fn shifted(self, dx: int, dy: int, map: Seq<Vec<i32>>) -> Camera {
        Camera {
            position: Vec2 {
                x: resolved_x(map, self.position, dx) as i64,
                y: resolved_y(map, self.position, dx, dy) as i64,
            },
            ..self
        }
    }

    /// The camera after a move along its direction of view.
    pub open spec fn forward(self, speed: int, map: Seq<Vec<i32>>) -> Camera {
        self.shifted(fx_mul(self.direction.x as int, speed), fx_mul(self.direction.y as int, speed), map)
    }

    /// The camera after a move at a right angle to its direction of view.
    pub open spec fn sideways(self, speed: int, map: Seq<Vec<i32>>) -> Camera {
        self.shifted(fx_mul(self.direction.y as int, speed), fx_mul(-self.direction.x, speed), map)
    }

    /// The camera at (`x`, `y`) that looks along the positive x axis.
    pub open spec fn new_spec(x: i64, y: i64) -> Camera {
        Camera {
            position: Vec2 { x, y },
            direction: Vec2 { x: SCALE, y: 0 },
            plane: Vec2 { x: 0, y: -660_000i64 },
        }
    }

    /// The camera after a turn by the angle with the given cosine and sine;
    /// it does not turn where a turned vector would not be a view vector.
    pub open spec fn rotated(self, cos: i64, sin: i64) -> Camera {
        if turn_fits(self.direction, cos as int, sin as int) && turn_fits(self.plane, cos as int, sin as int) {
            Camera {
                direction: turned(self.direction, cos as int, sin as int),
                plane: turned(self.plane, cos as int, sin as int),
                ..self
            }
        } else {
            self
        }
    }

    /// A camera at (`x`, `y`) that looks along the positive x axis, with a
    /// field of view of about 66 degrees.
    pub fn new(x: i64, y: i64) -> (c: Camera)
        ensures
            c == Camera::new_spec(x, y),
            c.position == (Vec2 { x, y }),
            c.direction == (Vec2 { x: SCALE, y: 0 }),
            c.plane == (Vec2 { x: 0, y: -660_000i64 }),
            in_world(x as int) && in_world(y as int) ==> c.wf(),
    {
        Camera {
            position: Vec2 { x, y },
            direction: Vec2 { x: SCALE, y: 0 },
            plane: Vec2 { x: 0, y: -660_000 },
        }
    }

    /// Turns direction and plane by the angle whose cosine and sine, in
    /// fixed-point, are `cos` and `sin`. Where a turned vector would no
    /// longer be a view vector, the camera does not turn.
    pub fn rotate(&mut self, cos: i64, sin: i64)
        requires
            old(self).wf(),
        ensures
            final(self).wf(),
            *final(self) == old(self).rotated(cos, sin),
            final(self).position == old(self).position,
            turn_fits(old(self).direction, cos as int, sin as int) && turn_fits(
                old(self).plane,
                cos as int,
                sin as int,
            ) ==> final(self).direction == turned(old(self).direction, cos as int, sin as int)
                && final(self).plane == turned(old(self).plane, cos as int, sin as int),
            !(turn_fits(old(self).direction, cos as int, sin as int) && turn_fits(
                old(self).plane,
                cos as int,
                sin as int,
            )) ==> *final(self) == *old(self),
    {
        let d = Camera::turn(self.direction, cos, sin);
        let p = Camera::turn(self.plane, cos, sin);
        match (d, p) {
            (Some(nd), Some(np)) => {
                self.direction = nd;
                self.plane = np;
            },
            _ => {},
        }
    }

    /// `v` turned, if the result is a view vector.
    fn turn(v: Vec2, cos: i64, sin: i64) -> (r: Option<Vec2>)
        requires
            view_vector(v),
        ensures
            r is Some <==> turn_fits(v, cos as int, sin as int),
            r matches Some(t) ==> t == turned(v, cos as int, sin as int) && view_vector(t),
    {
        let xc: i128 = wide_mul(v.x, cos);
        let ys: i128 = wide_mul(v.y, sin);
        let xs: i128 = wide_mul(v.x, sin);
        let yc: i128 = wide_mul(v.y, cos);
        proof {
            lemma_turn_term_bound(v.x as int, cos as int);
            lemma_turn_term_bound(v.y as int, sin as int);
            lemma_turn_term_bound(v.x as int, sin as int);
            lemma_turn_term_bound(v.y as int, cos as int);
        }
        let tx: i128 = div_floor(xc - ys, SCALE as i128);
        let ty: i128 = div_floor(xs + yc, SCALE as i128);
        let m: i128 = DIR_MAX as i128;
        if -m <= tx && tx <= m && -m <= ty && ty <= m {
            Some(Vec2 { x: tx as i64, y: ty as i64 })
        } else {
            None
        }
    }

    /// Moves along the direction of view by `speed` times its length, as far
    /// as walls allow.
    pub fn move_forward(&mut self, speed: i64, map: &[Vec<i32>])
        requires
            old(self).wf(),
            in_world(speed as int),
        ensures
            final(self).wf(),
            *final(self) == old(self).forward(speed as int, map@),
            final(self).direction == old(self).direction,
            final(self).plane == old(self).plane,
            final(self).position.x == resolved_x(
                map@,
                old(self).position,
                fx_mul(old(self).direction.x as int, speed as int),
            ),
            final(self).position.y == resolved_y(
                map@,
                old(self).position,
                fx_mul(old(self).direction.x as int, speed as int),
                fx_mul(old(self).direction.y as int, speed as int),
            ),
    {
        let dx: i128 = scale_mul(self.direction.x, speed);
        let dy: i128 = scale_mul(self.direction.y, speed);
        proof {
            lemma_step_bound(self.direction.x as int, speed as int);
            lemma_step_bound(self.direction.y as int, speed as int);
        }
        self.move_with_collision(Vec2 { x: dx as i64, y: dy as i64 }, map);
    }

    /// Moves at a right angle to the direction of view, to the right for a
    /// positive `speed`, as far as walls allow.
    pub fn move_right(&mut self, speed: i64, map: &[Vec<i32>])
        requires
            old(self).wf(),
            in_world(speed as int),
        ensures
            final(self).wf(),
            *final(self) == old(self).sideways(speed as int, map@),
            final(self).direction == old(self).direction,
            final(self).plane == old(self).plane,
            final(self).position.x == resolved_x(
                map@,
                old(self).position,
                fx_mul(old(self).direction.y as int, speed as int),
            ),
            final(self).position.y == resolved_y(
                map@,
                old(self).position,
                fx_mul(old(self).direction.y as int, speed as int),
                fx_mul(-old(self).direction.x, speed as int),
            ),
    {
        let dx: i128 = scale_mul(self.direction.y, speed);
        let dy: i128 = scale_mul(-self.direction.x, speed);
        proof {
            lemma_step_bound(self.direction.y as int, speed as int);
            lemma_step_bound(-self.direction.x, speed as int);
        }
        self.move_with_collision(Vec2 { x: dx as i64, y: dy as i64 }, map);
    }

    /// Moves by `move_vec`, each axis on its own: first x, then y from the x
    /// coordinate settled on. An axis moves if the clearance box at its
    /// destination is free of walls or the camera escapes from a wall on
    /// that axis. Where neither axis escapes and the camera stood clear, it
    /// stands clear afterwards.
    pub fn move_with_collision(&mut self, move_vec: Vec2, map: &[Vec<i32>])
        requires
            old(self).wf(),
            -5 * COORD_MAX <= move_vec.x <= 5 * COORD_MAX,
            -5 * COORD_MAX <= move_vec.y <= 5 * COORD_MAX,
        ensures
            final(self).wf(),
            *final(self) == old(self).shifted(move_vec.x as int, move_vec.y as int, map@),
            final(self).direction == old(self).direction,
            final(self).plane == old(self).plane,
            final(self).position.x == resolved_x(map@, old(self).position, move_vec.x as int),
            final(self).position.y == resolved_y(
                map@,
                old(self).position,
                move_vec.x as int,
                move_vec.y as int,
            ),
            !escapes_x(map@, old(self).position, move_vec.x as int) && !escapes_y(
                map@,
                old(self).position,
                move_vec.y as int,
            ) && !box_blocked(map@, old(self).position.x as int, old(self).position.y as int)
                ==> !box_blocked(map@, final(self).position.x as int, final(self).position.y as int),
    {
        let pos: Vec2 = self.position;
        let new_x: i64 = pos.x + move_vec.x;
        let new_y: i64 = pos.y + move_vec.y;

        let moving_away_x: bool = if move_vec.x > 0 {
            self.is_wall_left(COLLISION_BUFFER, map)
        } else {
            move_vec.x < 0 && self.is_wall_right(COLLISION_BUFFER, map)
        };
        let moving_away_y: bool = if move_vec.y > 0 {
            self.is_wall_up(COLLISION_BUFFER, map)
        } else {
            move_vec.y < 0 && self.is_wall_down(COLLISION_BUFFER, map)
        };

        let mut next_x: i64 = pos.x;
        let mut next_y: i64 = pos.y;
        if -COORD_MAX <= new_x && new_x <= COORD_MAX && (!self.check_collision(
            Vec2 { x: new_x, y: pos.y },
            map,
        ) || moving_away_x) {
            next_x = new_x;
        }
        if -COORD_MAX <= new_y && new_y <= COORD_MAX && (!self.check_collision(
            Vec2 { x: next_x, y: new_y },
            map,
        ) || moving_away_y) {
            next_y = new_y;
        }
        self.position = Vec2 { x: next_x, y: next_y };
    }

    /// Whether the clearance box around `pos` meets a solid cell.
    pub fn check_collision(&self, pos: Vec2, map: &[Vec<i32>]) -> (b: bool)
        ensures
            b == box_blocked(map@, pos.x as int, pos.y as int),
    {
        clearance_blocked(map, pos.x, pos.y)
    }

    fn is_wall_left(&self, distance: i64, map: &[Vec<i32>]) -> (b: bool)
        requires
            self.wf(),
            0 <= distance <= SCALE,
        ensures
            b == box_blocked(map@, self.position.x - distance, self.position.y as int),
    {
        self.check_collision(Vec2 { x: self.position.x - distance, y: self.position.y }, map)
    }

    fn is_wall_right(&self, distance: i64, map: &[Vec<i32>]) -> (b: bool)
        requires
            self.wf(),
            0 <= distance <= SCALE,
        ensures
            b == box_blocked(map@, self.position.x + distance, self.position.y as int),
    {
        self.check_collision(Vec2 { x: self.position.x + distance, y: self.position.y }, map)
    }

    fn is_wall_up(&self, distance: i64, map: &[Vec<i32>]) -> (b: bool)
        requires
            self.wf(),
            0 <= distance <= SCALE,
        ensures
            b == box_blocked(map@, self.position.x as int, self.position.y - distance),
    {
        self.check_collision(Vec2 { x: self.position.x, y: self.position.y - distance }, map)
    }

    fn is_wall_down(&self, distance: i64, map: &[Vec<i32>]) -> (b: bool)
        requires
            self.wf(),
            0 <= distance <= SCALE,
        ensures
            b == box_blocked(map@, self.position.x as int, self.position.y + distance),
    {
        self.check_collision(Vec2 { x: self.position.x, y: self.position.y + distance }, map)
    }
}

/// A view vector's coordinate times a speed within the world is a step of
/// at most four times the world's extent.
pub proof fn lemma_step_bound(d: int, speed: int)
    requires
        -DIR_MAX <= d <= DIR_MAX,
        in_world(speed),
    ensures
        -4 * COORD_MAX - 1 <= fx_mul(d, speed) <= 4 * COORD_MAX,
{
    let q: int = (d * speed) / (SCALE as int);
    assert(-4_000_000_000_000 - 1 <= q <= 4_000_000_000_000) by (nonlinear_arith)
        requires
            -4_000_000 <= d <= 4_000_000,
            -1_000_000_000_000 <= speed <= 1_000_000_000_000,
            q == (d * speed) / 1_000_000,
    ;
}

/// Turning two vectors by one angle keeps their dot product and their cross
/// product. Before rounding, the turned vectors are [`SCALE`] times too
/// long, so their products are those of the vectors themselves times
/// `cos * cos + sin * sin`: for a cosine and a sine on the circle of radius
/// [`SCALE`] that is the square of [`SCALE`], whatever the angle.
pub proof fn lemma_rotation_preserves_products(d: Vec2, p: Vec2, cos: int, sin: int)
    ensures
        dot(turned_x(d, cos, sin), turned_y(d, cos, sin), turned_x(p, cos, sin), turned_y(p, cos, sin))
            == (cos * cos + sin * sin) * dot(d.x as int, d.y as int, p.x as int, p.y as int),
        cross(turned_x(d, cos, sin), turned_y(d, cos, sin), turned_x(p, cos, sin), turned_y(p, cos, sin))
            == (cos * cos + sin * sin) * cross(d.x as int, d.y as int, p.x as int, p.y as int),
        cos * cos + sin * sin == SCALE * SCALE ==> {
            &&& dot(
                turned_x(d, cos, sin),
                turned_y(d, cos, sin),
                turned_x(p, cos, sin),
                turned_y(p, cos, sin),
            ) == SCALE * SCALE * dot(d.x as int, d.y as int, p.x as int, p.y as int)
            &&& cross(
                turned_x(d, cos, sin),
                turned_y(d, cos, sin),
                turned_x(p, cos, sin),
                turned_y(p, cos, sin),
            ) == SCALE * SCALE * cross(d.x as int, d.y as int, p.x as int, p.y as int)
        },
{
    let dx: int = d.x as int;
    let dy: int = d.y as int;
    let px: int = p.x as int;
    let py: int = p.y as int;
    let cc: int = cos * cos;
    let ss: int = sin * sin;
    let cs: int = cos * sin;
    let (a, b, c, e) = (dx * cos, dy * sin, dx * sin, dy * cos);
    let (f, g, h, k) = (px * cos, py * sin, px * sin, py * cos);
    lemma_swap_factors(dx, cos, px, cos);
    lemma_swap_factors(dy, sin, py, sin);
    lemma_swap_factors(dx, sin, px, sin);
    lemma_swap_factors(dy, cos, py, cos);
    lemma_swap_factors(dx, cos, py, sin);
    lemma_swap_factors(dy, sin, px, cos);
    lemma_swap_factors(dx, sin, py, cos);
    lemma_swap_factors(dy, cos, px, sin);
    lemma_swap_factors(dx, cos, py, cos);
    lemma_swap_factors(dx, sin, py, sin);
    lemma_swap_factors(dy, cos, px, cos);
    lemma_swap_factors(dy, sin, px, sin);
    lemma_swap_factors(dx, sin, px, cos);
    lemma_swap_factors(dx, cos, px, sin);
    lemma_swap_factors(dy, sin, py, cos);
    lemma_swap_factors(dy, cos, py, sin);
    assert(sin * cos == cs) by (nonlinear_arith)
        requires
            cs == cos * sin,
    ;
    lemma_expand(a, -b, f, -g);
    lemma_expand(c, e, h, k);
    lemma_expand(a, -b, h, k);
    lemma_expand(c, e, f, -g);
    lemma_negate(a, g);
    lemma_negate(f, b);
    lemma_negate(h, b);
    lemma_negate(k, b);
    lemma_negate(c, g);
    lemma_negate(e, g);
    assert((-b) * (-g) == b * g) by (nonlinear_arith);
    let (m1, m2, m3, m4) = (dx * px, dy * py, dx * py, dy * px);
    assert(m1 * cc + m2 * ss + m1 * ss + m2 * cc == (cc + ss) * (m1 + m2)) by (nonlinear_arith);
    assert(m3 * cc + m3 * ss - m4 * ss - m4 * cc == (cc + ss) * (m3 - m4)) by (nonlinear_arith);
}

/// The product of two sums is the sum of the four products.
proof fn lemma_expand(a: int, b: int, c: int, d: int)
    ensures
        (a + b) * (c + d) == a * c + a * d + b * c + b * d,
{
    assert((a + b) * (c + d) == a * c + a * d + b * c + b * d) by (nonlinear_arith);
}

/// A sign may be moved out of a product, from either side.
proof fn lemma_negate(a: int, b: int)
    ensures
        a * (-b) == -(a * b),
        (-b) * a == -(a * b),
        (-b) * a == -(b * a),
{
    assert(a * (-b) == -(a * b) && (-b) * a == -(a * b) && (-b) * a == -(b * a)) by (nonlinear_arith);
}

/// Four factors may be paired either way.
proof fn lemma_swap_factors(a: int, b: int, c: int, d: int)
    ensures
        (a * b) * (c * d) == (a * c) * (b * d),
{
    assert((a * b) * (c * d) == (a * c) * (b * d)) by (nonlinear_arith);
}

/// A view vector's coordinate times any 64-bit factor stays far inside 128
/// bits.
proof fn lemma_turn_term_bound(v: int, f: int)
    requires
        -DIR_MAX <= v <= DIR_MAX,
        -0x8000_0000_0000_0000 <= f <= 0x7fff_ffff_ffff_ffff,
    ensures
        -0x40_0000_0000_0000_0000_0000 <= v * f <= 0x40_0000_0000_0000_0000_0000,
{
    assert(-0x40_0000_0000_0000_0000_0000 <= v * f <= 0x40_0000_0000_0000_0000_0000) by (nonlinear_arith)
        requires
            -4_000_000 <= v <= 4_000_000,
            -0x8000_0000_0000_0000 <= f <= 0x7fff_ffff_ffff_ffff,
    ;
}

/// What is stored after a turn is the turned vector rounded down: each
/// coordinate is less than one step below the exact value.
pub proof fn lemma_turn_rounding(v: Vec2, cos: int, sin: int)
    requires
        turn_fits(v, cos, sin),
    ensures
        turned(v, cos, sin).x * SCALE <= turned_x(v, cos, sin) < turned(v, cos, sin).x * SCALE + SCALE,
        turned(v, cos, sin).y * SCALE <= turned_y(v, cos, sin) < turned(v, cos, sin).y * SCALE + SCALE,
{
}

/// A quarter turn is exact: it keeps the dot and cross product of the stored
/// vectors.
pub proof fn lemma_quarter_turn_exact(d: Vec2, p: Vec2)
    requires
        view_vector(d),
        view_vector(p),
    ensures
        turned(d, 0, SCALE as int).x == -d.y,
        turned(d, 0, SCALE as int).y == d.x,
        dot(
            turned(d, 0, SCALE as int).x as int,
            turned(d, 0, SCALE as int).y as int,
            turned(p, 0, SCALE as int).x as int,
            turned(p, 0, SCALE as int).y as int,
        ) == dot(d.x as int, d.y as int, p.x as int, p.y as int),
        cross(
            turned(d, 0, SCALE as int).x as int,
            turned(d, 0, SCALE as int).y as int,
            turned(p, 0, SCALE as int).x as int,
            turned(p, 0, SCALE as int).y as int,
        ) == cross(d.x as int, d.y as int, p.x as int, p.y as int),
{
    let s: int = SCALE as int;
    assert(turned_x(d, 0, s) == -d.y * s);
    assert(turned_y(d, 0, s) == d.x * s);
    assert(turned_x(p, 0, s) == -p.y * s);
    assert(turned_y(p, 0, s) == p.x * s);
    assert((-d.y) * (-p.y) == d.y * p.y) by (nonlinear_arith);
    assert((-d.y) * p.x == -(d.y * p.x)) by (nonlinear_arith);
    assert(d.x * (-p.y) == -(d.x * p.y)) by (nonlinear_arith);
}

/// A clearance box that is not blocked holds no wall: every point of the
/// box lies in a cell that is not solid.
pub proof fn lemma_clear_box_holds_no_wall(map: Seq<Vec<i32>>, x: int, y: int, px: int, py: int)
    requires
        !box_blocked(map, x, y),
        x - COLLISION_BUFFER <= px <= x + COLLISION_BUFFER,
        y - COLLISION_BUFFER <= py <= y + COLLISION_BUFFER,
    ensures
        !cell_solid(map, cell_of(px), cell_of(py)),
{
    let b: int = COLLISION_BUFFER as int;
    assert(cell_of(px) == cell_of(x - b) || cell_of(px) == cell_of(x + b));
    assert(cell_of(py) == cell_of(y - b) || cell_of(py) == cell_of(y + b));
}

} // verus!
