//! Enemies: a state machine that idles, patrols, chases, attacks and
//! retreats, driven once per tick by where the player stands.

use vstd::prelude::*;
use crate::fixed::{
    cell_of, div_floor, in_world, lemma_mul_bound, wide_mul, Vec2, COORD_MAX, SCALE,
};
use crate::fixed::{clamp_i32, clamp_to_i32, sqrt_floor};
use crate::grid::{cell_solid, point_solid, solid_under};

verus! {

/// Largest range of sight or attack.
pub const RANGE_MAX: i64 = 3_000_000_000_000;

/// Largest speed, of an enemy or of what it fires, in map units per second.
pub const SPEED_MAX: i64 = 1_000_000_000;

/// How near to a patrol point counts as having reached it.
pub const ARRIVAL_RADIUS: i64 = 100_000;

/// How near to the player a point on the line of sight must come.
pub const SIGHT_RADIUS: i64 = 500_000;

/// An enemy whose health falls below this retreats.
pub const RETREAT_BELOW: i32 = 40;

/// A retreating enemy whose health is above this chases again.
pub const RECOVER_ABOVE: i32 = 50;

/// How long the firing picture is shown after a shot.
pub const FIRING_DISPLAY: u64 = 100_000;

/// What an enemy is doing.
#[derive(Clone, Copy, Debug, PartialEq, Eq, Structural)]
pub enum AIState {
    Idle,
    Patrol,
    Chase,
    Attack,
    Retreat,
}

/// How an enemy fights.
#[derive(Clone, Copy, Debug, PartialEq, Eq, Structural)]
pub enum EnemyType {
    Melee { damage: i32, attack_range: i64 },
    Ranged {
        damage: i32,
        attack_range: i64,
        projectile_speed: i64,
        /// Time since the last shot.
        since_shot: u64,
        /// Least time between two shots.
        shoot_interval: u64,
        idle_texture: usize,
        fire_texture: usize,
        /// Whether the firing picture is shown.
        firing: bool,
    },
}

/// An enemy.
pub struct Enemy {
    pub position: Vec2,
    pub direction: Vec2,
    pub health: i32,
    pub state: AIState,
    /// Index, among the raycaster's textures, of the one that shows it.
    pub texture: usize,
    /// Map units per second.
    pub speed: i64,
    pub chase_range: i64,
    pub enemy_type: EnemyType,
    pub patrol_points: Vec<Vec2>,
    pub current_patrol_point: usize,
}

/// Whether a squared distance is that of a distance below `r`.
pub open spec fn closer_than(d2: int, r: int) -> bool {
    d2 < r * r
}

/// Whether a squared distance is that of a distance below `r * num / den`.
pub open spec fn closer_than_ratio(d2: int, r: int, num: int, den: int) -> bool {
    den * den * d2 < num * num * (r * r)
}

/// Whether a squared distance is that of a distance above `r * num / den`.
pub open spec fn farther_than_ratio(d2: int, r: int, num: int, den: int) -> bool {
    den * den * d2 > num * num * (r * r)
}

/// The number of steps in which a line of sight is sampled: two for each
/// map unit of its length.
pub open spec fn sight_steps(from: Vec2, to: Vec2) -> int {
    (2 * sqrt_floor(from.dist_sq(to))) / (SCALE as int)
}

/// The `i`-th of `steps` equal parts of the way along an axis.
pub open spec fn part_way(from: int, to: int, i: int, steps: int) -> int {
    if steps == 0 {
        from
    } else {
        from + ((to - from) * i) / steps
    }
}

/// The point `i` steps along the line of sight.
pub open spec fn sample(from: Vec2, to: Vec2, i: int, steps: int) -> Vec2 {
    Vec2 {
        x: part_way(from.x as int, to.x as int, i, steps) as i64,
        y: part_way(from.y as int, to.y as int, i, steps) as i64,
    }
}

/// Whether the line of sight is open from its `i`-th sample on: a sample
/// comes within [`SIGHT_RADIUS`] of the target before one lies in a solid
/// cell.
pub open spec fn sight_from(map: Seq<Vec<i32>>, from: Vec2, to: Vec2, i: int, steps: int) -> bool
    decreases steps - i + 1,
{
    if i > steps || i < 0 {
        false
    } else if point_solid(map, sample(from, to, i, steps)) {
        false
    } else if sample(from, to, i, steps).dist_sq(to) < SIGHT_RADIUS * SIGHT_RADIUS {
        true
    } else {
        sight_from(map, from, to, i + 1, steps)
    }
}

/// Whether `to` is seen from `from`: it is no farther than `range` and the
/// line of sight is open.
pub open spec fn sees(map: Seq<Vec<i32>>, from: Vec2, to: Vec2, range: int) -> bool {
    from.dist_sq(to) <= range * range && sight_from(map, from, to, 0, sight_steps(from, to))
}

/// The unit vector from `from` towards `to`.
pub open spec fn unit_towards(from: Vec2, to: Vec2) -> Vec2 {
    (Vec2 { x: (to.x - from.x) as i64, y: (to.y - from.y) as i64 }).unit()
}

/// How far an enemy with the given speed gets in `dt` along an axis on
/// which its unit direction is `d`.
pub open spec fn stride(d: int, speed: int, dt: int) -> int {
    ((d * speed) * dt) / (SCALE * SCALE)
}

/// Where a step along `dir` leads: to the destination, if that lies in the
/// world and in a cell that is not solid, and nowhere otherwise.
pub open spec fn stepped(map: Seq<Vec<i32>>, pos: Vec2, dir: Vec2, speed: i64, dt: u64) -> Vec2 {
    let nx = pos.x + stride(dir.x as int, speed as int, dt as int);
    let ny = pos.y + stride(dir.y as int, speed as int, dt as int);
    if in_world(nx) && in_world(ny) && !cell_solid(map, cell_of(nx), cell_of(ny)) {
        Vec2 { x: nx as i64, y: ny as i64 }
    } else {
        pos
    }
}

pub open spec fn reversed(v: Vec2) -> Vec2 {
    Vec2 { x: (-v.x) as i64, y: (-v.y) as i64 }
}

/// The velocity of what is fired along the unit vector `dir`.
pub open spec fn shot_velocity(dir: Vec2, speed: i64) -> Vec2 {
    Vec2 { x: ((dir.x * speed) / (SCALE as int)) as i64, y: ((dir.y * speed) / (SCALE as int)) as i64 }
}

impl EnemyType {
    pub open spec fn range(self) -> i64 {
        match self {
            EnemyType::Melee { attack_range, .. } => attack_range,
            EnemyType::Ranged { attack_range, .. } => attack_range,
        }
    }

    pub open spec fn hit_damage(self) -> i32 {
        match self {
            EnemyType::Melee { damage, .. } => damage,
            EnemyType::Ranged { damage, .. } => damage,
        }
    }

    pub open spec fn wf(self) -> bool {
        match self {
            EnemyType::Melee { attack_range, .. } => 0 <= attack_range <= RANGE_MAX,
            EnemyType::Ranged { attack_range, projectile_speed, .. } => 0 <= attack_range
                <= RANGE_MAX && -SPEED_MAX <= projectile_speed <= SPEED_MAX,
        }
    }

    /// The same with `dt` more on the clock since the last shot.
    pub open spec fn ticked(self, dt: u64) -> EnemyType {
        match self {
            EnemyType::Melee { .. } => self,
            EnemyType::Ranged {
                damage,
                attack_range,
                projectile_speed,
                since_shot,
                shoot_interval,
                idle_texture,
                fire_texture,
                firing,
            } => EnemyType::Ranged {
                damage,
                attack_range,
                projectile_speed,
                since_shot: if since_shot + dt > u64::MAX {
                    u64::MAX
                } else {
                    (since_shot + dt) as u64
                },
                shoot_interval,
                idle_texture,
                fire_texture,
                firing,
            },
        }
    }

    /// Whether a ranged enemy may fire now.
    pub open spec fn ready(self) -> bool {
        self matches EnemyType::Ranged { since_shot, shoot_interval, .. } && since_shot >= shoot_interval
    }

    /// A ranged enemy that has just fired.
    pub open spec fn fired(self) -> EnemyType {
        match self {
            EnemyType::Melee { .. } => self,
            EnemyType::Ranged {
                damage,
                attack_range,
                projectile_speed,
                since_shot,
                shoot_interval,
                idle_texture,
                fire_texture,
                firing,
            } => EnemyType::Ranged {
                damage,
                attack_range,
                projectile_speed,
                since_shot: 0,
                shoot_interval,
                idle_texture,
                fire_texture,
                firing: true,
            },
        }
    }

    /// A ranged enemy that shows its idle picture again.
    pub open spec fn lowered(self) -> EnemyType {
        match self {
            EnemyType::Melee { .. } => self,
            EnemyType::Ranged {
                damage,
                attack_range,
                projectile_speed,
                since_shot,
                shoot_interval,
                idle_texture,
                fire_texture,
                firing,
            } => EnemyType::Ranged {
                damage,
                attack_range,
                projectile_speed,
                since_shot,
                shoot_interval,
                idle_texture,
                fire_texture,
                firing: false,
            },
        }
    }
}

impl Enemy {
    /// Position, ranges, speeds and patrol route are within their bounds.
    pub open spec fn wf(&self) -> bool {
        &&& self.position.wf()
        &&& -SCALE <= self.direction.x <= SCALE
        &&& -SCALE <= self.direction.y <= SCALE
        &&& 0 <= self.speed <= SPEED_MAX
        &&& 0 <= self.chase_range <= RANGE_MAX
        &&& self.enemy_type.wf()
        &&& forall|i: int| 0 <= i < self.patrol_points@.len() ==> (#[trigger] self.patrol_points@[i]).wf()
        &&& (self.patrol_points@.len() == 0 || self.current_patrol_point < self.patrol_points@.len())
    }

    /// Whether the enemy sees the point `player`.
    pub open spec fn sees_point(&self, player: Vec2, map: Seq<Vec<i32>>) -> bool {
        sees(map, self.position, player, self.chase_range as int)
    }

    /// The texture that shows the enemy's kind at rest.
    pub open spec fn rest_texture(&self) -> usize {
        match self.enemy_type {
            EnemyType::Melee { .. } => self.texture,
            EnemyType::Ranged { idle_texture, .. } => idle_texture,
        }
    }

    pub open spec fn fire_texture(&self) -> usize {
        match self.enemy_type {
            EnemyType::Melee { .. } => self.texture,
            EnemyType::Ranged { fire_texture, .. } => fire_texture,
        }
    }

    /// What the enemy turns to at the start of a tick: the player while it
    /// chases or attacks, its patrol point while it patrols.
    pub open spec fn facing_target(&self, player: Vec2) -> Option<Vec2> {
        match self.state {
            AIState::Chase | AIState::Attack => Some(player),
            AIState::Patrol => if self.patrol_points@.len() > 0 {
                Some(self.patrol_points@[self.current_patrol_point as int])
            } else {
                None
            },
            _ => None,
        }
    }

    /// The direction after the enemy has turned to its target; it keeps its
    /// direction where it has no target or stands on it.
    pub open spec fn faced(&self, player: Vec2) -> Vec2 {
        match self.facing_target(player) {
            Some(t) => if t != self.position {
                unit_towards(self.position, t)
            } else {
                self.direction
            },
            None => self.direction,
        }
    }

    /// The enemy after a step towards `target`; it stays where it stands on
    /// the target.
    pub open spec fn walked(self, target: Vec2, dt: u64, map: Seq<Vec<i32>>) -> Enemy {
        if target != self.position {
            Enemy {
                direction: unit_towards(self.position, target),
                position: stepped(map, self.position, unit_towards(self.position, target), self.speed, dt),
                ..self
            }
        } else {
            self
        }
    }

    /// The enemy after a step straight away from `from`.
    pub open spec fn fled(self, from: Vec2, dt: u64, map: Seq<Vec<i32>>) -> Enemy {
        if from != self.position {
            Enemy {
                direction: unit_towards(from, self.position),
                position: stepped(map, self.position, unit_towards(from, self.position), self.speed, dt),
                ..self
            }
        } else {
            self
        }
    }

    /// An idle enemy chases as soon as it sees the player.
    pub open spec fn idle_next(self, player: Vec2, map: Seq<Vec<i32>>) -> Enemy {
        if self.sees_point(player, map) {
            Enemy { state: AIState::Chase, ..self }
        } else {
            self
        }
    }

    /// A patrolling enemy chases as soon as it sees the player; else it
    /// walks to its patrol point, and turns to the next one when it is
    /// there.
    pub open spec fn patrol_next(self, player: Vec2, dt: u64, map: Seq<Vec<i32>>) -> Enemy {
        if self.sees_point(player, map) {
            Enemy { state: AIState::Chase, ..self }
        } else if self.patrol_points@.len() == 0 {
            self
        } else {
            let target = self.patrol_points@[self.current_patrol_point as int];
            if closer_than(self.position.dist_sq(target), ARRIVAL_RADIUS as int) {
                Enemy {
                    current_patrol_point: ((self.current_patrol_point + 1) % (
                    self.patrol_points@.len() as int)) as usize,
                    ..self
                }
            } else {
                self.walked(target, dt, map)
            }
        }
    }

    /// A chasing enemy patrols again when it loses sight of the player and
    /// attacks when it is in range. Else it closes in; a ranged enemy nearer
    /// than four fifths of its range backs away instead.
    pub open spec fn chase_next(self, player: Vec2, dt: u64, map: Seq<Vec<i32>>) -> Enemy {
        let d2 = self.position.dist_sq(player);
        let range = self.enemy_type.range() as int;
        if !self.sees_point(player, map) {
            Enemy { state: AIState::Patrol, ..self }
        } else if closer_than(d2, range) {
            Enemy { state: AIState::Attack, ..self }
        } else if self.enemy_type is Ranged && closer_than_ratio(d2, range, 4, 5) {
            Enemy {
                position: stepped(
                    map,
                    self.position,
                    reversed(unit_towards(self.position, player)),
                    self.speed,
                    dt,
                ),
                ..self
            }
        } else {
            self.walked(player, dt, map)
        }
    }

    /// An attacking enemy chases again when it loses sight of the player or
    /// the player is farther than six fifths of its range. Else a ranged
    /// enemy fires if it is ready, and lowers its weapon a while after a
    /// shot.
    pub open spec fn attack_next(self, player: Vec2, map: Seq<Vec<i32>>) -> Enemy {
        let d2 = self.position.dist_sq(player);
        let range = self.enemy_type.range() as int;
        if !self.sees_point(player, map) {
            Enemy { state: AIState::Chase, ..self }
        } else if farther_than_ratio(d2, range, 6, 5) {
            Enemy {
                state: AIState::Chase,
                enemy_type: self.enemy_type.lowered(),
                texture: self.rest_texture(),
                ..self
            }
        } else if self.enemy_type.ready() {
            Enemy { enemy_type: self.enemy_type.fired(), texture: self.fire_texture(), ..self }
        } else if self.enemy_type matches EnemyType::Ranged { firing, since_shot, .. } && firing
            && since_shot >= FIRING_DISPLAY {
            Enemy { enemy_type: self.enemy_type.lowered(), texture: self.rest_texture(), ..self }
        } else {
            self
        }
    }

    /// A retreating enemy moves away from the player; it chases again only
    /// with health above [`RECOVER_ABOVE`].
    pub open spec fn retreat_next(self, player: Vec2, dt: u64, map: Seq<Vec<i32>>) -> Enemy {
        if self.health > RECOVER_ABOVE {
            Enemy { state: AIState::Chase, ..self }
        } else {
            self.fled(player, dt, map)
        }
    }

    /// What is left of the enemy's health after `amount` is taken off: never
    /// less than nothing.
    pub open spec fn health_left(self, amount: i32) -> i32 {
        if self.health - amount < 0 {
            0
        } else {
            clamp_i32(self.health - amount)
        }
    }

    /// The enemy with `amount` off its health; with less than
    /// [`RETREAT_BELOW`] left it retreats.
    pub open spec fn damaged(self, amount: i32) -> Enemy {
        Enemy {
            health: self.health_left(amount),
            state: if self.health_left(amount) < RETREAT_BELOW {
                AIState::Retreat
            } else {
                self.state
            },
            ..self
        }
    }

    /// The enemy at the start of a tick: turned to its target, its clock
    /// advanced.
    pub open spec fn readied(self, player: Vec2, dt: u64) -> Enemy {
        Enemy { direction: self.faced(player), enemy_type: self.enemy_type.ticked(dt), ..self }
    }

    /// The enemy after one tick.
    pub open spec fn next(self, player: Vec2, dt: u64, map: Seq<Vec<i32>>) -> Enemy {
        let e = self.readied(player, dt);
        match e.state {
            AIState::Idle => e.idle_next(player, map),
            AIState::Patrol => e.patrol_next(player, dt, map),
            AIState::Chase => e.chase_next(player, dt, map),
            AIState::Attack => e.attack_next(player, map),
            AIState::Retreat => e.retreat_next(player, dt, map),
        }
    }

    /// Whether the enemy fires in this tick: it attacks, sees the player
    /// within six fifths of its range, and its weapon is ready.
    pub open spec fn fires(self, player: Vec2, dt: u64, map: Seq<Vec<i32>>) -> bool {
        &&& self.state == AIState::Attack
        &&& self.sees_point(player, map)
        &&& !farther_than_ratio(self.position.dist_sq(player), self.enemy_type.range() as int, 6, 5)
        &&& self.enemy_type.ticked(dt).ready()
    }

    /// The projectile that the enemy asks for in this tick, if it fires:
    /// where it starts (where the enemy stands), its velocity (towards the
    /// player) and its damage.
    pub open spec fn shot(self, player: Vec2, dt: u64, map: Seq<Vec<i32>>) -> Option<(Vec2, Vec2, i32)> {
        if self.fires(player, dt, map) {
            match self.enemy_type {
                EnemyType::Ranged { projectile_speed, damage, .. } => Some(
                    (
                        self.position,
                        shot_velocity(unit_towards(self.position, player), projectile_speed),
                        damage,
                    ),
                ),
                EnemyType::Melee { .. } => None,
            }
        } else {
            None
        }
    }

    /// The enemy after the ticks `ticks`, each with the player's position
    /// and the time it takes.
    pub open spec fn run(self, ticks: Seq<(Vec2, u64)>, map: Seq<Vec<i32>>) -> Enemy
        decreases ticks.len(),
    {
        if ticks.len() == 0 {
            self
        } else {
            self.run(ticks.drop_last(), map).next(ticks.last().0, ticks.last().1, map)
        }
    }
}

} // verus!

verus! {

/// The unit vector from `from` towards `to`.
fn unit_to(from: Vec2, to: Vec2) -> (u: Vec2)
    requires
        from.wf(),
        to.wf(),
    ensures
        u == unit_towards(from, to),
        -SCALE <= u.x <= SCALE,
        -SCALE <= u.y <= SCALE,
{
    let diff = Vec2 { x: to.x - from.x, y: to.y - from.y };
    diff.normalize()
}

/// Takes a step along the unit vector `dir`, unless it leads out of the
/// world or into a solid cell.
fn step_along(pos: Vec2, dir: Vec2, speed: i64, dt: u64, map: &[Vec<i32>]) -> (p: Vec2)
    requires
        pos.wf(),
        -SCALE <= dir.x <= SCALE,
        -SCALE <= dir.y <= SCALE,
        0 <= speed <= SPEED_MAX,
    ensures
        p == stepped(map@, pos, dir, speed, dt),
        p.wf(),
{
    let ax: i128 = wide_mul(dir.x, speed);
    let ay: i128 = wide_mul(dir.y, speed);
    proof {
        lemma_mul_bound(dir.x as int, speed as int, 1_000_000, 1_000_000_000);
        lemma_mul_bound(dir.y as int, speed as int, 1_000_000, 1_000_000_000);
        lemma_mul_bound(ax as int, dt as int, 1_000_000_000_000_000, 0xffff_ffff_ffff_ffff);
        lemma_mul_bound(ay as int, dt as int, 1_000_000_000_000_000, 0xffff_ffff_ffff_ffff);
    }
    let unit: i128 = 1_000_000_000_000;
    let sx: i128 = div_floor(ax * (dt as i128), unit);
    let sy: i128 = div_floor(ay * (dt as i128), unit);
    proof {
        crate::fixed::lemma_div_bound(
            ax * dt,
            1_000_000_000_000,
            1_000_000_000_000_000int * 0xffff_ffff_ffff_ffffint,
        );
        crate::fixed::lemma_div_bound(
            ay * dt,
            1_000_000_000_000,
            1_000_000_000_000_000int * 0xffff_ffff_ffff_ffffint,
        );
    }
    let nx: i128 = (pos.x as i128) + sx;
    let ny: i128 = (pos.y as i128) + sy;
    let m: i128 = COORD_MAX as i128;
    if nx < -m || nx > m || ny < -m || ny > m {
        return pos;
    }
    let candidate = Vec2 { x: nx as i64, y: ny as i64 };
    if solid_under(map, candidate) {
        pos
    } else {
        candidate
    }
}

/// A part of the way between two coordinates lies between them.
pub proof fn lemma_part_way_between(from: int, to: int, i: int, steps: int)
    requires
        0 <= i <= steps,
    ensures
        from <= to ==> from <= part_way(from, to, i, steps) <= to,
        to <= from ==> to <= part_way(from, to, i, steps) <= from,
{
    if steps > 0 {
        let d: int = to - from;
        let q: int = (d * i) / steps;
        assert(d >= 0 ==> 0 <= q <= d) by (nonlinear_arith)
            requires
                0 <= i <= steps,
                steps > 0,
                q == (d * i) / steps,
        ;
        assert(d <= 0 ==> d <= q <= 0) by (nonlinear_arith)
            requires
                0 <= i <= steps,
                steps > 0,
                q == (d * i) / steps,
        ;
    }
}

/// The point `i` steps along the line of sight.
pub fn sample_point(from: Vec2, to: Vec2, i: i64, steps: i64) -> (p: Vec2)
    requires
        from.wf(),
        to.wf(),
        0 <= i <= steps,
    ensures
        p == sample(from, to, i as int, steps as int),
        p.wf(),
{
    proof {
        lemma_part_way_between(from.x as int, to.x as int, i as int, steps as int);
        lemma_part_way_between(from.y as int, to.y as int, i as int, steps as int);
    }
    if steps == 0 {
        from
    } else {
        let qx: i128 = div_floor(wide_mul(to.x - from.x, i), steps as i128);
        let qy: i128 = div_floor(wide_mul(to.y - from.y, i), steps as i128);
        Vec2 { x: ((from.x as i128) + qx) as i64, y: ((from.y as i128) + qy) as i64 }
    }
}

/// Tells whether a squared distance is that of a distance below
/// `r * num / den`.
fn nearer_ratio(d2: u128, r: i64, num: u8, den: u8) -> (b: bool)
    requires
        d2 <= 8_000_000_000_000_000_000_000_000,
        0 <= r <= RANGE_MAX,
        num <= 10,
        den <= 10,
    ensures
        b == closer_than_ratio(d2 as int, r as int, num as int, den as int),
{
    let rr: i128 = wide_mul(r, r);
    proof {
        lemma_mul_bound(r as int, r as int, 3_000_000_000_000, 3_000_000_000_000);
    }
    proof {
        lemma_mul_bound(num as int, num as int, 10, 10);
        lemma_mul_bound(den as int, den as int, 10, 10);
        lemma_mul_bound(den * den, d2 as int, 100, 8_000_000_000_000_000_000_000_000);
        lemma_mul_bound(num * num, r * r, 100, 9_000_000_000_000_000_000_000_000);
    }
    let n2: i128 = (num as i128) * (num as i128);
    let e2: i128 = (den as i128) * (den as i128);
    e2 * (d2 as i128) < n2 * rr
}

/// Tells whether a squared distance is that of a distance above
/// `r * num / den`.
fn farther_ratio(d2: u128, r: i64, num: u8, den: u8) -> (b: bool)
    requires
        d2 <= 8_000_000_000_000_000_000_000_000,
        0 <= r <= RANGE_MAX,
        num <= 10,
        den <= 10,
    ensures
        b == farther_than_ratio(d2 as int, r as int, num as int, den as int),
{
    let rr: i128 = wide_mul(r, r);
    proof {
        lemma_mul_bound(r as int, r as int, 3_000_000_000_000, 3_000_000_000_000);
    }
    proof {
        lemma_mul_bound(num as int, num as int, 10, 10);
        lemma_mul_bound(den as int, den as int, 10, 10);
        lemma_mul_bound(den * den, d2 as int, 100, 8_000_000_000_000_000_000_000_000);
        lemma_mul_bound(num * num, r * r, 100, 9_000_000_000_000_000_000_000_000);
    }
    let n2: i128 = (num as i128) * (num as i128);
    let e2: i128 = (den as i128) * (den as i128);
    e2 * (d2 as i128) > n2 * rr
}

impl EnemyType {
    /// Puts `dt` more on the clock since the last shot.
    fn tick(self, dt: u64) -> (t: EnemyType)
        ensures
            t == self.ticked(dt),
    {
        match self {
            EnemyType::Melee { damage, attack_range } => EnemyType::Melee { damage, attack_range },
            EnemyType::Ranged {
                damage,
                attack_range,
                projectile_speed,
                since_shot,
                shoot_interval,
                idle_texture,
                fire_texture,
                firing,
            } => EnemyType::Ranged {
                damage,
                attack_range,
                projectile_speed,
                since_shot: if since_shot > u64::MAX - dt {
                    u64::MAX
                } else {
                    since_shot + dt
                },
                shoot_interval,
                idle_texture,
                fire_texture,
                firing,
            },
        }
    }

    fn lower(self) -> (t: EnemyType)
        ensures
            t == self.lowered(),
    {
        match self {
            EnemyType::Melee { damage, attack_range } => EnemyType::Melee { damage, attack_range },
            EnemyType::Ranged {
                damage,
                attack_range,
                projectile_speed,
                since_shot,
                shoot_interval,
                idle_texture,
                fire_texture,
                firing,
            } => EnemyType::Ranged {
                damage,
                attack_range,
                projectile_speed,
                since_shot,
                shoot_interval,
                idle_texture,
                fire_texture,
                firing: false,
            },
        }
    }

    fn fire(self) -> (t: EnemyType)
        ensures
            t == self.fired(),
    {
        match self {
            EnemyType::Melee { damage, attack_range } => EnemyType::Melee { damage, attack_range },
            EnemyType::Ranged {
                damage,
                attack_range,
                projectile_speed,
                since_shot,
                shoot_interval,
                idle_texture,
                fire_texture,
                firing,
            } => EnemyType::Ranged {
                damage,
                attack_range,
                projectile_speed,
                since_shot: 0,
                shoot_interval,
                idle_texture,
                fire_texture,
                firing: true,
            },
        }
    }
}

impl Enemy {
    /// An idle enemy that fights hand to hand.
    pub fn new_melee(position: Vec2, texture: usize) -> (e: Enemy)
        ensures
            e.position == position,
            e.direction == (Vec2 { x: SCALE, y: 0 }),
            e.health == 100,
            e.state == AIState::Idle,
            e.texture == texture,
            e.speed == 2 * SCALE,
            e.chase_range == 5 * SCALE,
            e.enemy_type == (EnemyType::Melee { damage: 10, attack_range: 1_000_000i64 }),
            e.patrol_points@.len() == 0,
            e.current_patrol_point == 0,
            position.wf() ==> e.wf(),
    {
        Enemy {
            position,
            direction: Vec2 { x: SCALE, y: 0 },
            health: 100,
            state: AIState::Idle,
            texture,
            speed: 2 * SCALE,
            chase_range: 5 * SCALE,
            enemy_type: EnemyType::Melee { damage: 10, attack_range: SCALE },
            patrol_points: Vec::new(),
            current_patrol_point: 0,
        }
    }

    /// An idle enemy that shoots, with a weapon that is not yet ready.
    pub fn new_ranged(position: Vec2, idle_texture: usize, fire_texture: usize) -> (e: Enemy)
        ensures
            e.position == position,
            e.direction == (Vec2 { x: SCALE, y: 0 }),
            e.health == 50,
            e.state == AIState::Idle,
            e.texture == idle_texture,
            e.speed == 2 * SCALE,
            e.chase_range == 10 * SCALE,
            e.enemy_type == (EnemyType::Ranged {
                damage: 5,
                attack_range: 8_000_000i64,
                projectile_speed: 8_000_000i64,
                since_shot: 0,
                shoot_interval: 1_000_000,
                idle_texture,
                fire_texture,
                firing: false,
            }),
            e.patrol_points@.len() == 0,
            e.current_patrol_point == 0,
            position.wf() ==> e.wf(),
    {
        Enemy {
            position,
            direction: Vec2 { x: SCALE, y: 0 },
            health: 50,
            state: AIState::Idle,
            texture: idle_texture,
            speed: 2 * SCALE,
            chase_range: 10 * SCALE,
            enemy_type: EnemyType::Ranged {
                damage: 5,
                attack_range: 8 * SCALE,
                projectile_speed: 8 * SCALE,
                since_shot: 0,
                shoot_interval: 1_000_000,
                idle_texture,
                fire_texture,
                firing: false,
            },
            patrol_points: Vec::new(),
            current_patrol_point: 0,
        }
    }

    /// Gives the enemy a patrol route and sets it to patrol. It goes on to
    /// the point it was heading for, or to the first where the route has no
    /// such point.
    pub fn set_patrol_points(&mut self, points: Vec<Vec2>)
        ensures
            final(self).patrol_points == points,
            final(self).state == AIState::Patrol,
            final(self).current_patrol_point == if old(self).current_patrol_point < points@.len() {
                old(self).current_patrol_point
            } else {
                0
            },
            final(self).position == old(self).position,
            final(self).direction == old(self).direction,
            final(self).health == old(self).health,
            final(self).texture == old(self).texture,
            final(self).speed == old(self).speed,
            final(self).chase_range == old(self).chase_range,
            final(self).enemy_type == old(self).enemy_type,
    {
        if self.current_patrol_point >= points.len() {
            self.current_patrol_point = 0;
        }
        self.patrol_points = points;
        self.state = AIState::Patrol;
    }

    /// Whether the enemy sees the player: the player is within
    /// `chase_range` and no solid cell lies on the sampled line of sight
    /// before it comes near the player.
    pub fn can_see_player(&self, player_pos: Vec2, map: &[Vec<i32>]) -> (b: bool)
        requires
            self.position.wf(),
            player_pos.wf(),
            0 <= self.chase_range <= RANGE_MAX,
        ensures
            b == self.sees_point(player_pos, map@),
    {
        let from: Vec2 = self.position;
        let d2: u128 = from.distance_squared(&player_pos);
        let r2: i128 = wide_mul(self.chase_range, self.chase_range);
        proof {
            lemma_mul_bound(
                self.chase_range as int,
                self.chase_range as int,
                3_000_000_000_000,
                3_000_000_000_000,
            );
        }
        if d2 as i128 > r2 {
            return false;
        }
        let diff = Vec2 { x: from.x - player_pos.x, y: from.y - player_pos.y };
        let d: i64 = diff.length();
        let steps: i64 = (2 * d) / SCALE;
        assert(steps == sight_steps(from, player_pos));
        let mut i: i64 = 0;
        while i <= steps
            invariant
                0 <= i <= steps + 1,
                steps <= 6_000_000,
                from == self.position,
                from.wf(),
                player_pos.wf(),
                self.sees_point(player_pos, map@) == sight_from(map@, from, player_pos, 0, steps as int),
                sight_from(map@, from, player_pos, i as int, steps as int) == sight_from(
                    map@,
                    from,
                    player_pos,
                    0,
                    steps as int,
                ),
            decreases steps + 1 - i,
        {
            let point: Vec2 = sample_point(from, player_pos, i, steps);
            if solid_under(map, point) {
                return false;
            }
            if point.distance_squared(&player_pos) < 250_000_000_000 {
                return true;
            }
            i = i + 1;
        }
        false
    }

    /// Runs one tick of the enemy's behaviour with the player at
    /// `player_pos`, and returns the projectile that it fires, if any:
    /// origin, velocity and damage.
    pub fn update(&mut self, player_pos: Vec2, dt: u64, map: &[Vec<i32>]) -> (r: Option<
        (Vec2, Vec2, i32),
    >)
        requires
            old(self).wf(),
            player_pos.wf(),
        ensures
            *final(self) == old(self).next(player_pos, dt, map@),
            r == old(self).shot(player_pos, dt, map@),
            final(self).wf(),
    {
        let target: Option<Vec2> = match self.state {
            AIState::Chase | AIState::Attack => Some(player_pos),
            AIState::Patrol => if self.patrol_points.len() > 0 {
                Some(self.patrol_points[self.current_patrol_point])
            } else {
                None
            },
            _ => None,
        };
        match target {
            Some(t) => {
                if t != self.position {
                    self.direction = unit_to(self.position, t);
                }
            },
            None => {},
        }
        self.enemy_type = self.enemy_type.tick(dt);
        assert(*self == old(self).readied(player_pos, dt));
        let ghost e: Enemy = *self;
        let mut fired: Option<(Vec2, Vec2, i32)> = None;
        match self.state {
            AIState::Idle => {
                if self.can_see_player(player_pos, map) {
                    self.state = AIState::Chase;
                }
            },
            AIState::Patrol => {
                if self.can_see_player(player_pos, map) {
                    self.state = AIState::Chase;
                } else if self.patrol_points.len() > 0 {
                    let target: Vec2 = self.patrol_points[self.current_patrol_point];
                    if self.position.distance_squared(&target) < 10_000_000_000 {
                        self.current_patrol_point = (self.current_patrol_point + 1)
                            % self.patrol_points.len();
                    } else {
                        self.move_towards(target, dt, map);
                    }
                }
            },
            AIState::Chase => {
                let d2: u128 = self.position.distance_squared(&player_pos);
                let range: i64 = self.get_attack_range();
                if !self.can_see_player(player_pos, map) {
                    self.state = AIState::Patrol;
                } else if nearer_ratio(d2, range, 1, 1) {
                    self.state = AIState::Attack;
                } else {
                    let ranged: bool = match self.enemy_type {
                        EnemyType::Ranged { .. } => true,
                        EnemyType::Melee { .. } => false,
                    };
                    if ranged && nearer_ratio(d2, range, 4, 5) {
                        let towards: Vec2 = unit_to(self.position, player_pos);
                        let away = Vec2 { x: -towards.x, y: -towards.y };
                        self.position = step_along(self.position, away, self.speed, dt, map);
                    } else {
                        self.move_towards(player_pos, dt, map);
                    }
                }
            },
            AIState::Attack => {
                let d2: u128 = self.position.distance_squared(&player_pos);
                let range: i64 = self.get_attack_range();
                if !self.can_see_player(player_pos, map) {
                    self.state = AIState::Chase;
                } else if farther_ratio(d2, range, 6, 5) {
                    self.state = AIState::Chase;
                    match self.enemy_type {
                        EnemyType::Ranged { idle_texture, .. } => {
                            self.texture = idle_texture;
                        },
                        EnemyType::Melee { .. } => {},
                    }
                    self.enemy_type = self.enemy_type.lower();
                } else {
                    match self.enemy_type {
                        EnemyType::Ranged {
                            damage,
                            projectile_speed,
                            since_shot,
                            shoot_interval,
                            idle_texture,
                            fire_texture,
                            firing,
                            ..
                        } => {
                            if since_shot >= shoot_interval {
                                self.enemy_type = self.enemy_type.fire();
                                self.texture = fire_texture;
                                let towards: Vec2 = unit_to(self.position, player_pos);
                                let vx: i128 = div_floor(
                                    wide_mul(towards.x, projectile_speed),
                                    SCALE as i128,
                                );
                                let vy: i128 = div_floor(
                                    wide_mul(towards.y, projectile_speed),
                                    SCALE as i128,
                                );
                                proof {
                                    lemma_mul_bound(
                                        towards.x as int,
                                        projectile_speed as int,
                                        1_000_000,
                                        1_000_000_000,
                                    );
                                    lemma_mul_bound(
                                        towards.y as int,
                                        projectile_speed as int,
                                        1_000_000,
                                        1_000_000_000,
                                    );
                                }
                                fired = Some((self.position, Vec2 { x: vx as i64, y: vy as i64 }, damage));
                            } else if firing && since_shot >= FIRING_DISPLAY {
                                self.enemy_type = self.enemy_type.lower();
                                self.texture = idle_texture;
                            }
                        },
                        EnemyType::Melee { .. } => {},
                    }
                }
            },
            AIState::Retreat => {
                if self.health > RECOVER_ABOVE {
                    self.state = AIState::Chase;
                } else if player_pos != self.position {
                    self.direction = unit_to(player_pos, self.position);
                    self.position = step_along(self.position, self.direction, self.speed, dt, map);
                }
            },
        }
        fired
    }

    /// Turns to `target` and takes a step towards it, unless the step leads
    /// into a solid cell; does nothing where the enemy stands on the target.
    pub fn move_towards(&mut self, target: Vec2, dt: u64, map: &[Vec<i32>])
        requires
            old(self).wf(),
            target.wf(),
        ensures
            *final(self) == old(self).walked(target, dt, map@),
            final(self).wf(),
    {
        if target != self.position {
            self.direction = unit_to(self.position, target);
            self.position = step_along(self.position, self.direction, self.speed, dt, map);
        }
    }

    /// Whether the cell under `pos` is solid.
    pub fn check_collision(&self, pos: Vec2, map: &[Vec<i32>]) -> (b: bool)
        ensures
            b == point_solid(map@, pos),
    {
        solid_under(map, pos)
    }

    /// Takes `amount` off the enemy's health, which does not fall below
    /// zero; below [`RETREAT_BELOW`] the enemy retreats.
    pub fn take_damage(&mut self, amount: i32)
        ensures
            *final(self) == old(self).damaged(amount),
    {
        let left: i128 = (self.health as i128) - (amount as i128);
        self.health = if left < 0 {
            0
        } else {
            clamp_to_i32(left)
        };
        if self.health < RETREAT_BELOW {
            self.state = AIState::Retreat;
        }
    }

    pub fn is_alive(&self) -> (b: bool)
        ensures
            b == (self.health > 0),
    {
        self.health > 0
    }

    pub fn get_damage(&self) -> (d: i32)
        ensures
            d == self.enemy_type.hit_damage(),
    {
        match self.enemy_type {
            EnemyType::Melee { damage, .. } => damage,
            EnemyType::Ranged { damage, .. } => damage,
        }
    }

    pub fn get_attack_range(&self) -> (r: i64)
        ensures
            r == self.enemy_type.range(),
    {
        match self.enemy_type {
            EnemyType::Melee { attack_range, .. } => attack_range,
            EnemyType::Ranged { attack_range, .. } => attack_range,
        }
    }
}

/// Between its attack range and six fifths of it, an enemy that sees the
/// player neither starts nor stops attacking: it attacks only once the
/// player is nearer than the range, and gives up only once the player is
/// farther than six fifths of it.
pub proof fn lemma_attack_hysteresis(e: Enemy, player: Vec2, dt: u64, map: Seq<Vec<i32>>)
    requires
        e.state == AIState::Chase || e.state == AIState::Attack,
        e.sees_point(player, map),
    ensures
        ({
            let d2 = e.position.dist_sq(player);
            let range = e.enemy_type.range() as int;
            &&& !closer_than(d2, range) && !farther_than_ratio(d2, range, 6, 5) ==> e.next(
                player,
                dt,
                map,
            ).state == e.state
            &&& e.state == AIState::Attack ==> (e.next(player, dt, map).state == AIState::Chase
                <==> farther_than_ratio(d2, range, 6, 5))
            &&& e.state == AIState::Chase ==> (e.next(player, dt, map).state == AIState::Attack
                <==> closer_than(d2, range))
        }),
{
    let r = e.readied(player, dt);
    assert(r.enemy_type.range() == e.enemy_type.range());
    assert(r.sees_point(player, map) == e.sees_point(player, map));
    let d2 = e.position.dist_sq(player);
    let range = e.enemy_type.range() as int;
    assert(d2 >= 0) by (nonlinear_arith)
        requires
            d2 == (e.position.x - player.x) * (e.position.x - player.x) + (e.position.y - player.y) * (
            e.position.y - player.y),
    ;
    assert(closer_than(d2, range) ==> !farther_than_ratio(d2, range, 6, 5)) by (nonlinear_arith)
        requires
            closer_than(d2, range) == (d2 < range * range),
            farther_than_ratio(d2, range, 6, 5) == (5 * 5 * d2 > 6 * 6 * (range * range)),
            d2 >= 0,
    ;
}

/// An enemy that retreats with health of at most [`RECOVER_ABOVE`] retreats
/// for ever: no tick changes its health, so none ends its retreat.
pub proof fn lemma_retreat_absorbing(e: Enemy, ticks: Seq<(Vec2, u64)>, map: Seq<Vec<i32>>)
    requires
        e.state == AIState::Retreat,
        e.health <= RECOVER_ABOVE,
    ensures
        e.run(ticks, map).state == AIState::Retreat,
        e.run(ticks, map).health == e.health,
    decreases ticks.len(),
{
    if ticks.len() > 0 {
        lemma_retreat_absorbing(e, ticks.drop_last(), map);
    }
}

/// A chasing enemy that shoots never backs away: when it does not start to
/// attack, the player is no nearer than its range, and so no nearer than
/// four fifths of it.
pub proof fn lemma_standoff_unreached(e: Enemy, player: Vec2, dt: u64, map: Seq<Vec<i32>>)
    requires
        e.state == AIState::Chase,
        e.sees_point(player, map),
        !closer_than(e.position.dist_sq(player), e.enemy_type.range() as int),
    ensures
        !closer_than_ratio(e.position.dist_sq(player), e.enemy_type.range() as int, 4, 5),
        e.next(player, dt, map) == e.readied(player, dt).walked(player, dt, map),
{
    let d2 = e.position.dist_sq(player);
    let range = e.enemy_type.range() as int;
    assert(range * range >= 0) by (nonlinear_arith);
    assert(!closer_than_ratio(d2, range, 4, 5)) by (nonlinear_arith)
        requires
            d2 >= range * range,
            range * range >= 0,
            closer_than_ratio(d2, range, 4, 5) == (5 * 5 * d2 < 4 * 4 * (range * range)),
    ;
    let r = e.readied(player, dt);
    assert(r.enemy_type.range() == e.enemy_type.range());
    assert(r.sees_point(player, map) == e.sees_point(player, map));
}

/// No tick changes an enemy's health.
pub proof fn lemma_tick_keeps_health(e: Enemy, player: Vec2, dt: u64, map: Seq<Vec<i32>>)
    ensures
        e.next(player, dt, map).health == e.health,
{
}

} // verus!
