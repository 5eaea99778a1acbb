//! The state of a running game and what one tick does to it: the camera
//! moves, the enemies act, projectiles fly and do damage.

use vstd::prelude::*;
use crate::engine::camera::Camera;
use crate::engine::frame::{frame_fits, frame_pixel, Rgba};
use crate::engine::raycaster::{enemies_placed, Raycaster};
use crate::fixed::{clamp_i32, clamp_to_i32, lemma_mul_bound, Vec2, COORD_MAX, SCALE};
use crate::game::ai::enemy::{AIState, Enemy, EnemyType};
use crate::game::particle::{all_in_world, survivors, Particle, ParticleSystem, PARTICLE_LIFETIME};
use crate::game::weapon::{add_capped, capped_sum, Weapon};
use crate::game::world::{copy_grid, same_grid, World};
use crate::game::{with_health_bar, Game};
use crate::grid::{check_grid, grid_wf};

verus! {

/// How fast the player walks, in map units per second.
pub const MOVE_SPEED: i64 = 2_500_000;

/// Least time between the sounds of two steps.
pub const FOOTSTEP_INTERVAL: u64 = 500_000;

/// How near a projectile must come to do damage.
pub const HIT_RADIUS: i64 = 500_000;

/// How many times the camera's direction the player's projectiles fly in a
/// second.
pub const SHOT_SPEED: i64 = 10;

/// The damage of the player's projectiles.
pub const SHOT_DAMAGE: i32 = 20;

/// What the game shows.
#[derive(Clone, Copy, Debug, PartialEq, Eq, Structural)]
pub enum GameScreen {
    MainMenu,
    Playing,
    Paused,
    GameOver,
}

/// A key of the keyboard, as far as the game tells keys apart.
#[derive(Clone, Copy, Debug, PartialEq, Eq, Structural)]
pub enum Key {
    W,
    A,
    S,
    D,
    Escape,
    Other,
}

/// A button of the mouse.
#[derive(Clone, Copy, Debug, PartialEq, Eq, Structural)]
pub enum MouseButton {
    Left,
    Right,
    Middle,
    Other,
}

/// A sound that the game asks for.
#[derive(Clone, Copy, Debug, PartialEq, Eq, Structural)]
pub enum Sound {
    Step,
    PlayerGun,
    EnemyGun,
}

/// What an enemy fires: origin, velocity and damage.
pub type Shot = (Vec2, Vec2, i32);

pub struct GameState {
    pub camera: Camera,
    pub raycaster: Raycaster,
    pub paused: bool,
    pub world: World,
    pub game: Game,
    pub enemies: Vec<Enemy>,
    pub move_forward: bool,
    pub move_backward: bool,
    pub move_left: bool,
    pub move_right: bool,
    /// Whether the game has the player's attention; without it nothing
    /// moves.
    pub game_focused: bool,
    /// Time since the last sound of a step.
    pub since_footstep: u64,
    /// Index of the texture of projectiles; without one none are made.
    pub projectile_texture: Option<usize>,
}

/// Every enemy is well formed.
pub open spec fn all_enemies_wf(es: Seq<Enemy>) -> bool {
    forall|i: int| 0 <= i < es.len() ==> (#[trigger] es[i]).wf()
}

/// How far the player walks in `dt`, at most across the world.
pub open spec fn walk_step(dt: u64) -> i64 {
    if (MOVE_SPEED * dt) / (SCALE as int) > COORD_MAX {
        COORD_MAX
    } else {
        ((MOVE_SPEED * dt) / (SCALE as int)) as i64
    }
}

/// The camera after the moves that are switched on: forward, backward,
/// left, right, in this order.
pub open spec fn walked(
    camera: Camera,
    forward: bool,
    backward: bool,
    left: bool,
    right: bool,
    step: i64,
    map: Seq<Vec<i32>>,
) -> Camera {
    let c1 = if forward {
        camera.forward(step as int, map)
    } else {
        camera
    };
    let c2 = if backward {
        c1.forward(-step, map)
    } else {
        c1
    };
    let c3 = if left {
        c2.sideways(-step, map)
    } else {
        c2
    };
    if right {
        c3.sideways(step as int, map)
    } else {
        c3
    }
}

/// The enemies after one tick, in their order: each has acted, and those
/// without health are gone.
pub open spec fn enemies_after(es: Seq<Enemy>, player: Vec2, dt: u64, map: Seq<Vec<i32>>) -> Seq<Enemy>
    decreases es.len(),
{
    if es.len() == 0 {
        Seq::empty()
    } else {
        let rest = enemies_after(es.drop_last(), player, dt, map);
        let e = es.last().next(player, dt, map);
        if e.health > 0 {
            rest.push(e)
        } else {
            rest
        }
    }
}

/// What the enemies fire in one tick, in their order.
pub open spec fn shots_of(es: Seq<Enemy>, player: Vec2, dt: u64, map: Seq<Vec<i32>>) -> Seq<Shot>
    decreases es.len(),
{
    if es.len() == 0 {
        Seq::empty()
    } else {
        let rest = shots_of(es.drop_last(), player, dt, map);
        match es.last().shot(player, dt, map) {
            Some(s) => rest.push(s),
            None => rest,
        }
    }
}

/// The projectile of an enemy's shot.
pub open spec fn enemy_particle(s: Shot, texture: usize) -> Particle {
    Particle {
        position: s.0,
        velocity: s.1,
        lifetime: PARTICLE_LIFETIME,
        texture,
        damage: s.2,
        from_enemy: true,
    }
}

/// The particles with one more for every shot, if projectiles have a
/// texture.
pub open spec fn with_shots(ps: Seq<Particle>, shots: Seq<Shot>, texture: Option<usize>) -> Seq<Particle> {
    match texture {
        Some(t) => ps + shots.map_values(|s: Shot| enemy_particle(s, t)),
        None => ps,
    }
}

/// Whether a projectile at `p` hits what stands at `target`.
pub open spec fn hits(p: Vec2, target: Vec2) -> bool {
    target.dist_sq(p) < HIT_RADIUS * HIT_RADIUS
}

/// The damage that the enemies' projectiles do to the player at `pos`.
pub open spec fn player_hits(ps: Seq<Particle>, pos: Vec2) -> int
    decreases ps.len(),
{
    if ps.len() == 0 {
        0
    } else {
        player_hits(ps.drop_last(), pos) + if ps.last().from_enemy && hits(ps.last().position, pos) {
            ps.last().damage as int
        } else {
            0
        }
    }
}

/// The player's health after the projectiles have done their damage.
pub open spec fn health_after(health: i32, ps: Seq<Particle>, pos: Vec2) -> i32 {
    if player_hits(ps, pos) > 0 {
        let amount = clamp_i32(player_hits(ps, pos));
        clamp_i32(
            if health - amount < 0 {
                0
            } else {
                health - amount
            },
        )
    } else {
        health
    }
}

/// An enemy after the player's projectiles that hit it have done their
/// damage, one after the other.
pub open spec fn struck(e: Enemy, ps: Seq<Particle>) -> Enemy
    decreases ps.len(),
{
    if ps.len() == 0 {
        e
    } else {
        let r = struck(e, ps.drop_last());
        if !ps.last().from_enemy && hits(ps.last().position, r.position) {
            r.damaged(ps.last().damage)
        } else {
            r
        }
    }
}

/// The enemies after the player's projectiles have done their damage.
pub open spec fn all_struck(es: Seq<Enemy>, ps: Seq<Particle>) -> Seq<Enemy> {
    Seq::new(es.len(), |i: int| struck(es[i], ps))
}

/// The weapon, if there is one, after `dt`.
pub open spec fn weapon_after(w: Option<Weapon>, dt: u64, moving: bool, bob_sine: i64) -> Option<Weapon> {
    match w {
        Some(weapon) => Some(weapon.ticked(dt, moving, bob_sine)),
        None => None,
    }
}

/// Every point of a route lies in the world.
pub open spec fn route_in_world(route: Seq<Vec2>) -> bool {
    forall|i: int| 0 <= i < route.len() ==> (#[trigger] route[i]).wf()
}

/// Whether a level can be played: its map is a grid, and the player and
/// the enemies start, and the enemies patrol, inside the world.
pub open spec fn level_fits(world: World, spawns: Seq<(Vec2, Vec<Vec2>)>) -> bool {
    &&& grid_wf(world.map@)
    &&& world.spawn_point.wf()
    &&& forall|i: int|
        0 <= i < spawns.len() ==> (#[trigger] spawns[i]).0.wf() && route_in_world(spawns[i].1@)
}

/// The enemy that a level places: one that shoots and patrols its route.
pub open spec fn patrol_enemy(spawn: (Vec2, Vec<Vec2>), idle_texture: usize, fire_texture: usize) -> Enemy {
    Enemy {
        position: spawn.0,
        direction: Vec2 { x: SCALE, y: 0 },
        health: 50,
        state: AIState::Patrol,
        texture: idle_texture,
        speed: 2_000_000,
        chase_range: 10_000_000,
        enemy_type: EnemyType::Ranged {
            damage: 5,
            attack_range: 8_000_000,
            projectile_speed: 8_000_000,
            since_shot: 0,
            shoot_interval: 1_000_000,
            idle_texture,
            fire_texture,
            firing: false,
        },
        patrol_points: spawn.1,
        current_patrol_point: 0,
    }
}

/// Tells whether every point of a route lies in the world.
pub fn check_route(route: &Vec<Vec2>) -> (b: bool)
    ensures
        b == route_in_world(route@),
{
    let mut i: usize = 0;
    while i < route.len()
        invariant
            i <= route@.len(),
            forall|k: int| 0 <= k < i ==> (#[trigger] route@[k]).wf(),
        decreases route@.len() - i,
    {
        if !route[i].in_bounds() {
            return false;
        }
        i = i + 1;
    }
    true
}

/// Tells whether a level can be played.
pub fn check_level(world: &World, spawns: &Vec<(Vec2, Vec<Vec2>)>) -> (b: bool)
    ensures
        b == level_fits(*world, spawns@),
{
    if !check_grid(world.map.as_slice()) || !world.spawn_point.in_bounds() {
        return false;
    }
    let mut i: usize = 0;
    while i < spawns.len()
        invariant
            i <= spawns@.len(),
            forall|k: int| 0 <= k < i ==> (#[trigger] spawns@[k]).0.wf() && route_in_world(spawns@[k].1@),
        decreases spawns@.len() - i,
    {
        if !spawns[i].0.in_bounds() || !check_route(&spawns[i].1) {
            return false;
        }
        i = i + 1;
    }
    true
}

/// Moves the camera along the directions that are switched on.
pub fn walk(
    camera: &mut Camera,
    forward: bool,
    backward: bool,
    left: bool,
    right: bool,
    step: i64,
    map: &[Vec<i32>],
)
    requires
        old(camera).wf(),
        0 <= step <= COORD_MAX,
    ensures
        *final(camera) == walked(*old(camera), forward, backward, left, right, step, map@),
        final(camera).wf(),
{
    if forward {
        camera.move_forward(step, map);
    }
    if backward {
        camera.move_forward(-step, map);
    }
    if left {
        camera.move_right(-step, map);
    }
    if right {
        camera.move_right(step, map);
    }
}

/// Lets every enemy act for one tick, removes those without health and
/// returns what was fired.
pub fn update_enemies(enemies: &mut Vec<Enemy>, player: Vec2, dt: u64, map: &[Vec<i32>]) -> (shots: Vec<
    Shot,
>)
    requires
        all_enemies_wf(old(enemies)@),
        player.wf(),
    ensures
        final(enemies)@ == enemies_after(old(enemies)@, player, dt, map@),
        shots@ == shots_of(old(enemies)@, player, dt, map@),
        all_enemies_wf(final(enemies)@),
        forall|i: int| 0 <= i < shots@.len() ==> (#[trigger] shots@[i]).0.wf(),
{
    let ghost orig: Seq<Enemy> = enemies@;
    let mut shots: Vec<Shot> = Vec::new();
    let mut i: usize = 0;
    let ghost mut k: int = 0;
    while i < enemies.len()
        invariant
            0 <= k <= orig.len(),
            player.wf(),
            all_enemies_wf(orig),
            all_enemies_wf(enemies@),
            i == enemies_after(orig.take(k), player, dt, map@).len(),
            enemies@ == enemies_after(orig.take(k), player, dt, map@) + orig.skip(k),
            shots@ == shots_of(orig.take(k), player, dt, map@),
            forall|j: int| 0 <= j < shots@.len() ==> (#[trigger] shots@[j]).0.wf(),
        decreases orig.len() - k,
    {
        let ghost done: Seq<Enemy> = enemies_after(orig.take(k), player, dt, map@);
        let ghost before: Seq<Enemy> = enemies@;
        assert(before[i as int] == orig.skip(k)[0]);
        assert(orig.take(k + 1).drop_last() == orig.take(k));
        assert(orig.take(k + 1).last() == orig[k]);
        let fired: Option<Shot> = enemies[i].update(player, dt, map);
        match fired {
            Some(s) => {
                shots.push(s);
            },
            None => {},
        }
        let ghost e: Enemy = orig[k].next(player, dt, map@);
        assert(enemies@ == before.update(i as int, e));
        if enemies[i].is_alive() {
            assert(enemies@ == done.push(e) + orig.skip(k + 1));
            i = i + 1;
        } else {
            enemies.remove(i);
            assert(enemies@ == done + orig.skip(k + 1));
        }
        proof {
            k = k + 1;
        }
    }
    assert(orig.take(k) == orig);
    shots
}

/// Makes a projectile for every shot.
pub fn spawn_shots(particles: &mut ParticleSystem, shots: &Vec<Shot>, texture: usize)
    requires
        old(particles).wf(),
        forall|i: int| 0 <= i < shots@.len() ==> (#[trigger] shots@[i]).0.wf(),
    ensures
        final(particles).wf(),
        final(particles)@ == with_shots(old(particles)@, shots@, Some(texture)),
{
    let mut i: usize = 0;
    while i < shots.len()
        invariant
            i <= shots@.len(),
            particles.wf(),
            forall|j: int| 0 <= j < shots@.len() ==> (#[trigger] shots@[j]).0.wf(),
            particles@ == old(particles)@ + shots@.take(i as int).map_values(
                |s: Shot| enemy_particle(s, texture),
            ),
        decreases shots@.len() - i,
    {
        let s: Shot = shots[i];
        let ghost before: Seq<Particle> = particles@;
        particles.add_particle(Particle::new(s.0, s.1, texture, s.2, true));
        assert(particles@ == old(particles)@ + shots@.take(i + 1).map_values(
            |s: Shot| enemy_particle(s, texture),
        )) by {
            assert(shots@.take(i + 1) == shots@.take(i as int).push(shots@[i as int]));
        }
        assert(all_in_world(particles@)) by {
            assert forall|j: int| 0 <= j < particles@.len() implies (#[trigger] particles@[j]).position.wf() by {
                if j < before.len() {
                    assert(particles@[j] == before[j]);
                }
            }
        }
        i = i + 1;
    }
    assert(shots@.take(shots@.len() as int) == shots@);
}

/// Tells whether a projectile at `p` hits what stands at `target`.
pub fn hit(p: Vec2, target: Vec2) -> (b: bool)
    requires
        p.wf(),
        target.wf(),
    ensures
        b == hits(p, target),
{
    target.distance_squared(&p) < 250_000_000_000
}

/// Adds up the damage that the enemies' projectiles do to the player.
pub fn sum_player_hits(ps: &[Particle], pos: Vec2) -> (sum: i128)
    requires
        all_in_world(ps@),
        pos.wf(),
    ensures
        sum == player_hits(ps@, pos),
{
    let mut sum: i128 = 0;
    let mut i: usize = 0;
    while i < ps.len()
        invariant
            i <= ps@.len(),
            all_in_world(ps@),
            pos.wf(),
            sum == player_hits(ps@.take(i as int), pos),
            -0x8000_0000 * i <= sum <= 0x8000_0000 * i,
        decreases ps@.len() - i,
    {
        assert(ps@.take(i + 1).drop_last() == ps@.take(i as int));
        if ps[i].from_enemy && hit(ps[i].position, pos) {
            sum = sum + (ps[i].damage as i128);
        }
        i = i + 1;
    }
    assert(ps@.take(ps@.len() as int) == ps@);
    sum
}

/// Lets the player's projectiles that hit the enemy do their damage.
pub fn strike(e: &mut Enemy, ps: &[Particle])
    requires
        old(e).wf(),
        all_in_world(ps@),
    ensures
        *final(e) == struck(*old(e), ps@),
        final(e).wf(),
{
    let ghost start: Enemy = *e;
    let mut i: usize = 0;
    while i < ps.len()
        invariant
            i <= ps@.len(),
            all_in_world(ps@),
            e.wf(),
            *e == struck(start, ps@.take(i as int)),
        decreases ps@.len() - i,
    {
        assert(ps@.take(i + 1).drop_last() == ps@.take(i as int));
        if !ps[i].from_enemy && hit(ps[i].position, e.position) {
            e.take_damage(ps[i].damage);
        }
        i = i + 1;
    }
    assert(ps@.take(ps@.len() as int) == ps@);
}

/// Lets the player's projectiles do their damage to every enemy.
pub fn strike_all(enemies: &mut Vec<Enemy>, ps: &[Particle])
    requires
        all_enemies_wf(old(enemies)@),
        all_in_world(ps@),
    ensures
        final(enemies)@ == all_struck(old(enemies)@, ps@),
        all_enemies_wf(final(enemies)@),
{
    let ghost orig: Seq<Enemy> = enemies@;
    let n: usize = enemies.len();
    let mut i: usize = 0;
    while i < n
        invariant
            i <= n,
            n == orig.len(),
            enemies@.len() == n,
            all_in_world(ps@),
            all_enemies_wf(enemies@),
            forall|j: int| 0 <= j < i ==> #[trigger] enemies@[j] == struck(orig[j], ps@),
            forall|j: int| i <= j < n ==> #[trigger] enemies@[j] == orig[j],
        decreases n - i,
    {
        strike(&mut enemies[i], ps);
        i = i + 1;
    }
    assert(enemies@ == all_struck(orig, ps@));
}

impl GameState {
    /// Camera, raycaster, particles, weapon and enemies are well formed, and
    /// the game draws on the raycaster's screen.
    pub open spec fn wf(&self) -> bool {
        &&& self.camera.wf()
        &&& self.raycaster.wf()
        &&& self.game.wf()
        &&& all_enemies_wf(self.enemies@)
        &&& self.game.width == self.raycaster.width
        &&& self.game.height == self.raycaster.height
    }

    /// Whether the player walks.
    pub open spec fn moving(&self) -> bool {
        self.move_forward || self.move_backward || self.move_left || self.move_right
    }

    /// Whether time passes: the game has the player's attention and is not
    /// paused.
    pub open spec fn running(&self) -> bool {
        self.game_focused && !self.paused
    }

    /// The camera after a tick.
    pub open spec fn next_camera(&self, dt: u64) -> Camera {
        walked(
            self.camera,
            self.move_forward,
            self.move_backward,
            self.move_left,
            self.move_right,
            walk_step(dt),
            self.world.map@,
        )
    }

    /// Whether a tick makes the sound of a step.
    pub open spec fn steps(&self, dt: u64) -> bool {
        self.moving() && capped_sum(self.since_footstep, dt as int) >= FOOTSTEP_INTERVAL
    }

    /// What the enemies fire in a tick.
    pub open spec fn next_shots(&self, dt: u64) -> Seq<Shot> {
        shots_of(self.enemies@, self.next_camera(dt).position, dt, self.world.map@)
    }

    /// The particles after a tick: those in flight and those fired in it,
    /// as far as they are still there after flying on.
    pub open spec fn next_particles(&self, dt: u64) -> Seq<Particle> {
        survivors(
            with_shots(self.game.particles@, self.next_shots(dt), self.projectile_texture),
            dt,
            self.world.map@,
        )
    }

    /// The enemies after a tick: they have acted, the dead are gone, and
    /// the player's projectiles have done their damage.
    pub open spec fn next_enemies(&self, dt: u64) -> Seq<Enemy> {
        all_struck(
            enemies_after(self.enemies@, self.next_camera(dt).position, dt, self.world.map@),
            self.next_particles(dt),
        )
    }

    /// The sounds of a tick: a step, then one shot for each projectile
    /// that an enemy fired.
    pub open spec fn next_sounds(&self, dt: u64) -> Seq<Sound> {
        (if self.steps(dt) {
            seq![Sound::Step]
        } else {
            Seq::empty()
        }) + (if self.projectile_texture is Some {
            Seq::new(self.next_shots(dt).len(), |i: int| Sound::EnemyGun)
        } else {
            Seq::empty()
        })
    }

    /// A game on a screen of the given size: the camera in the corner of a
    /// small empty room, no enemies, nothing moving.
    pub fn new(width: u32, height: u32) -> (s: GameState)
        ensures
            s.wf(),
            s.camera == Camera::new_spec(1_500_000, 1_500_000),
            s.raycaster.width == width,
            s.raycaster.height == height,
            !s.paused,
            s.game_focused,
            !s.moving(),
            s.enemies@.len() == 0,
            s.game.particles@.len() == 0,
            s.game.player_health == 100,
            s.game.weapon is None,
            s.since_footstep == 0,
            s.projectile_texture is None,
            s.world.wf(),
            s.world.width == 5,
            s.world.height == 5,
    {
        GameState {
            camera: Camera::new(1_500_000, 1_500_000),
            raycaster: Raycaster::new(width, height),
            paused: false,
            world: World::new(5, 5),
            game: Game::new(width, height),
            enemies: Vec::new(),
            move_forward: false,
            move_backward: false,
            move_left: false,
            move_right: false,
            game_focused: true,
            since_footstep: 0,
            projectile_texture: None,
        }
    }

    /// Starts a level, if it can be played, and says whether it did: the
    /// world and the raycaster's map are the level's, the camera stands
    /// where the player starts, and there is one patrolling enemy for each
    /// place of the level, with the given textures. A level that cannot be
    /// played changes nothing.
    pub fn start_level(
        &mut self,
        world: World,
        spawns: Vec<(Vec2, Vec<Vec2>)>,
        idle_texture: usize,
        fire_texture: usize,
    ) -> (ok: bool)
        requires
            old(self).wf(),
        ensures
            final(self).wf(),
            ok == level_fits(world, spawns@),
            !ok ==> {
                &&& final(self).camera == old(self).camera
                &&& final(self).raycaster == old(self).raycaster
                &&& final(self).world == old(self).world
                &&& final(self).enemies == old(self).enemies
            },
            ok ==> {
                &&& final(self).world == world
                &&& same_grid(final(self).raycaster.map@, world.map@)
                &&& final(self).raycaster.width == old(self).raycaster.width
                &&& final(self).raycaster.height == old(self).raycaster.height
                &&& final(self).raycaster.texture_cache == old(self).raycaster.texture_cache
                &&& final(self).camera == Camera::new_spec(world.spawn_point.x, world.spawn_point.y)
                &&& final(self).enemies@.len() == spawns@.len()
                &&& forall|i: int|
                    0 <= i < spawns@.len() ==> #[trigger] final(self).enemies@[i] == patrol_enemy(
                        spawns@[i],
                        idle_texture,
                        fire_texture,
                    )
            },
            final(self).game == old(self).game,
            final(self).paused == old(self).paused,
            final(self).game_focused == old(self).game_focused,
            final(self).moving() == old(self).moving(),
            final(self).since_footstep == old(self).since_footstep,
            final(self).projectile_texture == old(self).projectile_texture,
    {
        if !check_level(&world, &spawns) {
            return false;
        }
        let map: Vec<Vec<i32>> = copy_grid(world.map.as_slice());
        assert(grid_wf(map@)) by {
            assert forall|y: int| 0 <= y < map@.len() implies (#[trigger] map@[y]).len() == crate::grid::grid_width(
                map@,
            ) by {
                assert(map@[y]@ == world.map@[y]@);
                assert(map@[0]@ == world.map@[0]@);
            }
            if map@.len() > 0 {
                assert(map@[0]@ == world.map@[0]@);
            }
        }
        self.raycaster.set_map(map);
        self.camera = Camera::new(world.spawn_point.x, world.spawn_point.y);
        self.world = world;
        let ghost orig: Seq<(Vec2, Vec<Vec2>)> = spawns@;
        let mut rest: Vec<(Vec2, Vec<Vec2>)> = spawns;
        let mut enemies: Vec<Enemy> = Vec::new();
        while rest.len() > 0
            invariant
                enemies@.len() + rest@.len() == orig.len(),
                rest@ == orig.skip(enemies@.len() as int),
                forall|i: int| 0 <= i < orig.len() ==> (#[trigger] orig[i]).0.wf() && route_in_world(orig[i].1@),
                all_enemies_wf(enemies@),
                forall|i: int|
                    0 <= i < enemies@.len() ==> #[trigger] enemies@[i] == patrol_enemy(
                        orig[i],
                        idle_texture,
                        fire_texture,
                    ),
            decreases rest@.len(),
        {
            let ghost k: int = enemies@.len() as int;
            assert(rest@[0] == orig[k]);
            let (position, route) = rest.remove(0);
            let mut enemy: Enemy = Enemy::new_ranged(position, idle_texture, fire_texture);
            enemy.set_patrol_points(route);
            assert(enemy == patrol_enemy(orig[k], idle_texture, fire_texture));
            assert(enemy.wf()) by {
                assert(route_in_world(orig[k].1@));
            }
            enemies.push(enemy);
            assert(rest@ == orig.skip(k + 1));
        }
        self.enemies = enemies;
        true
    }

    /// The clock of the weapon's sway after `dt`, zero without a weapon:
    /// what the sine handed to [`GameState::update`] is taken of.
    pub fn next_bob_time(&self, dt: u64) -> (t: u64)
        ensures
            t == match self.game.weapon {
                Some(w) => w.next_bob(dt, self.moving()),
                None => 0,
            },
    {
        let moving: bool = self.move_forward || self.move_backward || self.move_left || self.move_right;
        match &self.game.weapon {
            Some(w) => w.next_bob_time(dt, moving),
            None => 0,
        }
    }

    /// Runs one tick of `dt` and returns the sounds to play. The camera
    /// walks; the enemies act and the dead ones go; what they fire joins the
    /// particles, which fly on; the enemies' projectiles near the player
    /// and the player's near an enemy do their damage. `bob_sine` is the
    /// sine of the weapon's sway. Without the player's attention, or
    /// paused, nothing happens.
    pub fn update(&mut self, dt: u64, bob_sine: i64) -> (sounds: Vec<Sound>)
        requires
            old(self).wf(),
            -SCALE <= bob_sine <= SCALE,
        ensures
            final(self).wf(),
            final(self).raycaster == old(self).raycaster,
            final(self).world == old(self).world,
            final(self).paused == old(self).paused,
            final(self).game_focused == old(self).game_focused,
            final(self).move_forward == old(self).move_forward,
            final(self).move_backward == old(self).move_backward,
            final(self).move_left == old(self).move_left,
            final(self).move_right == old(self).move_right,
            final(self).projectile_texture == old(self).projectile_texture,
            final(self).game.width == old(self).game.width,
            final(self).game.height == old(self).game.height,
            !old(self).running() ==> {
                &&& sounds@.len() == 0
                &&& final(self).camera == old(self).camera
                &&& final(self).enemies@ == old(self).enemies@
                &&& final(self).game.particles@ == old(self).game.particles@
                &&& final(self).game.player_health == old(self).game.player_health
                &&& final(self).game.weapon == old(self).game.weapon
                &&& final(self).since_footstep == old(self).since_footstep
            },
            old(self).running() ==> {
                &&& sounds@ == old(self).next_sounds(dt)
                &&& final(self).camera == old(self).next_camera(dt)
                &&& final(self).enemies@ == old(self).next_enemies(dt)
                &&& final(self).game.particles@ == old(self).next_particles(dt)
                &&& final(self).game.player_health == health_after(
                    old(self).game.player_health,
                    old(self).next_particles(dt),
                    old(self).next_camera(dt).position,
                )
                &&& final(self).game.weapon == weapon_after(
                    old(self).game.weapon,
                    dt,
                    old(self).moving(),
                    bob_sine,
                )
                &&& final(self).since_footstep == if old(self).steps(dt) {
                    0
                } else {
                    capped_sum(old(self).since_footstep, dt as int)
                }
            },
    {
        let mut sounds: Vec<Sound> = Vec::new();
        if !self.game_focused || self.paused {
            return sounds;
        }
        let moving: bool = self.move_forward || self.move_backward || self.move_left || self.move_right;
        proof {
            lemma_mul_bound(2_500_000, dt as int, 2_500_000, 0xffff_ffff_ffff_ffff);
        }
        let raw: i128 = ((MOVE_SPEED as i128) * (dt as i128)) / (SCALE as i128);
        let step: i64 = if raw > COORD_MAX as i128 {
            COORD_MAX
        } else {
            raw as i64
        };
        walk(
            &mut self.camera,
            self.move_forward,
            self.move_backward,
            self.move_left,
            self.move_right,
            step,
            self.world.map.as_slice(),
        );
        self.since_footstep = add_capped(self.since_footstep, dt);
        if moving && self.since_footstep >= FOOTSTEP_INTERVAL {
            sounds.push(Sound::Step);
            self.since_footstep = 0;
        }
        match &mut self.game.weapon {
            Some(weapon) => {
                weapon.update(dt, moving, bob_sine);
            },
            None => {},
        }
        let shots: Vec<Shot> = update_enemies(
            &mut self.enemies,
            self.camera.position,
            dt,
            self.world.map.as_slice(),
        );
        match self.projectile_texture {
            Some(texture) => {
                spawn_shots(&mut self.game.particles, &shots, texture);
                let ghost first: Seq<Sound> = sounds@;
                let mut i: usize = 0;
                while i < shots.len()
                    invariant
                        i <= shots@.len(),
                        sounds@ == first + Seq::new(i as nat, |j: int| Sound::EnemyGun),
                    decreases shots@.len() - i,
                {
                    sounds.push(Sound::EnemyGun);
                    i = i + 1;
                }
            },
            None => {
                assert(sounds@ + Seq::<Sound>::empty() == sounds@);
            },
        }
        self.game.particles.update(dt, self.world.map.as_slice());
        let damage: i128 = sum_player_hits(self.game.particles.get_particles(), self.camera.position);
        if damage > 0 {
            self.game.take_damage(clamp_to_i32(damage));
        }
        strike_all(&mut self.enemies, self.game.particles.get_particles());
        sounds
    }

    /// Renders the scene, the weapon over it and the health bar over both.
    pub fn render(&mut self, frame: &mut [u8])
        requires
            old(self).wf(),
            frame_fits(old(frame)@, old(self).raycaster.width as int, old(self).raycaster.height as int),
        ensures
            final(self).wf(),
            final(self).camera == old(self).camera,
            final(self).enemies == old(self).enemies,
            final(self).game == old(self).game,
            final(self).world == old(self).world,
            final(self).raycaster.z_buffer@ == old(self).raycaster.depths(old(self).camera),
            final(frame)@.len() == old(frame)@.len(),
            forall|x: int, y: int|
                0 <= x < old(self).raycaster.width && 0 <= y < old(self).raycaster.height
                    ==> #[trigger] frame_pixel(final(frame)@, old(self).raycaster.width as int, x, y)
                    == old(self).shown_pixel(x, y),
    {
        proof {
            assert(enemies_placed(self.enemies@)) by {
                assert forall|i: int| 0 <= i < self.enemies@.len() implies (
                #[trigger] self.enemies@[i]).position.wf() by {
                    assert(self.enemies@[i].wf());
                }
            }
        }
        self.raycaster.render(
            &self.camera,
            self.enemies.as_slice(),
            self.game.particles.get_particles(),
            frame,
        );
        match &self.game.weapon {
            Some(weapon) => {
                weapon.render(frame, self.raycaster.width, self.raycaster.height);
            },
            None => {},
        }
        self.game.render_health_bar(frame);
    }

    /// Pixel (`x`, `y`) of what the game shows: the rendered scene, the
    /// weapon over it, the health bar over both.
    pub open spec fn shown_pixel(&self, x: int, y: int) -> Rgba {
        let scene = self.raycaster.rendered_pixel(self.camera, self.enemies@, self.game.particles@, x, y);
        let armed = match self.game.weapon {
            Some(w) => w.over(self.raycaster.width as int, self.raycaster.height as int, scene, x, y),
            None => scene,
        };
        with_health_bar(self.game.player_health, armed, x, y)
    }

    pub fn toggle_pause(&mut self)
        ensures
            final(self).paused == !old(self).paused,
            final(self).camera == old(self).camera,
            final(self).raycaster == old(self).raycaster,
            final(self).world == old(self).world,
            final(self).game == old(self).game,
            final(self).enemies == old(self).enemies,
            final(self).moving() == old(self).moving(),
            final(self).game_focused == old(self).game_focused,
    {
        self.paused = !self.paused;
    }

    /// Takes note of a key that went down or up. The keys W, S, A and D
    /// switch walking forward, backward, left and right on and off while the
    /// game has the player's attention. Escape, going down, gives or takes
    /// that attention, stops all walking when it takes it, and is the only
    /// key with a result: whether the game has the attention now.
    pub fn handle_key_event(&mut self, key: Key, pressed: bool) -> (r: Option<bool>)
        ensures
            r == if key == Key::Escape && pressed {
                Some(!old(self).game_focused)
            } else {
                None
            },
            final(self).game_focused == if key == Key::Escape && pressed {
                !old(self).game_focused
            } else {
                old(self).game_focused
            },
            final(self).move_forward == if key == Key::Escape && pressed && old(self).game_focused {
                false
            } else if key == Key::W && old(self).game_focused {
                pressed
            } else {
                old(self).move_forward
            },
            final(self).move_backward == if key == Key::Escape && pressed && old(self).game_focused {
                false
            } else if key == Key::S && old(self).game_focused {
                pressed
            } else {
                old(self).move_backward
            },
            final(self).move_left == if key == Key::Escape && pressed && old(self).game_focused {
                false
            } else if key == Key::A && old(self).game_focused {
                pressed
            } else {
                old(self).move_left
            },
            final(self).move_right == if key == Key::Escape && pressed && old(self).game_focused {
                false
            } else if key == Key::D && old(self).game_focused {
                pressed
            } else {
                old(self).move_right
            },
            final(self).camera == old(self).camera,
            final(self).raycaster == old(self).raycaster,
            final(self).world == old(self).world,
            final(self).game == old(self).game,
            final(self).enemies == old(self).enemies,
            final(self).paused == old(self).paused,
            final(self).since_footstep == old(self).since_footstep,
            final(self).projectile_texture == old(self).projectile_texture,
    {
        match key {
            Key::W => {
                if self.game_focused {
                    self.move_forward = pressed;
                }
                None
            },
            Key::S => {
                if self.game_focused {
                    self.move_backward = pressed;
                }
                None
            },
            Key::A => {
                if self.game_focused {
                    self.move_left = pressed;
                }
                None
            },
            Key::D => {
                if self.game_focused {
                    self.move_right = pressed;
                }
                None
            },
            Key::Escape => {
                if pressed {
                    self.game_focused = !self.game_focused;
                    if !self.game_focused {
                        self.move_forward = false;
                        self.move_backward = false;
                        self.move_left = false;
                        self.move_right = false;
                    }
                    Some(self.game_focused)
                } else {
                    None
                }
            },
            Key::Other => None,
        }
    }

    /// Turns the camera by the angle with the given cosine and sine, while
    /// the game has the player's attention.
    pub fn handle_mouse_motion(&mut self, cos: i64, sin: i64)
        requires
            old(self).wf(),
        ensures
            final(self).wf(),
            final(self).camera == if old(self).game_focused {
                old(self).camera.rotated(cos, sin)
            } else {
                old(self).camera
            },
            final(self).raycaster == old(self).raycaster,
            final(self).world == old(self).world,
            final(self).game == old(self).game,
            final(self).enemies == old(self).enemies,
    {
        if self.game_focused {
            self.camera.rotate(cos, sin);
        }
    }

    /// The projectile that the player fires now.
    pub open spec fn player_particle(&self, texture: usize) -> Particle {
        Particle {
            position: self.camera.position,
            velocity: Vec2 {
                x: (self.camera.direction.x * SHOT_SPEED) as i64,
                y: (self.camera.direction.y * SHOT_SPEED) as i64,
            },
            lifetime: PARTICLE_LIFETIME,
            texture,
            damage: SHOT_DAMAGE,
            from_enemy: false,
        }
    }

    /// Whether a press of a mouse button fires the weapon: the left button
    /// went down, the game has the player's attention, and there is a
    /// weapon that is ready.
    pub open spec fn fires_on(&self, button: MouseButton, pressed: bool) -> bool {
        &&& self.game_focused
        &&& button == MouseButton::Left
        &&& pressed
        &&& self.game.weapon matches Some(w) && w.since_shot >= crate::game::weapon::FIRE_COOLDOWN
    }

    /// Takes note of a mouse button that went down or up, and says whether
    /// the weapon fired. When it fires, a projectile starts at the camera
    /// and flies along its direction, if projectiles have a texture.
    pub fn handle_mouse_input(&mut self, button: MouseButton, pressed: bool) -> (fired: bool)
        requires
            old(self).wf(),
        ensures
            final(self).wf(),
            fired == old(self).fires_on(button, pressed),
            final(self).game.weapon == if old(self).game_focused && button == MouseButton::Left && pressed {
                match old(self).game.weapon {
                    Some(w) => Some(w.triggered()),
                    None => None,
                }
            } else {
                old(self).game.weapon
            },
            final(self).game.particles@ == if fired && old(self).projectile_texture is Some {
                old(self).game.particles@.push(
                    old(self).player_particle(old(self).projectile_texture->Some_0),
                )
            } else {
                old(self).game.particles@
            },
            final(self).game.player_health == old(self).game.player_health,
            final(self).camera == old(self).camera,
            final(self).raycaster == old(self).raycaster,
            final(self).world == old(self).world,
            final(self).enemies == old(self).enemies,
    {
        if !(self.game_focused && button == MouseButton::Left && pressed) {
            return false;
        }
        let fired: bool = match &mut self.game.weapon {
            Some(weapon) => weapon.fire(),
            None => false,
        };
        if fired {
            match self.projectile_texture {
                Some(texture) => {
                    let ghost before: Seq<Particle> = self.game.particles@;
                    let velocity = Vec2 {
                        x: self.camera.direction.x * SHOT_SPEED,
                        y: self.camera.direction.y * SHOT_SPEED,
                    };
                    self.game.particles.add_particle(
                        Particle::new(self.camera.position, velocity, texture, SHOT_DAMAGE, false),
                    );
                    assert(all_in_world(self.game.particles@)) by {
                        assert forall|j: int| 0 <= j < self.game.particles@.len() implies (
                        #[trigger] self.game.particles@[j]).position.wf() by {
                            if j < before.len() {
                                assert(self.game.particles@[j] == before[j]);
                            }
                        }
                    }
                },
                None => {},
            }
        }
        fired
    }
}

} // verus!
