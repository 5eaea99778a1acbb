//! Projectiles: points that fly in a straight line until their time runs out
//! or they reach a solid cell.

use vstd::prelude::*;
use crate::fixed::{cell_of, div_floor, in_world, Vec2, COORD_MAX, SCALE};
use crate::grid::{cell_solid, point_solid, solid_under};

verus! {

/// The lifetime of a new particle: two seconds.
pub const PARTICLE_LIFETIME: i64 = 2_000_000;

/// A projectile.
#[derive(Clone, Copy, Debug, PartialEq, Eq, Structural)]
pub struct Particle {
    pub position: Vec2,
    /// Map units per second.
    pub velocity: Vec2,
    /// Time left, in fixed-point seconds.
    pub lifetime: i64,
    /// Index of its texture among the raycaster's textures.
    pub texture: usize,
    pub damage: i32,
    /// Whether an enemy fired it; if not, the player did.
    pub from_enemy: bool,
}

/// The x coordinate of `p` after it has flown for `dt`.
pub open spec fn step_x(p: Particle, dt: u64) -> int {
    p.position.x + (p.velocity.x * dt) / (SCALE as int)
}

/// The y coordinate of `p` after it has flown for `dt`.
pub open spec fn step_y(p: Particle, dt: u64) -> int {
    p.position.y + (p.velocity.y * dt) / (SCALE as int)
}

impl Particle {
    /// The particle after `dt`: moved along its velocity, with that much
    /// less time left.
    pub open spec fn moved(self, dt: u64) -> Particle {
        Particle {
            position: Vec2 { x: step_x(self, dt) as i64, y: step_y(self, dt) as i64 },
            lifetime: (self.lifetime - dt) as i64,
            ..self
        }
    }

    /// Whether the particle is still there after `dt`: it has time left and
    /// has come to a cell of the world that is not solid.
    pub open spec fn survives(self, dt: u64, map: Seq<Vec<i32>>) -> bool {
        &&& in_world(step_x(self, dt))
        &&& in_world(step_y(self, dt))
        &&& !cell_solid(map, cell_of(step_x(self, dt)), cell_of(step_y(self, dt)))
        &&& self.lifetime - dt > 0
    }

    /// One tick of the particle: where it is afterwards, if it is still
    /// there.
    pub open spec fn tick(self, dt: u64, map: Seq<Vec<i32>>) -> Option<Particle> {
        if self.survives(dt, map) {
            Some(self.moved(dt))
        } else {
            None
        }
    }

    /// The particle after the ticks `dts`, one after the other, if it
    /// outlasts them all.
    pub open spec fn run(self, dts: Seq<u64>, map: Seq<Vec<i32>>) -> Option<Particle>
        decreases dts.len(),
    {
        if dts.len() == 0 {
            Some(self)
        } else {
            match self.run(dts.drop_last(), map) {
                Some(p) => p.tick(dts.last(), map),
                None => None,
            }
        }
    }

    /// A particle with two seconds to live.
    pub fn new(position: Vec2, velocity: Vec2, texture: usize, damage: i32, from_enemy: bool) -> (p:
        Particle)
        ensures
            p == (Particle {
                position,
                velocity,
                lifetime: PARTICLE_LIFETIME,
                texture,
                damage,
                from_enemy,
            }),
    {
        Particle { position, velocity, lifetime: PARTICLE_LIFETIME, texture, damage, from_enemy }
    }

    /// Where the particle is after `dt`, if it is still there.
    pub fn advance(&self, dt: u64, map: &[Vec<i32>]) -> (r: Option<Particle>)
        requires
            self.position.wf(),
        ensures
            r == self.tick(dt, map@),
            r matches Some(p) ==> p.position.wf(),
    {
        let left: i128 = (self.lifetime as i128) - (dt as i128);
        if left <= 0 {
            return None;
        }
        proof {
            lemma_flight_bound(self.velocity.x as int, dt as int);
            lemma_flight_bound(self.velocity.y as int, dt as int);
        }
        let s: i128 = SCALE as i128;
        let fx: i128 = div_floor((self.velocity.x as i128) * (dt as i128), s);
        let fy: i128 = div_floor((self.velocity.y as i128) * (dt as i128), s);
        let nx: i128 = (self.position.x as i128) + fx;
        let ny: i128 = (self.position.y as i128) + fy;
        let m: i128 = COORD_MAX as i128;
        if nx < -m || nx > m || ny < -m || ny > m {
            return None;
        }
        let position = Vec2 { x: nx as i64, y: ny as i64 };
        if solid_under(map, position) {
            return None;
        }
        Some(
            Particle {
                position,
                velocity: self.velocity,
                lifetime: left as i64,
                texture: self.texture,
                damage: self.damage,
                from_enemy: self.from_enemy,
            },
        )
    }

    /// Moves the particle along its velocity for `dt` and takes `dt` off its
    /// lifetime.
    pub fn update(&mut self, dt: u64)
        requires
            in_world(step_x(*old(self), dt)),
            in_world(step_y(*old(self), dt)),
            old(self).lifetime - dt >= i64::MIN,
        ensures
            *final(self) == old(self).moved(dt),
    {
        proof {
            lemma_flight_bound(self.velocity.x as int, dt as int);
            lemma_flight_bound(self.velocity.y as int, dt as int);
        }
        let s: i128 = SCALE as i128;
        let fx: i128 = div_floor((self.velocity.x as i128) * (dt as i128), s);
        let fy: i128 = div_floor((self.velocity.y as i128) * (dt as i128), s);
        let nx: i128 = (self.position.x as i128) + fx;
        let ny: i128 = (self.position.y as i128) + fy;
        self.position = Vec2 { x: nx as i64, y: ny as i64 };
        self.lifetime = ((self.lifetime as i128) - (dt as i128)) as i64;
    }

    /// Whether the particle has time left.
    pub fn is_alive(&self) -> (b: bool)
        ensures
            b == (self.lifetime > 0),
    {
        self.lifetime > 0
    }
}

/// A velocity times a time step fits in 128 bits.
pub proof fn lemma_flight_bound(v: int, dt: int)
    requires
        -0x8000_0000_0000_0000 <= v <= 0x7fff_ffff_ffff_ffff,
        0 <= dt <= 0xffff_ffff_ffff_ffff,
    ensures
        -0x7fff_ffff_ffff_ffff_ffff_ffff_ffff_ffff <= v * dt <= 0x7fff_ffff_ffff_ffff_ffff_ffff_ffff_ffff,
{
    assert(-0x7fff_ffff_ffff_ffff_ffff_ffff_ffff_ffff <= v * dt <= 0x7fff_ffff_ffff_ffff_ffff_ffff_ffff_ffff)
        by (nonlinear_arith)
        requires
            -0x8000_0000_0000_0000 <= v <= 0x7fff_ffff_ffff_ffff,
            0 <= dt <= 0xffff_ffff_ffff_ffff,
    ;
}

/// The time that the ticks `dts` take together.
pub open spec fn elapsed(dts: Seq<u64>) -> int
    decreases dts.len(),
{
    if dts.len() == 0 {
        0
    } else {
        elapsed(dts.drop_last()) + dts.last()
    }
}

/// A particle at rest in a cell that is not solid lives exactly as long as
/// its lifetime says: after ticks that together take less than its
/// lifetime it is still there, where it was, and the first tick that brings
/// the time to its lifetime or beyond removes it.
pub proof fn lemma_resting_particle_lifetime(p: Particle, dts: Seq<u64>, map: Seq<Vec<i32>>)
    requires
        p.velocity == (Vec2 { x: 0, y: 0 }),
        p.position.wf(),
        !point_solid(map, p.position),
    ensures
        p.run(dts, map) is Some <==> dts.len() == 0 || elapsed(dts) < p.lifetime,
        p.run(dts, map) matches Some(q) ==> q == (Particle {
            lifetime: (p.lifetime - elapsed(dts)) as i64,
            ..p
        }),
        elapsed(dts) >= 0,
    decreases dts.len(),
{
    if dts.len() > 0 {
        let front = dts.drop_last();
        lemma_resting_particle_lifetime(p, front, map);
        match p.run(front, map) {
            Some(q) => {
                let dt: int = dts.last() as int;
                let (vx, vy) = (q.velocity.x as int, q.velocity.y as int);
                assert(vx * dt == 0 && vy * dt == 0) by (nonlinear_arith)
                    requires
                        vx == 0,
                        vy == 0,
                ;
                assert(step_x(q, dts.last()) == q.position.x);
                assert(step_y(q, dts.last()) == q.position.y);
            },
            None => {},
        }
    }
}

/// The particles in flight.
pub struct ParticleSystem {
    particles: Vec<Particle>,
}

/// What is left of `ps` after one tick, in the same order.
pub open spec fn survivors(ps: Seq<Particle>, dt: u64, map: Seq<Vec<i32>>) -> Seq<Particle>
    decreases ps.len(),
{
    if ps.len() == 0 {
        Seq::empty()
    } else {
        let rest = survivors(ps.drop_last(), dt, map);
        match ps.last().tick(dt, map) {
            Some(p) => rest.push(p),
            None => rest,
        }
    }
}

/// Every particle lies in the world.
pub open spec fn all_in_world(ps: Seq<Particle>) -> bool {
    forall|i: int| 0 <= i < ps.len() ==> (#[trigger] ps[i]).position.wf()
}

impl ParticleSystem {
    /// The particles, oldest first.
    pub closed spec fn view(&self) -> Seq<Particle> {
        self.particles@
    }

    /// Every particle lies in the world.
    pub open spec fn wf(&self) -> bool {
        all_in_world(self@)
    }

    pub fn new() -> (s: ParticleSystem)
        ensures
            s@.len() == 0,
            s.wf(),
    {
        ParticleSystem { particles: Vec::new() }
    }

    pub fn add_particle(&mut self, particle: Particle)
        ensures
            final(self)@ == old(self)@.push(particle),
    {
        self.particles.push(particle);
    }

    /// Moves every particle by one tick and removes those that ran out of
    /// time or came to a solid cell; the rest keep their order.
    pub fn update(&mut self, dt: u64, map: &[Vec<i32>])
        requires
            old(self).wf(),
        ensures
            final(self).wf(),
            final(self)@ == survivors(old(self)@, dt, map@),
    {
        let mut kept: Vec<Particle> = Vec::new();
        let n: usize = self.particles.len();
        let mut i: usize = 0;
        while i < n
            invariant
                i <= n,
                n == self.particles@.len(),
                self.particles@ == old(self).particles@,
                all_in_world(self.particles@),
                all_in_world(kept@),
                kept@ == survivors(self.particles@.take(i as int), dt, map@),
            decreases n - i,
        {
            assert(self.particles@.take(i + 1).drop_last() == self.particles@.take(i as int));
            match self.particles[i].advance(dt, map) {
                Some(p) => {
                    kept.push(p);
                },
                None => {},
            }
            i = i + 1;
        }
        assert(self.particles@.take(n as int) == self.particles@);
        self.particles = kept;
    }

    pub fn get_particles(&self) -> (ps: &[Particle])
        ensures
            ps@ == self@,
    {
        self.particles.as_slice()
    }

    pub fn clear(&mut self)
        ensures
            final(self)@.len() == 0,
    {
        self.particles.clear();
    }
}

} // verus!
