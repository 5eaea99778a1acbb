use lucid::fixed::Vec2;
use lucid::game::particle::{Particle, ParticleSystem, PARTICLE_LIFETIME};
use lucid::game::world::World;

fn open_map() -> Vec<Vec<i32>> {
    vec![vec![0; 6]; 6]
}

#[test]
fn new_particle_lives_two_seconds() {
    let p = Particle::new(Vec2::new(1, 2), Vec2::new(3, 4), 5, 6, true);
    assert_eq!(p.position, Vec2::new(1, 2));
    assert_eq!(p.velocity, Vec2::new(3, 4));
    assert_eq!(p.lifetime, 2_000_000);
    assert_eq!(PARTICLE_LIFETIME, 2_000_000);
    assert_eq!(p.texture, 5);
    assert_eq!(p.damage, 6);
    assert!(p.from_enemy);
    assert!(p.is_alive());
}

#[test]
fn particle_moves_along_its_velocity() {
    let mut p = Particle::new(Vec2::new(1_500_000, 1_500_000), Vec2::new(8_000_000, -2_000_000), 0, 5, true);
    p.update(100_000);
    assert_eq!(p.position, Vec2::new(2_300_000, 1_300_000));
    assert_eq!(p.lifetime, 1_900_000);
    p.update(1);
    assert_eq!(p.position, Vec2::new(2_300_008, 1_299_998));
    assert_eq!(p.lifetime, 1_899_999);
}

#[test]
fn particle_at_the_end_of_its_time_is_dead() {
    let mut p = Particle::new(Vec2::new(0, 0), Vec2::new(0, 0), 0, 5, true);
    p.update(2_000_000);
    assert_eq!(p.lifetime, 0);
    assert!(!p.is_alive());
}

#[test]
fn resting_particle_lives_exactly_its_lifetime() {
    let map = open_map();
    let mut s = ParticleSystem::new();
    s.add_particle(Particle::new(Vec2::new(2_500_000, 2_500_000), Vec2::new(0, 0), 0, 5, true));
    s.update(1_000_000, &map);
    assert_eq!(s.get_particles().len(), 1);
    s.update(999_999, &map);
    assert_eq!(s.get_particles().len(), 1);
    assert_eq!(s.get_particles()[0].lifetime, 1);
    assert_eq!(s.get_particles()[0].position, Vec2::new(2_500_000, 2_500_000));
    s.update(0, &map);
    assert_eq!(s.get_particles().len(), 1);
    s.update(1, &map);
    assert_eq!(s.get_particles().len(), 0);
}

#[test]
fn resting_particle_is_removed_by_one_long_tick() {
    let map = open_map();
    let mut s = ParticleSystem::new();
    s.add_particle(Particle::new(Vec2::new(2_500_000, 2_500_000), Vec2::new(0, 0), 0, 5, true));
    s.update(2_000_000, &map);
    assert_eq!(s.get_particles().len(), 0);
    s.add_particle(Particle::new(Vec2::new(2_500_000, 2_500_000), Vec2::new(0, 0), 0, 5, true));
    s.update(u64::MAX, &map);
    assert_eq!(s.get_particles().len(), 0);
}

#[test]
fn particle_is_removed_at_a_wall() {
    let world = World::new(5, 5);
    let mut s = ParticleSystem::new();
    s.add_particle(Particle::new(Vec2::new(2_500_000, 2_500_000), Vec2::new(10_000_000, 0), 0, 5, false));
    s.update(100_000, &world.map);
    assert_eq!(s.get_particles().len(), 1);
    assert_eq!(s.get_particles()[0].position, Vec2::new(3_500_000, 2_500_000));
    s.update(49_999, &world.map);
    assert_eq!(s.get_particles()[0].position, Vec2::new(3_999_990, 2_500_000));
    s.update(1, &world.map);
    assert_eq!(s.get_particles().len(), 0);
}

#[test]
fn particle_is_removed_outside_the_map() {
    let map = open_map();
    let mut s = ParticleSystem::new();
    s.add_particle(Particle::new(Vec2::new(500_000, 500_000), Vec2::new(-1_000_000, 0), 0, 5, false));
    s.update(500_000, &map);
    assert_eq!(s.get_particles().len(), 1);
    assert_eq!(s.get_particles()[0].position, Vec2::new(0, 500_000));
    s.update(1, &map);
    assert_eq!(s.get_particles().len(), 0);
}

#[test]
fn particle_that_leaves_the_world_is_removed() {
    let map = open_map();
    let mut s = ParticleSystem::new();
    s.add_particle(Particle::new(Vec2::new(500_000, 500_000), Vec2::new(i64::MAX, i64::MIN), 0, 5, false));
    s.update(1_000_000, &map);
    assert_eq!(s.get_particles().len(), 0);
}

#[test]
fn survivors_keep_their_order() {
    let world = World::new(5, 5);
    let mut s = ParticleSystem::new();
    s.add_particle(Particle::new(Vec2::new(1_500_000, 1_500_000), Vec2::new(0, 0), 1, 5, false));
    s.add_particle(Particle::new(Vec2::new(3_500_000, 1_500_000), Vec2::new(9_000_000, 0), 2, 5, false));
    s.add_particle(Particle::new(Vec2::new(1_500_000, 2_500_000), Vec2::new(1_000_000, 0), 3, 5, false));
    s.add_particle(Particle::new(Vec2::new(1_500_000, 3_500_000), Vec2::new(0, 9_000_000), 4, 5, false));
    s.add_particle(Particle::new(Vec2::new(3_500_000, 3_500_000), Vec2::new(0, 0), 5, 5, false));
    s.update(100_000, &world.map);
    let left: Vec<usize> = s.get_particles().iter().map(|p| p.texture).collect();
    assert_eq!(left, vec![1, 3, 5]);
    assert_eq!(s.get_particles()[1].position, Vec2::new(1_600_000, 2_500_000));
    s.clear();
    assert_eq!(s.get_particles().len(), 0);
}

#[test]
fn advance_leaves_the_particle_alone() {
    let map = open_map();
    let p = Particle::new(Vec2::new(2_500_000, 2_500_000), Vec2::new(1_000_000, 0), 0, 5, true);
    let q = p.advance(500_000, &map).unwrap();
    assert_eq!(p.position, Vec2::new(2_500_000, 2_500_000));
    assert_eq!(q.position, Vec2::new(3_000_000, 2_500_000));
    assert_eq!(q.lifetime, 1_500_000);
    assert_eq!(p.advance(2_000_000, &map), None);
}
