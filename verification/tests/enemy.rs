use lucid::fixed::{Vec2, SCALE};
use lucid::game::ai::enemy::{AIState, Enemy, EnemyType};
use lucid::game::ai::find_path;
use lucid::game::world::World;

fn open_map() -> Vec<Vec<i32>> {
    vec![vec![0; 30]; 30]
}

fn at(x: i64, y: i64) -> Vec2 {
    Vec2::new(x, y)
}

fn ranged_with_clock(position: Vec2, since_shot: u64) -> Enemy {
    let mut e = Enemy::new_ranged(position, 3, 4);
    e.enemy_type = EnemyType::Ranged {
        damage: 5,
        attack_range: 8_000_000,
        projectile_speed: 8_000_000,
        since_shot,
        shoot_interval: 1_000_000,
        idle_texture: 3,
        fire_texture: 4,
        firing: false,
    };
    e
}

#[test]
fn new_melee_enemy() {
    let e = Enemy::new_melee(at(1, 2), 7);
    assert_eq!(e.position, at(1, 2));
    assert_eq!(e.direction, at(SCALE, 0));
    assert_eq!(e.health, 100);
    assert_eq!(e.state, AIState::Idle);
    assert_eq!(e.texture, 7);
    assert_eq!(e.speed, 2_000_000);
    assert_eq!(e.chase_range, 5_000_000);
    assert_eq!(e.enemy_type, EnemyType::Melee { damage: 10, attack_range: 1_000_000 });
    assert!(e.patrol_points.is_empty());
    assert_eq!(e.current_patrol_point, 0);
    assert_eq!(e.get_damage(), 10);
    assert_eq!(e.get_attack_range(), 1_000_000);
    assert!(e.is_alive());
}

#[test]
fn new_ranged_enemy() {
    let e = Enemy::new_ranged(at(1, 2), 3, 4);
    assert_eq!(e.health, 50);
    assert_eq!(e.state, AIState::Idle);
    assert_eq!(e.texture, 3);
    assert_eq!(e.speed, 2_000_000);
    assert_eq!(e.chase_range, 10_000_000);
    assert_eq!(
        e.enemy_type,
        EnemyType::Ranged {
            damage: 5,
            attack_range: 8_000_000,
            projectile_speed: 8_000_000,
            since_shot: 0,
            shoot_interval: 1_000_000,
            idle_texture: 3,
            fire_texture: 4,
            firing: false,
        }
    );
    assert_eq!(e.get_damage(), 5);
    assert_eq!(e.get_attack_range(), 8_000_000);
}

#[test]
fn damage_below_forty_starts_the_retreat() {
    let mut e = Enemy::new_ranged(at(0, 0), 0, 0);
    e.take_damage(10);
    assert_eq!(e.health, 40);
    assert_eq!(e.state, AIState::Idle);
    e.take_damage(1);
    assert_eq!(e.health, 39);
    assert_eq!(e.state, AIState::Retreat);
    assert!(e.is_alive());
    e.take_damage(39);
    assert_eq!(e.health, 0);
    assert!(!e.is_alive());
    e.take_damage(5);
    assert_eq!(e.health, 0);
}

#[test]
fn damage_does_not_overflow() {
    let mut e = Enemy::new_melee(at(0, 0), 0);
    e.health = i32::MIN + 1;
    e.take_damage(i32::MAX);
    assert_eq!(e.health, 0);
    assert_eq!(e.state, AIState::Retreat);
    e.health = i32::MAX;
    e.take_damage(i32::MIN);
    assert_eq!(e.health, i32::MAX);
    assert_eq!(e.state, AIState::Retreat);
}

#[test]
fn hurt_enemy_retreats_for_good() {
    let map = open_map();
    let mut e = Enemy::new_ranged(at(10_500_000, 10_500_000), 3, 4);
    e.health = 45;
    e.state = AIState::Attack;
    e.take_damage(10);
    assert_eq!(e.health, 35);
    assert_eq!(e.state, AIState::Retreat);
    for i in 0..200 {
        let player = at(8_000_000 + 20_000 * i, 10_500_000);
        assert_eq!(e.update(player, 16_667, &map), None);
        assert_eq!(e.state, AIState::Retreat);
        assert_eq!(e.health, 35);
    }
}

#[test]
fn retreat_leads_away_from_the_player() {
    let map = open_map();
    let mut e = Enemy::new_melee(at(2_500_000, 2_500_000), 0);
    e.health = 30;
    e.state = AIState::Retreat;
    e.update(at(1_500_000, 2_500_000), 100_000, &map);
    assert_eq!(e.position, at(2_700_000, 2_500_000));
    assert_eq!(e.direction, at(SCALE, 0));
    e.update(at(3_700_000, 3_500_000), 100_000, &map);
    assert_eq!(e.direction, at(-707_108, -707_108));
    assert_eq!(e.position, at(2_558_578, 2_358_578));
}

#[test]
fn retreat_on_the_player_stands_still() {
    let map = open_map();
    let mut e = Enemy::new_melee(at(2_500_000, 2_500_000), 0);
    e.health = 30;
    e.state = AIState::Retreat;
    e.update(at(2_500_000, 2_500_000), 100_000, &map);
    assert_eq!(e.position, at(2_500_000, 2_500_000));
    assert_eq!(e.direction, at(SCALE, 0));
    assert_eq!(e.state, AIState::Retreat);
}

#[test]
fn retreat_ends_only_above_fifty() {
    let map = open_map();
    let mut e = Enemy::new_melee(at(2_500_000, 2_500_000), 0);
    e.state = AIState::Retreat;
    e.health = 50;
    e.update(at(1_500_000, 2_500_000), 0, &map);
    assert_eq!(e.state, AIState::Retreat);
    e.health = 51;
    e.update(at(1_500_000, 2_500_000), 100_000, &map);
    assert_eq!(e.state, AIState::Chase);
    assert_eq!(e.position, at(2_500_000, 2_500_000));
}

#[test]
fn idle_enemy_chases_what_it_sees() {
    let world = World::new(5, 5);
    let mut e = Enemy::new_melee(at(1_500_000, 1_500_000), 0);
    assert!(e.can_see_player(at(3_500_000, 1_500_000), &world.map));
    assert_eq!(e.update(at(3_500_000, 1_500_000), 100_000, &world.map), None);
    assert_eq!(e.state, AIState::Chase);
    assert_eq!(e.position, at(1_500_000, 1_500_000));
    assert_eq!(e.direction, at(SCALE, 0));
}

#[test]
fn wall_blocks_the_sight() {
    let world = World::create_test_map();
    let mut e = Enemy::new_melee(at(1_500_000, 4_500_000), 0);
    assert!(!e.can_see_player(at(5_500_000, 4_500_000), &world.map));
    e.update(at(5_500_000, 4_500_000), 100_000, &world.map);
    assert_eq!(e.state, AIState::Idle);
    // along the row above the wall the way is free
    let e = Enemy::new_melee(at(1_500_000, 2_500_000), 0);
    assert!(e.can_see_player(at(5_500_000, 2_500_000), &world.map));
}

#[test]
fn sight_ends_at_the_chase_range() {
    let map = open_map();
    let e = Enemy::new_melee(at(500_000, 1_500_000), 0);
    assert!(e.can_see_player(at(5_500_000, 1_500_000), &map));
    assert!(!e.can_see_player(at(5_500_001, 1_500_000), &map));
    let e = Enemy::new_ranged(at(500_000, 1_500_000), 0, 0);
    assert!(e.can_see_player(at(10_500_000, 1_500_000), &map));
    assert!(!e.can_see_player(at(10_500_001, 1_500_000), &map));
}

#[test]
fn player_close_by_is_seen() {
    let map = open_map();
    let e = Enemy::new_melee(at(1_500_000, 1_500_000), 0);
    assert!(e.can_see_player(at(1_700_000, 1_500_000), &map));
    assert!(e.can_see_player(at(1_500_000, 1_500_000), &map));
}

#[test]
fn enemy_in_a_wall_sees_nothing() {
    let world = World::new(5, 5);
    let e = Enemy::new_melee(at(500_000, 500_000), 0);
    assert!(!e.can_see_player(at(600_000, 500_000), &world.map));
}

#[test]
fn chasing_enemy_closes_in() {
    let map = open_map();
    let mut e = Enemy::new_melee(at(1_500_000, 1_500_000), 0);
    e.state = AIState::Chase;
    e.update(at(2_500_000, 1_500_000), 100_000, &map);
    assert_eq!(e.state, AIState::Chase);
    assert_eq!(e.position, at(1_700_000, 1_500_000));
    // now the player is 0.8 away
    e.update(at(2_500_000, 1_500_000), 100_000, &map);
    assert_eq!(e.state, AIState::Attack);
    assert_eq!(e.position, at(1_700_000, 1_500_000));
}

#[test]
fn chasing_enemy_patrols_when_it_loses_sight() {
    let world = World::create_test_map();
    let mut e = Enemy::new_melee(at(1_500_000, 4_500_000), 0);
    e.state = AIState::Chase;
    e.update(at(5_500_000, 4_500_000), 100_000, &world.map);
    assert_eq!(e.state, AIState::Patrol);
    assert_eq!(e.position, at(1_500_000, 4_500_000));
    assert_eq!(e.direction, at(SCALE, 0));
}

#[test]
fn chasing_ranged_enemy_closes_in_beyond_its_range() {
    let map = open_map();
    let mut e = Enemy::new_ranged(at(1_500_000, 1_500_000), 0, 0);
    e.state = AIState::Chase;
    e.update(at(10_500_000, 1_500_000), 100_000, &map);
    assert_eq!(e.state, AIState::Chase);
    assert_eq!(e.position, at(1_700_000, 1_500_000));
    e.update(at(9_600_000, 1_500_000), 100_000, &map);
    assert_eq!(e.state, AIState::Attack);
}

#[test]
fn attack_starts_below_the_range_and_ends_above_six_fifths() {
    let map = open_map();
    let mut e = Enemy::new_melee(at(1_500_000, 1_500_000), 0);
    e.state = AIState::Chase;
    let mut changes = 0;
    // the player backs away from 0.9 to 1.5 and comes back
    let out = (0..=60).map(|i| 2_400_000 + 10_000 * i);
    let back = (0..=60).rev().map(|i| 2_400_000 + 10_000 * i);
    let mut states = Vec::new();
    for x in out.chain(back) {
        let before = e.state;
        e.update(at(x, 1_500_000), 0, &map);
        if e.state != before {
            changes += 1;
            states.push((x, e.state));
        }
    }
    assert_eq!(changes, 3);
    assert_eq!(
        states,
        vec![
            (2_400_000, AIState::Attack),
            (2_710_000, AIState::Chase),
            (2_490_000, AIState::Attack),
        ]
    );
}

#[test]
fn attack_holds_at_six_fifths_of_the_range() {
    let map = open_map();
    let mut e = Enemy::new_melee(at(1_500_000, 1_500_000), 0);
    e.state = AIState::Attack;
    e.update(at(2_700_000, 1_500_000), 0, &map);
    assert_eq!(e.state, AIState::Attack);
    e.update(at(2_700_001, 1_500_000), 0, &map);
    assert_eq!(e.state, AIState::Chase);
    e.update(at(2_500_000, 1_500_000), 0, &map);
    assert_eq!(e.state, AIState::Chase);
    e.update(at(2_499_999, 1_500_000), 0, &map);
    assert_eq!(e.state, AIState::Attack);
}

#[test]
fn attack_ends_when_sight_is_lost() {
    let world = World::create_test_map();
    let mut e = Enemy::new_ranged(at(1_500_000, 4_500_000), 0, 0);
    e.state = AIState::Attack;
    assert_eq!(e.update(at(5_500_000, 4_500_000), 2_000_000, &world.map), None);
    assert_eq!(e.state, AIState::Chase);
}

#[test]
fn melee_enemy_fires_nothing() {
    let map = open_map();
    let mut e = Enemy::new_melee(at(1_500_000, 1_500_000), 0);
    e.state = AIState::Attack;
    for _ in 0..10 {
        assert_eq!(e.update(at(2_000_000, 1_500_000), 1_000_000, &map), None);
        assert_eq!(e.state, AIState::Attack);
        assert_eq!(e.texture, 0);
    }
}

#[test]
fn ranged_enemy_fires_once_per_interval() {
    let map = open_map();
    let mut e = Enemy::new_ranged(at(1_500_000, 1_500_000), 3, 4);
    e.state = AIState::Attack;
    let player = at(3_500_000, 1_500_000);
    assert_eq!(e.update(player, 999_999, &map), None);
    assert_eq!(e.texture, 3);
    assert_eq!(
        e.update(player, 1, &map),
        Some((at(1_500_000, 1_500_000), at(8_000_000, 0), 5))
    );
    assert_eq!(e.texture, 4);
    assert_eq!(e.state, AIState::Attack);
    // the firing picture stays for a tenth of a second
    assert_eq!(e.update(player, 99_999, &map), None);
    assert_eq!(e.texture, 4);
    assert_eq!(e.update(player, 1, &map), None);
    assert_eq!(e.texture, 3);
    assert_eq!(e.update(player, 899_999, &map), None);
    assert_eq!(
        e.update(player, 1, &map),
        Some((at(1_500_000, 1_500_000), at(8_000_000, 0), 5))
    );
}

#[test]
fn shot_flies_towards_the_player() {
    let map = open_map();
    let mut e = ranged_with_clock(at(1_500_000, 1_500_000), 1_000_000);
    e.state = AIState::Attack;
    assert_eq!(
        e.update(at(4_500_000, 5_500_000), 0, &map),
        Some((at(1_500_000, 1_500_000), at(4_800_000, 6_400_000), 5))
    );
    assert_eq!(e.direction, at(600_000, 800_000));
}

#[test]
fn shot_at_a_player_on_the_spot_does_not_move() {
    let map = open_map();
    let mut e = ranged_with_clock(at(1_500_000, 1_500_000), 1_000_000);
    e.state = AIState::Attack;
    assert_eq!(
        e.update(at(1_500_000, 1_500_000), 0, &map),
        Some((at(1_500_000, 1_500_000), at(0, 0), 5))
    );
    assert_eq!(e.direction, at(SCALE, 0));
}

#[test]
fn ranged_enemy_lowers_its_weapon_when_the_player_gets_away() {
    let map = open_map();
    let mut e = ranged_with_clock(at(1_500_000, 1_500_000), 1_000_000);
    e.state = AIState::Attack;
    let shot = e.update(at(11_000_000, 1_500_000), 0, &map);
    assert!(shot.is_some());
    assert_eq!(e.texture, 4);
    // 9.6 away the attack goes on, just beyond it ends
    assert_eq!(e.update(at(11_100_000, 1_500_000), 10, &map), None);
    assert_eq!(e.state, AIState::Attack);
    assert_eq!(e.update(at(11_100_001, 1_500_000), 10, &map), None);
    assert_eq!(e.state, AIState::Chase);
    assert_eq!(e.texture, 3);
    match e.enemy_type {
        EnemyType::Ranged { firing, since_shot, .. } => {
            assert!(!firing);
            assert_eq!(since_shot, 20);
        }
        EnemyType::Melee { .. } => panic!("a ranged enemy stays ranged"),
    }
}

#[test]
fn clock_of_the_weapon_does_not_overflow() {
    let map = open_map();
    let mut e = ranged_with_clock(at(1_500_000, 1_500_000), u64::MAX - 5);
    e.update(at(25_500_000, 25_500_000), 100, &map);
    match e.enemy_type {
        EnemyType::Ranged { since_shot, .. } => assert_eq!(since_shot, u64::MAX),
        EnemyType::Melee { .. } => panic!("a ranged enemy stays ranged"),
    }
}

#[test]
fn patrol_walks_from_point_to_point() {
    let map = open_map();
    let far = at(25_500_000, 25_500_000);
    let mut e = Enemy::new_melee(at(1_500_000, 1_500_000), 0);
    e.set_patrol_points(vec![at(3_450_000, 1_500_000), at(3_500_000, 3_500_000)]);
    assert_eq!(e.state, AIState::Patrol);
    e.update(far, 100_000, &map);
    assert_eq!(e.position, at(1_700_000, 1_500_000));
    assert_eq!(e.direction, at(SCALE, 0));
    assert_eq!(e.current_patrol_point, 0);
    e.position = at(3_450_000, 1_500_000);
    e.update(far, 100_000, &map);
    assert_eq!(e.position, at(3_450_000, 1_500_000));
    assert_eq!(e.current_patrol_point, 1);
    e.update(far, 100_000, &map);
    assert_eq!(e.direction, at(24_992, 999_688));
    assert_eq!(e.position, at(3_454_998, 1_699_937));
    assert_eq!(e.current_patrol_point, 1);
    e.position = at(3_500_000, 3_400_001);
    e.update(far, 100_000, &map);
    assert_eq!(e.current_patrol_point, 0);
    assert_eq!(e.state, AIState::Patrol);
}

#[test]
fn patrol_point_counts_as_reached_within_a_tenth() {
    let map = open_map();
    let far = at(25_500_000, 25_500_000);
    let mut e = Enemy::new_melee(at(1_500_000, 1_500_000), 0);
    e.set_patrol_points(vec![at(1_600_000, 1_500_000), at(9_500_000, 1_500_000)]);
    e.update(far, 0, &map);
    assert_eq!(e.current_patrol_point, 0);
    e.position = at(1_500_001, 1_500_000);
    e.update(far, 0, &map);
    assert_eq!(e.current_patrol_point, 1);
}

#[test]
fn patrol_without_points_stands_still() {
    let map = open_map();
    let mut e = Enemy::new_melee(at(1_500_000, 1_500_000), 0);
    e.set_patrol_points(Vec::new());
    e.update(at(25_500_000, 25_500_000), 100_000, &map);
    assert_eq!(e.state, AIState::Patrol);
    assert_eq!(e.position, at(1_500_000, 1_500_000));
}

#[test]
fn patrolling_enemy_chases_what_it_sees() {
    let map = open_map();
    let mut e = Enemy::new_melee(at(1_500_000, 1_500_000), 0);
    e.set_patrol_points(vec![at(1_500_000, 9_500_000)]);
    e.update(at(3_500_000, 1_500_000), 100_000, &map);
    assert_eq!(e.state, AIState::Chase);
    assert_eq!(e.position, at(1_500_000, 1_500_000));
}

#[test]
fn new_route_keeps_a_valid_index() {
    let mut e = Enemy::new_melee(at(0, 0), 0);
    e.current_patrol_point = 2;
    e.set_patrol_points(vec![at(1, 1), at(2, 2), at(3, 3)]);
    assert_eq!(e.current_patrol_point, 2);
    e.set_patrol_points(vec![at(1, 1), at(2, 2)]);
    assert_eq!(e.current_patrol_point, 0);
    assert_eq!(e.patrol_points, vec![at(1, 1), at(2, 2)]);
}

#[test]
fn enemy_does_not_walk_into_walls() {
    let world = World::new(5, 5);
    let mut e = Enemy::new_melee(at(3_900_000, 2_500_000), 0);
    e.move_towards(at(4_500_000, 2_500_000), 100_000, &world.map);
    assert_eq!(e.position, at(3_900_000, 2_500_000));
    assert_eq!(e.direction, at(SCALE, 0));
    e.move_towards(at(4_500_000, 2_500_000), 49_999, &world.map);
    assert_eq!(e.position, at(3_999_998, 2_500_000));
    assert!(e.check_collision(at(4_000_000, 2_500_000), &world.map));
    assert!(!e.check_collision(at(3_999_999, 2_500_000), &world.map));
}

#[test]
fn enemy_on_its_target_does_not_move() {
    let map = open_map();
    let mut e = Enemy::new_melee(at(3_900_000, 2_500_000), 0);
    e.direction = at(0, SCALE);
    e.move_towards(at(3_900_000, 2_500_000), 100_000, &map);
    assert_eq!(e.position, at(3_900_000, 2_500_000));
    assert_eq!(e.direction, at(0, SCALE));
}

#[test]
fn straight_path_in_the_open() {
    let world = World::new(5, 5);
    assert_eq!(
        find_path(at(1_500_000, 1_500_000), at(3_500_000, 1_500_000), &world.map),
        vec![
            at(1_500_000, 1_500_000),
            at(2_000_000, 1_500_000),
            at(2_500_000, 1_500_000),
            at(3_000_000, 1_500_000),
            at(3_500_000, 1_500_000),
        ]
    );
    assert_eq!(
        find_path(at(1_500_000, 1_500_000), at(1_500_000, 1_500_000), &world.map),
        vec![at(1_500_000, 1_500_000)]
    );
}

#[test]
fn path_ends_at_the_first_wall() {
    let world = World::create_test_map();
    assert_eq!(
        find_path(at(1_500_000, 4_500_000), at(5_500_000, 4_500_000), &world.map),
        vec![at(1_500_000, 4_500_000), at(2_000_000, 4_500_000), at(2_500_000, 4_500_000)]
    );
    assert_eq!(
        find_path(at(500_000, 500_000), at(5_500_000, 4_500_000), &world.map),
        Vec::<Vec2>::new()
    );
}
