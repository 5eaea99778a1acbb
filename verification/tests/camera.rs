use lucid::engine::camera::{clearance_blocked, Camera, COLLISION_BUFFER};
use lucid::fixed::{Vec2, SCALE};
use lucid::game::world::World;

fn dot(a: Vec2, b: Vec2) -> i128 {
    (a.x as i128) * (b.x as i128) + (a.y as i128) * (b.y as i128)
}

fn cross(a: Vec2, b: Vec2) -> i128 {
    (a.x as i128) * (b.y as i128) - (a.y as i128) * (b.x as i128)
}

#[test]
fn camera_starts_looking_along_x() {
    let c = Camera::new(1_500_000, 1_500_000);
    assert_eq!(c.position, Vec2::new(1_500_000, 1_500_000));
    assert_eq!(c.direction, Vec2::new(SCALE, 0));
    assert_eq!(c.plane, Vec2::new(0, -660_000));
}

#[test]
fn quarter_turn_is_exact() {
    let mut c = Camera::new(1_500_000, 1_500_000);
    let d = dot(c.direction, c.plane);
    let x = cross(c.direction, c.plane);
    c.rotate(0, SCALE);
    assert_eq!(c.direction, Vec2::new(0, SCALE));
    assert_eq!(c.plane, Vec2::new(660_000, 0));
    assert_eq!(dot(c.direction, c.plane), d);
    assert_eq!(cross(c.direction, c.plane), x);
    c.rotate(0, SCALE);
    assert_eq!(c.direction, Vec2::new(-SCALE, 0));
    assert_eq!(c.plane, Vec2::new(0, 660_000));
    c.rotate(-SCALE, 0);
    assert_eq!(c.direction, Vec2::new(SCALE, 0));
    assert_eq!(c.plane, Vec2::new(0, -660_000));
}

#[test]
fn small_turn_rounds_down() {
    let mut c = Camera::new(0, 0);
    // cosine and sine of 0.002
    c.rotate(999_998, 2_000);
    assert_eq!(c.direction, Vec2::new(999_998, 2_000));
    assert_eq!(c.plane, Vec2::new(1_320, -659_999));
    assert_eq!(c.position, Vec2::new(0, 0));
}

#[test]
fn turns_keep_the_field_of_view() {
    let mut c = Camera::new(0, 0);
    let d = dot(c.direction, c.plane);
    let x = cross(c.direction, c.plane);
    // a 3-4-5 turn, whose cosine and sine lie exactly on the unit circle
    for _ in 0..25 {
        c.rotate(800_000, 600_000);
    }
    let tolerance: i128 = 100 * (SCALE as i128);
    assert!((dot(c.direction, c.plane) - d).abs() < tolerance);
    assert!((cross(c.direction, c.plane) - x).abs() < tolerance);
}

#[test]
fn turn_that_would_overflow_is_refused() {
    let mut c = Camera::new(0, 0);
    let before = c;
    c.rotate(i64::MAX, 0);
    assert_eq!(c, before);
}

#[test]
fn walks_forward_in_the_open() {
    let world = World::new(5, 5);
    let mut c = Camera::new(2_500_000, 2_500_000);
    c.move_forward(500_000, &world.map);
    assert_eq!(c.position, Vec2::new(3_000_000, 2_500_000));
    c.move_forward(-1_000_000, &world.map);
    assert_eq!(c.position, Vec2::new(2_000_000, 2_500_000));
}

#[test]
fn walks_sideways_in_the_open() {
    let world = World::new(5, 5);
    let mut c = Camera::new(2_500_000, 2_500_000);
    c.move_right(500_000, &world.map);
    assert_eq!(c.position, Vec2::new(2_500_000, 2_000_000));
    c.move_right(-1_000_000, &world.map);
    assert_eq!(c.position, Vec2::new(2_500_000, 3_000_000));
}

#[test]
fn wall_stops_the_camera_at_its_clearance() {
    let world = World::new(5, 5);
    let mut c = Camera::new(2_500_000, 2_500_000);
    c.move_forward(1_199_999, &world.map);
    assert_eq!(c.position, Vec2::new(3_699_999, 2_500_000));
    c.move_forward(1, &world.map);
    assert_eq!(c.position, Vec2::new(3_699_999, 2_500_000));
    assert!(!c.check_collision(c.position, &world.map));
}

#[test]
fn blocked_axis_does_not_stop_the_other() {
    let world = World::new(5, 5);
    let mut c = Camera::new(3_600_000, 2_500_000);
    c.move_with_collision(Vec2::new(500_000, 500_000), &world.map);
    assert_eq!(c.position, Vec2::new(3_600_000, 3_000_000));
}

#[test]
fn resolved_position_stays_clear_of_walls() {
    let world = World::create_test_map();
    let mut c = Camera::new(1_500_000, 1_500_000);
    let moves = [
        (700_000, 300_000),
        (900_000, 900_000),
        (-400_000, 1_200_000),
        (1_500_000, -200_000),
        (800_000, 800_000),
        (-2_000_000, 2_000_000),
        (3_000_000, 3_000_000),
    ];
    let mut checked = 0;
    for (dx, dy) in moves.iter() {
        for _ in 0..6 {
            let (x, y) = (c.position.x, c.position.y);
            let b = COLLISION_BUFFER;
            let escapes_x = (*dx > 0 && clearance_blocked(&world.map, x - b, y))
                || (*dx < 0 && clearance_blocked(&world.map, x + b, y));
            let escapes_y = (*dy > 0 && clearance_blocked(&world.map, x, y - b))
                || (*dy < 0 && clearance_blocked(&world.map, x, y + b));
            let clear = !clearance_blocked(&world.map, x, y);
            c.move_with_collision(Vec2::new(*dx, *dy), &world.map);
            if clear && !escapes_x && !escapes_y {
                assert!(!clearance_blocked(&world.map, c.position.x, c.position.y));
                checked += 1;
            }
        }
    }
    assert!(checked > 0);
}

#[test]
fn clearance_box_is_sampled_at_corners_and_centre() {
    let world = World::new(5, 5);
    assert!(!clearance_blocked(&world.map, 1_300_000, 1_300_000));
    assert!(clearance_blocked(&world.map, 1_299_999, 1_300_000));
    assert!(clearance_blocked(&world.map, 1_300_000, 1_299_999));
    assert!(!clearance_blocked(&world.map, 3_699_999, 3_699_999));
    assert!(clearance_blocked(&world.map, 3_700_000, 3_699_999));
    assert!(clearance_blocked(&world.map, 3_699_999, 3_700_000));
    assert!(clearance_blocked(&world.map, -5_000_000, 2_000_000));
    assert_eq!(COLLISION_BUFFER, 300_000);
}

#[test]
fn camera_in_a_wall_can_leave_it() {
    let world = World::new(5, 5);
    // too near to the wall on the left
    let mut c = Camera::new(1_100_000, 2_500_000);
    assert!(c.check_collision(c.position, &world.map));
    c.move_with_collision(Vec2::new(100_000, 0), &world.map);
    assert_eq!(c.position, Vec2::new(1_200_000, 2_500_000));
    // but not deeper into it
    c.move_with_collision(Vec2::new(-100_000, 0), &world.map);
    assert_eq!(c.position, Vec2::new(1_200_000, 2_500_000));
}

#[test]
fn camera_does_not_leave_the_world() {
    let map: Vec<Vec<i32>> = Vec::new();
    let mut c = Camera::new(1_000_000_000_000, 0);
    c.move_with_collision(Vec2::new(1, 0), &map);
    assert_eq!(c.position, Vec2::new(1_000_000_000_000, 0));
}
