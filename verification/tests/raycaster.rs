use lucid::engine::billboard::{draw_billboard, footprint, paint_sort, Billboard};
use lucid::engine::camera::Camera;
use lucid::engine::frame::{light_at, put_pixel, read_pixel, shade, unpack, Rgba};
use lucid::engine::ray::{cast_ray, RayHit};
use lucid::engine::raycaster::{clear_frame, column_ray_of, Raycaster};
use lucid::engine::texture::{Texture, TextureCache};
use lucid::fixed::{Vec2, SCALE};
use lucid::game::ai::enemy::Enemy;
use lucid::game::particle::Particle;
use lucid::game::world::World;

fn solid(color: u32) -> Texture {
    let mut t = Texture::new(2, 2);
    for y in 0..2 {
        for x in 0..2 {
            t.set_pixel(x, y, color);
        }
    }
    t
}

fn pixel(frame: &[u8], width: u32, x: u32, y: u32) -> (u8, u8, u8, u8) {
    let i = ((y * width + x) * 4) as usize;
    (frame[i], frame[i + 1], frame[i + 2], frame[i + 3])
}

const CEILING: (u8, u8, u8, u8) = (0x40, 0x40, 0x40, 0xff);
const FLOOR: (u8, u8, u8, u8) = (0x80, 0x80, 0x80, 0xff);

#[test]
fn wall_distance_along_the_axes() {
    let world = World::new(5, 5);
    let pos = Vec2::new(2_500_000, 2_500_000);
    assert_eq!(
        cast_ray(&world.map, pos, Vec2::new(SCALE, 0)),
        Some(RayHit { cell_x: 4, cell_y: 2, side: 0, distance: 1_500_000 })
    );
    assert_eq!(
        cast_ray(&world.map, pos, Vec2::new(-SCALE, 0)),
        Some(RayHit { cell_x: 0, cell_y: 2, side: 0, distance: 1_500_000 })
    );
    assert_eq!(
        cast_ray(&world.map, pos, Vec2::new(0, SCALE)),
        Some(RayHit { cell_x: 2, cell_y: 4, side: 1, distance: 1_500_000 })
    );
    assert_eq!(
        cast_ray(&world.map, pos, Vec2::new(0, -SCALE)),
        Some(RayHit { cell_x: 2, cell_y: 0, side: 1, distance: 1_500_000 })
    );
}

#[test]
fn wall_distance_is_measured_in_ray_lengths() {
    let world = World::new(5, 5);
    let pos = Vec2::new(2_500_000, 2_500_000);
    // a ray twice as long reaches the wall at half the distance
    assert_eq!(
        cast_ray(&world.map, pos, Vec2::new(2 * SCALE, 0)).unwrap().distance,
        750_000
    );
    let hit = cast_ray(&world.map, pos, Vec2::new(SCALE, -660_000)).unwrap();
    assert_eq!(hit, RayHit { cell_x: 4, cell_y: 1, side: 0, distance: 1_500_000 });
    let hit = cast_ray(&world.map, pos, Vec2::new(SCALE, SCALE)).unwrap();
    assert_eq!(hit, RayHit { cell_x: 3, cell_y: 4, side: 1, distance: 1_500_000 });
}

#[test]
fn ray_meets_the_first_wall_on_its_way() {
    let world = World::create_test_map();
    let hit = cast_ray(&world.map, Vec2::new(1_500_000, 4_500_000), Vec2::new(SCALE, 0)).unwrap();
    assert_eq!(hit, RayHit { cell_x: 3, cell_y: 4, side: 0, distance: 1_500_000 });
    let hit = cast_ray(&world.map, Vec2::new(4_500_000, 4_500_000), Vec2::new(SCALE, 0)).unwrap();
    assert_eq!(hit, RayHit { cell_x: 6, cell_y: 4, side: 0, distance: 1_500_000 });
    let hit = cast_ray(&world.map, Vec2::new(4_500_000, 4_500_000), Vec2::new(-SCALE, 0)).unwrap();
    assert_eq!(hit, RayHit { cell_x: 3, cell_y: 4, side: 0, distance: 500_000 });
}

#[test]
fn ray_without_direction_or_grid_meets_nothing() {
    let world = World::new(5, 5);
    let pos = Vec2::new(2_500_000, 2_500_000);
    assert_eq!(cast_ray(&world.map, pos, Vec2::new(0, 0)), None);
    assert_eq!(cast_ray(&world.map, Vec2::new(-SCALE, 0), Vec2::new(SCALE, 0)), None);
    assert_eq!(cast_ray(&Vec::new(), pos, Vec2::new(SCALE, 0)), None);
    let open = vec![vec![0, 0, 0], vec![0, 0, 0], vec![0, 0, 0]];
    assert_eq!(cast_ray(&open, Vec2::new(1_500_000, 1_500_000), Vec2::new(SCALE, 300_000)), None);
}

#[test]
fn ray_on_a_grid_line() {
    let world = World::new(5, 5);
    // stands on the line between cells 0 and 1 and looks into the wall
    let hit = cast_ray(&world.map, Vec2::new(1_000_000, 2_500_000), Vec2::new(-SCALE, 0)).unwrap();
    assert_eq!(hit, RayHit { cell_x: 0, cell_y: 2, side: 0, distance: 0 });
}

#[test]
fn column_rays_fan_out() {
    let c = Camera::new(2_500_000, 2_500_000);
    assert_eq!(column_ray_of(&c, 8, 0), Vec2::new(SCALE, 660_000));
    assert_eq!(column_ray_of(&c, 8, 4), Vec2::new(SCALE, 0));
    assert_eq!(column_ray_of(&c, 8, 6), Vec2::new(SCALE, -330_000));
    // column 1 of 3 lies at -333334 across the screen: 0.66 * 0.333334 = 0.220000
    assert_eq!(column_ray_of(&c, 3, 1), Vec2::new(SCALE, 220_000));
}

#[test]
fn cleared_frame_is_ceiling_and_floor() {
    let mut frame = vec![7u8; 3 * 5 * 4];
    clear_frame(&mut frame, 3, 5);
    for y in 0..5 {
        for x in 0..3 {
            assert_eq!(pixel(&frame, 3, x, y), if y < 2 { CEILING } else { FLOOR });
        }
    }
}

#[test]
fn colours_are_unpacked_and_dimmed() {
    assert_eq!(unpack(0x0102_03ff), Rgba { r: 1, g: 2, b: 3, a: 255 });
    assert_eq!(shade(0xff80_4020, SCALE), Rgba { r: 255, g: 128, b: 64, a: 32 });
    assert_eq!(shade(0xff80_4020, 500_000), Rgba { r: 127, g: 64, b: 32, a: 32 });
    assert_eq!(shade(0xff80_4020, 0), Rgba { r: 0, g: 0, b: 0, a: 32 });
}

#[test]
fn light_falls_off_with_depth() {
    assert_eq!(light_at(0, 10), SCALE);
    assert_eq!(light_at(1_500_000, 10), 869_565);
    assert_eq!(light_at(10_000_000, 10), 500_000);
    assert_eq!(light_at(10_000_000, 20), 666_666);
    let mut last = SCALE;
    for d in 0..200 {
        let l = light_at(d * 250_000, 10);
        assert!(l <= last && l > 0);
        last = l;
    }
}

#[test]
fn pixels_are_written_and_read() {
    let mut frame = vec![0u8; 2 * 2 * 4];
    put_pixel(&mut frame, 2, 2, 1, 0, Rgba { r: 1, g: 2, b: 3, a: 4 });
    assert_eq!(frame, vec![0, 0, 0, 0, 1, 2, 3, 4, 0, 0, 0, 0, 0, 0, 0, 0]);
    assert_eq!(read_pixel(&frame, 2, 2, 1, 0), Rgba { r: 1, g: 2, b: 3, a: 4 });
    assert_eq!(read_pixel(&frame, 2, 2, 0, 1), Rgba { r: 0, g: 0, b: 0, a: 0 });
}

#[test]
fn new_raycaster_has_the_small_room() {
    let r = Raycaster::new(8, 6);
    assert_eq!(r.width, 8);
    assert_eq!(r.height, 6);
    assert_eq!(r.z_buffer, vec![0; 8]);
    assert_eq!(r.map, World::new(5, 5).map);
    assert!(r.texture_cache.get_texture(0).is_none());
}

#[test]
fn walls_without_texture_are_left_out() {
    let mut r = Raycaster::new(8, 8);
    let c = Camera::new(2_500_000, 2_500_000);
    let mut frame = vec![0u8; 8 * 8 * 4];
    r.render(&c, &[], &[], &mut frame);
    for y in 0..8 {
        for x in 0..8 {
            assert_eq!(pixel(&frame, 8, x, y), if y < 4 { CEILING } else { FLOOR });
        }
    }
    assert_eq!(r.z_buffer, vec![1_500_000; 8]);
}

#[test]
fn textured_wall_is_centred_and_dimmed() {
    let mut r = Raycaster::new(8, 8);
    r.texture_cache.add_texture(solid(0xffff_ffff));
    let c = Camera::new(2_500_000, 2_500_000);
    let mut frame = vec![0u8; 8 * 8 * 4];
    r.render(&c, &[], &[], &mut frame);
    // the wall is 8 / 1.5 = 5 pixels high: rows 2 to 5
    for x in 0..8 {
        assert_eq!(pixel(&frame, 8, x, 0), CEILING);
        assert_eq!(pixel(&frame, 8, x, 1), CEILING);
        for y in 2..6 {
            assert_eq!(pixel(&frame, 8, x, y), (221, 221, 221, 255));
        }
        assert_eq!(pixel(&frame, 8, x, 6), FLOOR);
        assert_eq!(pixel(&frame, 8, x, 7), FLOOR);
    }
}

#[test]
fn walls_entered_along_y_are_darker() {
    let mut r = Raycaster::new(8, 8);
    r.texture_cache.add_texture(solid(0xffff_ffff));
    let mut c = Camera::new(2_500_000, 2_500_000);
    c.rotate(0, SCALE);
    let mut frame = vec![0u8; 8 * 8 * 4];
    r.render(&c, &[], &[], &mut frame);
    // 869565 * 7 / 10 = 608695; 255 * 0.608695 = 155
    assert_eq!(pixel(&frame, 8, 4, 3), (155, 155, 155, 255));
}

#[test]
fn wall_texture_follows_the_cell_code() {
    let mut r = Raycaster::new(8, 8);
    r.texture_cache.add_texture(solid(0xff00_00ff));
    r.texture_cache.add_texture(solid(0x00ff_00ff));
    let mut map = World::new(5, 5).map;
    map[2][4] = 2;
    r.set_map(map);
    let c = Camera::new(2_500_000, 2_500_000);
    let mut frame = vec![0u8; 8 * 8 * 4];
    r.render(&c, &[], &[], &mut frame);
    assert_eq!(pixel(&frame, 8, 4, 3), (0, 221, 0, 255));
    assert_eq!(pixel(&frame, 8, 0, 3), (221, 0, 0, 255));
}

#[test]
fn wall_shows_its_texture_from_top_to_bottom() {
    let mut t = Texture::new(1, 2);
    t.set_pixel(0, 0, 0xff00_00ff);
    t.set_pixel(0, 1, 0x0000_ffff);
    let mut r = Raycaster::new(8, 8);
    r.texture_cache.add_texture(t);
    let c = Camera::new(2_500_000, 2_500_000);
    let mut frame = vec![0u8; 8 * 8 * 4];
    r.render(&c, &[], &[], &mut frame);
    assert_eq!(pixel(&frame, 8, 4, 2), (221, 0, 0, 255));
    assert_eq!(pixel(&frame, 8, 4, 3), (221, 0, 0, 255));
    assert_eq!(pixel(&frame, 8, 4, 4), (0, 0, 221, 255));
    assert_eq!(pixel(&frame, 8, 4, 5), (0, 0, 221, 255));
}

#[test]
fn billboards_are_sorted_far_to_near() {
    assert_eq!(paint_sort(&vec![]), Vec::<usize>::new());
    assert_eq!(paint_sort(&vec![5]), vec![0]);
    assert_eq!(paint_sort(&vec![1, 3, 2]), vec![1, 2, 0]);
    assert_eq!(paint_sort(&vec![9, 9, 1, 9]), vec![0, 1, 3, 2]);
    assert_eq!(paint_sort(&vec![1, 2, 3, 4, 5]), vec![4, 3, 2, 1, 0]);
}

#[test]
fn billboard_footprint() {
    let c = Camera::new(2_500_000, 2_500_000);
    let bb = Billboard { position: Vec2::new(3_500_000, 2_500_000), texture: 0, glow: false };
    let f = footprint(&c, 8, 8, &bb).unwrap();
    assert_eq!((f.depth, f.size, f.left, f.top), (1_000_000, 8, 0, 0));
    let bb = Billboard { position: Vec2::new(4_500_000, 2_500_000), texture: 0, glow: false };
    let f = footprint(&c, 8, 8, &bb).unwrap();
    assert_eq!((f.depth, f.size, f.left, f.top), (2_000_000, 4, 2, 2));
    // to the right of the line of view
    let bb = Billboard { position: Vec2::new(4_500_000, 1_840_000), texture: 0, glow: false };
    let f = footprint(&c, 8, 8, &bb).unwrap();
    assert_eq!((f.depth, f.size, f.left, f.top), (2_000_000, 4, 4, 2));
    // a glowing one is a tenth as large
    let bb = Billboard { position: Vec2::new(2_600_000, 2_500_000), texture: 0, glow: true };
    let f = footprint(&c, 8, 8, &bb).unwrap();
    assert_eq!((f.depth, f.size, f.left, f.top), (100_000, 8, 0, 0));
}

#[test]
fn billboard_behind_the_camera_is_not_projected() {
    let c = Camera::new(2_500_000, 2_500_000);
    let bb = Billboard { position: Vec2::new(1_500_000, 2_500_000), texture: 0, glow: false };
    assert!(footprint(&c, 8, 8, &bb).is_none());
    let bb = Billboard { position: Vec2::new(2_500_000, 2_500_000), texture: 0, glow: false };
    assert!(footprint(&c, 8, 8, &bb).is_none());
    let bb = Billboard { position: Vec2::new(2_500_000, 3_500_000), texture: 0, glow: false };
    assert!(footprint(&c, 8, 8, &bb).is_none());
}

#[test]
fn flat_view_projects_nothing() {
    let mut c = Camera::new(2_500_000, 2_500_000);
    c.plane = Vec2::new(500_000, 0);
    let bb = Billboard { position: Vec2::new(3_500_000, 2_500_000), texture: 0, glow: false };
    assert!(footprint(&c, 8, 8, &bb).is_none());
}

#[test]
fn enemy_in_front_of_the_wall_is_drawn() {
    let mut r = Raycaster::new(8, 8);
    r.texture_cache.add_texture(solid(0xffff_ffff));
    let red = r.texture_cache.add_texture(solid(0xff00_00ff));
    let c = Camera::new(2_500_000, 2_500_000);
    let enemy = Enemy::new_melee(Vec2::new(3_500_000, 2_500_000), red);
    let mut frame = vec![0u8; 8 * 8 * 4];
    r.render(&c, &[enemy], &[], &mut frame);
    // depth 1: light 1 / 1.1 = 0.909090, 255 * 0.909090 = 231
    for y in 0..8 {
        for x in 0..8 {
            assert_eq!(pixel(&frame, 8, x, y), (231, 0, 0, 255));
        }
    }
}

#[test]
fn enemy_behind_the_wall_is_hidden() {
    let mut r = Raycaster::new(8, 8);
    r.texture_cache.add_texture(solid(0xffff_ffff));
    let red = r.texture_cache.add_texture(solid(0xff00_00ff));
    let c = Camera::new(2_500_000, 2_500_000);
    let mut plain = vec![0u8; 8 * 8 * 4];
    r.render(&c, &[], &[], &mut plain);
    let enemy = Enemy::new_melee(Vec2::new(5_500_000, 2_500_000), red);
    let mut frame = vec![0u8; 8 * 8 * 4];
    r.render(&c, &[enemy], &[], &mut frame);
    assert_eq!(frame, plain);
    // at the very depth of the wall it is hidden too
    let enemy = Enemy::new_melee(Vec2::new(4_000_000, 2_500_000), red);
    r.render(&c, &[enemy], &[], &mut frame);
    assert_eq!(frame, plain);
    // and just in front of it, it shows
    let enemy = Enemy::new_melee(Vec2::new(3_999_999, 2_500_000), red);
    r.render(&c, &[enemy], &[], &mut frame);
    assert!(frame != plain);
}

#[test]
fn column_with_a_nearer_wall_hides_the_billboard() {
    let frame_before = vec![9u8; 4 * 4 * 4];
    let mut frame = frame_before.clone();
    let mut textures = TextureCache::new();
    textures.add_texture(solid(0xff00_00ff));
    let c = Camera::new(2_500_000, 2_500_000);
    let bb = Billboard { position: Vec2::new(3_500_000, 2_500_000), texture: 0, glow: false };
    // the billboard is at depth 1 and covers all four columns
    let depth = vec![2_000_000, 1_000_000, 999_999, 1_000_001];
    draw_billboard(&mut frame, 4, 4, &depth, &c, &bb, &textures);
    for y in 0..4 {
        assert_eq!(pixel(&frame, 4, 0, y), (231, 0, 0, 255));
        assert_eq!(pixel(&frame, 4, 1, y), (9, 9, 9, 9));
        assert_eq!(pixel(&frame, 4, 2, y), (9, 9, 9, 9));
        assert_eq!(pixel(&frame, 4, 3, y), (231, 0, 0, 255));
    }
}

#[test]
fn transparent_pixels_are_not_drawn() {
    let mut t = Texture::new(2, 1);
    t.set_pixel(0, 0, 0xff00_0000);
    t.set_pixel(1, 0, 0x00ff_0001);
    let mut textures = TextureCache::new();
    textures.add_texture(t);
    let mut frame = vec![9u8; 4 * 4 * 4];
    let c = Camera::new(2_500_000, 2_500_000);
    let bb = Billboard { position: Vec2::new(3_500_000, 2_500_000), texture: 0, glow: false };
    draw_billboard(&mut frame, 4, 4, &vec![i64::MAX; 4], &c, &bb, &textures);
    for y in 0..4 {
        assert_eq!(pixel(&frame, 4, 0, y), (9, 9, 9, 9));
        assert_eq!(pixel(&frame, 4, 1, y), (9, 9, 9, 9));
        assert_eq!(pixel(&frame, 4, 2, y), (0, 231, 0, 1));
        assert_eq!(pixel(&frame, 4, 3, y), (0, 231, 0, 1));
    }
}

#[test]
fn billboard_without_texture_is_left_out() {
    let mut frame = vec![9u8; 4 * 4 * 4];
    let c = Camera::new(2_500_000, 2_500_000);
    let bb = Billboard { position: Vec2::new(3_500_000, 2_500_000), texture: 3, glow: false };
    draw_billboard(&mut frame, 4, 4, &vec![i64::MAX; 4], &c, &bb, &TextureCache::new());
    assert_eq!(frame, vec![9u8; 4 * 4 * 4]);
}

#[test]
fn nearer_enemy_covers_the_farther() {
    let mut r = Raycaster::new(8, 8);
    let red = r.texture_cache.add_texture(solid(0xff00_00ff));
    let green = r.texture_cache.add_texture(solid(0x00ff_00ff));
    let c = Camera::new(2_500_000, 2_500_000);
    let near = Enemy::new_melee(Vec2::new(3_500_000, 2_500_000), red);
    let far = Enemy::new_melee(Vec2::new(3_700_000, 2_500_000), green);
    let mut frame = vec![0u8; 8 * 8 * 4];
    r.render(&c, &[near, far], &[], &mut frame);
    assert_eq!(pixel(&frame, 8, 4, 4), (231, 0, 0, 255));
    let near = Enemy::new_melee(Vec2::new(3_500_000, 2_500_000), red);
    let far = Enemy::new_melee(Vec2::new(3_700_000, 2_500_000), green);
    r.render(&c, &[far, near], &[], &mut frame);
    assert_eq!(pixel(&frame, 8, 4, 4), (231, 0, 0, 255));
}

#[test]
fn particles_are_small_and_glow() {
    let mut r = Raycaster::new(40, 40);
    let purple = r.texture_cache.add_texture(solid(0xff00_ffff));
    let c = Camera::new(2_500_000, 2_500_000);
    let p = Particle::new(Vec2::new(3_500_000, 2_500_000), Vec2::new(0, 0), purple, 5, true);
    let mut plain = vec![0u8; 40 * 40 * 4];
    r.render(&c, &[], &[], &mut plain);
    let mut frame = vec![0u8; 40 * 40 * 4];
    r.render(&c, &[], &[p], &mut frame);
    // size 40 / 10 = 4: columns and rows 18 to 21; light 1 / 1.05 = 0.952380
    for y in 0..40 {
        for x in 0..40 {
            let inside = (18..22).contains(&x) && (18..22).contains(&y);
            let expected = if inside { (242, 0, 242, 255) } else { pixel(&plain, 40, x, y) };
            assert_eq!(pixel(&frame, 40, x, y), expected);
        }
    }
}

#[test]
fn nearer_particle_covers_the_enemy_behind_it() {
    let mut r = Raycaster::new(40, 40);
    let red = r.texture_cache.add_texture(solid(0xff00_00ff));
    let purple = r.texture_cache.add_texture(solid(0xff00_ffff));
    let c = Camera::new(2_500_000, 2_500_000);
    let enemy = Enemy::new_melee(Vec2::new(3_700_000, 2_500_000), red);
    let p = Particle::new(Vec2::new(3_500_000, 2_500_000), Vec2::new(0, 0), purple, 5, true);
    let mut frame = vec![0u8; 40 * 40 * 4];
    r.render(&c, &[enemy], &[p], &mut frame);
    assert_eq!(pixel(&frame, 40, 20, 20), (242, 0, 242, 255));
    // and an enemy in front of the particle covers it
    let enemy = Enemy::new_melee(Vec2::new(3_300_000, 2_500_000), red);
    r.render(&c, &[enemy], &[p], &mut frame);
    assert_eq!(pixel(&frame, 40, 20, 20).1, 0);
    assert_eq!(pixel(&frame, 40, 20, 20).2, 0);
}

#[test]
fn render_overwrites_the_whole_frame() {
    let mut r = Raycaster::new(5, 3);
    let c = Camera::new(2_500_000, 2_500_000);
    let mut a = vec![0u8; 5 * 3 * 4];
    let mut b = vec![0xaau8; 5 * 3 * 4];
    r.render(&c, &[], &[], &mut a);
    r.render(&c, &[], &[], &mut b);
    assert_eq!(a, b);
}
