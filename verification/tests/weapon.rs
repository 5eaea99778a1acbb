use lucid::engine::texture::Texture;
use lucid::game::weapon::{add_capped, blend_channel, Weapon, FIRE_COOLDOWN};
use lucid::game::{Game, BAR_HEIGHT, BAR_PADDING, BAR_WIDTH};

fn solid(width: u32, height: u32, color: u32) -> Texture {
    let mut t = Texture::new(width, height);
    for y in 0..height {
        for x in 0..width {
            t.set_pixel(x, y, color);
        }
    }
    t
}

fn png_bytes(width: u32, height: u32, rgba: &[u8]) -> Vec<u8> {
    let img = image::RgbaImage::from_raw(width, height, rgba.to_vec()).unwrap();
    let mut out = std::io::Cursor::new(Vec::new());
    image::DynamicImage::ImageRgba8(img)
        .write_to(&mut out, image::ImageOutputFormat::Png)
        .unwrap();
    out.into_inner()
}

fn pixel(frame: &[u8], width: u32, x: u32, y: u32) -> (u8, u8, u8, u8) {
    let i = ((y * width + x) * 4) as usize;
    (frame[i], frame[i + 1], frame[i + 2], frame[i + 3])
}

#[test]
fn new_weapon_is_not_ready() {
    let mut w = Weapon::new(Texture::new(1, 1), Texture::new(1, 1));
    assert!(!w.firing);
    assert_eq!(w.since_shot, 0);
    assert_eq!(w.bob_offset, 0);
    assert_eq!(w.bob_time, 0);
    assert!(!w.fire());
    assert!(!w.firing);
}

#[test]
fn weapon_fires_after_half_a_second() {
    let mut w = Weapon::new(Texture::new(1, 1), Texture::new(1, 1));
    w.update(499_999, false, 0);
    assert!(!w.fire());
    w.update(1, false, 0);
    assert_eq!(w.since_shot, FIRE_COOLDOWN);
    assert!(w.fire());
    assert!(w.firing);
    assert_eq!(w.since_shot, 0);
    assert!(!w.fire());
    assert!(w.firing);
    w.update(500_000, false, 0);
    assert!(w.fire());
}

#[test]
fn firing_picture_is_taken_down_after_a_tenth_of_a_second() {
    let mut w = Weapon::new(Texture::new(1, 1), Texture::new(1, 1));
    w.update(500_000, false, 0);
    assert!(w.fire());
    w.update(100_000, false, 0);
    assert!(w.firing);
    w.update(1, false, 0);
    assert!(!w.firing);
}

#[test]
fn weapon_sways_while_the_player_moves() {
    let mut w = Weapon::new(Texture::new(1, 1), Texture::new(1, 1));
    assert_eq!(w.next_bob_time(100_000, true), 500_000);
    w.update(100_000, true, 479_425);
    assert_eq!(w.bob_time, 500_000);
    assert_eq!(w.bob_offset, 2);
    w.update(100_000, true, -1_000_000);
    assert_eq!(w.bob_time, 1_000_000);
    assert_eq!(w.bob_offset, 5);
    assert_eq!(w.next_bob_time(100_000, false), 0);
    w.update(100_000, false, 479_425);
    assert_eq!(w.bob_time, 0);
    assert_eq!(w.bob_offset, 0);
}

#[test]
fn clocks_of_the_weapon_do_not_overflow() {
    let mut w = Weapon::new(Texture::new(1, 1), Texture::new(1, 1));
    w.update(u64::MAX, true, 0);
    w.update(u64::MAX, true, 0);
    assert_eq!(w.since_shot, u64::MAX);
    assert_eq!(w.bob_time, u64::MAX);
    assert_eq!(add_capped(u64::MAX - 1, 1), u64::MAX);
    assert_eq!(add_capped(u64::MAX - 1, 2), u64::MAX);
    assert_eq!(add_capped(2, 3), 5);
}

#[test]
fn colour_values_are_blended() {
    assert_eq!(blend_channel(255, 100, 128), 177);
    assert_eq!(blend_channel(0, 100, 128), 49);
    assert_eq!(blend_channel(200, 100, 255), 200);
    assert_eq!(blend_channel(200, 100, 0), 100);
}

#[test]
fn weapon_is_drawn_at_the_bottom() {
    let w = Weapon::new(solid(1, 1, 0xff00_00ff), solid(1, 1, 0x00ff_00ff));
    let mut frame = vec![100u8; 9 * 6 * 4];
    w.render(&mut frame, 9, 6);
    for y in 0..6 {
        for x in 0..9 {
            let inside = (3..6).contains(&x) && (3..6).contains(&y);
            let expected = if inside { (255, 0, 0, 255) } else { (100, 100, 100, 100) };
            assert_eq!(pixel(&frame, 9, x, y), expected);
        }
    }
}

#[test]
fn firing_weapon_shows_its_other_picture() {
    let mut w = Weapon::new(solid(1, 1, 0xff00_00ff), solid(1, 1, 0x00ff_00ff));
    w.update(500_000, false, 0);
    assert!(w.fire());
    let mut frame = vec![100u8; 9 * 6 * 4];
    w.render(&mut frame, 9, 6);
    assert_eq!(pixel(&frame, 9, 4, 4), (0, 255, 0, 255));
}

#[test]
fn swaying_weapon_is_drawn_lower() {
    let mut w = Weapon::new(solid(1, 1, 0xff00_00ff), solid(1, 1, 0x00ff_00ff));
    w.update(100_000, true, 500_000);
    assert_eq!(w.bob_offset, 2);
    let mut frame = vec![100u8; 9 * 6 * 4];
    w.render(&mut frame, 9, 6);
    for y in 0..6 {
        for x in 0..9 {
            let inside = (3..6).contains(&x) && y == 5;
            let expected = if inside { (255, 0, 0, 255) } else { (100, 100, 100, 100) };
            assert_eq!(pixel(&frame, 9, x, y), expected);
        }
    }
}

#[test]
fn half_transparent_weapon_is_blended() {
    let mut t = Texture::new(2, 1);
    t.set_pixel(0, 0, 0xff00_0080);
    t.set_pixel(1, 0, 0xff00_0000);
    let w = Weapon::new(t, Texture::new(1, 1));
    // a picture of 2 by 1 on a screen 12 wide: 4 by 2 pixels at the bottom
    let mut frame = vec![100u8; 12 * 4 * 4];
    w.render(&mut frame, 12, 4);
    for y in 0..4 {
        for x in 0..12 {
            let expected = if (4..6).contains(&x) && y >= 2 {
                (177, 49, 49, 255)
            } else {
                (100, 100, 100, 100)
            };
            assert_eq!(pixel(&frame, 12, x, y), expected);
        }
    }
}

#[test]
fn weapon_taller_than_the_screen_is_cut_off() {
    let w = Weapon::new(solid(1, 4, 0xff00_00ff), Texture::new(1, 1));
    // 3 wide and 12 high on a screen 6 high
    let mut frame = vec![100u8; 9 * 6 * 4];
    w.render(&mut frame, 9, 6);
    for y in 0..6 {
        assert_eq!(pixel(&frame, 9, 2, y), (100, 100, 100, 100));
        assert_eq!(pixel(&frame, 9, 3, y), (255, 0, 0, 255));
        assert_eq!(pixel(&frame, 9, 5, y), (255, 0, 0, 255));
        assert_eq!(pixel(&frame, 9, 6, y), (100, 100, 100, 100));
    }
}

#[test]
fn weapon_without_picture_is_not_drawn() {
    let w = Weapon::new(Texture::new(0, 0), Texture::new(1, 1));
    let mut frame = vec![100u8; 9 * 6 * 4];
    w.render(&mut frame, 9, 6);
    assert_eq!(frame, vec![100u8; 9 * 6 * 4]);
    let w = Weapon::new(solid(1, 1, 0xff00_00ff), Texture::new(1, 1));
    let mut frame = vec![100u8; 2 * 2 * 4];
    w.render(&mut frame, 2, 2);
    assert_eq!(frame, vec![100u8; 2 * 2 * 4]);
}

#[test]
fn new_game_has_full_health() {
    let g = Game::new(320, 200);
    assert_eq!(g.width, 320);
    assert_eq!(g.height, 200);
    assert!(g.weapon.is_none());
    assert_eq!(g.particles.get_particles().len(), 0);
    assert_eq!(g.player_health, 100);
    assert!(g.is_alive());
}

#[test]
fn health_stays_between_nothing_and_full() {
    let mut g = Game::new(320, 200);
    g.take_damage(30);
    assert_eq!(g.player_health, 70);
    g.heal(20);
    assert_eq!(g.player_health, 90);
    g.heal(20);
    assert_eq!(g.player_health, 100);
    g.take_damage(150);
    assert_eq!(g.player_health, 0);
    assert!(!g.is_alive());
    g.take_damage(i32::MIN);
    assert_eq!(g.player_health, i32::MAX);
    g.heal(i32::MIN);
    assert_eq!(g.player_health, -1);
    g.handle_input();
    assert_eq!(g.player_health, -1);
}

#[test]
fn health_bar_is_filled_by_health() {
    let mut g = Game::new(220, 40);
    g.player_health = 50;
    let mut frame = vec![7u8; 220 * 40 * 4];
    g.render(&mut frame);
    assert_eq!((BAR_WIDTH, BAR_HEIGHT, BAR_PADDING), (200, 20, 10));
    for y in 0..40 {
        for x in 0..220 {
            let in_bar = (10..210).contains(&x) && (10..30).contains(&y);
            let expected = if in_bar && x < 110 {
                (0xff, 0x40, 0x40, 0xff)
            } else if in_bar {
                (0x40, 0x40, 0x40, 0xff)
            } else {
                (7, 7, 7, 7)
            };
            assert_eq!(pixel(&frame, 220, x, y), expected);
        }
    }
}

#[test]
fn health_bar_at_the_ends() {
    let mut g = Game::new(220, 40);
    let mut frame = vec![7u8; 220 * 40 * 4];
    g.render(&mut frame);
    assert_eq!(pixel(&frame, 220, 10, 10), (0xff, 0x40, 0x40, 0xff));
    assert_eq!(pixel(&frame, 220, 209, 29), (0xff, 0x40, 0x40, 0xff));
    assert_eq!(pixel(&frame, 220, 210, 29), (7, 7, 7, 7));
    g.player_health = 0;
    g.render(&mut frame);
    assert_eq!(pixel(&frame, 220, 10, 10), (0x40, 0x40, 0x40, 0xff));
    g.player_health = -20;
    g.render(&mut frame);
    assert_eq!(pixel(&frame, 220, 10, 10), (0x40, 0x40, 0x40, 0xff));
    g.player_health = 1;
    g.render(&mut frame);
    assert_eq!(pixel(&frame, 220, 11, 10), (0xff, 0x40, 0x40, 0xff));
    assert_eq!(pixel(&frame, 220, 12, 10), (0x40, 0x40, 0x40, 0xff));
}

#[test]
fn health_bar_is_cut_off_by_a_small_frame() {
    let mut g = Game::new(15, 12);
    let mut frame = vec![7u8; 15 * 12 * 4];
    g.render(&mut frame);
    for y in 0..12 {
        for x in 0..15 {
            let expected = if x >= 10 && y >= 10 { (0xff, 0x40, 0x40, 0xff) } else { (7, 7, 7, 7) };
            assert_eq!(pixel(&frame, 15, x, y), expected);
        }
    }
}

#[test]
fn weapon_is_loaded_from_two_pictures() {
    let mut g = Game::new(320, 200);
    let idle = png_bytes(1, 1, &[1, 2, 3, 4]);
    let fire = png_bytes(1, 1, &[5, 6, 7, 8]);
    assert_eq!(g.load_weapon(&idle, &fire), Ok(()));
    let w = g.weapon.as_ref().unwrap();
    assert_eq!(w.idle_texture.get_pixel(0, 0), 0x0102_0304);
    assert_eq!(w.fire_texture.get_pixel(0, 0), 0x0506_0708);
    assert!(!w.firing);
}

#[test]
fn weapon_is_not_loaded_from_garbage() {
    let mut g = Game::new(320, 200);
    let idle = png_bytes(1, 1, &[1, 2, 3, 4]);
    assert!(g.load_weapon(&idle, &[1, 2, 3]).is_err());
    assert!(g.weapon.is_none());
    assert!(g.load_weapon(&[1, 2, 3], &idle).is_err());
    assert!(g.weapon.is_none());
}
