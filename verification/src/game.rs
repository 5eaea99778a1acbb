//! The simulation: enemies, projectiles, the weapon and the world.

pub mod ai;
pub mod maps;
pub mod particle;
pub mod state;

pub mod weapon;
pub mod world;

pub use ai::enemy::Enemy;
pub use particle::{Particle, ParticleSystem};
pub use weapon::Weapon;

use vstd::prelude::*;
use crate::engine::frame::{frame_fits, frame_pixel, put_pixel, Rgba};
use crate::engine::texture::{decoded_image, image_error_text, image_fits, Texture};
use crate::fixed::{clamp_i32, clamp_to_i32};
use crate::game::particle::survivors;

verus! {

/// Width of the health bar, in pixels.
pub const BAR_WIDTH: u32 = 200;

/// Height of the health bar.
pub const BAR_HEIGHT: u32 = 20;

/// Distance of the health bar from the left and the top edge.
pub const BAR_PADDING: u32 = 10;

/// The player's health when it is full.
pub const FULL_HEALTH: i32 = 100;

/// The player's side of the game: health, weapon and the particles in
/// flight.
pub struct Game {
    pub width: u32,
    pub height: u32,
    pub weapon: Option<Weapon>,
    pub particles: ParticleSystem,
    pub player_health: i32,
}

/// How many pixels of the bar are filled at the given health: two for each
/// point.
pub open spec fn bar_fill(health: i32) -> int {
    if health <= 0 {
        0
    } else {
        (BAR_WIDTH * health) / (FULL_HEALTH as int)
    }
}

/// Pixel (`x`, `y`) of the frame with the health bar drawn over `under`: a
/// dark bar, filled with red from the left.
pub open spec fn with_health_bar(health: i32, under: Rgba, x: int, y: int) -> Rgba {
    if BAR_PADDING <= y < BAR_PADDING + BAR_HEIGHT && BAR_PADDING <= x && x - BAR_PADDING < bar_fill(
        health,
    ) {
        Rgba { r: 0xff, g: 0x40, b: 0x40, a: 0xff }
    } else if BAR_PADDING <= y < BAR_PADDING + BAR_HEIGHT && BAR_PADDING <= x < BAR_PADDING + BAR_WIDTH {
        Rgba { r: 0x40, g: 0x40, b: 0x40, a: 0xff }
    } else {
        under
    }
}

impl Game {
    pub open spec fn wf(&self) -> bool {
        &&& self.particles.wf()
        &&& self.weapon matches Some(w) ==> w.wf()
    }

    /// A game for a screen of the given size: full health, no weapon, no
    /// particles.
    pub fn new(width: u32, height: u32) -> (g: Game)
        ensures
            g.width == width,
            g.height == height,
            g.weapon is None,
            g.particles@.len() == 0,
            g.player_health == FULL_HEALTH,
            g.wf(),
    {
        Game { width, height, weapon: None, particles: ParticleSystem::new(), player_health: 100 }
    }

    /// Decodes the two pictures of the weapon and takes it up; on an error
    /// the game is unchanged.
    pub fn load_weapon(&mut self, idle_data: &[u8], fire_data: &[u8]) -> (r: Result<(), String>)
        ensures
            r is Ok <==> image_fits(decoded_image(idle_data@)) && image_fits(decoded_image(fire_data@)),
            r is Ok ==> {
                &&& final(self).weapon matches Some(w)
                &&& decoded_image(idle_data@) matches Ok((iw, ih, ib)) && w.idle_texture.shows(iw, ih, ib)
                &&& decoded_image(fire_data@) matches Ok((fw, fh, fb)) && w.fire_texture.shows(fw, fh, fb)
                &&& !w.firing && w.since_shot == 0 && w.bob_offset == 0 && w.bob_time == 0
            },
            r matches Err(e) ==> {
                &&& final(self).weapon == old(self).weapon
                &&& e@ == if !image_fits(decoded_image(idle_data@)) {
                    image_error_text(decoded_image(idle_data@))
                } else {
                    image_error_text(decoded_image(fire_data@))
                }
            },
            final(self).width == old(self).width,
            final(self).height == old(self).height,
            final(self).particles == old(self).particles,
            final(self).player_health == old(self).player_health,
    {
        let idle_texture = match Texture::load(idle_data) {
            Ok(t) => t,
            Err(e) => {
                return Err(e);
            },
        };
        let fire_texture = match Texture::load(fire_data) {
            Ok(t) => t,
            Err(e) => {
                return Err(e);
            },
        };
        self.weapon = Some(Weapon::new(idle_texture, fire_texture));
        Ok(())
    }

    /// Lets the particles fly for `dt`.
    pub fn update(&mut self, dt: u64, map: &[Vec<i32>])
        requires
            old(self).wf(),
        ensures
            final(self).wf(),
            final(self).particles@ == survivors(old(self).particles@, dt, map@),
            final(self).width == old(self).width,
            final(self).height == old(self).height,
            final(self).weapon == old(self).weapon,
            final(self).player_health == old(self).player_health,
    {
        self.particles.update(dt, map);
    }

    /// Draws the health bar over the frame.
    pub fn render(&mut self, frame: &mut [u8])
        requires
            frame_fits(old(frame)@, old(self).width as int, old(self).height as int),
        ensures
            *final(self) == *old(self),
            final(frame)@.len() == old(frame)@.len(),
            forall|x: int, y: int|
                0 <= x < old(self).width && 0 <= y < old(self).height ==> #[trigger] frame_pixel(
                    final(frame)@,
                    old(self).width as int,
                    x,
                    y,
                ) == with_health_bar(
                    old(self).player_health,
                    frame_pixel(old(frame)@, old(self).width as int, x, y),
                    x,
                    y,
                ),
    {
        self.render_health_bar(frame);
    }

    /// Draws the health bar over the frame, as far as the frame reaches.
    pub fn render_health_bar(&self, frame: &mut [u8])
        requires
            frame_fits(old(frame)@, self.width as int, self.height as int),
        ensures
            final(frame)@.len() == old(frame)@.len(),
            forall|x: int, y: int|
                0 <= x < self.width && 0 <= y < self.height ==> #[trigger] frame_pixel(
                    final(frame)@,
                    self.width as int,
                    x,
                    y,
                ) == with_health_bar(
                    self.player_health,
                    frame_pixel(old(frame)@, self.width as int, x, y),
                    x,
                    y,
                ),
    {
        let width: u32 = self.width;
        let height: u32 = self.height;
        let fill: i64 = if self.player_health <= 0 {
            0
        } else {
            (200 * (self.player_health as i64)) / 100
        };
        let reach: i64 = if fill > BAR_WIDTH as i64 {
            fill
        } else {
            BAR_WIDTH as i64
        };
        let ghost base: Seq<u8> = frame@;
        let ghost w: int = width as int;
        let ghost h: int = height as int;
        let mut y: u32 = BAR_PADDING;
        while y < BAR_PADDING + BAR_HEIGHT && y < height
            invariant
                BAR_PADDING <= y <= BAR_PADDING + BAR_HEIGHT,
                w == width,
                h == height,
                width == self.width,
                height == self.height,
                fill == bar_fill(self.player_health),
                reach == if fill > BAR_WIDTH {
                    fill as int
                } else {
                    BAR_WIDTH as int
                },
                frame_fits(frame@, w, h),
                frame@.len() == base.len(),
                forall|x2: int, y2: int|
                    0 <= x2 < w && 0 <= y2 < h ==> #[trigger] frame_pixel(frame@, w, x2, y2) == if y2 < y {
                        with_health_bar(self.player_health, frame_pixel(base, w, x2, y2), x2, y2)
                    } else {
                        frame_pixel(base, w, x2, y2)
                    },
            decreases BAR_PADDING + BAR_HEIGHT - y,
        {
            let mut x: u32 = BAR_PADDING;
            while x < width && ((x - BAR_PADDING) as i64) < reach
                invariant
                    BAR_PADDING <= x,
                    x <= width || x == BAR_PADDING,
                    BAR_PADDING <= y < BAR_PADDING + BAR_HEIGHT,
                    y < height,
                    w == width,
                    h == height,
                    width == self.width,
                    height == self.height,
                    fill == bar_fill(self.player_health),
                    reach == if fill > BAR_WIDTH {
                        fill as int
                    } else {
                        BAR_WIDTH as int
                    },
                    frame_fits(frame@, w, h),
                    frame@.len() == base.len(),
                    forall|x2: int, y2: int|
                        0 <= x2 < w && 0 <= y2 < h ==> #[trigger] frame_pixel(frame@, w, x2, y2) == if y2
                            < y || (y2 == y && x2 < x) {
                            with_health_bar(self.player_health, frame_pixel(base, w, x2, y2), x2, y2)
                        } else {
                            frame_pixel(base, w, x2, y2)
                        },
                decreases width - x,
            {
                let c: Rgba = if ((x - BAR_PADDING) as i64) < fill {
                    Rgba { r: 0xff, g: 0x40, b: 0x40, a: 0xff }
                } else {
                    Rgba { r: 0x40, g: 0x40, b: 0x40, a: 0xff }
                };
                put_pixel(frame, width, height, x, y, c);
                x = x + 1;
            }
            y = y + 1;
        }
    }

    /// Reacts to the player's input; there is none to react to here.
    pub fn handle_input(&mut self)
        ensures
            *final(self) == *old(self),
    {
    }

    /// Takes `amount` off the player's health, which does not fall below
    /// zero.
    pub fn take_damage(&mut self, amount: i32)
        ensures
            final(self).player_health == clamp_i32(
                if old(self).player_health - amount < 0 {
                    0
                } else {
                    old(self).player_health - amount
                },
            ),
            final(self).width == old(self).width,
            final(self).height == old(self).height,
            final(self).weapon == old(self).weapon,
            final(self).particles == old(self).particles,
    {
        let left: i128 = (self.player_health as i128) - (amount as i128);
        self.player_health = clamp_to_i32(
            if left < 0 {
                0
            } else {
                left
            },
        );
    }

    pub fn is_alive(&self) -> (b: bool)
        ensures
            b == (self.player_health > 0),
    {
        self.player_health > 0
    }

    /// Adds `amount` to the player's health, which does not rise above
    /// [`FULL_HEALTH`].
    pub fn heal(&mut self, amount: i32)
        ensures
            final(self).player_health == clamp_i32(
                if old(self).player_health + amount > FULL_HEALTH {
                    FULL_HEALTH as int
                } else {
                    old(self).player_health + amount
                },
            ),
            final(self).width == old(self).width,
            final(self).height == old(self).height,
            final(self).weapon == old(self).weapon,
            final(self).particles == old(self).particles,
    {
        let sum: i128 = (self.player_health as i128) + (amount as i128);
        self.player_health = clamp_to_i32(
            if sum > FULL_HEALTH as i128 {
                FULL_HEALTH as i128
            } else {
                sum
            },
        );
    }
}

} // verus!
