//! The player's weapon: when it may fire, and its picture at the bottom of
//! the screen.

use vstd::prelude::*;
use crate::engine::frame::{channel, frame_fits, frame_pixel, put_pixel, read_pixel, unpack, Rgba};
use crate::engine::texture::Texture;
use crate::fixed::{lemma_mul_bound, SCALE};

verus! {

/// Least time between two shots.
pub const FIRE_COOLDOWN: u64 = 500_000;

/// How long the firing picture is shown after a shot.
pub const FIRE_DISPLAY: u64 = 100_000;

/// By how much the clock of the weapon's sway runs faster than time.
pub const BOB_RATE: u64 = 5;

/// Largest sway of the weapon, in pixels.
pub const BOB_HEIGHT: i64 = 5;

pub struct Weapon {
    pub idle_texture: Texture,
    pub fire_texture: Texture,
    pub firing: bool,
    /// Time since the last shot.
    pub since_shot: u64,
    /// By how many pixels the picture is lowered.
    pub bob_offset: u32,
    /// The clock of the sway; it runs while the player moves.
    pub bob_time: u64,
}

/// `a + b`, or the largest value where that is too large.
pub open spec fn capped_sum(a: u64, b: int) -> u64 {
    if a + b > u64::MAX {
        u64::MAX
    } else {
        (a + b) as u64
    }
}

/// Adds up to the largest value.
pub fn add_capped(a: u64, b: u64) -> (r: u64)
    ensures
        r == capped_sum(a, b as int),
{
    if a > u64::MAX - b {
        u64::MAX
    } else {
        a + b
    }
}

/// A colour value of the weapon's picture laid over `bg` with opacity
/// `alpha`.
pub open spec fn blend(fg: u8, bg: u8, alpha: u8) -> u8 {
    ((fg * alpha + bg * (255 - alpha)) / 255) as u8
}

/// Lays one colour value over another.
pub fn blend_channel(fg: u8, bg: u8, alpha: u8) -> (r: u8)
    ensures
        r == blend(fg, bg, alpha),
{
    let a: u32 = alpha as u32;
    assert(fg * alpha + bg * (255 - alpha) <= 255 * 255) by (nonlinear_arith)
        requires
            0 <= fg <= 255,
            0 <= bg <= 255,
            0 <= alpha <= 255,
    ;
    assert(0 <= fg * alpha && 0 <= bg * (255 - alpha)) by (nonlinear_arith)
        requires
            0 <= fg <= 255,
            0 <= bg <= 255,
            0 <= alpha <= 255,
    ;
    let v: u32 = ((fg as u32) * a + (bg as u32) * (255 - a)) / 255;
    v as u8
}

impl Weapon {
    pub open spec fn wf(&self) -> bool {
        self.idle_texture.wf() && self.fire_texture.wf()
    }

    /// The picture that shows now.
    pub open spec fn picture(&self) -> Texture {
        if self.firing {
            self.fire_texture
        } else {
            self.idle_texture
        }
    }

    /// The clock of the sway after `dt`.
    pub open spec fn next_bob(&self, dt: u64, moving: bool) -> u64 {
        if moving {
            capped_sum(self.bob_time, dt * BOB_RATE)
        } else {
            0
        }
    }

    /// By how many pixels the picture is lowered when the sine of the
    /// sway's clock is `bob_sine`.
    pub open spec fn sway(bob_sine: i64, moving: bool) -> u32 {
        if moving {
            (((if bob_sine < 0 {
                -bob_sine
            } else {
                bob_sine as int
            }) * BOB_HEIGHT) / (SCALE as int)) as u32
        } else {
            0
        }
    }

    /// The weapon after `dt`.
    pub open spec fn ticked(self, dt: u64, moving: bool, bob_sine: i64) -> Weapon {
        Weapon {
            since_shot: capped_sum(self.since_shot, dt as int),
            bob_time: self.next_bob(dt, moving),
            bob_offset: Self::sway(bob_sine, moving),
            firing: self.firing && !(capped_sum(self.since_shot, dt as int) > FIRE_DISPLAY),
            ..self
        }
    }

    /// The weapon after the trigger was pulled: fired, if
    /// [`FIRE_COOLDOWN`] has passed since the last shot.
    pub open spec fn triggered(self) -> Weapon {
        if self.since_shot >= FIRE_COOLDOWN {
            Weapon { firing: true, since_shot: 0, ..self }
        } else {
            self
        }
    }

    /// The width of the picture on the screen: a third of the screen.
    pub open spec fn shown_width(width: int) -> int {
        width / 3
    }

    /// The height of the picture on the screen, in proportion.
    pub open spec fn shown_height(&self, width: int) -> int {
        (Self::shown_width(width) * self.picture().height) / (self.picture().width as int)
    }

    pub open spec fn shown_left(width: int) -> int {
        (width - Self::shown_width(width)) / 2
    }

    /// The top row of the picture: it stands on the bottom edge, lowered by
    /// the sway.
    pub open spec fn shown_top(&self, width: int, height: int) -> int {
        height - self.shown_height(width) + self.bob_offset
    }

    /// Pixel (`x`, `y`) of the frame with the weapon drawn over `under`:
    /// inside the picture's rectangle an opaque pixel of the picture
    /// replaces what is there, a half transparent one is blended with it,
    /// and a fully transparent one leaves it.
    pub open spec fn over(&self, width: int, height: int, under: Rgba, x: int, y: int) -> Rgba {
        let t = self.picture();
        let ww = Self::shown_width(width);
        let wh = self.shown_height(width);
        let left = Self::shown_left(width);
        let top = self.shown_top(width, height);
        if t.width > 0 && left <= x < left + ww && top <= y < top + wh {
            let color = t.texel(((x - left) * t.width) / ww, ((y - top) * t.height) / wh);
            let alpha = channel(color, 0);
            if alpha == 0 {
                under
            } else if alpha == 255 {
                Rgba { r: channel(color, 24), g: channel(color, 16), b: channel(color, 8), a: 255 }
            } else {
                Rgba {
                    r: blend(channel(color, 24), under.r, alpha),
                    g: blend(channel(color, 16), under.g, alpha),
                    b: blend(channel(color, 8), under.b, alpha),
                    a: 255,
                }
            }
        } else {
            under
        }
    }

    /// A weapon at rest that has just been fired: it is ready after
    /// [`FIRE_COOLDOWN`].
    pub fn new(idle_texture: Texture, fire_texture: Texture) -> (w: Weapon)
        ensures
            w.idle_texture == idle_texture,
            w.fire_texture == fire_texture,
            !w.firing,
            w.since_shot == 0,
            w.bob_offset == 0,
            w.bob_time == 0,
    {
        Weapon { idle_texture, fire_texture, firing: false, since_shot: 0, bob_offset: 0, bob_time: 0 }
    }

    /// The clock of the sway after `dt`: what the sine handed to
    /// [`Weapon::update`] is taken of.
    pub fn next_bob_time(&self, dt: u64, moving: bool) -> (t: u64)
        ensures
            t == self.next_bob(dt, moving),
    {
        if moving {
            if dt > u64::MAX / BOB_RATE {
                u64::MAX
            } else {
                add_capped(self.bob_time, dt * BOB_RATE)
            }
        } else {
            0
        }
    }

    /// Lets `dt` pass. While the player moves the weapon sways: `bob_sine`
    /// is the sine of the sway's clock after `dt`, in fixed-point, and the
    /// picture is lowered by its magnitude times [`BOB_HEIGHT`] pixels. At
    /// rest the sway stops. The firing picture is taken down once
    /// [`FIRE_DISPLAY`] has passed since the shot.
    pub fn update(&mut self, dt: u64, moving: bool, bob_sine: i64)
        requires
            -SCALE <= bob_sine <= SCALE,
        ensures
            *final(self) == old(self).ticked(dt, moving, bob_sine),
            final(self).wf() == old(self).wf(),
    {
        self.bob_time = self.next_bob_time(dt, moving);
        if moving {
            let m: i64 = if bob_sine < 0 {
                -bob_sine
            } else {
                bob_sine
            };
            self.bob_offset = ((m * BOB_HEIGHT) / SCALE) as u32;
        } else {
            self.bob_offset = 0;
        }
        self.since_shot = add_capped(self.since_shot, dt);
        if self.firing && self.since_shot > FIRE_DISPLAY {
            self.firing = false;
        }
    }

    /// Fires, if [`FIRE_COOLDOWN`] has passed since the last shot, and says
    /// whether it did.
    pub fn fire(&mut self) -> (fired: bool)
        ensures
            fired == (old(self).since_shot >= FIRE_COOLDOWN),
            *final(self) == old(self).triggered(),
            final(self).wf() == old(self).wf(),
    {
        if self.since_shot >= FIRE_COOLDOWN {
            self.firing = true;
            self.since_shot = 0;
            true
        } else {
            false
        }
    }

    /// Draws the weapon over the frame, a third of the screen wide, centred
    /// on the bottom edge.
    pub fn render(&self, frame: &mut [u8], width: u32, height: u32)
        requires
            self.wf(),
            frame_fits(old(frame)@, width as int, height as int),
        ensures
            final(frame)@.len() == old(frame)@.len(),
            forall|x: int, y: int|
                0 <= x < width && 0 <= y < height ==> #[trigger] frame_pixel(final(frame)@, width as int, x, y)
                    == self.over(
                    width as int,
                    height as int,
                    frame_pixel(old(frame)@, width as int, x, y),
                    x,
                    y,
                ),
    {
        let texture: &Texture = if self.firing {
            &self.fire_texture
        } else {
            &self.idle_texture
        };
        if texture.width == 0 {
            return ;
        }
        let ww: i64 = (width / 3) as i64;
        proof {
            lemma_mul_bound(ww as int, texture.height as int, 0x5555_5555, 0xffff_ffff);
        }
        let wh: i64 = (ww * (texture.height as i64)) / (texture.width as i64);
        let left: i64 = ((width as i64) - ww) / 2;
        let top: i64 = (height as i64) - wh + (self.bob_offset as i64);
        let ya: i64 = if top < 0 {
            0
        } else {
            top
        };
        let yb: i64 = if top + wh > height as i64 {
            height as i64
        } else {
            top + wh
        };
        if ww == 0 || ya >= yb {
            return ;
        }
        let ghost base: Seq<u8> = frame@;
        let ghost w: int = width as int;
        let ghost h: int = height as int;
        let mut y: i64 = ya;
        while y < yb
            invariant
                0 <= ya <= y <= yb <= height,
                w == width,
                h == height,
                self.wf(),
                *texture == self.picture(),
                texture.width > 0,
                ww == Self::shown_width(w),
                ww > 0,
                wh == self.shown_height(w),
                left == Self::shown_left(w),
                0 <= left,
                left + ww <= width,
                top == self.shown_top(w, h),
                ya == if top < 0 {
                    0
                } else {
                    top as int
                },
                yb == if top + wh > h {
                    h
                } else {
                    top + wh
                },
                0 <= wh <= 0x5555_5555 * 0xffff_ffff,
                frame_fits(frame@, w, h),
                frame@.len() == base.len(),
                forall|x2: int, y2: int|
                    0 <= x2 < w && 0 <= y2 < h ==> #[trigger] frame_pixel(frame@, w, x2, y2) == if y2 < y {
                        self.over(w, h, frame_pixel(base, w, x2, y2), x2, y2)
                    } else {
                        frame_pixel(base, w, x2, y2)
                    },
            decreases yb - y,
        {
            let mut x: i64 = 0;
            while x < ww
                invariant
                    0 <= ya <= y < yb <= height,
                    0 <= x <= ww,
                    w == width,
                    h == height,
                    self.wf(),
                    *texture == self.picture(),
                    texture.width > 0,
                    ww == Self::shown_width(w),
                    ww > 0,
                    wh == self.shown_height(w),
                    left == Self::shown_left(w),
                    0 <= left,
                    left + ww <= width,
                    top == self.shown_top(w, h),
                    top <= y < top + wh,
                    0 <= wh <= 0x5555_5555 * 0xffff_ffff,
                    frame_fits(frame@, w, h),
                    frame@.len() == base.len(),
                    forall|x2: int, y2: int|
                        0 <= x2 < w && 0 <= y2 < h ==> #[trigger] frame_pixel(frame@, w, x2, y2) == if y2
                            < y || (y2 == y && x2 < left + x) {
                            self.over(w, h, frame_pixel(base, w, x2, y2), x2, y2)
                        } else {
                            frame_pixel(base, w, x2, y2)
                        },
                decreases ww - x,
            {
                proof {
                    lemma_mul_bound(x as int, texture.width as int, 0x5555_5555, 0xffff_ffff);
                    lemma_mul_bound(y - top, texture.height as int, 0x5555_5555int * 0xffff_ffffint, 0xffff_ffff);
                }
                let u: i64 = (x * (texture.width as i64)) / ww;
                let v: i128 = (((y - top) as i128) * (texture.height as i128)) / (wh as i128);
                let color: u32 = if u <= 0xffff_ffff && 0 <= v && v <= 0xffff_ffff {
                    texture.get_pixel(u as u32, v as u32)
                } else {
                    0
                };
                let c: Rgba = unpack(color);
                if c.a > 0 {
                    let px: u32 = (left + x) as u32;
                    if c.a == 255 {
                        put_pixel(frame, width, height, px, y as u32, c);
                    } else {
                        let bg: Rgba = read_pixel(frame, width, height, px, y as u32);
                        let mixed = Rgba {
                            r: blend_channel(c.r, bg.r, c.a),
                            g: blend_channel(c.g, bg.g, c.a),
                            b: blend_channel(c.b, bg.b, c.a),
                            a: 255,
                        };
                        put_pixel(frame, width, height, px, y as u32, mixed);
                    }
                }
                x = x + 1;
            }
            y = y + 1;
        }
    }
}

} // verus!
