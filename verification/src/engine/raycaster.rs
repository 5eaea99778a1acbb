//! The raycaster: one ray for each screen column finds the wall to draw
//! and its distance, which then hides the billboards behind it.

use vstd::prelude::*;
use crate::engine::billboard::{
    all_placed, at_least, at_most, depth_keys, draw_billboards, paint_order, painted, Billboard,
};
use crate::engine::camera::Camera;
use crate::engine::frame::{
    falloff, frame_fits, frame_pixel, light_at, put_pixel, shade, shade_color, Rgba,
};
use crate::engine::ray::{cast_ray, ray_cast, ray_vector, RayHit};
use crate::engine::texture::{
    decoded_image, image_error_text, image_fits, Texture, TextureCache,
};
use crate::fixed::{div_floor, fx_mul, lemma_div_bound, lemma_mul_bound, scale_mul, Vec2, SCALE};
use crate::game::ai::enemy::Enemy;
use crate::game::particle::{all_in_world, Particle};
use crate::grid::{grid_wf, GRID_MAX};

verus! {

/// Largest height of a wall on the screen, in pixels.
pub const LINE_MAX: i64 = 0x7fff_ffff;

/// The pixel of the cleared frame in row `y`: dark grey ceiling in the
/// upper half, light grey floor in the lower.
pub open spec fn background(height: int, y: int) -> Rgba {
    if y < height / 2 {
        Rgba { r: 0x40, g: 0x40, b: 0x40, a: 0xff }
    } else {
        Rgba { r: 0x80, g: 0x80, b: 0x80, a: 0xff }
    }
}

/// Where column `x` lies across the screen, from minus one at the left
/// edge towards one at the right.
pub open spec fn camera_x(width: int, x: int) -> int {
    (2 * x * SCALE) / width - SCALE
}

/// The direction of the ray through screen column `x`.
pub open spec fn column_ray(camera: Camera, width: int, x: int) -> Vec2 {
    Vec2 {
        x: (camera.direction.x + fx_mul(camera.plane.x as int, camera_x(width, x))) as i64,
        y: (camera.direction.y + fx_mul(camera.plane.y as int, camera_x(width, x))) as i64,
    }
}

/// The height on the screen of a wall at `distance`: the screen's height at
/// distance one, and less in proportion to the distance.
pub open spec fn line_height(height: int, distance: int) -> int {
    if distance <= 0 {
        LINE_MAX as int
    } else {
        at_most((height * SCALE) / distance, LINE_MAX as int)
    }
}

/// The first row of a wall of height `lh`, centred on the middle of the
/// screen.
pub open spec fn span_start(height: int, lh: int) -> int {
    at_least(height / 2 - lh / 2, 0)
}

/// The row after the last row of a wall of height `lh`.
pub open spec fn span_end(height: int, lh: int) -> int {
    at_most(height / 2 + lh / 2, height)
}

/// Where along the face of its cell the ray met the wall, as a fraction of
/// the cell's side.
pub open spec fn wall_u(camera: Camera, ray: Vec2, hit: RayHit) -> int {
    let along = if hit.side == 0 {
        camera.position.y + fx_mul(hit.distance as int, ray.y as int)
    } else {
        camera.position.x + fx_mul(hit.distance as int, ray.x as int)
    };
    along % (SCALE as int)
}

/// The texture row that shows in screen row `y` of a wall of height `lh`.
pub open spec fn texture_row(height: int, lh: int, tex_height: int, y: int) -> int {
    ((at_least(y * 256 - height * 128 + lh * 128, 0) * tex_height) / lh) / 256
}

/// The light on a wall: less with distance, and seven tenths of that on
/// faces entered along y.
pub open spec fn wall_light(hit: RayHit) -> int {
    let f = falloff(hit.distance as int, 10);
    if hit.side == 1 {
        (f * 7) / 10
    } else {
        f
    }
}

/// The pixel of a wall in screen row `y`.
pub open spec fn wall_pixel(texture: Texture, camera: Camera, ray: Vec2, hit: RayHit, height: int, y: int) -> Rgba {
    shade_color(
        texture.texel(
            (wall_u(camera, ray, hit) * texture.width) / (SCALE as int),
            texture_row(height, line_height(height, hit.distance as int), texture.height as int, y),
        ),
        wall_light(hit),
    )
}

/// The billboards of a scene: the enemies, then the particles, which glow.
pub open spec fn billboards(enemies: Seq<Enemy>, particles: Seq<Particle>) -> Seq<Billboard> {
    Seq::new(
        enemies.len() + particles.len(),
        |i: int|
            if i < enemies.len() {
                Billboard { position: enemies[i].position, texture: enemies[i].texture, glow: false }
            } else {
                Billboard {
                    position: particles[i - enemies.len()].position,
                    texture: particles[i - enemies.len()].texture,
                    glow: true,
                }
            },
    )
}

/// Every enemy stands in the world.
pub open spec fn enemies_placed(enemies: Seq<Enemy>) -> bool {
    forall|i: int| 0 <= i < enemies.len() ==> (#[trigger] enemies[i]).position.wf()
}

/// Computes the direction of the ray through screen column `x`.
pub fn column_ray_of(camera: &Camera, width: u32, x: u32) -> (ray: Vec2)
    requires
        camera.wf(),
        x < width,
    ensures
        ray == column_ray(*camera, width as int, x as int),
        ray_vector(ray),
{
    let cx: i64 = (2 * (x as i64) * SCALE) / (width as i64) - SCALE;
    proof {
        let n: int = 2 * x * SCALE;
        let w: int = width as int;
        assert(n == 2_000_000 * x);
        assert(0 <= n / w < 2_000_000) by (nonlinear_arith)
            requires
                0 <= n,
                n < 2_000_000 * w,
                w > 0,
        ;
        lemma_mul_bound(camera.plane.x as int, cx as int, 4_000_000, 1_000_000);
        lemma_mul_bound(camera.plane.y as int, cx as int, 4_000_000, 1_000_000);
    }
    let px: i128 = scale_mul(camera.plane.x, cx);
    let py: i128 = scale_mul(camera.plane.y, cx);
    Vec2 { x: (camera.direction.x as i128 + px) as i64, y: (camera.direction.y as i128 + py) as i64 }
}

/// Fills the frame with ceiling and floor.
pub fn clear_frame(frame: &mut [u8], width: u32, height: u32)
    requires
        frame_fits(old(frame)@, width as int, height as int),
    ensures
        final(frame)@.len() == old(frame)@.len(),
        forall|x: int, y: int|
            0 <= x < width && 0 <= y < height ==> #[trigger] frame_pixel(final(frame)@, width as int, x, y)
                == background(height as int, y),
{
    let ghost w: int = width as int;
    let ghost h: int = height as int;
    let mut y: u32 = 0;
    while y < height
        invariant
            y <= height,
            w == width,
            h == height,
            frame_fits(frame@, w, h),
            frame@.len() == old(frame)@.len(),
            forall|x2: int, y2: int|
                0 <= x2 < w && 0 <= y2 < y ==> #[trigger] frame_pixel(frame@, w, x2, y2) == background(
                    h,
                    y2,
                ),
        decreases height - y,
    {
        let c: Rgba = if y < height / 2 {
            Rgba { r: 0x40, g: 0x40, b: 0x40, a: 0xff }
        } else {
            Rgba { r: 0x80, g: 0x80, b: 0x80, a: 0xff }
        };
        let mut x: u32 = 0;
        while x < width
            invariant
                x <= width,
                y < height,
                w == width,
                h == height,
                c == background(h, y as int),
                frame_fits(frame@, w, h),
                frame@.len() == old(frame)@.len(),
                forall|x2: int, y2: int|
                    0 <= x2 < w && (0 <= y2 < y || (y2 == y && x2 < x)) ==> #[trigger] frame_pixel(
                        frame@,
                        w,
                        x2,
                        y2,
                    ) == background(h, y2),
            decreases width - x,
        {
            put_pixel(frame, width, height, x, y, c);
            x = x + 1;
        }
        y = y + 1;
    }
}

/// Draws the wall that a ray met into screen column `x`.
pub fn draw_wall_column(
    frame: &mut [u8],
    width: u32,
    height: u32,
    x: u32,
    camera: &Camera,
    ray: Vec2,
    hit: RayHit,
    texture: &Texture,
)
    requires
        frame_fits(old(frame)@, width as int, height as int),
        x < width,
        camera.wf(),
        ray_vector(ray),
        0 <= hit.distance <= (GRID_MAX + 1) * SCALE * SCALE,
        texture.wf(),
    ensures
        final(frame)@.len() == old(frame)@.len(),
        forall|x2: int, y2: int|
            0 <= x2 < width && 0 <= y2 < height ==> #[trigger] frame_pixel(
                final(frame)@,
                width as int,
                x2,
                y2,
            ) == if x2 == x && span_start(height as int, line_height(height as int, hit.distance as int))
                <= y2 < span_end(height as int, line_height(height as int, hit.distance as int)) {
                wall_pixel(*texture, *camera, ray, hit, height as int, y2)
            } else {
                frame_pixel(old(frame)@, width as int, x2, y2)
            },
{
    let h: i64 = height as i64;
    let lh: i64 = if hit.distance <= 0 {
        LINE_MAX
    } else {
        let raw: i64 = (h * SCALE) / hit.distance;
        if raw > LINE_MAX {
            LINE_MAX
        } else {
            raw
        }
    };
    assert(lh == line_height(height as int, hit.distance as int));
    assert(0 <= lh <= LINE_MAX) by {
        if hit.distance > 0 {
            lemma_div_bound(h * SCALE, hit.distance as int, h * SCALE);
        }
    }
    let top: i64 = h / 2 - lh / 2;
    let start: i64 = if top < 0 {
        0
    } else {
        top
    };
    let bottom: i64 = h / 2 + lh / 2;
    let end: i64 = if bottom > h {
        h
    } else {
        bottom
    };
    if start >= end {
        return ;
    }
    let f: i64 = light_at(hit.distance as i128, 10);
    let light: i64 = if hit.side == 1 {
        (f * 7) / 10
    } else {
        f
    };
    let dir: i64 = if hit.side == 0 {
        ray.y
    } else {
        ray.x
    };
    let base: i64 = if hit.side == 0 {
        camera.position.y
    } else {
        camera.position.x
    };
    let run: i128 = scale_mul(hit.distance, dir);
    proof {
        lemma_mul_bound(hit.distance as int, dir as int, 1_000_001_000_000_000_000, 8_000_000);
    }
    let s: i128 = SCALE as i128;
    let along: i128 = (base as i128) + run;
    let u: i128 = along - div_floor(along, s) * s;
    assert(u == wall_u(*camera, ray, hit));
    proof {
        lemma_mul_bound(u as int, texture.width as int, 1_000_000, 0xffff_ffff);
    }
    let col: i128 = (u * (texture.width as i128)) / s;
    let ghost old_frame: Seq<u8> = frame@;
    let ghost w: int = width as int;
    let ghost hh: int = height as int;
    let mut y: i64 = start;
    while y < end
        invariant
            0 <= start <= y <= end <= h,
            h == height,
            hh == height,
            w == width,
            x < width,
            2 <= lh <= LINE_MAX,
            lh == line_height(hh, hit.distance as int),
            start == span_start(hh, lh as int),
            end == span_end(hh, lh as int),
            0 <= light <= SCALE,
            light == wall_light(hit),
            col == (wall_u(*camera, ray, hit) * texture.width) / (SCALE as int),
            texture.wf(),
            frame_fits(frame@, w, hh),
            frame@.len() == old_frame.len(),
            forall|x2: int, y2: int|
                0 <= x2 < w && 0 <= y2 < hh ==> #[trigger] frame_pixel(frame@, w, x2, y2) == if x2 == x
                    && start <= y2 < y {
                    wall_pixel(*texture, *camera, ray, hit, hh, y2)
                } else {
                    frame_pixel(old_frame, w, x2, y2)
                },
        decreases end - y,
    {
        let d: i64 = y * 256 - h * 128 + lh * 128;
        let dd: i128 = if d < 0 {
            0
        } else {
            d as i128
        };
        proof {
            lemma_mul_bound(dd as int, texture.height as int, 2_000_000_000_000, 0xffff_ffff);
        }
        let row: i128 = ((dd * (texture.height as i128)) / (lh as i128)) / 256;
        let color: u32 = if 0 <= col && col <= 0xffff_ffff && 0 <= row && row <= 0xffff_ffff {
            texture.get_pixel(col as u32, row as u32)
        } else {
            0
        };
        assert(color == texture.texel(col as int, texture_row(hh, lh as int, texture.height as int, y as int)));
        let c: Rgba = shade(color, light);
        put_pixel(frame, width, height, x, y as u32, c);
        y = y + 1;
    }
}

/// The renderer: the screen's size, the map, the wall textures and the
/// distance of the wall in each screen column.
pub struct Raycaster {
    pub width: u32,
    pub height: u32,
    pub z_buffer: Vec<i64>,
    pub map: Vec<Vec<i32>>,
    pub texture_cache: TextureCache,
}

impl Raycaster {
    /// There is one depth for each column, the map is a grid and the
    /// textures are well formed.
    pub open spec fn wf(&self) -> bool {
        &&& self.z_buffer@.len() == self.width
        &&& grid_wf(self.map@)
        &&& self.texture_cache.wf()
    }

    /// What the ray through column `x` meets.
    pub open spec fn hit_at(&self, camera: Camera, x: int) -> Option<RayHit> {
        ray_cast(self.map@, camera.position, column_ray(camera, self.width as int, x))
    }

    /// The distance of the wall in column `x`; where there is no wall,
    /// nothing is hidden.
    pub open spec fn depth_at(&self, camera: Camera, x: int) -> i64 {
        match self.hit_at(camera, x) {
            Some(hit) => hit.distance,
            None => i64::MAX,
        }
    }

    /// The depth of every column.
    pub open spec fn depths(&self, camera: Camera) -> Seq<i64> {
        Seq::new(self.width as nat, |x: int| self.depth_at(camera, x))
    }

    /// Pixel (`x`, `y`) of the scene without billboards: the wall that the
    /// column's ray meets, in the rows that it covers, if its texture
    /// exists; ceiling or floor elsewhere.
    pub open spec fn scene_pixel(&self, camera: Camera, x: int, y: int) -> Rgba {
        let ray = column_ray(camera, self.width as int, x);
        let h = self.height as int;
        match self.hit_at(camera, x) {
            Some(hit) => {
                let code = self.map@[hit.cell_y as int][hit.cell_x as int];
                let lh = line_height(h, hit.distance as int);
                if code - 1 < self.texture_cache@.len() && span_start(h, lh) <= y < span_end(h, lh) {
                    wall_pixel(self.texture_cache@[code - 1], camera, ray, hit, h, y)
                } else {
                    background(h, y)
                }
            },
            None => background(h, y),
        }
    }

    /// Pixel (`x`, `y`) of the finished frame: the scene with the
    /// billboards painted over it from the farthest to the nearest.
    pub open spec fn rendered_pixel(
        &self,
        camera: Camera,
        enemies: Seq<Enemy>,
        particles: Seq<Particle>,
        x: int,
        y: int,
    ) -> Rgba {
        let bbs = billboards(enemies, particles);
        painted(
            self.texture_cache@,
            camera,
            self.width as int,
            self.height as int,
            self.depths(camera),
            self.scene_pixel(camera, x, y),
            bbs,
            paint_order(depth_keys(camera, bbs), bbs.len()),
            bbs.len(),
            x,
            y,
        )
    }

    /// A raycaster for a screen of the given size, with a map of five by
    /// five cells that is empty inside its walls, and no textures.
    pub fn new(width: u32, height: u32) -> (r: Raycaster)
        ensures
            r.wf(),
            r.width == width,
            r.height == height,
            r.texture_cache@.len() == 0,
            r.map@.len() == 5,
            forall|x: int, y: int|
                0 <= x < 5 && 0 <= y < 5 ==> (#[trigger] r.map@[y]@[x]) == if x == 0 || y == 0 || x == 4
                    || y == 4 {
                    1i32
                } else {
                    0i32
                },
            forall|y: int| 0 <= y < 5 ==> (#[trigger] r.map@[y]).len() == 5,
    {
        let mut map: Vec<Vec<i32>> = Vec::new();
        map.push(vec![1, 1, 1, 1, 1]);
        map.push(vec![1, 0, 0, 0, 1]);
        map.push(vec![1, 0, 0, 0, 1]);
        map.push(vec![1, 0, 0, 0, 1]);
        map.push(vec![1, 1, 1, 1, 1]);
        let mut z_buffer: Vec<i64> = Vec::new();
        let mut i: u32 = 0;
        while i < width
            invariant
                i <= width,
                z_buffer@.len() == i,
            decreases width - i,
        {
            z_buffer.push(0);
            i = i + 1;
        }
        Raycaster { width, height, z_buffer, map, texture_cache: TextureCache::new() }
    }

    /// Replaces the map.
    pub fn set_map(&mut self, map: Vec<Vec<i32>>)
        requires
            old(self).wf(),
            grid_wf(map@),
        ensures
            final(self).wf(),
            final(self).map == map,
            final(self).width == old(self).width,
            final(self).height == old(self).height,
            final(self).z_buffer == old(self).z_buffer,
            final(self).texture_cache == old(self).texture_cache,
    {
        self.map = map;
    }

    /// Decodes an encoded image and adds it to the wall textures; a wall
    /// with code `n` shows the texture with index `n - 1`.
    pub fn load_texture(&mut self, data: &[u8]) -> (r: Result<usize, String>)
        requires
            old(self).wf(),
        ensures
            final(self).wf(),
            final(self).map == old(self).map,
            final(self).width == old(self).width,
            final(self).height == old(self).height,
            final(self).z_buffer == old(self).z_buffer,
            r is Ok <==> image_fits(decoded_image(data@)),
            r matches Ok(index) ==> {
                &&& index == old(self).texture_cache@.len()
                &&& final(self).texture_cache@.len() == index + 1
                &&& final(self).texture_cache@.subrange(0, index as int) == old(self).texture_cache@
                &&& decoded_image(data@) matches Ok((w, h, bytes)) && final(self).texture_cache@[index as int].shows(
                    w,
                    h,
                    bytes,
                )
            },
            r matches Err(e) ==> {
                &&& final(self).texture_cache@ == old(self).texture_cache@
                &&& e@ == image_error_text(decoded_image(data@))
            },
    {
        self.texture_cache.load_texture(data)
    }

    /// Draws floor, ceiling and walls, and records the depth of every
    /// column.
    pub fn render_walls(&mut self, camera: &Camera, frame: &mut [u8])
        requires
            old(self).wf(),
            camera.wf(),
            frame_fits(old(frame)@, old(self).width as int, old(self).height as int),
        ensures
            final(self).wf(),
            final(self).width == old(self).width,
            final(self).height == old(self).height,
            final(self).map == old(self).map,
            final(self).texture_cache == old(self).texture_cache,
            final(self).z_buffer@ == old(self).depths(*camera),
            final(frame)@.len() == old(frame)@.len(),
            forall|x: int, y: int|
                0 <= x < old(self).width && 0 <= y < old(self).height ==> #[trigger] frame_pixel(
                    final(frame)@,
                    old(self).width as int,
                    x,
                    y,
                ) == old(self).scene_pixel(*camera, x, y),
    {
        let width: u32 = self.width;
        let height: u32 = self.height;
        clear_frame(frame, width, height);
        let ghost w: int = width as int;
        let ghost h: int = height as int;
        let ghost start: Raycaster = *self;
        let mut x: u32 = 0;
        while x < width
            invariant
                x <= width,
                w == width,
                h == height,
                camera.wf(),
                self.wf(),
                self.width == width,
                self.height == height,
                self.map == start.map,
                self.texture_cache == start.texture_cache,
                start.width == width,
                start.height == height,
                frame_fits(frame@, w, h),
                frame@.len() == old(frame)@.len(),
                forall|x2: int| 0 <= x2 < x ==> #[trigger] self.z_buffer@[x2] == start.depth_at(*camera, x2),
                forall|x2: int, y2: int|
                    0 <= x2 < w && 0 <= y2 < h ==> #[trigger] frame_pixel(frame@, w, x2, y2) == if x2 < x {
                        start.scene_pixel(*camera, x2, y2)
                    } else {
                        background(h, y2)
                    },
            decreases width - x,
        {
            let ray: Vec2 = column_ray_of(camera, width, x);
            match cast_ray(self.map.as_slice(), camera.position, ray) {
                Some(hit) => {
                    self.z_buffer[x as usize] = hit.distance;
                    let code: i32 = self.map[hit.cell_y as usize][hit.cell_x as usize];
                    match self.texture_cache.get_texture((code - 1) as usize) {
                        Some(texture) => {
                            draw_wall_column(frame, width, height, x, camera, ray, hit, texture);
                        },
                        None => {},
                    }
                },
                None => {
                    self.z_buffer[x as usize] = i64::MAX;
                },
            }
            x = x + 1;
        }
        assert(self.z_buffer@ =~= start.depths(*camera));
    }

    /// Renders the scene into the frame, which it overwrites: floor and
    /// ceiling, the walls, then enemies and particles as billboards, from
    /// the farthest to the nearest, each column only where the billboard is
    /// nearer than the wall.
    pub fn render(&mut self, camera: &Camera, enemies: &[Enemy], particles: &[Particle], frame: &mut [u8])
        requires
            old(self).wf(),
            camera.wf(),
            frame_fits(old(frame)@, old(self).width as int, old(self).height as int),
            enemies_placed(enemies@),
            all_in_world(particles@),
        ensures
            final(self).wf(),
            final(self).width == old(self).width,
            final(self).height == old(self).height,
            final(self).map == old(self).map,
            final(self).texture_cache == old(self).texture_cache,
            final(self).z_buffer@ == old(self).depths(*camera),
            final(frame)@.len() == old(frame)@.len(),
            forall|x: int, y: int|
                0 <= x < old(self).width && 0 <= y < old(self).height ==> #[trigger] frame_pixel(
                    final(frame)@,
                    old(self).width as int,
                    x,
                    y,
                ) == old(self).rendered_pixel(*camera, enemies@, particles@, x, y),
    {
        self.render_walls(camera, frame);
        let mut bbs: Vec<Billboard> = Vec::new();
        let mut i: usize = 0;
        while i < enemies.len()
            invariant
                i <= enemies@.len(),
                bbs@.len() == i,
                enemies_placed(enemies@),
                forall|j: int| 0 <= j < i ==> #[trigger] bbs@[j] == billboards(enemies@, particles@)[j],
            decreases enemies@.len() - i,
        {
            bbs.push(Billboard { position: enemies[i].position, texture: enemies[i].texture, glow: false });
            i = i + 1;
        }
        let mut k: usize = 0;
        while k < particles.len()
            invariant
                k <= particles@.len(),
                bbs@.len() == enemies@.len() + k,
                all_in_world(particles@),
                forall|j: int|
                    0 <= j < enemies@.len() + k ==> #[trigger] bbs@[j] == billboards(enemies@, particles@)[j],
            decreases particles@.len() - k,
        {
            bbs.push(Billboard { position: particles[k].position, texture: particles[k].texture, glow: true });
            k = k + 1;
        }
        assert(bbs@ =~= billboards(enemies@, particles@));
        assert(all_placed(bbs@));
        draw_billboards(
            frame,
            self.width,
            self.height,
            self.z_buffer.as_slice(),
            camera,
            &bbs,
            &self.texture_cache,
        );
    }
}

} // verus!
