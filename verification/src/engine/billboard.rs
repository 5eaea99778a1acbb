//! Billboards: flat images that always face the camera. They are painted
//! from the farthest to the nearest, each column only where no wall stands
//! in front of it.

use vstd::prelude::*;
use crate::engine::camera::Camera;
use crate::engine::frame::{
    channel, falloff, frame_fits, frame_pixel, light_at, put_pixel, shade, shade_color, Rgba,
};
use crate::engine::texture::{Texture, TextureCache};
use crate::fixed::{div_floor, lemma_div_bound, lemma_mul_bound, wide_mul, Vec2, SCALE};

verus! {

/// Largest size of a billboard, and largest distance of its centre from the
/// left edge of the screen, in pixels.
pub const SPAN_MAX: i64 = 0x7fff_ffff;

/// An image that stands at a point of the map.
#[derive(Clone, Copy, Debug, PartialEq, Eq, Structural)]
pub struct Billboard {
    pub position: Vec2,
    /// Index of its texture among the textures that it is drawn with.
    pub texture: usize,
    /// A glowing billboard is a tenth as large and dims half as fast.
    pub glow: bool,
}

/// Whether `a` is painted before `b`: it is farther away, or as far and
/// earlier in the list.
pub open spec fn paints_before(keys: Seq<u128>, a: usize, b: usize) -> bool {
    keys[a as int] > keys[b as int] || (keys[a as int] == keys[b as int] && a < b)
}

/// Where `k` goes into `order`: before the first entry that it is painted
/// before.
pub open spec fn insert_point(order: Seq<usize>, keys: Seq<u128>, k: usize) -> int
    decreases order.len(),
{
    if order.len() == 0 || paints_before(keys, k, order[0]) {
        0
    } else {
        1 + insert_point(order.drop_first(), keys, k)
    }
}

/// The order in which the first `n` billboards are painted, given the
/// squared distance of each: by falling distance, and by place in the list
/// among equals.
pub open spec fn paint_order(keys: Seq<u128>, n: nat) -> Seq<usize>
    decreases n,
{
    if n == 0 {
        Seq::empty()
    } else {
        let before = paint_order(keys, (n - 1) as nat);
        before.insert(insert_point(before, keys, (n - 1) as usize), (n - 1) as usize)
    }
}

/// The insertion point lies in the sequence or at its end; nothing before
/// it comes after `k`, and what stands at it does.
pub proof fn lemma_insert_point(order: Seq<usize>, keys: Seq<u128>, k: usize)
    ensures
        0 <= insert_point(order, keys, k) <= order.len(),
        forall|i: int| 0 <= i < insert_point(order, keys, k) ==> !paints_before(keys, k, #[trigger] order[i]),
        insert_point(order, keys, k) < order.len() ==> paints_before(
            keys,
            k,
            order[insert_point(order, keys, k)],
        ),
    decreases order.len(),
{
    if order.len() == 0 || paints_before(keys, k, order[0]) {
    } else {
        let rest = order.drop_first();
        lemma_insert_point(rest, keys, k);
        let j = insert_point(rest, keys, k);
        assert forall|i: int| 0 <= i < 1 + j implies !paints_before(keys, k, #[trigger] order[i]) by {
            if i > 0 {
                assert(order[i] == rest[i - 1]);
            }
        }
        if 1 + j < order.len() {
            assert(order[1 + j] == rest[j]);
        }
    }
}

/// The first index from `j` on at which `k` is painted before the entry is
/// the insertion point, if `k` is painted before nothing in front of it.
pub proof fn lemma_insert_point_found(order: Seq<usize>, keys: Seq<u128>, k: usize, j: int)
    requires
        0 <= j <= order.len(),
        forall|i: int| 0 <= i < j ==> !paints_before(keys, k, #[trigger] order[i]),
        j < order.len() ==> paints_before(keys, k, order[j]),
    ensures
        insert_point(order, keys, k) == j,
    decreases order.len(),
{
    if order.len() == 0 {
    } else if j == 0 {
    } else {
        let rest = order.drop_first();
        assert(!paints_before(keys, k, order[0]));
        assert forall|i: int| 0 <= i < j - 1 implies !paints_before(keys, k, #[trigger] rest[i]) by {
            assert(rest[i] == order[i + 1]);
        }
        if j - 1 < rest.len() {
            assert(rest[j - 1] == order[j]);
        }
        lemma_insert_point_found(rest, keys, k, j - 1);
    }
}

/// The paint order names each of the first `n` billboards once, and each
/// entry is painted before all that follow it.
pub proof fn lemma_paint_order_sorted(keys: Seq<u128>, n: nat)
    requires
        n <= keys.len(),
        n <= usize::MAX,
    ensures
        paint_order(keys, n).len() == n,
        forall|i: int| 0 <= i < n ==> (#[trigger] paint_order(keys, n)[i]) < n,
        forall|i: int, j: int|
            0 <= i < j < n ==> paints_before(
                keys,
                #[trigger] paint_order(keys, n)[i],
                #[trigger] paint_order(keys, n)[j],
            ),
    decreases n,
{
    if n > 0 {
        let before = paint_order(keys, (n - 1) as nat);
        let k: usize = (n - 1) as usize;
        lemma_paint_order_sorted(keys, (n - 1) as nat);
        lemma_insert_point(before, keys, k);
        let p = insert_point(before, keys, k);
        let after = before.insert(p, k);
        assert(after == paint_order(keys, n));
        assert forall|i: int, j: int| 0 <= i < j < n implies paints_before(
            keys,
            #[trigger] after[i],
            #[trigger] after[j],
        ) by {
            if j < p {
                assert(after[i] == before[i] && after[j] == before[j]);
            } else if j == p {
                assert(after[i] == before[i]);
                assert(!paints_before(keys, k, before[i]));
                assert(before[i] < k);
            } else if i < p {
                assert(after[i] == before[i] && after[j] == before[j - 1]);
            } else if i == p {
                assert(after[j] == before[j - 1]);
                assert(paints_before(keys, k, before[p]));
                if j - 1 > p {
                    assert(paints_before(keys, before[p], before[j - 1]));
                }
            } else {
                assert(after[i] == before[i - 1] && after[j] == before[j - 1]);
            }
        }
        assert forall|i: int| 0 <= i < n implies (#[trigger] after[i]) < n by {
            if i < p {
                assert(after[i] == before[i]);
            } else if i > p {
                assert(after[i] == before[i - 1]);
            }
        }
    }
}

/// Sorts the indices of `keys` into paint order.
pub fn paint_sort(keys: &Vec<u128>) -> (order: Vec<usize>)
    ensures
        order@ == paint_order(keys@, keys@.len()),
        order@.len() == keys@.len(),
        forall|i: int| 0 <= i < order@.len() ==> (#[trigger] order@[i]) < keys@.len(),
{
    let n: usize = keys.len();
    let mut order: Vec<usize> = Vec::new();
    let mut k: usize = 0;
    while k < n
        invariant
            k <= n,
            n == keys@.len(),
            order@ == paint_order(keys@, k as nat),
            order@.len() == k,
            forall|i: int| 0 <= i < order@.len() ==> (#[trigger] order@[i]) < k,
        decreases n - k,
    {
        let key: u128 = keys[k];
        let mut j: usize = 0;
        while j < order.len() && keys[order[j]] >= key
            invariant
                j <= order@.len(),
                k < n,
                n == keys@.len(),
                key == keys@[k as int],
                forall|i: int| 0 <= i < order@.len() ==> (#[trigger] order@[i]) < k,
                forall|i: int| 0 <= i < j ==> !paints_before(keys@, k, #[trigger] order@[i]),
            decreases order@.len() - j,
        {
            j = j + 1;
        }
        proof {
            lemma_insert_point_found(order@, keys@, k, j as int);
        }
        order.insert(j, k);
        k = k + 1;
    }
    order
}

/// Twice the area that direction and plane span: zero where they lie along
/// one line and nothing can be projected.
pub open spec fn view_det(camera: Camera) -> int {
    camera.plane.x * camera.direction.y - camera.direction.x * camera.plane.y
}

/// `n / d` rounded down, for a divisor of either sign.
pub open spec fn ratio(n: int, d: int) -> int {
    if d > 0 {
        n / d
    } else {
        (-n) / (-d)
    }
}

/// How far to the side of the line of view the point `p` lies, in the
/// camera's own frame.
pub open spec fn local_x(camera: Camera, p: Vec2) -> int {
    let sx = p.x - camera.position.x;
    let sy = p.y - camera.position.y;
    ratio((camera.direction.y * sx - camera.direction.x * sy) * SCALE, view_det(camera))
}

/// How far in front of the camera the point `p` lies: its depth.
pub open spec fn local_y(camera: Camera, p: Vec2) -> int {
    let sx = p.x - camera.position.x;
    let sy = p.y - camera.position.y;
    ratio((camera.plane.x * sy - camera.plane.y * sx) * SCALE, view_det(camera))
}

/// Whether the billboard can be projected and lies in front of the camera.
pub open spec fn bb_visible(camera: Camera, bb: Billboard) -> bool {
    view_det(camera) != 0 && local_y(camera, bb.position) > 0
}

pub open spec fn at_most(v: int, limit: int) -> int {
    if v > limit {
        limit
    } else {
        v
    }
}

pub open spec fn at_least(v: int, limit: int) -> int {
    if v < limit {
        limit
    } else {
        v
    }
}

/// By how much the size of a billboard is divided.
pub open spec fn size_divisor(bb: Billboard) -> int {
    if bb.glow {
        10
    } else {
        1
    }
}

/// The divisor of depth in the light that reaches a billboard.
pub open spec fn light_divisor(bb: Billboard) -> int {
    if bb.glow {
        20
    } else {
        10
    }
}

/// Width and height of the billboard on the screen: the screen's height at
/// depth one, and less in proportion to depth.
pub open spec fn bb_size(camera: Camera, height: int, bb: Billboard) -> int {
    at_most((height * SCALE) / (local_y(camera, bb.position) * size_divisor(bb)), SPAN_MAX as int)
}

/// The screen column of the billboard's centre.
pub open spec fn bb_center(camera: Camera, width: int, bb: Billboard) -> int {
    let tx = local_x(camera, bb.position);
    let ty = local_y(camera, bb.position);
    at_least(at_most((width * (ty + tx)) / (2 * ty), SPAN_MAX as int), -SPAN_MAX)
}

pub open spec fn bb_left(camera: Camera, width: int, height: int, bb: Billboard) -> int {
    bb_center(camera, width, bb) - bb_size(camera, height, bb) / 2
}

pub open spec fn bb_right(camera: Camera, width: int, height: int, bb: Billboard) -> int {
    bb_center(camera, width, bb) + bb_size(camera, height, bb) / 2
}

pub open spec fn bb_top(camera: Camera, height: int, bb: Billboard) -> int {
    height / 2 - bb_size(camera, height, bb) / 2
}

pub open spec fn bb_bottom(camera: Camera, height: int, bb: Billboard) -> int {
    height / 2 + bb_size(camera, height, bb) / 2
}

/// What the billboard paints at pixel (`x`, `y`), if anything: nothing
/// outside its square, nothing in a column whose wall is no farther than
/// the billboard, nothing where its texture is missing or fully
/// transparent.
pub open spec fn billboard_pixel(
    textures: Seq<Texture>,
    camera: Camera,
    width: int,
    height: int,
    depth: Seq<i64>,
    bb: Billboard,
    x: int,
    y: int,
) -> Option<Rgba> {
    if bb_visible(camera, bb) && bb.texture < textures.len() && bb_left(camera, width, height, bb) <= x
        < bb_right(camera, width, height, bb) && bb_top(camera, height, bb) <= y < bb_bottom(
        camera,
        height,
        bb,
    ) && local_y(camera, bb.position) < depth[x] {
        let t = textures[bb.texture as int];
        let size = bb_size(camera, height, bb);
        let color = t.texel(
            ((x - bb_left(camera, width, height, bb)) * t.width) / size,
            ((y - bb_top(camera, height, bb)) * t.height) / size,
        );
        if channel(color, 0) > 0 {
            Some(shade_color(color, falloff(local_y(camera, bb.position), light_divisor(bb))))
        } else {
            None
        }
    } else {
        None
    }
}

/// A billboard leaves alone every column whose wall is no farther away than
/// the billboard is deep: it paints no pixel of it.
pub proof fn lemma_hidden_column_untouched(
    textures: Seq<Texture>,
    camera: Camera,
    width: int,
    height: int,
    depth: Seq<i64>,
    bb: Billboard,
    under: Rgba,
    x: int,
    y: int,
)
    requires
        local_y(camera, bb.position) >= depth[x],
    ensures
        billboard_pixel(textures, camera, width, height, depth, bb, x, y) is None,
        with_billboard(textures, camera, width, height, depth, bb, under, x, y) == under,
{
}

/// A billboard behind the camera, or at its depth, paints nothing.
pub proof fn lemma_behind_camera_unseen(
    textures: Seq<Texture>,
    camera: Camera,
    width: int,
    height: int,
    depth: Seq<i64>,
    bb: Billboard,
    x: int,
    y: int,
)
    requires
        local_y(camera, bb.position) <= 0,
    ensures
        billboard_pixel(textures, camera, width, height, depth, bb, x, y) is None,
{
}

/// The frame with one billboard painted over it.
pub open spec fn with_billboard(
    textures: Seq<Texture>,
    camera: Camera,
    width: int,
    height: int,
    depth: Seq<i64>,
    bb: Billboard,
    under: Rgba,
    x: int,
    y: int,
) -> Rgba {
    match billboard_pixel(textures, camera, width, height, depth, bb, x, y) {
        Some(c) => c,
        None => under,
    }
}

/// Pixel (`x`, `y`) after the first `k` billboards of `order` were painted
/// over the pixel `under`, one after the other.
pub open spec fn painted(
    textures: Seq<Texture>,
    camera: Camera,
    width: int,
    height: int,
    depth: Seq<i64>,
    under: Rgba,
    bbs: Seq<Billboard>,
    order: Seq<usize>,
    k: nat,
    x: int,
    y: int,
) -> Rgba
    decreases k,
{
    if k == 0 {
        under
    } else {
        with_billboard(
            textures,
            camera,
            width,
            height,
            depth,
            bbs[order[k - 1] as int],
            painted(textures, camera, width, height, depth, under, bbs, order, (k - 1) as nat, x, y),
            x,
            y,
        )
    }
}

/// Every billboard stands in the world.
pub open spec fn all_placed(bbs: Seq<Billboard>) -> bool {
    forall|i: int| 0 <= i < bbs.len() ==> (#[trigger] bbs[i]).position.wf()
}

/// The squared distances of the billboards from the camera.
pub open spec fn depth_keys(camera: Camera, bbs: Seq<Billboard>) -> Seq<u128> {
    Seq::new(bbs.len(), |i: int| bbs[i].position.dist_sq(camera.position) as u128)
}

/// Where a billboard falls on the screen.
pub struct Footprint {
    pub depth: i128,
    pub size: i64,
    pub left: i64,
    pub top: i64,
}

/// Projects a billboard to the screen, if it lies in front of the camera.
pub fn footprint(camera: &Camera, width: u32, height: u32, bb: &Billboard) -> (r: Option<Footprint>)
    requires
        camera.wf(),
        bb.position.wf(),
    ensures
        r is Some <==> bb_visible(*camera, *bb),
        r matches Some(f) ==> {
            &&& f.depth == local_y(*camera, bb.position)
            &&& 0 < f.depth <= 0x1_0000_0000_0000_0000_0000_0000
            &&& f.size == bb_size(*camera, height as int, *bb)
            &&& 0 <= f.size <= SPAN_MAX
            &&& f.left == bb_left(*camera, width as int, height as int, *bb)
            &&& f.top == bb_top(*camera, height as int, *bb)
        },
{
    let sx: i64 = bb.position.x - camera.position.x;
    let sy: i64 = bb.position.y - camera.position.y;
    let pd: i128 = wide_mul(camera.plane.x, camera.direction.y);
    let dp: i128 = wide_mul(camera.direction.x, camera.plane.y);
    let a1: i128 = wide_mul(camera.direction.y, sx);
    let a2: i128 = wide_mul(camera.direction.x, sy);
    let b1: i128 = wide_mul(camera.plane.x, sy);
    let b2: i128 = wide_mul(camera.plane.y, sx);
    proof {
        lemma_mul_bound(camera.plane.x as int, camera.direction.y as int, 4_000_000, 4_000_000);
        lemma_mul_bound(camera.direction.x as int, camera.plane.y as int, 4_000_000, 4_000_000);
        lemma_mul_bound(camera.direction.y as int, sx as int, 4_000_000, 2_000_000_000_000);
        lemma_mul_bound(camera.direction.x as int, sy as int, 4_000_000, 2_000_000_000_000);
        lemma_mul_bound(camera.plane.x as int, sy as int, 4_000_000, 2_000_000_000_000);
        lemma_mul_bound(camera.plane.y as int, sx as int, 4_000_000, 2_000_000_000_000);
    }
    let det: i128 = pd - dp;
    if det == 0 {
        return None;
    }
    let s: i128 = SCALE as i128;
    let nx: i128 = (a1 - a2) * s;
    let ny: i128 = (b1 - b2) * s;
    let (tx, ty): (i128, i128) = if det > 0 {
        proof {
            lemma_div_bound(nx as int, det as int, 16_000_000_000_000_000_000_000_000);
            lemma_div_bound(ny as int, det as int, 16_000_000_000_000_000_000_000_000);
        }
        (div_floor(nx, det), div_floor(ny, det))
    } else {
        proof {
            lemma_div_bound(-nx, -det, 16_000_000_000_000_000_000_000_000);
            lemma_div_bound(-ny, -det, 16_000_000_000_000_000_000_000_000);
        }
        (div_floor(-nx, -det), div_floor(-ny, -det))
    };
    if ty <= 0 {
        return None;
    }
    let k: i128 = if bb.glow {
        10
    } else {
        1
    };
    let hs: i128 = (height as i128) * s;
    let raw_size: i128 = hs / (ty * k);
    proof {
        lemma_div_bound(hs as int, ty * k, 4_294_967_295_000_000int);
    }
    let size: i64 = if raw_size > SPAN_MAX as i128 {
        SPAN_MAX
    } else {
        raw_size as i64
    };
    proof {
        lemma_mul_bound(width as int, ty + tx, 0xffff_ffff, 32_000_000_000_000_000_000_000_000);
    }
    let num: i128 = (width as i128) * (ty + tx);
    let raw_center: i128 = div_floor(num, 2 * ty);
    let center: i64 = if raw_center > SPAN_MAX as i128 {
        SPAN_MAX
    } else if raw_center < -(SPAN_MAX as i128) {
        -SPAN_MAX
    } else {
        raw_center as i64
    };
    Some(Footprint { depth: ty, size, left: center - size / 2, top: (height as i64) / 2 - size / 2 })
}

/// Paints one billboard over the frame.
pub fn draw_billboard(
    frame: &mut [u8],
    width: u32,
    height: u32,
    depth: &[i64],
    camera: &Camera,
    bb: &Billboard,
    textures: &TextureCache,
)
    requires
        frame_fits(old(frame)@, width as int, height as int),
        depth@.len() == width,
        camera.wf(),
        bb.position.wf(),
        textures.wf(),
    ensures
        final(frame)@.len() == old(frame)@.len(),
        forall|x: int, y: int|
            0 <= x < width && 0 <= y < height ==> #[trigger] frame_pixel(final(frame)@, width as int, x, y)
                == with_billboard(
                textures@,
                *camera,
                width as int,
                height as int,
                depth@,
                *bb,
                frame_pixel(old(frame)@, width as int, x, y),
                x,
                y,
            ),
{
    let f: Footprint = match footprint(camera, width, height, bb) {
        Some(f) => f,
        None => {
            return ;
        },
    };
    let texture: &Texture = match textures.get_texture(bb.texture) {
        Some(t) => t,
        None => {
            return ;
        },
    };
    let half: i64 = f.size / 2;
    let right: i64 = f.left + 2 * half;
    let bottom: i64 = f.top + 2 * half;
    let xa: i64 = if f.left < 0 {
        0
    } else {
        f.left
    };
    let xb: i64 = if right > width as i64 {
        width as i64
    } else {
        right
    };
    let ya: i64 = if f.top < 0 {
        0
    } else {
        f.top
    };
    let yb: i64 = if bottom > height as i64 {
        height as i64
    } else {
        bottom
    };
    if xa >= xb || ya >= yb {
        return ;
    }
    let light: i64 = light_at(
        f.depth,
        if bb.glow {
            20
        } else {
            10
        },
    );
    let ghost base: Seq<u8> = frame@;
    let ghost tex: Seq<Texture> = textures@;
    let ghost cam: Camera = *camera;
    let ghost b: Billboard = *bb;
    let ghost w: int = width as int;
    let ghost h: int = height as int;
    let ghost d: Seq<i64> = depth@;
    let mut x: i64 = xa;
    while x < xb
        invariant
            0 <= xa <= x <= xb <= width,
            0 <= ya < yb <= height,
            w == width,
            h == height,
            d == depth@,
            d.len() == width,
            tex == textures@,
            cam == *camera,
            b == *bb,
            frame_fits(frame@, w, h),
            frame@.len() == base.len(),
            texture.wf(),
            bb_visible(cam, b),
            b.texture < tex.len(),
            *texture == tex[b.texture as int],
            f.depth == local_y(cam, b.position),
            f.size == bb_size(cam, h, b),
            f.left == bb_left(cam, w, h, b),
            f.top == bb_top(cam, h, b),
            half == f.size / 2,
            0 <= f.size <= SPAN_MAX,
            xa == at_least(f.left as int, 0),
            ya == at_least(f.top as int, 0),
            xb == at_most(f.left + 2 * half, w),
            yb == at_most(f.top + 2 * half, h),
            0 <= light <= SCALE,
            light == falloff(f.depth as int, light_divisor(b)),
            forall|x2: int, y2: int|
                0 <= x2 < w && 0 <= y2 < h ==> #[trigger] frame_pixel(frame@, w, x2, y2) == if x2 < x {
                    with_billboard(tex, cam, w, h, d, b, frame_pixel(base, w, x2, y2), x2, y2)
                } else {
                    frame_pixel(base, w, x2, y2)
                },
        decreases xb - x,
    {
        if f.depth < depth[x as usize] as i128 {
            let mut y: i64 = ya;
            while y < yb
                invariant
                    0 <= xa <= x < xb <= width,
                    0 <= ya <= y <= yb <= height,
                    w == width,
                    h == height,
                    d == depth@,
                    d.len() == width,
                    tex == textures@,
                    cam == *camera,
                    b == *bb,
                    frame_fits(frame@, w, h),
                    frame@.len() == base.len(),
                    texture.wf(),
                    bb_visible(cam, b),
                    b.texture < tex.len(),
                    *texture == tex[b.texture as int],
                    f.depth == local_y(cam, b.position),
                    f.depth < d[x as int],
                    f.size == bb_size(cam, h, b),
                    f.left == bb_left(cam, w, h, b),
                    f.top == bb_top(cam, h, b),
                    half == f.size / 2,
                    0 <= f.size <= SPAN_MAX,
                    xa == at_least(f.left as int, 0),
                    ya == at_least(f.top as int, 0),
                    xb == at_most(f.left + 2 * half, w),
                    yb == at_most(f.top + 2 * half, h),
                    0 <= light <= SCALE,
                    light == falloff(f.depth as int, light_divisor(b)),
                    forall|x2: int, y2: int|
                        0 <= x2 < w && 0 <= y2 < h ==> #[trigger] frame_pixel(frame@, w, x2, y2) == if x2
                            < x || (x2 == x && y2 < y) {
                            with_billboard(tex, cam, w, h, d, b, frame_pixel(base, w, x2, y2), x2, y2)
                        } else {
                            frame_pixel(base, w, x2, y2)
                        },
                decreases yb - y,
            {
                proof {
                    lemma_mul_bound(x - f.left, texture.width as int, 0x7fff_ffff, 0xffff_ffff);
                    lemma_mul_bound(y - f.top, texture.height as int, 0x7fff_ffff, 0xffff_ffff);
                }
                let u: i64 = ((x - f.left) * (texture.width as i64)) / f.size;
                let v: i64 = ((y - f.top) * (texture.height as i64)) / f.size;
                let color: u32 = if 0 <= u && u <= 0xffff_ffff && 0 <= v && v <= 0xffff_ffff {
                    texture.get_pixel(u as u32, v as u32)
                } else {
                    0
                };
                let c: Rgba = shade(color, light);
                if c.a > 0 {
                    put_pixel(frame, width, height, x as u32, y as u32, c);
                }
                y = y + 1;
            }
        }
        x = x + 1;
    }
}

/// Paints the billboards over the frame, the farthest from the camera
/// first, so that nearer ones cover farther ones.
pub fn draw_billboards(
    frame: &mut [u8],
    width: u32,
    height: u32,
    depth: &[i64],
    camera: &Camera,
    bbs: &Vec<Billboard>,
    textures: &TextureCache,
)
    requires
        frame_fits(old(frame)@, width as int, height as int),
        depth@.len() == width,
        camera.wf(),
        all_placed(bbs@),
        textures.wf(),
    ensures
        final(frame)@.len() == old(frame)@.len(),
        forall|x: int, y: int|
            0 <= x < width && 0 <= y < height ==> #[trigger] frame_pixel(final(frame)@, width as int, x, y)
                == painted(
                textures@,
                *camera,
                width as int,
                height as int,
                depth@,
                frame_pixel(old(frame)@, width as int, x, y),
                bbs@,
                paint_order(depth_keys(*camera, bbs@), bbs@.len()),
                bbs@.len(),
                x,
                y,
            ),
{
    let n: usize = bbs.len();
    let mut keys: Vec<u128> = Vec::new();
    let mut i: usize = 0;
    while i < n
        invariant
            i <= n,
            n == bbs@.len(),
            camera.wf(),
            all_placed(bbs@),
            keys@.len() == i,
            forall|j: int| 0 <= j < i ==> #[trigger] keys@[j] == depth_keys(*camera, bbs@)[j],
        decreases n - i,
    {
        let key: u128 = bbs[i].position.distance_squared(&camera.position);
        keys.push(key);
        i = i + 1;
    }
    assert(keys@ == depth_keys(*camera, bbs@));
    let order: Vec<usize> = paint_sort(&keys);
    let ghost base: Seq<u8> = frame@;
    let ghost w: int = width as int;
    let ghost h: int = height as int;
    let mut k: usize = 0;
    while k < n
        invariant
            k <= n,
            n == bbs@.len(),
            w == width,
            h == height,
            order@.len() == n,
            order@ == paint_order(depth_keys(*camera, bbs@), bbs@.len()),
            forall|j: int| 0 <= j < order@.len() ==> (#[trigger] order@[j]) < n,
            frame_fits(frame@, w, h),
            frame@.len() == base.len(),
            depth@.len() == width,
            camera.wf(),
            all_placed(bbs@),
            textures.wf(),
            forall|x: int, y: int|
                0 <= x < w && 0 <= y < h ==> #[trigger] frame_pixel(frame@, w, x, y) == painted(
                    textures@,
                    *camera,
                    w,
                    h,
                    depth@,
                    frame_pixel(base, w, x, y),
                    bbs@,
                    order@,
                    k as nat,
                    x,
                    y,
                ),
        decreases n - k,
    {
        let ghost before: Seq<u8> = frame@;
        let bb: &Billboard = &bbs[order[k]];
        draw_billboard(frame, width, height, depth, camera, bb, textures);
        proof {
            assert forall|x: int, y: int| 0 <= x < w && 0 <= y < h implies #[trigger] frame_pixel(
                frame@,
                w,
                x,
                y,
            ) == painted(
                textures@,
                *camera,
                w,
                h,
                depth@,
                frame_pixel(base, w, x, y),
                bbs@,
                order@,
                (k + 1) as nat,
                x,
                y,
            ) by {
                assert(frame_pixel(before, w, x, y) == painted(
                    textures@,
                    *camera,
                    w,
                    h,
                    depth@,
                    frame_pixel(base, w, x, y),
                    bbs@,
                    order@,
                    k as nat,
                    x,
                    y,
                ));
            }
        }
        k = k + 1;
    }
}

} // verus!
