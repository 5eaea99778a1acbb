//! Textures: fixed-size images of packed RGBA pixels, and the table that
//! hands them out by index.

use vstd::prelude::*;

verus! {

/// What decoding an encoded image yields: width, height and the RGBA
/// bytes row by row, or the message of the decoder's error.
pub uninterp spec fn decoded_image(data: Seq<u8>) -> Result<(u32, u32, Seq<u8>), Seq<char>>;

/// The view of a decoding result.
pub open spec fn decoded_view(r: Result<(u32, u32, Vec<u8>), String>) -> Result<
    (u32, u32, Seq<u8>),
    Seq<char>,
> {
    match r {
        Ok((w, h, bytes)) => Ok((w, h, bytes@)),
        Err(e) => Err(e@),
    }
}

/// Decodes an encoded image with `image::load_from_memory` and converts it
/// with `DynamicImage::to_rgba8`. The result is a function of the bytes
/// alone, named [`decoded_image`]; nothing more is claimed of it.
#[verifier::external_body]
fn decode_rgba8(data: &[u8]) -> (r: Result<(u32, u32, Vec<u8>), String>)
    ensures
        decoded_view(r) == decoded_image(data@),
{
    match image::load_from_memory(data) {
        Ok(img) => {
            let rgba = img.to_rgba8();
            let (w, h) = rgba.dimensions();
            Ok((w, h, rgba.into_raw()))
        },
        Err(e) => Err(format!("Failed to load texture: {}", e)),
    }
}

/// The pixel that packs the four bytes, red in the highest byte and alpha in
/// the lowest.
pub open spec fn pack_rgba(r: u8, g: u8, b: u8, a: u8) -> u32 {
    ((r as u32) << 24) | ((g as u32) << 16) | ((b as u32) << 8) | (a as u32)
}

/// Why a texture could not be made.
#[derive(Clone, Debug, PartialEq, Eq)]
pub enum TextureError {
    /// The image could not be decoded; the decoder's message.
    Decode(String),
    /// The pixel bytes do not match the dimensions.
    Size,
}

impl TextureError {
    /// The text of the message.
    pub open spec fn text(self) -> Seq<char> {
        match self {
            TextureError::Decode(m) => m@,
            TextureError::Size => "Texture size mismatch"@,
        }
    }

    /// A message for the user.
    pub fn message(&self) -> (m: String)
        ensures
            m@ == self.text(),
    {
        match self {
            TextureError::Decode(m) => m.clone(),
            TextureError::Size => "Texture size mismatch".to_owned(),
        }
    }
}

/// Whether a decoding result holds four bytes for each pixel.
pub open spec fn image_fits(d: Result<(u32, u32, Seq<u8>), Seq<char>>) -> bool {
    d matches Ok((w, h, bytes)) && bytes.len() == w * h * 4
}

/// The message for a decoding result that yields no texture.
pub open spec fn image_error_text(d: Result<(u32, u32, Seq<u8>), Seq<char>>) -> Seq<char> {
    match d {
        Ok(_) => TextureError::Size.text(),
        Err(m) => m,
    }
}

/// An image of `width` by `height` packed RGBA pixels.
#[derive(Clone)]
pub struct Texture {
    pub width: u32,
    pub height: u32,
    pub pixels: Vec<u32>,
}

impl Texture {
    /// The pixel store has one entry for each pixel.
    pub open spec fn wf(&self) -> bool {
        self.pixels.len() == self.width * self.height
    }

    /// The pixel at column `x` of row `y`; pixels outside the image are
    /// transparent black.
    pub open spec fn texel(&self, x: int, y: int) -> u32 {
        if 0 <= x < self.width && 0 <= y < self.height {
            self.pixels[y * self.width + x]
        } else {
            0
        }
    }

    /// The texture holds the image of `width` by `height` pixels whose
    /// bytes are `bytes`: four for each pixel, in the order red, green, blue,
    /// alpha, row by row.
    pub open spec fn shows(&self, width: u32, height: u32, bytes: Seq<u8>) -> bool {
        &&& self.wf()
        &&& self.width == width
        &&& self.height == height
        &&& forall|x: int, y: int|
            0 <= x < width && 0 <= y < height ==> #[trigger] self.texel(x, y) == pack_rgba(
                bytes[(y * width + x) * 4],
                bytes[(y * width + x) * 4 + 1],
                bytes[(y * width + x) * 4 + 2],
                bytes[(y * width + x) * 4 + 3],
            )
    }

    /// A transparent black image.
    pub fn new(width: u32, height: u32) -> (t: Texture)
        requires
            width * height <= usize::MAX,
        ensures
            t.wf(),
            t.width == width,
            t.height == height,
            forall|x: int, y: int| t.texel(x, y) == 0,
    {
        assert(width as int * height as int <= 0xffff_ffff * 0xffff_ffff) by (nonlinear_arith)
            requires
                0 <= width as int <= 0xffff_ffff,
                0 <= height as int <= 0xffff_ffff,
        ;
        let n: u64 = (width as u64) * (height as u64);
        let mut pixels: Vec<u32> = Vec::new();
        let mut i: u64 = 0;
        while i < n
            invariant
                i <= n,
                pixels.len() == i,
                forall|k: int| 0 <= k < i ==> pixels[k] == 0,
            decreases n - i,
        {
            pixels.push(0);
            i = i + 1;
        }
        let t = Texture { width, height, pixels };
        proof {
            assert forall|x: int, y: int| t.texel(x, y) == 0 by {
                if 0 <= x < width && 0 <= y < height {
                    lemma_pixel_index(width as int, height as int, x, y);
                }
            }
        }
        t
    }

    /// Builds a texture from `width * height` pixels of four bytes each, in
    /// the order red, green, blue, alpha, row by row.
    pub fn from_rgba8(width: u32, height: u32, bytes: &[u8]) -> (r: Result<Texture, TextureError>)
        ensures
            r is Ok <==> bytes.len() == width * height * 4,
            r matches Ok(t) ==> t.shows(width, height, bytes@),
            r matches Err(e) ==> e == TextureError::Size,
    {
        assert(width as int * height as int <= 0xffff_ffff * 0xffff_ffff) by (nonlinear_arith)
            requires
                0 <= width as int <= 0xffff_ffff,
                0 <= height as int <= 0xffff_ffff,
        ;
        let n: u128 = (width as u128) * (height as u128);
        if bytes.len() as u128 != n * 4 {
            return Err(TextureError::Size);
        }
        let count: usize = bytes.len() / 4;
        let mut pixels: Vec<u32> = Vec::new();
        let mut i: usize = 0;
        while i < count
            invariant
                i <= count,
                count == width * height,
                bytes.len() == count * 4,
                pixels.len() == i,
                forall|k: int|
                    0 <= k < i ==> #[trigger] pixels[k] == pack_rgba(
                        bytes[k * 4],
                        bytes[k * 4 + 1],
                        bytes[k * 4 + 2],
                        bytes[k * 4 + 3],
                    ),
            decreases count - i,
        {
            let r: u32 = bytes[i * 4] as u32;
            let g: u32 = bytes[i * 4 + 1] as u32;
            let b: u32 = bytes[i * 4 + 2] as u32;
            let a: u32 = bytes[i * 4 + 3] as u32;
            pixels.push((r << 24) | (g << 16) | (b << 8) | a);
            i = i + 1;
        }
        let t = Texture { width, height, pixels };
        proof {
            assert forall|x: int, y: int| 0 <= x < width && 0 <= y < height implies #[trigger] t.texel(
                x,
                y,
            ) == pack_rgba(
                bytes[(y * width + x) * 4],
                bytes[(y * width + x) * 4 + 1],
                bytes[(y * width + x) * 4 + 2],
                bytes[(y * width + x) * 4 + 3],
            ) by {
                lemma_pixel_index(width as int, height as int, x, y);
            }
        }
        Ok(t)
    }

    /// Decodes an encoded image into a texture. The error is the decoder's
    /// message, or says that the decoded bytes do not match the dimensions.
    pub fn load(data: &[u8]) -> (r: Result<Texture, String>)
        ensures
            r is Ok <==> image_fits(decoded_image(data@)),
            r matches Ok(t) ==> decoded_image(data@) matches Ok((w, h, bytes)) && t.shows(w, h, bytes),
            r matches Err(e) ==> e@ == image_error_text(decoded_image(data@)),
    {
        let decoded = decode_rgba8(data);
        match Texture::from_decoded(decoded) {
            Ok(t) => Ok(t),
            Err(e) => Err(e.message()),
        }
    }

    /// Turns the outcome of decoding into a texture.
    pub fn from_decoded(decoded: Result<(u32, u32, Vec<u8>), String>) -> (r: Result<
        Texture,
        TextureError,
    >)
        ensures
            r is Ok <==> image_fits(decoded_view(decoded)),
            r matches Ok(t) ==> decoded matches Ok((w, h, bytes)) && t.shows(w, h, bytes@),
            r matches Err(e) ==> e.text() == image_error_text(decoded_view(decoded)),
            r matches Err(e) ==> (e is Size <==> decoded is Ok),
    {
        match decoded {
            Ok((w, h, bytes)) => Texture::from_rgba8(w, h, bytes.as_slice()),
            Err(m) => Err(TextureError::Decode(m)),
        }
    }

    /// The pixel at column `x` of row `y`, transparent black outside the
    /// image.
    pub fn get_pixel(&self, x: u32, y: u32) -> (c: u32)
        requires
            self.wf(),
        ensures
            c == self.texel(x as int, y as int),
    {
        if x >= self.width || y >= self.height {
            return 0;
        }
        proof {
            lemma_pixel_index(self.width as int, self.height as int, x as int, y as int);
        }
        self.pixels[(y as usize) * (self.width as usize) + (x as usize)]
    }

    /// The column or row that the fraction `v` of an image's side of
    /// `size` pixels falls in; below zero it is the first, and past the
    /// side it wraps around.
    pub open spec fn scaled(v: i64, size: u32) -> int {
        let p = (v * size) / 1_000_000;
        (if p < 0 {
            0
        } else if p > u32::MAX {
            u32::MAX as int
        } else {
            p
        }) % (size as int)
    }

    /// The pixel at the fractions (`x`, `y`) of the image's width and
    /// height, in fixed point.
    pub fn get_pixel_scaled(&self, x: i64, y: i64) -> (c: u32)
        requires
            self.wf(),
            self.width > 0,
            self.height > 0,
        ensures
            c == self.texel(Self::scaled(x, self.width), Self::scaled(y, self.height)),
    {
        let tx: u32 = Self::scale(x, self.width);
        let ty: u32 = Self::scale(y, self.height);
        self.get_pixel(tx, ty)
    }

    /// Computes [`Texture::scaled`].
    fn scale(v: i64, size: u32) -> (r: u32)
        requires
            size > 0,
        ensures
            r == Self::scaled(v, size),
    {
        assert(-0x8000_0000_0000_0000 * 0x1_0000_0000 <= v * size <= 0x8000_0000_0000_0000 * 0x1_0000_0000)
            by (nonlinear_arith)
            requires
                -0x8000_0000_0000_0000 <= v <= 0x7fff_ffff_ffff_ffff,
                0 <= size <= 0xffff_ffff,
        ;
        let n: i128 = (v as i128) * (size as i128);
        let p: i128 = if n >= 0 {
            n / 1_000_000
        } else {
            -1
        };
        assert(n < 0 ==> n as int / 1_000_000 < 0);
        let q: u32 = if p < 0 {
            0
        } else if p > u32::MAX as i128 {
            u32::MAX
        } else {
            p as u32
        };
        q % size
    }

    /// Stores `color` at column `x` of row `y`; outside the image nothing
    /// changes.
    pub fn set_pixel(&mut self, x: u32, y: u32, color: u32)
        requires
            old(self).wf(),
        ensures
            final(self).wf(),
            final(self).width == old(self).width,
            final(self).height == old(self).height,
            forall|x2: int, y2: int|
                #[trigger] final(self).texel(x2, y2) == if x2 == x && y2 == y && x < old(self).width
                    && y < old(self).height {
                    color
                } else {
                    old(self).texel(x2, y2)
                },
    {
        if x < self.width && y < self.height {
            proof {
                lemma_pixel_index(self.width as int, self.height as int, x as int, y as int);
            }
            let idx: usize = (y as usize) * (self.width as usize) + (x as usize);
            self.pixels[idx] = color;
            proof {
                assert forall|x2: int, y2: int|
                    #[trigger] self.texel(x2, y2) == if x2 == x && y2 == y {
                        color
                    } else {
                        old(self).texel(x2, y2)
                    } by {
                    if 0 <= x2 < self.width && 0 <= y2 < self.height {
                        lemma_pixel_index(self.width as int, self.height as int, x2, y2);
                        if y2 * self.width + x2 == y * self.width + x {
                            lemma_pixel_index_injective(self.width as int, x as int, y as int, x2, y2);
                        }
                    }
                }
            }
        }
    }
}

/// The row-major index of a pixel lies inside the pixel store.
pub proof fn lemma_pixel_index(w: int, h: int, x: int, y: int)
    requires
        0 <= x < w,
        0 <= y < h,
    ensures
        0 <= y * w + x < w * h,
        0 <= y * w,
{
    assert(0 <= y * w && y * w + x < w * h) by (nonlinear_arith)
        requires
            0 <= x < w,
            0 <= y < h,
    ;
}

/// Two pixels of one image with the same row-major index are the same pixel.
pub proof fn lemma_pixel_index_injective(w: int, x1: int, y1: int, x2: int, y2: int)
    requires
        0 <= x1 < w,
        0 <= x2 < w,
        y1 * w + x1 == y2 * w + x2,
    ensures
        x1 == x2,
        y1 == y2,
{
    assert(y1 == y2) by (nonlinear_arith)
        requires
            0 <= x1 < w,
            0 <= x2 < w,
            y1 * w + x1 == y2 * w + x2,
    ;
}

/// Textures by index, in the order in which they were added.
pub struct TextureCache {
    textures: Vec<Texture>,
}

impl TextureCache {
    /// The textures held, in order.
    pub closed spec fn view(&self) -> Seq<Texture> {
        self.textures@
    }

    /// Every texture held is well formed.
    pub open spec fn wf(&self) -> bool {
        forall|i: int| 0 <= i < self@.len() ==> (#[trigger] self@[i]).wf()
    }

    pub fn new() -> (c: TextureCache)
        ensures
            c@.len() == 0,
            c.wf(),
    {
        TextureCache { textures: Vec::new() }
    }

    /// Adds a texture and returns its index.
    pub fn add_texture(&mut self, texture: Texture) -> (index: usize)
        ensures
            index == old(self)@.len(),
            final(self)@ == old(self)@.push(texture),
    {
        let index: usize = self.textures.len();
        self.textures.push(texture);
        index
    }

    /// Decodes an encoded image, adds it and returns its index; on an error
    /// the table is unchanged.
    pub fn load_texture(&mut self, data: &[u8]) -> (r: Result<usize, String>)
        requires
            old(self).wf(),
        ensures
            final(self).wf(),
            r is Ok <==> image_fits(decoded_image(data@)),
            r matches Ok(index) ==> {
                &&& index == old(self)@.len()
                &&& final(self)@.len() == old(self)@.len() + 1
                &&& final(self)@.subrange(0, index as int) == old(self)@
                &&& decoded_image(data@) matches Ok((w, h, bytes)) && final(self)@[index as int].shows(
                    w,
                    h,
                    bytes,
                )
            },
            r matches Err(e) ==> {
                &&& final(self)@ == old(self)@
                &&& e@ == image_error_text(decoded_image(data@))
            },
    {
        match Texture::load(data) {
            Ok(texture) => {
                let index: usize = self.add_texture(texture);
                assert(self@.subrange(0, index as int) =~= old(self)@);
                Ok(index)
            },
            Err(e) => Err(e),
        }
    }

    /// The texture at `index`, if there is one.
    pub fn get_texture(&self, index: usize) -> (t: Option<&Texture>)
        ensures
            index < self@.len() ==> t == Some(&self@[index as int]),
            index >= self@.len() ==> t is None,
    {
        if index < self.textures.len() {
            Some(&self.textures[index])
        } else {
            None
        }
    }

    /// Removes every texture.
    pub fn clear(&mut self)
        ensures
            final(self)@.len() == 0,
    {
        self.textures.clear();
    }
}

impl Default for TextureCache {
    fn default() -> (c: TextureCache)
        ensures
            c@.len() == 0,
    {
        TextureCache::new()
    }
}

} // verus!
