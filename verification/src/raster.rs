//! Pixel grids: the mathematical [`Raster`] and the executable [`RgbaImage`].
use vstd::arithmetic::div_mod::{
    lemma_fundamental_div_mod, lemma_fundamental_div_mod_converse, lemma_mod_bound,
};
use vstd::prelude::*;

verus! {

/// One pixel: red, green, blue and alpha, eight bits each.
#[derive(Clone, Copy, Debug, PartialEq, Eq, Structural)]
pub struct Rgba {
    pub r: u8,
    pub g: u8,
    pub b: u8,
    pub a: u8,
}

impl Rgba {
    /// The fully transparent black pixel.
    pub open spec fn clear_spec() -> Rgba {
        Rgba { r: 0, g: 0, b: 0, a: 0 }
    }

    pub fn new(r: u8, g: u8, b: u8, a: u8) -> (pixel: Rgba)
        ensures
            pixel == (Rgba { r, g, b, a }),
    {
        Rgba { r, g, b, a }
    }

    pub fn clear() -> (pixel: Rgba)
        ensures
            pixel == Rgba::clear_spec(),
    {
        Rgba { r: 0, g: 0, b: 0, a: 0 }
    }

    /// Channel `c` of the pixel, counted in byte order.
    pub open spec fn channel(self, c: int) -> u8 {
        if c == 0 {
            self.r
        } else if c == 1 {
            self.g
        } else if c == 2 {
            self.b
        } else {
            self.a
        }
    }
}

/// A grid of pixels in row-major order.
#[verifier::ext_equal]
pub struct Raster {
    pub width: int,
    pub height: int,
    pub pixels: Seq<Rgba>,
}

impl Raster {
    pub open spec fn wf(self) -> bool {
        &&& 0 <= self.width <= u32::MAX
        &&& 0 <= self.height <= u32::MAX
        &&& fits(self.width, self.height)
        &&& self.pixels.len() == self.width * self.height
    }

    /// The pixel in column `x` of row `y`.
    pub open spec fn at(self, x: int, y: int) -> Rgba {
        self.pixels[y * self.width + x]
    }

    pub open spec fn has(self, x: int, y: int) -> bool {
        0 <= x < self.width && 0 <= y < self.height
    }

    /// The raster with `pixel` in column `x` of row `y`.
    pub open spec fn with(self, x: int, y: int, pixel: Rgba) -> Raster {
        Raster {
            width: self.width,
            height: self.height,
            pixels: self.pixels.update(y * self.width + x, pixel),
        }
    }

    /// The `width` by `height` raster whose pixel at `(x, y)` is `f(x, y)`.
    pub open spec fn build(width: int, height: int, f: spec_fn(int, int) -> Rgba) -> Raster {
        Raster {
            width,
            height,
            pixels: Seq::new((width * height) as nat, |i: int| f(i % width, i / width)),
        }
    }

    /// The raster's bytes: four channels per pixel, row by row.
    pub open spec fn bytes(self) -> Seq<u8> {
        Seq::new(4 * self.pixels.len(), |i: int| self.pixels[i / 4].channel(i % 4))
    }

    /// The raster that `bytes` describes.
    pub open spec fn from_bytes(width: int, height: int, bytes: Seq<u8>) -> Raster {
        Raster {
            width,
            height,
            pixels: Seq::new(
                (width * height) as nat,
                |i: int|
                    Rgba {
                        r: bytes[4 * i],
                        g: bytes[4 * i + 1],
                        b: bytes[4 * i + 2],
                        a: bytes[4 * i + 3],
                    },
            ),
        }
    }

    /// The part of the raster that starts at `(x, y)`, cut down to what the
    /// raster holds of the requested size.
    pub open spec fn crop(self, x: int, y: int, width: int, height: int) -> Raster {
        let x0 = least(x, self.width);
        let y0 = least(y, self.height);
        let w = least(width, self.width - x0);
        let h = least(height, self.height - y0);
        Raster::build(w, h, |i: int, j: int| self.at(x0 + i, y0 + j))
    }

    /// The raster with `tile` laid over it at `(x, y)`; what falls outside is
    /// dropped.
    pub open spec fn paste(self, tile: Raster, x: int, y: int) -> Raster {
        Raster::build(
            self.width,
            self.height,
            |i: int, j: int|
                if tile.has(i - x, j - y) {
                    tile.at(i - x, j - y)
                } else {
                    self.at(i, j)
                },
        )
    }
}

pub open spec fn least(a: int, b: int) -> int {
    if a <= b {
        a
    } else {
        b
    }
}

/// The bytes of a `width` by `height` image fit in one allocation.
pub open spec fn fits(width: int, height: int) -> bool {
    width * height * 4 <= isize::MAX
}

/// Row-major indexing is a bijection between grid positions and indices.
proof fn lemma_index(x: int, y: int, width: int, height: int)
    requires
        0 <= x < width,
        0 <= y < height,
    ensures
        0 <= y * width + x < width * height,
        (y * width + x) % width == x,
        (y * width + x) / width == y,
{
    assert(y * width + x < width * height) by (nonlinear_arith)
        requires
            0 <= x < width,
            0 <= y < height,
    ;
    assert(0 <= y * width) by (nonlinear_arith)
        requires
            0 <= y,
            0 < width,
    ;
    lemma_fundamental_div_mod_converse(y * width + x, width, y, x);
}

/// Every index of a raster's pixels is the index of one grid position.
pub proof fn lemma_position(i: int, width: int, height: int)
    requires
        0 <= i < width * height,
        0 <= width,
        0 <= height,
    ensures
        0 <= i % width < width,
        0 <= i / width < height,
        (i / width) * width + i % width == i,
{
    assert(width > 0) by (nonlinear_arith)
        requires
            0 <= i < width * height,
            0 <= width,
    ;
    lemma_fundamental_div_mod(i, width);
    lemma_mod_bound(i, width);
    let q = i / width;
    let r = i % width;
    assert(i == width * q + r);
    assert(width * q == q * width) by (nonlinear_arith);
    assert(q < height) by (nonlinear_arith)
        requires
            width * q + r < width * height,
            0 <= r,
            width > 0,
    ;
    assert(0 <= q) by (nonlinear_arith)
        requires
            width * q + r >= 0,
            r < width,
            width > 0,
    ;
}

pub proof fn lemma_build_at(
    width: int,
    height: int,
    f: spec_fn(int, int) -> Rgba,
    x: int,
    y: int,
)
    requires
        0 <= x < width,
        0 <= y < height,
    ensures
        Raster::build(width, height, f).at(x, y) == f(x, y),
{
    lemma_index(x, y, width, height);
}

/// A raster is the one built from its own pixels.
pub proof fn lemma_build_ext(r: Raster, f: spec_fn(int, int) -> Rgba)
    requires
        r.width >= 0,
        r.height >= 0,
        r.pixels.len() == r.width * r.height,
        forall|x: int, y: int| #![trigger r.at(x, y)] r.has(x, y) ==> r.at(x, y) == f(x, y),
    ensures
        r == Raster::build(r.width, r.height, f),
{
    let b = Raster::build(r.width, r.height, f);
    assert forall|i: int| 0 <= i < r.pixels.len() implies r.pixels[i] == b.pixels[i] by {
        lemma_position(i, r.width, r.height);
        assert(r.at(i % r.width, i / r.width) == r.pixels[i]);
    }
    assert(r.pixels =~= b.pixels);
}

/// Writing one pixel changes that pixel and no other.
pub proof fn lemma_with(r: Raster, x: int, y: int, pixel: Rgba)
    requires
        r.wf(),
        r.has(x, y),
    ensures
        r.with(x, y, pixel).wf(),
        forall|a: int, b: int|
            #![trigger r.with(x, y, pixel).at(a, b)]
            r.has(a, b) ==> r.with(x, y, pixel).at(a, b) == if a == x && b == y {
                pixel
            } else {
                r.at(a, b)
            },
{
    lemma_index(x, y, r.width, r.height);
    assert forall|a: int, b: int|
        #![trigger r.with(x, y, pixel).at(a, b)]
        r.has(a, b) implies r.with(x, y, pixel).at(a, b) == if a == x && b == y {
        pixel
    } else {
        r.at(a, b)
    } by {
        lemma_index(a, b, r.width, r.height);
    }
}

/// The parts of a position's index can be computed in machine words.
proof fn lemma_offset(x: int, y: int, r: Raster)
    requires
        r.wf(),
        r.has(x, y),
    ensures
        0 <= y * r.width <= usize::MAX,
        0 <= y * r.width + x < r.pixels.len() <= usize::MAX,
{
    lemma_index(x, y, r.width, r.height);
    assert(0 <= y * r.width) by (nonlinear_arith)
        requires
            0 <= y,
            0 <= r.width,
    ;
}

/// An image of 8-bit RGBA pixels.
#[derive(Debug)]
pub struct RgbaImage {
    width: u32,
    height: u32,
    pixels: Vec<Rgba>,
}

impl View for RgbaImage {
    type V = Raster;

    closed spec fn view(&self) -> Raster {
        Raster { width: self.width as int, height: self.height as int, pixels: self.pixels@ }
    }
}

impl RgbaImage {
    #[verifier::type_invariant]
    closed spec fn inv(self) -> bool {
        self@.wf()
    }

    /// The image whose pixel in column `x` of row `y` is what `pixel_at` gives
    /// for them.
    pub fn from_fn<F: Fn(u32, u32) -> Rgba>(width: u32, height: u32, pixel_at: F) -> (image:
        RgbaImage)
        requires
            fits(width as int, height as int),
            forall|x: u32, y: u32|
                x < width && y < height ==> #[trigger] call_requires(pixel_at, (x, y)),
        ensures
            image@.width == width,
            image@.height == height,
            image@.wf(),
            forall|x: int, y: int|
                #![trigger image@.at(x, y)]
                image@.has(x, y) ==> call_ensures(
                    pixel_at,
                    (x as u32, y as u32),
                    image@.at(x, y),
                ),
    {
        let mut pixels: Vec<Rgba> = Vec::new();
        let mut y: u32 = 0;
        while y < height
            invariant
                y <= height,
                forall|x: u32, y: u32|
                    x < width && y < height ==> #[trigger] call_requires(pixel_at, (x, y)),
                pixels@.len() == y * width,
                forall|k: int|
                    #![trigger pixels@[k]]
                    0 <= k < pixels@.len() ==> call_ensures(
                        pixel_at,
                        ((k % (width as int)) as u32, (k / (width as int)) as u32),
                        pixels@[k],
                    ),
            decreases height - y,
        {
            let mut x: u32 = 0;
            while x < width
                invariant
                    x <= width,
                    y < height,
                    forall|x: u32, y: u32|
                        x < width && y < height ==> #[trigger] call_requires(pixel_at, (x, y)),
                    pixels@.len() == y * width + x,
                    forall|k: int|
                        #![trigger pixels@[k]]
                        0 <= k < pixels@.len() ==> call_ensures(
                            pixel_at,
                            ((k % (width as int)) as u32, (k / (width as int)) as u32),
                            pixels@[k],
                        ),
                decreases width - x,
            {
                pixels.push(pixel_at(x, y));
                proof {
                    lemma_index(x as int, y as int, width as int, height as int);
                }
                x = x + 1;
            }
            assert(y * width + width == (y + 1) * width) by (nonlinear_arith);
            y = y + 1;
        }
        assert(y * width == width * height) by (nonlinear_arith)
            requires
                y == height,
        ;
        let image = RgbaImage { width, height, pixels };
        assert forall|x: int, y: int|
            #![trigger image@.at(x, y)]
            image@.has(x, y) implies call_ensures(
            pixel_at,
            (x as u32, y as u32),
            image@.at(x, y),
        ) by {
            lemma_index(x, y, width as int, height as int);
        }
        image
    }

    /// An image filled with one pixel.
    pub fn from_pixel(width: u32, height: u32, pixel: Rgba) -> (image: RgbaImage)
        requires
            fits(width as int, height as int),
        ensures
            image@ == Raster::build(width as int, height as int, |x: int, y: int| pixel),
            image@.wf(),
    {
        let pixel_at = |_x: u32, _y: u32| -> (p: Rgba)
            ensures
                p == pixel,
        {
            pixel
        };
        let image = RgbaImage::from_fn(width, height, pixel_at);
        proof {
            lemma_build_ext(image@, |x: int, y: int| pixel);
        }
        image
    }

    /// A fully transparent image.
    pub fn new(width: u32, height: u32) -> (image: RgbaImage)
        requires
            fits(width as int, height as int),
        ensures
            image@ == Raster::build(
                width as int,
                height as int,
                |x: int, y: int| Rgba::clear_spec(),
            ),
            image@.wf(),
    {
        RgbaImage::from_pixel(width, height, Rgba::clear())
    }

    pub fn width(&self) -> (width: u32)
        ensures
            width == self@.width,
            self@.wf(),
    {
        proof {
            use_type_invariant(self);
        }
        self.width
    }

    pub fn height(&self) -> (height: u32)
        ensures
            height == self@.height,
            self@.wf(),
    {
        proof {
            use_type_invariant(self);
        }
        self.height
    }

    /// Width and height.
    pub fn dimensions(&self) -> (size: (u32, u32))
        ensures
            size.0 == self@.width,
            size.1 == self@.height,
            self@.wf(),
    {
        proof {
            use_type_invariant(self);
        }
        (self.width, self.height)
    }

    pub fn get_pixel(&self, x: u32, y: u32) -> (pixel: Rgba)
        requires
            self@.has(x as int, y as int),
        ensures
            pixel == self@.at(x as int, y as int),
    {
        proof {
            use_type_invariant(self);
            lemma_index(x as int, y as int, self.width as int, self.height as int);
            lemma_offset(x as int, y as int, self@);
        }
        self.pixels[y as usize * self.width as usize + x as usize]
    }

    pub fn put_pixel(&mut self, x: u32, y: u32, pixel: Rgba)
        requires
            old(self)@.has(x as int, y as int),
        ensures
            final(self)@ == old(self)@.with(x as int, y as int, pixel),
            final(self)@.wf(),
    {
        proof {
            use_type_invariant(&*self);
            lemma_index(x as int, y as int, self.width as int, self.height as int);
            lemma_offset(x as int, y as int, self@);
        }
        let mut image = RgbaImage { width: 0, height: 0, pixels: Vec::new() };
        std::mem::swap(self, &mut image);
        let RgbaImage { width, height, mut pixels } = image;
        pixels.set(y as usize * width as usize + x as usize, pixel);
        *self = RgbaImage { width, height, pixels };
    }

    /// The image described by `bytes`, four channels per pixel, if there are
    /// enough of them. Bytes past the last pixel are ignored.
    pub fn from_raw(width: u32, height: u32, bytes: &Vec<u8>) -> (image: Option<RgbaImage>)
        ensures
            image is Some <==> fits(width as int, height as int) && width * height * 4
                <= bytes@.len(),
            image matches Some(image) ==> image@ == Raster::from_bytes(
                width as int,
                height as int,
                bytes@,
            ) && image@.wf(),
    {
        let count: u64 = mul_u32(width, height);
        assert(count as u128 * 4 <= u128::MAX);
        let total: u128 = count as u128 * 4;
        if total > isize::MAX as u128 || total > bytes.len() as u128 {
            return None;
        }
        let count: usize = count as usize;
        let mut pixels: Vec<Rgba> = Vec::new();
        let mut i: usize = 0;
        while i < count
            invariant
                i <= count,
                count * 4 <= bytes@.len(),
                count * 4 <= isize::MAX,
                pixels@.len() == i,
                forall|k: int|
                    0 <= k < i ==> pixels@[k] == (Rgba {
                        r: bytes@[4 * k],
                        g: bytes@[4 * k + 1],
                        b: bytes@[4 * k + 2],
                        a: bytes@[4 * k + 3],
                    }),
            decreases count - i,
        {
            let base: usize = 4 * i;
            pixels.push(
                Rgba {
                    r: bytes[base],
                    g: bytes[base + 1],
                    b: bytes[base + 2],
                    a: bytes[base + 3],
                },
            );
            i = i + 1;
        }
        let image = RgbaImage { width, height, pixels };
        assert(image@.pixels =~= Raster::from_bytes(
            width as int,
            height as int,
            bytes@,
        ).pixels);
        Some(image)
    }

    /// The image's bytes, four channels per pixel.
    pub fn to_raw(&self) -> (bytes: Vec<u8>)
        ensures
            bytes@ == self@.bytes(),
            bytes@.len() == self@.width * self@.height * 4,
    {
        proof {
            use_type_invariant(self);
        }
        let mut bytes: Vec<u8> = Vec::new();
        let mut i: usize = 0;
        while i < self.pixels.len()
            invariant
                i <= self.pixels@.len(),
                bytes@.len() == 4 * i,
                forall|k: int|
                    0 <= k < 4 * i ==> bytes@[k] == self.pixels@[k / 4].channel(k % 4),
            decreases self.pixels@.len() - i,
        {
            let pixel: Rgba = self.pixels[i];
            bytes.push(pixel.r);
            bytes.push(pixel.g);
            bytes.push(pixel.b);
            bytes.push(pixel.a);
            i = i + 1;
        }
        assert(bytes@ =~= self@.bytes());
        bytes
    }

    /// The part of the image that starts at `(x, y)` and is `width` by
    /// `height`, cut down to the image's own bounds.
    pub fn crop(&self, x: u32, y: u32, width: u32, height: u32) -> (image: RgbaImage)
        ensures
            image@ == self@.crop(x as int, y as int, width as int, height as int),
            image@.wf(),
    {
        proof {
            use_type_invariant(self);
        }
        let x0: u32 = if x <= self.width { x } else { self.width };
        let y0: u32 = if y <= self.height { y } else { self.height };
        let w: u32 = if width <= self.width - x0 { width } else { self.width - x0 };
        let h: u32 = if height <= self.height - y0 { height } else { self.height - y0 };
        let ghost f = |i: int, j: int| self@.at(x0 + i, y0 + j);
        assert(w * h <= self.width * self.height) by (nonlinear_arith)
            requires
                w <= self.width,
                h <= self.height,
        ;
        let pixel_at = |i: u32, j: u32| -> (pixel: Rgba)
            requires
                i < w,
                j < h,
            ensures
                pixel == self@.at(x0 + i, y0 + j),
        {
            self.get_pixel(x0 + i, y0 + j)
        };
        let image = RgbaImage::from_fn(w, h, pixel_at);
        proof {
            lemma_build_ext(image@, f);
        }
        image
    }

    /// Lays `tile` over the image at `(x, y)`; what falls outside is dropped.
    pub fn paste(&mut self, tile: &RgbaImage, x: u32, y: u32)
        ensures
            final(self)@ == old(self)@.paste(tile@, x as int, y as int),
            final(self)@.wf(),
    {
        let ghost before = self@;
        let (width, height) = self.dimensions();
        let (tile_width, tile_height) = tile.dimensions();
        let ghost f = |i: int, j: int|
            if tile@.has(i - x, j - y) {
                tile@.at(i - x, j - y)
            } else {
                before.at(i, j)
            };
        let mut j: u32 = 0;
        while j < tile_height && y < height && j < height - y
            invariant
                j <= tile_height,
                self@.wf(),
                self@.width == width == before.width,
                self@.height == height == before.height,
                tile@.wf(),
                tile@.width == tile_width,
                tile@.height == tile_height,
                f == |i: int, j: int|
                    if tile@.has(i - x, j - y) {
                        tile@.at(i - x, j - y)
                    } else {
                        before.at(i, j)
                    },
                forall|a: int, b: int|
                    #![trigger self@.at(a, b)]
                    self@.has(a, b) ==> self@.at(a, b) == if b - y < j {
                        f(a, b)
                    } else {
                        before.at(a, b)
                    },
            decreases tile_height - j,
        {
            let mut i: u32 = 0;
            while i < tile_width && x < width && i < width - x
                invariant
                    i <= tile_width,
                    j < tile_height,
                    y + j < height,
                    self@.wf(),
                    self@.width == width == before.width,
                    self@.height == height == before.height,
                    tile@.wf(),
                    tile@.width == tile_width,
                    tile@.height == tile_height,
                    f == |i: int, j: int|
                        if tile@.has(i - x, j - y) {
                            tile@.at(i - x, j - y)
                        } else {
                            before.at(i, j)
                        },
                    forall|a: int, b: int|
                        #![trigger self@.at(a, b)]
                        self@.has(a, b) ==> self@.at(a, b) == if b - y < j || (b - y == j && a - x
                            < i) {
                            f(a, b)
                        } else {
                            before.at(a, b)
                        },
                decreases tile_width - i,
            {
                let ghost current = self@;
                let pixel: Rgba = tile.get_pixel(i, j);
                proof {
                    lemma_with(current, x + i, y + j, pixel);
                }
                self.put_pixel(x + i, y + j, pixel);
                i = i + 1;
            }
            j = j + 1;
        }
        proof {
            lemma_build_ext(self@, f);
        }
    }
}

/// The product of two 32-bit numbers.
pub fn mul_u32(a: u32, b: u32) -> (product: u64)
    ensures
        product == a * b,
{
    assert(a * b <= 0xffff_ffff * 0xffff_ffff) by (nonlinear_arith)
        requires
            a <= 0xffff_ffff,
            b <= 0xffff_ffff,
    ;
    a as u64 * b as u64
}

/// The part cut out of a raster shows what lies there, and has the size asked for
/// where the raster has it.
pub proof fn cutting_out_moves_nothing(
    image: RgbaImage,
    x: u32,
    y: u32,
    width: u32,
    height: u32,
    part: RgbaImage,
    i: int,
    j: int,
)
    requires
        call_ensures(RgbaImage::crop, (&image, x, y, width, height), part),
        x + width <= image@.width,
        y + height <= image@.height,
    ensures
        part@.width == width,
        part@.height == height,
        0 <= i < width && 0 <= j < height ==> part@.at(i, j) == image@.at(x + i, y + j),
{
    if 0 <= i < width && 0 <= j < height {
        lemma_build_at(
            width as int,
            height as int,
            |a: int, b: int| image@.at(x + a, y + b),
            i,
            j,
        );
    }
}

/// A raster with a tile laid over it shows the tile where it lies and is itself
/// everywhere else.
pub proof fn laying_over_changes_what_is_covered(
    under: Raster,
    tile: Raster,
    x: int,
    y: int,
    i: int,
    j: int,
)
    requires
        under.has(i, j),
    ensures
        under.paste(tile, x, y).width == under.width,
        under.paste(tile, x, y).height == under.height,
        x <= i < x + tile.width && y <= j < y + tile.height ==> under.paste(tile, x, y).at(i, j)
            == tile.at(i - x, j - y),
        !(x <= i < x + tile.width && y <= j < y + tile.height) ==> under.paste(tile, x, y).at(i, j)
            == under.at(i, j),
{
    lemma_build_at(
        under.width,
        under.height,
        |a: int, b: int|
            if tile.has(a - x, b - y) {
                tile.at(a - x, b - y)
            } else {
                under.at(a, b)
            },
        i,
        j,
    );
}

/// An image's bytes are red, green, blue and alpha of its pixels, row by row, and
/// an image is made of bytes in the same way.
pub proof fn pixels_are_four_bytes_row_by_row(
    image: RgbaImage,
    bytes: Vec<u8>,
    back: Option<RgbaImage>,
    x: int,
    y: int,
)
    requires
        image@.wf(),
        call_ensures(RgbaImage::to_raw, (&image,), bytes),
        call_ensures(
            RgbaImage::from_raw,
            (image@.width as u32, image@.height as u32, &bytes),
            back,
        ),
        image@.has(x, y),
    ensures
        ({
            let start = 4 * (y * image@.width + x);
            &&& 0 <= start && start + 3 < bytes@.len()
            &&& bytes@[start] == image@.at(x, y).r
            &&& bytes@[start + 1] == image@.at(x, y).g
            &&& bytes@[start + 2] == image@.at(x, y).b
            &&& bytes@[start + 3] == image@.at(x, y).a
        }),
        back matches Some(back) && back@.at(x, y) == image@.at(x, y) && back@.width == image@.width
            && back@.height == image@.height,
{
    lemma_index(x, y, image@.width, image@.height);
    let w = image@.width;
    let h = image@.height;
    assert(w * h * 4 == 4 * (w * h)) by (nonlinear_arith);
}

/// An image filled with a pixel shows it everywhere, and a new one is fully
/// transparent.
pub proof fn filled_images_show_one_pixel(
    width: u32,
    height: u32,
    pixel: Rgba,
    filled: RgbaImage,
    blank: RgbaImage,
    x: int,
    y: int,
)
    requires
        call_ensures(RgbaImage::from_pixel, (width, height, pixel), filled),
        call_ensures(RgbaImage::new, (width, height), blank),
        0 <= x < width,
        0 <= y < height,
    ensures
        filled@.at(x, y) == pixel,
        blank@.at(x, y).r == 0 && blank@.at(x, y).g == 0 && blank@.at(x, y).b == 0,
        blank@.at(x, y).a == 0,
        filled@.width == width && filled@.height == height,
        blank@.width == width && blank@.height == height,
{
    lemma_build_at(width as int, height as int, |a: int, b: int| pixel, x, y);
    lemma_build_at(width as int, height as int, |a: int, b: int| Rgba::clear_spec(), x, y);
}

/// An image with a tile laid over it shows the tile where it lies, and is what it was
/// everywhere else.
pub proof fn tiles_show_where_they_lie(
    image: &mut RgbaImage,
    tile: RgbaImage,
    x: u32,
    y: u32,
    done: (),
    i: int,
    j: int,
)
    requires
        call_ensures(RgbaImage::paste, (image, &tile, x, y), done),
        old(image)@.has(i, j),
    ensures
        final(image)@.width == old(image)@.width && final(image)@.height == old(image)@.height,
        x <= i < x + tile@.width && y <= j < y + tile@.height ==> final(image)@.at(i, j)
            == tile@.at(i - x, j - y),
        !(x <= i < x + tile@.width && y <= j < y + tile@.height) ==> final(image)@.at(i, j)
            == old(image)@.at(i, j),
{
    laying_over_changes_what_is_covered(old(image)@, tile@, x as int, y as int, i, j);
}

/// Setting a pixel changes that pixel and no other.
pub proof fn setting_a_pixel_changes_no_other(
    image: &mut RgbaImage,
    x: u32,
    y: u32,
    pixel: Rgba,
    done: (),
    i: int,
    j: int,
)
    requires
        call_ensures(RgbaImage::put_pixel, (image, x, y, pixel), done),
        old(image)@.wf(),
        old(image)@.has(x as int, y as int),
        old(image)@.has(i, j),
    ensures
        final(image)@.width == old(image)@.width && final(image)@.height == old(image)@.height,
        final(image)@.at(i, j) == if i == x && j == y {
            pixel
        } else {
            old(image)@.at(i, j)
        },
{
    let w = old(image)@.width;
    let h = old(image)@.height;
    assert(0 <= j * w + i < w * h && 0 <= y * w + x < w * h) by (nonlinear_arith)
        requires
            0 <= i < w,
            0 <= j < h,
            0 <= x < w,
            0 <= y < h,
    ;
    assert(j * w + i == y * w + x ==> i == x && j == y) by (nonlinear_arith)
        requires
            0 <= i < w,
            0 <= x < w,
            0 <= j,
            0 <= y,
    ;
}

} // verus!
