use vstd::prelude::*;
use vstd::arithmetic::div_mod::lemma_fundamental_div_mod;
use vstd::arithmetic::div_mod::lemma_fundamental_div_mod_converse;
use crate::size::ImageSize;

verus! {

/// One pixel: red, green, blue and opacity.
#[derive(Clone, Copy, Debug, PartialEq, Eq, Structural)]
pub struct Rgba {
    pub r: u8,
    pub g: u8,
    pub b: u8,
    pub a: u8,
}

impl Rgba {
    /// The fully transparent pixel of a blank canvas.
    pub open spec fn spec_clear() -> Rgba {
        Rgba { r: 0, g: 0, b: 0, a: 0 }
    }

    #[verifier::when_used_as_spec(spec_clear)]
    pub fn clear() -> (p: Rgba)
        ensures
            p == Rgba::spec_clear(),
    {
        Rgba { r: 0, g: 0, b: 0, a: 0 }
    }
}

/// One of the four bytes of a pixel: red, green, blue, opacity.
pub open spec fn channel(p: Rgba, c: int) -> u8 {
    if c == 0 {
        p.r
    } else if c == 1 {
        p.g
    } else if c == 2 {
        p.b
    } else {
        p.a
    }
}

/// Grey value of a pixel: its colours weighted 2126 : 7152 : 722, out of
/// 10000, rounded down. Opacity plays no part.
pub open spec fn luma(p: Rgba) -> int {
    (2126 * p.r as int + 7152 * p.g as int + 722 * p.b as int) / 10000
}

/// `image::Pixel::to_luma` of the `image` crate, on one 8-bit RGBA pixel.
/// The crate weighs the three colours with its sRGB constants in integer
/// arithmetic, divides by 10000 and drops the opacity.
#[verifier::external_body]
fn pixel_luma(p: Rgba) -> (grey: u8)
    ensures
        grey == luma(p),
{
    image::Pixel::to_luma(&image::Rgba([p.r, p.g, p.b, p.a])).0[0]
}

// ---------------------------------------------------------------------
// The pixel buffer
// ---------------------------------------------------------------------

/// A decoded picture, held in the `image` crate's buffer of 8-bit RGBA
/// pixels.
#[verifier::external_body]
#[derive(Debug)]
pub struct Picture {
    buffer: image::RgbaImage,
}

/// The bytes that the buffer of a picture holds: row by row from the
/// top, each row from the left, four bytes per pixel.
pub uninterp spec fn samples(pic: Picture) -> Seq<u8>;

/// Width and height that the buffer of a picture was made with.
pub uninterp spec fn dimensions(pic: Picture) -> (u32, u32);

/// Place of the first byte of the pixel in column `x` of row `y` in a
/// buffer `w` pixels wide.
pub open spec fn offset(w: int, x: int, y: int) -> int {
    4 * (y * w + x)
}

/// `ImageBuffer::from_pixel` of the `image` crate: a buffer of the given
/// size with exactly four bytes per pixel, every pixel a copy of the
/// given one. The crate stops the program where the number of bytes is
/// more than a vector can hold.
#[verifier::external_body]
fn buffer_from_pixel(width: u32, height: u32, pixel: Rgba) -> (pic: Picture)
    requires
        4 * (width as int * height as int) <= isize::MAX,
    ensures
        dimensions(pic) == (width, height),
        samples(pic).len() == 4 * (width as int * height as int),
        forall|k: int|
            0 <= k < samples(pic).len() ==> #[trigger] samples(pic)[k] == channel(pixel, k % 4),
{
    let pixel = image::Rgba([pixel.r, pixel.g, pixel.b, pixel.a]);
    Picture { buffer: image::RgbaImage::from_pixel(width, height, pixel) }
}

/// `ImageBuffer::from_raw` of the `image` crate: a buffer of the given
/// size over the given bytes, which it keeps as they are. The crate
/// answers `None` exactly where there are fewer than four bytes per pixel.
#[verifier::external_body]
fn buffer_from_raw(width: u32, height: u32, raw: Vec<u8>) -> (pic: Option<Picture>)
    ensures
        pic.is_some() <==> 4 * (width as int * height as int) <= raw@.len(),
        pic matches Some(p) ==> dimensions(p) == (width, height) && samples(p) == raw@,
{
    match image::RgbaImage::from_raw(width, height, raw) {
        Some(buffer) => Some(Picture { buffer }),
        None => None,
    }
}

/// `ImageBuffer::dimensions` of the `image` crate.
#[verifier::external_body]
fn buffer_dimensions(pic: &Picture) -> (size: (u32, u32))
    ensures
        size == dimensions(*pic),
{
    pic.buffer.dimensions()
}

/// `ImageBuffer::get_pixel` of the `image` crate: the four bytes that
/// stand at the pixel's place. The crate stops the program for a pixel
/// outside the buffer.
#[verifier::external_body]
fn buffer_get_pixel(pic: &Picture, x: u32, y: u32) -> (p: Rgba)
    requires
        x < dimensions(*pic).0,
        y < dimensions(*pic).1,
    ensures
        forall|c: int|
            0 <= c < 4 ==> #[trigger] channel(p, c) == samples(*pic)[offset(
                dimensions(*pic).0 as int,
                x as int,
                y as int,
            ) + c],
{
    let p = pic.buffer.get_pixel(x, y);
    Rgba { r: p.0[0], g: p.0[1], b: p.0[2], a: p.0[3] }
}

/// `ImageBuffer::put_pixel` of the `image` crate: the four bytes at the
/// pixel's place become those of the given pixel, and nothing else
/// changes. The crate stops the program for a pixel outside the buffer.
#[verifier::external_body]
fn buffer_put_pixel(pic: &mut Picture, x: u32, y: u32, p: Rgba)
    requires
        x < dimensions(*old(pic)).0,
        y < dimensions(*old(pic)).1,
    ensures
        dimensions(*final(pic)) == dimensions(*old(pic)),
        samples(*final(pic)).len() == samples(*old(pic)).len(),
        forall|k: int|
            0 <= k < samples(*old(pic)).len() ==> #[trigger] samples(*final(pic))[k] == {
                let first = offset(dimensions(*old(pic)).0 as int, x as int, y as int);
                if first <= k < first + 4 {
                    channel(p, k - first)
                } else {
                    samples(*old(pic))[k]
                }
            },
{
    pic.buffer.put_pixel(x, y, image::Rgba([p.r, p.g, p.b, p.a]));
}

/// `ImageBuffer::as_raw` of the `image` crate, copied out: the bytes of
/// the buffer.
#[verifier::external_body]
fn buffer_to_raw(pic: &Picture) -> (raw: Vec<u8>)
    ensures
        raw@ == samples(*pic),
{
    pic.buffer.as_raw().clone()
}

/// `Clone` of the `image` crate's `ImageBuffer`: a second buffer of the
/// same size with the same bytes.
#[verifier::external_body]
fn buffer_clone(pic: &Picture) -> (copy: Picture)
    ensures
        dimensions(copy) == dimensions(*pic),
        samples(copy) == samples(*pic),
{
    Picture { buffer: pic.buffer.clone() }
}

// ---------------------------------------------------------------------
// Pixels by column and row
// ---------------------------------------------------------------------

/// Byte `c` of the pixel in column `x` of row `y` stands at place
/// `4 * (y * w + x) + c` of the raw bytes of a picture `w` pixels wide.
pub proof fn lemma_rgba_index(w: int, h: int, x: int, y: int, c: int)
    requires
        0 <= x < w,
        0 <= y < h,
        0 <= c < 4,
    ensures
        ({
            let k = offset(w, x, y) + c;
            &&& 0 <= k < 4 * (w * h)
            &&& k % 4 == c
            &&& (k / 4) % w == x
            &&& (k / 4) / w == y
        }),
{
    let n = y * w + x;
    let k = 4 * n + c;
    assert(0 <= n < w * h) by (nonlinear_arith)
        requires
            n == y * w + x,
            0 <= x < w,
            0 <= y < h,
    ;
    assert(k == n * 4 + c);
    lemma_fundamental_div_mod_converse(k, 4, n, c);
    lemma_fundamental_div_mod_converse(n, w, y, x);
}

/// Every place of the raw bytes of a picture belongs to one byte of one
/// pixel: place `k` to byte `k % 4` of the pixel in column `(k / 4) % w`
/// of row `(k / 4) / w`.
pub proof fn lemma_rgba_place(w: int, h: int, k: int)
    requires
        0 <= k < 4 * (w * h),
        0 < w,
    ensures
        ({
            let x = (k / 4) % w;
            let y = (k / 4) / w;
            let c = k % 4;
            &&& 0 <= x < w
            &&& 0 <= y < h
            &&& 0 <= c < 4
            &&& k == offset(w, x, y) + c
        }),
{
    let n = k / 4;
    let x = n % w;
    let y = n / w;
    lemma_fundamental_div_mod(k, 4);
    lemma_fundamental_div_mod(n, w);
    assert(0 <= n < w * h);
    assert(n == w * y + x);
    assert(0 <= y < h) by (nonlinear_arith)
        requires
            n == w * y + x,
            0 <= x < w,
            0 <= n < w * h,
    ;
    assert(w * y == y * w) by (nonlinear_arith);
}

/// The picture as raw bytes: row by row from the top, each row from the
/// left, four bytes per pixel.
pub open spec fn rgba_bytes(pic: Picture) -> Seq<u8> {
    Seq::new(
        (4 * pic.size().area()) as nat,
        |k: int|
            channel(
                pic.at((k / 4) % (pic.size().width as int), (k / 4) / (pic.size().width as int)),
                k % 4,
            ),
    )
}

/// Sum of the grey values of `n` pixels of row `y`, from column `x0` on.
pub open spec fn row_luma(pic: Picture, y: int, x0: int, n: nat) -> int
    decreases n,
{
    if n == 0 {
        0
    } else {
        row_luma(pic, y, x0, (n - 1) as nat) + luma(pic.at(x0 + n - 1, y))
    }
}

/// Sum of the grey values of the `w` by `h` pixels whose top left corner
/// is at column `x0` of row `y0`.
pub open spec fn region_luma(pic: Picture, x0: int, y0: int, w: nat, h: nat) -> int
    decreases h,
{
    if h == 0 {
        0
    } else {
        region_luma(pic, x0, y0, w, (h - 1) as nat) + row_luma(pic, y0 + h - 1, x0, w)
    }
}

/// A grey value is at most 255, so a row of `n` pixels sums to at most `255 * n`.
pub proof fn lemma_row_luma_bound(pic: Picture, y: int, x0: int, n: nat)
    ensures
        0 <= row_luma(pic, y, x0, n) <= 255 * n,
    decreases n,
{
    if n > 0 {
        lemma_row_luma_bound(pic, y, x0, (n - 1) as nat);
    }
}

/// A region of `w` by `h` pixels sums to at most `255 * w * h`.
pub proof fn lemma_region_luma_bound(pic: Picture, x0: int, y0: int, w: nat, h: nat)
    ensures
        0 <= region_luma(pic, x0, y0, w, h) <= 255 * (w * h),
    decreases h,
{
    if h > 0 {
        lemma_region_luma_bound(pic, x0, y0, w, (h - 1) as nat);
        lemma_row_luma_bound(pic, y0 + h - 1, x0, w);
        assert(255 * (w * (h - 1)) + 255 * w == 255 * (w * h)) by (nonlinear_arith);
    } else {
        assert(w * h == 0) by (nonlinear_arith)
            requires
                h == 0,
        ;
    }
}

/// What painting `piece` over `before`, top left corner at column `x0` of
/// row `y0`, leaves: the piece's pixels inside its rectangle, the old
/// pixels everywhere else.
pub open spec fn overpainted(
    before: Picture,
    piece: Picture,
    x0: int,
    y0: int,
    after: Picture,
) -> bool {
    &&& after.wf()
    &&& after.size() == before.size()
    &&& forall|x: int, y: int|
        0 <= x < before.size().width && 0 <= y < before.size().height ==> #[trigger] after.at(x, y)
            == if x0 <= x < x0 + piece.size().width && y0 <= y < y0 + piece.size().height {
            piece.at(x - x0, y - y0)
        } else {
            before.at(x, y)
        }
}

impl Picture {
    /// Width and height of the picture.
    pub open spec fn size(&self) -> ImageSize {
        ImageSize { width: dimensions(*self).0, height: dimensions(*self).1 }
    }

    /// The pixel in column `x` of row `y`.
    pub open spec fn at(&self, x: int, y: int) -> Rgba {
        let first = offset(dimensions(*self).0 as int, x, y);
        Rgba {
            r: samples(*self)[first],
            g: samples(*self)[first + 1],
            b: samples(*self)[first + 2],
            a: samples(*self)[first + 3],
        }
    }

    /// The buffer holds exactly four bytes for every pixel.
    pub open spec fn wf(&self) -> bool {
        samples(*self).len() == 4 * self.size().area()
    }

    /// A well-formed picture is its pixels: its bytes are those of its
    /// pixels, row by row.
    pub proof fn lemma_bytes(&self)
        requires
            self.wf(),
        ensures
            rgba_bytes(*self) == samples(*self),
    {
        let w = self.size().width as int;
        let h = self.size().height as int;
        assert forall|k: int| 0 <= k < samples(*self).len() implies rgba_bytes(*self)[k] == samples(
            *self,
        )[k] by {
            if w > 0 {
                lemma_rgba_place(w, h, k);
            } else {
                assert(w * h == 0) by (nonlinear_arith)
                    requires
                        w == 0,
                ;
            }
        }
        assert(rgba_bytes(*self) =~= samples(*self));
    }

    /// A picture of one colour. The size has to be one whose bytes a
    /// vector can hold.
    pub fn filled(size: ImageSize, pixel: Rgba) -> (pic: Picture)
        requires
            4 * size.area() <= isize::MAX,
        ensures
            pic.wf(),
            pic.size() == size,
            forall|x: int, y: int|
                0 <= x < size.width && 0 <= y < size.height ==> #[trigger] pic.at(x, y) == pixel,
    {
        let pic = buffer_from_pixel(size.width, size.height, pixel);
        proof {
            assert forall|x: int, y: int|
                0 <= x < size.width && 0 <= y < size.height implies #[trigger] pic.at(x, y)
                    == pixel by {
                lemma_rgba_index(size.width as int, size.height as int, x, y, 0);
                lemma_rgba_index(size.width as int, size.height as int, x, y, 1);
                lemma_rgba_index(size.width as int, size.height as int, x, y, 2);
                lemma_rgba_index(size.width as int, size.height as int, x, y, 3);
            }
        }
        pic
    }

    /// A picture from raw bytes, four per pixel, row by row from the top.
    /// `None` exactly when there are not four bytes for every pixel.
    pub fn from_rgba_bytes(size: ImageSize, bytes: &[u8]) -> (res: Option<Picture>)
        ensures
            res.is_some() <==> bytes@.len() == 4 * size.area(),
            res matches Some(pic) ==> pic.wf() && pic.size() == size && rgba_bytes(pic) == bytes@,
    {
        let ghost w = size.width as int;
        let ghost h = size.height as int;
        assert(0 <= w * h <= 0xFFFF_FFFF * 0xFFFF_FFFF) by (nonlinear_arith)
            requires
                0 <= w <= 0xFFFF_FFFF,
                0 <= h <= 0xFFFF_FFFF,
        ;
        let need: u128 = 4u128 * ((size.width as u128) * (size.height as u128));
        if bytes.len() as u128 != need {
            return None;
        }
        let raw = vstd::slice::slice_to_vec(bytes);
        match buffer_from_raw(size.width, size.height, raw) {
            Some(pic) => {
                proof {
                    pic.lemma_bytes();
                }
                Some(pic)
            },
            None => None,
        }
    }

    /// The picture as raw bytes, four per pixel, row by row.
    pub fn to_rgba_bytes(&self) -> (bytes: Vec<u8>)
        requires
            self.wf(),
        ensures
            bytes@ == rgba_bytes(*self),
    {
        proof {
            self.lemma_bytes();
        }
        buffer_to_raw(self)
    }

    /// A second picture with the same pixels.
    pub fn duplicate(&self) -> (copy: Picture)
        requires
            self.wf(),
        ensures
            copy.wf(),
            copy.size() == self.size(),
            forall|x: int, y: int|
                0 <= x < self.size().width && 0 <= y < self.size().height ==> #[trigger] copy.at(
                    x,
                    y,
                ) == self.at(x, y),
    {
        buffer_clone(self)
    }

    pub fn get_size(&self) -> (size: ImageSize)
        ensures
            size == self.size(),
    {
        let (width, height) = buffer_dimensions(self);
        ImageSize { width, height }
    }

    /// The pixel in column `x` of row `y`, `None` outside the picture.
    pub fn pixel(&self, x: u32, y: u32) -> (p: Option<Rgba>)
        ensures
            p == if x < self.size().width && y < self.size().height {
                Some(self.at(x as int, y as int))
            } else {
                None
            },
    {
        let (width, height) = buffer_dimensions(self);
        if x < width && y < height {
            let p = buffer_get_pixel(self, x, y);
            assert(channel(p, 0) == p.r && channel(p, 1) == p.g && channel(p, 2) == p.b && channel(
                p,
                3,
            ) == p.a);
            Some(p)
        } else {
            None
        }
    }

    /// Sets one pixel. Outside the picture nothing changes and `false` comes back.
    pub fn put_pixel(&mut self, x: u32, y: u32, p: Rgba) -> (done: bool)
        requires
            old(self).wf(),
        ensures
            final(self).wf(),
            final(self).size() == old(self).size(),
            done == (x < old(self).size().width && y < old(self).size().height),
            !done ==> *final(self) == *old(self),
            forall|i: int, j: int|
                0 <= i < old(self).size().width && 0 <= j < old(self).size().height
                    ==> #[trigger] final(self).at(i, j) == if done && i == x && j == y {
                    p
                } else {
                    old(self).at(i, j)
                },
    {
        let (width, height) = buffer_dimensions(self);
        if x < width && y < height {
            buffer_put_pixel(self, x, y, p);
            proof {
                let w = width as int;
                let h = height as int;
                let first = offset(w, x as int, y as int);
                lemma_rgba_index(w, h, x as int, y as int, 0);
                lemma_rgba_index(w, h, x as int, y as int, 3);
                assert forall|i: int, j: int| 0 <= i < w && 0 <= j < h implies #[trigger] self.at(
                    i,
                    j,
                ) == if i == x && j == y {
                    p
                } else {
                    old(self).at(i, j)
                } by {
                    lemma_rgba_index(w, h, i, j, 0);
                    lemma_rgba_index(w, h, i, j, 1);
                    lemma_rgba_index(w, h, i, j, 2);
                    lemma_rgba_index(w, h, i, j, 3);
                    let here = offset(w, i, j);
                    if i == x && j == y {
                        assert(here == first);
                    } else {
                        if first <= here < first + 4 || first <= here + 3 < first + 4 {
                            assert(here == first);
                        }
                    }
                }
            }
            true
        } else {
            false
        }
    }

    /// Paints `piece` over this picture, its top left corner at column `x0`
    /// of row `y0`. A piece that would reach over an edge is not painted at
    /// all: the picture stays as it was and `false` comes back.
    pub fn overpaint_by(&mut self, piece: &Picture, x0: u32, y0: u32) -> (done: bool)
        requires
            old(self).wf(),
            piece.wf(),
        ensures
            final(self).wf(),
            final(self).size() == old(self).size(),
            done == (x0 + piece.size().width <= old(self).size().width && y0 + piece.size().height
                <= old(self).size().height),
            done ==> overpainted(*old(self), *piece, x0 as int, y0 as int, *final(self)),
            !done ==> *final(self) == *old(self),
    {
        let size = self.get_size();
        let part = piece.get_size();
        let pw = part.width;
        let ph = part.height;
        if x0 as u64 + pw as u64 > size.width as u64 || y0 as u64 + ph as u64 > size.height as u64 {
            return false;
        }
        let mut y: u32 = 0;
        while y < ph
            invariant
                self.wf(),
                piece.wf(),
                self.size() == old(self).size(),
                size == self.size(),
                pw == piece.size().width,
                ph == piece.size().height,
                x0 + pw <= size.width,
                y0 + ph <= size.height,
                y <= ph,
                forall|i: int, j: int|
                    0 <= i < size.width && 0 <= j < size.height ==> #[trigger] self.at(i, j) == if x0
                        <= i < x0 + pw && y0 <= j < y0 + y {
                        piece.at(i - x0, j - y0)
                    } else {
                        old(self).at(i, j)
                    },
            decreases ph - y,
        {
            let mut x: u32 = 0;
            while x < pw
                invariant
                    self.wf(),
                    piece.wf(),
                    self.size() == old(self).size(),
                    size == self.size(),
                    pw == piece.size().width,
                    ph == piece.size().height,
                    x0 + pw <= size.width,
                    y0 + ph <= size.height,
                    y < ph,
                    x <= pw,
                    forall|i: int, j: int|
                        0 <= i < size.width && 0 <= j < size.height ==> #[trigger] self.at(i, j)
                            == if x0 <= i < x0 + pw && (y0 <= j < y0 + y || (j == y0 + y && i < x0
                            + x)) {
                            piece.at(i - x0, j - y0)
                        } else {
                            old(self).at(i, j)
                        },
                decreases pw - x,
            {
                let p = piece.pixel(x, y).unwrap();
                let done = self.put_pixel(x0 + x, y0 + y, p);
                assert(done);
                x += 1;
            }
            y += 1;
        }
        true
    }

    /// Sum of the grey values of the `w` by `h` pixels whose top left corner
    /// is at column `x0` of row `y0`; `None` where that rectangle is not
    /// inside the picture or holds more pixels than can be summed up.
    pub fn luma_total(&self, x0: u32, y0: u32, w: u32, h: u32) -> (total: Option<u64>)
        ensures
            total.is_some() <==> x0 + w <= self.size().width && y0 + h <= self.size().height && w
                * h <= crate::size::MAX_PIXELS,
            total matches Some(t) ==> t == region_luma(
                *self,
                x0 as int,
                y0 as int,
                w as nat,
                h as nat,
            ),
    {
        let size = self.get_size();
        if x0 as u64 + w as u64 > size.width as u64 || y0 as u64 + h as u64 > size.height as u64 {
            return None;
        }
        assert(w as int * h as int <= 0xFFFF_FFFF * 0xFFFF_FFFF) by (nonlinear_arith)
            requires
                w <= 0xFFFF_FFFF,
                h <= 0xFFFF_FFFF,
        ;
        if (w as u64) * (h as u64) > crate::size::MAX_PIXELS {
            return None;
        }
        let mut total: u64 = 0;
        let mut j: u32 = 0;
        while j < h
            invariant
                size == self.size(),
                x0 + w <= size.width,
                y0 + h <= size.height,
                w * h <= crate::size::MAX_PIXELS,
                j <= h,
                total == region_luma(*self, x0 as int, y0 as int, w as nat, j as nat),
            decreases h - j,
        {
            let mut row_total: u64 = 0;
            let mut i: u32 = 0;
            let y = y0 + j;
            while i < w
                invariant
                    size == self.size(),
                    x0 + w <= size.width,
                    y == y0 + j,
                    y < size.height,
                    i <= w,
                    row_total == row_luma(*self, y as int, x0 as int, i as nat),
                    row_total <= 255 * i,
                decreases w - i,
            {
                let grey = pixel_luma(self.pixel(x0 + i, y).unwrap());
                row_total += grey as u64;
                i += 1;
            }
            proof {
                lemma_region_luma_bound(*self, x0 as int, y0 as int, w as nat, (j + 1) as nat);
                assert(255 * (w * (j + 1)) <= 255 * (w * h)) by (nonlinear_arith)
                    requires
                        j + 1 <= h,
                        w >= 0,
                ;
            }
            total += row_total;
            j += 1;
        }
        Some(total)
    }
}

} // verus!
