//! Decoded images held as rows of RGBA pixels.

use vstd::prelude::*;
use vstd::arithmetic::div_mod::*;
use vstd::arithmetic::mul::*;
use crate::codec::decode_rgba;
use crate::grid::TileRect;

verus! {

/// One pixel: red, green, blue and alpha channels.
#[derive(Clone, Copy, Debug, PartialEq, Eq, Structural)]
pub struct Rgba {
    pub r: u8,
    pub g: u8,
    pub b: u8,
    pub a: u8,
}

/// Opaque black.
pub open spec fn black_spec() -> Rgba {
    Rgba { r: 0, g: 0, b: 0, a: 255 }
}

/// Returns opaque black.
pub fn black() -> (p: Rgba)
    ensures
        p == black_spec(),
{
    Rgba { r: 0, g: 0, b: 0, a: 255 }
}

/// The bytes of a run of pixels, four per pixel in the order red, green,
/// blue, alpha.
pub open spec fn rgba_bytes(p: Seq<Rgba>) -> Seq<u8>
    decreases p.len(),
{
    if p.len() == 0 {
        Seq::empty()
    } else {
        rgba_bytes(p.drop_last()) + seq![p.last().r, p.last().g, p.last().b, p.last().a]
    }
}

/// An image of `width` × `height` pixels, stored row by row.
#[derive(Clone, Debug)]
pub struct Raster {
    pub width: u32,
    pub height: u32,
    pub pixels: Vec<Rgba>,
}

impl Raster {
    /// The pixel store holds exactly one pixel per position.
    pub open spec fn wf(self) -> bool {
        self.pixels@.len() == self.width as int * self.height as int
    }

    /// The pixel in column `x` and row `y`.
    pub open spec fn pixel(self, x: int, y: int) -> Rgba {
        self.pixels@[y * self.width as int + x]
    }

    /// Builds an image from its RGBA bytes, row by row. Returns `None` when
    /// the number of bytes is not four per pixel.
    pub fn from_rgba_bytes(width: u32, height: u32, bytes: &[u8]) -> (r: Option<Raster>)
        ensures
            r is Some <==> bytes@.len() == 4 * (width as int * height as int),
            r matches Some(img) ==> {
                &&& img.wf()
                &&& img.width == width
                &&& img.height == height
                &&& rgba_bytes(img.pixels@) == bytes@
            },
    {
        let len = bytes.len();
        proof {
            lemma_u32_product_fits(width, height);
        }
        if len % 4 != 0 || (len / 4) as u64 != width as u64 * height as u64 {
            return None;
        }
        let count = len / 4;
        let mut pixels: Vec<Rgba> = Vec::new();
        let mut k: usize = 0;
        while k < count
            invariant
                count * 4 == len,
                len == bytes@.len(),
                k <= count,
                pixels@.len() == k,
                rgba_bytes(pixels@) == bytes@.take(4 * k as int),
            decreases count - k,
        {
            let p = Rgba { r: bytes[4 * k], g: bytes[4 * k + 1], b: bytes[4 * k + 2], a: bytes[4 * k + 3] };
            let ghost before = pixels@;
            pixels.push(p);
            proof {
                assert(pixels@.drop_last() == before);
                assert(bytes@.take(4 * (k + 1) as int) =~= bytes@.take(4 * k as int) + seq![p.r, p.g, p.b, p.a]);
            }
            k = k + 1;
        }
        proof {
            assert(bytes@.take(4 * count as int) =~= bytes@);
        }
        Some(Raster { width, height, pixels })
    }

    /// Decodes an encoded image (PNG or JPEG) into a well-formed raster.
    /// Returns `None` when the decoder refuses the bytes.
    pub fn decode(bytes: &[u8]) -> (r: Option<Raster>)
        ensures
            r matches Some(img) ==> img.wf(),
    {
        match decode_rgba(bytes) {
            Some((w, h, px)) => Raster::from_rgba_bytes(w, h, px.as_slice()),
            None => None,
        }
    }

    /// Returns a copy of the image.
    pub fn copy(&self) -> (r: Raster)
        ensures
            r.width == self.width,
            r.height == self.height,
            r.pixels@ == self.pixels@,
    {
        let mut out: Vec<Rgba> = Vec::new();
        let mut k: usize = 0;
        while k < self.pixels.len()
            invariant
                k <= self.pixels@.len(),
                out@ == self.pixels@.take(k as int),
            decreases self.pixels@.len() - k,
        {
            out.push(self.pixels[k]);
            proof {
                assert(out@ =~= self.pixels@.take(k + 1));
            }
            k = k + 1;
        }
        proof {
            assert(self.pixels@.take(k as int) =~= self.pixels@);
        }
        Raster { width: self.width, height: self.height, pixels: out }
    }

    /// Returns the image's RGBA bytes, row by row.
    pub fn to_rgba_bytes(&self) -> (r: Vec<u8>)
        ensures
            r@ == rgba_bytes(self.pixels@),
    {
        let mut out: Vec<u8> = Vec::new();
        let mut k: usize = 0;
        while k < self.pixels.len()
            invariant
                k <= self.pixels@.len(),
                out@ == rgba_bytes(self.pixels@.take(k as int)),
            decreases self.pixels@.len() - k,
        {
            let p = self.pixels[k];
            out.push(p.r);
            out.push(p.g);
            out.push(p.b);
            out.push(p.a);
            proof {
                assert(self.pixels@.take(k + 1).drop_last() =~= self.pixels@.take(k as int));
            }
            k = k + 1;
        }
        proof {
            assert(self.pixels@.take(k as int) =~= self.pixels@);
        }
        out
    }

    /// Returns the part of the image that `rect` covers, as an image of its
    /// own.
    pub fn crop(&self, rect: TileRect) -> (r: Raster)
        requires
            self.wf(),
            rect.x + rect.width <= self.width,
            rect.y + rect.height <= self.height,
        ensures
            r.wf(),
            r.width == rect.width,
            r.height == rect.height,
            forall|px: int, py: int| 0 <= px < rect.width && 0 <= py < rect.height ==>
                #[trigger] r.pixel(px, py) == self.pixel(rect.x + px, rect.y + py),
    {
        let w = rect.width as usize;
        let total = self.pixels.len();
        proof {
            lemma_u32_product_fits(rect.width, rect.height);
        }
        let count = rect.width as u64 * rect.height as u64;
        proof {
            assert(count <= total) by (nonlinear_arith)
                requires
                    count == rect.width as int * rect.height as int,
                    total == self.pixels@.len(),
                    rect.width <= self.width,
                    rect.height <= self.height,
                    self.pixels@.len() == self.width as int * self.height as int;
        }
        let count = count as usize;
        let mut out: Vec<Rgba> = Vec::new();
        let mut k: usize = 0;
        while k < count
            invariant
                self.wf(),
                rect.x + rect.width <= self.width,
                rect.y + rect.height <= self.height,
                w == rect.width,
                total == self.pixels@.len(),
                count == rect.width as int * rect.height as int,
                k <= count,
                out@.len() == k,
                forall|j: int| 0 <= j < k ==> #[trigger] out@[j]
                    == self.pixel(rect.x + j % (w as int), rect.y + j / (w as int)),
            decreases count - k,
        {
            proof {
                if w == 0 {
                    lemma_mul_basics(rect.height as int);
                }
                lemma_mul_is_commutative(w as int, rect.height as int);
                lemma_multiply_divide_lt(k as int, w as int, rect.height as int);
                lemma_mod_pos_bound(k as int, w as int);
                lemma_div_pos_is_pos(k as int, w as int);
                lemma_index_in_grid(
                    self.width as int,
                    self.height as int,
                    rect.x + k as int % w as int,
                    rect.y + k as int / w as int,
                );
            }
            let sx = rect.x as usize + k % w;
            let sy = rect.y as usize + k / w;
            out.push(self.pixels[sy * (self.width as usize) + sx]);
            k = k + 1;
        }
        let r = Raster { width: rect.width, height: rect.height, pixels: out };
        assert forall|px: int, py: int| 0 <= px < rect.width && 0 <= py < rect.height implies
            #[trigger] r.pixel(px, py) == self.pixel(rect.x + px, rect.y + py) by {
            lemma_index_in_grid(rect.width as int, rect.height as int, px, py);
            lemma_fundamental_div_mod_converse(py * rect.width as int + px, rect.width as int, py, px);
        }
        r
    }

    /// Paints every pixel inside `rect` opaque black and leaves the others
    /// as they were.
    pub fn black_out(&mut self, rect: TileRect)
        requires
            old(self).wf(),
        ensures
            final(self).wf(),
            final(self).width == old(self).width,
            final(self).height == old(self).height,
            forall|px: int, py: int| 0 <= px < old(self).width && 0 <= py < old(self).height ==>
                #[trigger] final(self).pixel(px, py) == if rect.contains(px, py) {
                    black_spec()
                } else {
                    old(self).pixel(px, py)
                },
    {
        let w = self.width as usize;
        let n = self.pixels.len();
        let ink = black();
        let mut k: usize = 0;
        while k < n
            invariant
                self.wf(),
                self.width == old(self).width,
                self.height == old(self).height,
                w == self.width,
                n == self.pixels@.len(),
                n == old(self).pixels@.len(),
                k <= n,
                ink == black_spec(),
                forall|j: int| 0 <= j < k ==> #[trigger] self.pixels@[j] == if rect.contains(
                    j % (w as int),
                    j / (w as int),
                ) {
                    black_spec()
                } else {
                    old(self).pixels@[j]
                },
                forall|j: int| k <= j < n ==> #[trigger] self.pixels@[j] == old(self).pixels@[j],
            decreases n - k,
        {
            proof {
                if w == 0 {
                    lemma_mul_basics(self.height as int);
                }
            }
            let px = k % w;
            let py = k / w;
            if rect.x as usize <= px && (px as u64) < rect.x as u64 + rect.width as u64
                && rect.y as usize <= py && (py as u64) < rect.y as u64 + rect.height as u64 {
                self.pixels.set(k, ink);
            }
            k = k + 1;
        }
        assert forall|px: int, py: int| 0 <= px < old(self).width && 0 <= py < old(self).height implies
            #[trigger] self.pixel(px, py) == if rect.contains(px, py) {
                black_spec()
            } else {
                old(self).pixel(px, py)
            } by {
            lemma_index_in_grid(self.width as int, self.height as int, px, py);
            lemma_fundamental_div_mod_converse(py * self.width as int + px, self.width as int, py, px);
        }
    }
}

/// The product of two `u32` values fits in a `u64`.
proof fn lemma_u32_product_fits(a: u32, b: u32)
    ensures
        a as int * b as int <= u64::MAX,
{
    assert(a as int * b as int <= u64::MAX) by (nonlinear_arith)
        requires 0 <= a <= u32::MAX, 0 <= b <= u32::MAX;
}

/// A position inside a `width` × `height` grid has a row-by-row index below
/// `width * height`.
proof fn lemma_index_in_grid(width: int, height: int, x: int, y: int)
    requires
        0 <= x < width,
        0 <= y < height,
    ensures
        0 <= y * width + x < width * height,
{
    assert(0 <= y * width + x < width * height) by (nonlinear_arith)
        requires 0 <= x < width, 0 <= y < height;
}

} // verus!
