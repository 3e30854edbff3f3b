//! Decoded pixel frames and their packed render buffers.
//!
//! A [`Frame`] is the full pixel grid captured from one monitor: row-major,
//! three bytes (red, green, blue) per pixel.  A packed buffer is the
//! renderable form of a frame, one 32-bit `0x00RRGGBB` word per pixel.

use vstd::prelude::*;
use crate::color::Pixel;

verus! {

/// Largest accepted width or height of a frame.  Keeps every pixel index,
/// byte count and intermediate product comfortably inside 32 bits, so the
/// frame data fits a `Vec` even on small machines.
pub const MAX_DIM: u32 = 16384;

/// The red, green and blue bytes of `bytes` (three bytes per pixel,
/// row-major, row width `w`) at pixel position `(x, y)`.
pub open spec fn rgb_at(bytes: Seq<u8>, w: int, x: int, y: int) -> Pixel {
    (bytes[3 * (y * w + x)], bytes[3 * (y * w + x) + 1], bytes[3 * (y * w + x) + 2])
}

/// The red, green and blue bytes of `bytes` (four bytes per pixel, the
/// fourth ignored, row-major, row width `w`) at pixel position `(x, y)`.
pub open spec fn rgba_at(bytes: Seq<u8>, w: int, x: int, y: int) -> Pixel {
    (bytes[4 * (y * w + x)], bytes[4 * (y * w + x) + 1], bytes[4 * (y * w + x) + 2])
}

/// One pixel packed into a 32-bit render word: blue in the low byte, then
/// green, then red.
pub open spec fn pack_rgb(p: Pixel) -> u32 {
    ((p.2 as int) + (p.1 as int) * 0x100 + (p.0 as int) * 0x10000) as u32
}

/// The packed render buffer of a whole frame, row-major.
pub open spec fn packed_spec(f: Frame) -> Seq<u32> {
    Seq::new(
        ((f.spec_width() as int) * (f.spec_height() as int)) as nat,
        |i: int| pack_rgb(f.pixel_spec(i % (f.spec_width() as int), i / (f.spec_width() as int))),
    )
}

/// A decoded pixel grid with fixed dimensions.
pub struct Frame {
    width: u32,
    height: u32,
    data: Vec<u8>,
}

impl Frame {
    /// Width in pixels.
    pub closed spec fn spec_width(&self) -> u32 {
        self.width
    }

    /// Height in pixels.
    pub closed spec fn spec_height(&self) -> u32 {
        self.height
    }

    /// The pixel stored at `(x, y)` (meaningful for in-bounds positions of a
    /// well-formed frame).
    pub closed spec fn pixel_spec(&self, x: int, y: int) -> Pixel {
        rgb_at(self.data@, self.width as int, x, y)
    }

    #[verifier::opaque]
    pub closed spec fn data_wf(&self) -> bool {
        self.data@.len() == 3 * (self.width as int) * (self.height as int)
    }

    /// Well-formedness: bounded dimensions and exactly three bytes per pixel.
    pub open spec fn wf(&self) -> bool {
        &&& self.spec_width() <= MAX_DIM
        &&& self.spec_height() <= MAX_DIM
        &&& self.data_wf()
    }

    /// Width in pixels.
    pub fn width(&self) -> (r: u32)
        ensures
            r == self.spec_width(),
    {
        self.width
    }

    /// Height in pixels.
    pub fn height(&self) -> (r: u32)
        ensures
            r == self.spec_height(),
    {
        self.height
    }

    /// Whether `(x, y)` lies inside the frame.
    pub fn in_bounds(&self, x: u32, y: u32) -> (r: bool)
        ensures
            r == (x < self.spec_width() && y < self.spec_height()),
    {
        x < self.width && y < self.height
    }

    /// Runtime check of `wf`, for callers outside verified code.
    pub fn well_formed(&self) -> (r: bool)
        ensures
            r == self.wf(),
    {
        proof {
            reveal(Frame::data_wf);
        }
        if self.width > MAX_DIM || self.height > MAX_DIM {
            return false;
        }
        proof {
            lemma_mul_bounds(self.width as int, self.height as int, MAX_DIM as int, MAX_DIM as int);
        }
        let pixels: u64 = (self.width as u64) * (self.height as u64);
        proof {
            assert(3 * (self.width as int) * (self.height as int) == 3 * (
            (self.width as int) * (self.height as int))) by (nonlinear_arith);
        }
        (self.data.len() as u64) == 3 * pixels
    }

    /// Byte index of the pixel `(x, y)` in the frame data.
    fn byte_index(&self, x: u32, y: u32) -> (r: usize)
        requires
            self.wf(),
            x < self.spec_width(),
            y < self.spec_height(),
        ensures
            r == 3 * ((y as int) * (self.spec_width() as int) + (x as int)),
            r + 2 < self.data@.len(),
    {
        proof {
            reveal(Frame::data_wf);
            lemma_rowmajor_in_range(self.width as int, self.height as int, x as int, y as int);
            lemma_mul_bounds(self.width as int, self.height as int, MAX_DIM as int, MAX_DIM as int);
        }
        let linear: u32 = y * self.width + x;
        (3 * linear) as usize
    }

    /// The pixel at an in-bounds position.
    pub fn pixel(&self, x: u32, y: u32) -> (r: Pixel)
        requires
            self.wf(),
            x < self.spec_width(),
            y < self.spec_height(),
        ensures
            r == self.pixel_spec(x as int, y as int),
    {
        let base = self.byte_index(x, y);
        let n = self.data.len();
        proof {
            assert(base + 2 < n);
        }
        (self.data[base], self.data[base + 1], self.data[base + 2])
    }

    /// The pixel at `(x, y)`, or `None` when the position lies outside the
    /// frame.
    pub fn get(&self, x: u32, y: u32) -> (r: Option<Pixel>)
        requires
            self.wf(),
        ensures
            r == if x < self.spec_width() && y < self.spec_height() {
                Some(self.pixel_spec(x as int, y as int))
            } else {
                None::<Pixel>
            },
    {
        if self.in_bounds(x, y) {
            Some(self.pixel(x, y))
        } else {
            None
        }
    }

    /// Overwrites the pixel at an in-bounds position, leaving every other
    /// pixel as it was.
    pub fn set_pixel(&mut self, x: u32, y: u32, p: Pixel)
        requires
            old(self).wf(),
            x < old(self).spec_width(),
            y < old(self).spec_height(),
        ensures
            final(self).wf(),
            final(self).spec_width() == old(self).spec_width(),
            final(self).spec_height() == old(self).spec_height(),
            final(self).pixel_spec(x as int, y as int) == p,
            forall|xx: int, yy: int|
                0 <= xx < old(self).spec_width() && 0 <= yy < old(self).spec_height()
                    && !(xx == x && yy == y)
                    ==> final(self).pixel_spec(xx, yy) == old(self).pixel_spec(xx, yy),
    {
        let base = self.byte_index(x, y);
        let n = self.data.len();
        proof {
            assert(base + 2 < n);
        }
        self.data.set(base, p.0);
        self.data.set(base + 1, p.1);
        self.data.set(base + 2, p.2);
        proof {
            reveal(Frame::data_wf);
            let w = self.width as int;
            assert forall|xx: int, yy: int|
                0 <= xx < old(self).spec_width() && 0 <= yy < old(self).spec_height()
                    && !(xx == x && yy == y)
                    implies final(self).pixel_spec(xx, yy) == old(self).pixel_spec(xx, yy) by {
                lemma_rowmajor_distinct(w, x as int, y as int, xx, yy);
                lemma_rowmajor_in_range(w, self.height as int, xx, yy);
            }
        }
    }

    /// A fresh frame of the given dimensions with every pixel set to `fill`.
    pub fn solid(width: u32, height: u32, fill: Pixel) -> (r: Frame)
        requires
            width <= MAX_DIM,
            height <= MAX_DIM,
        ensures
            r.wf(),
            r.spec_width() == width,
            r.spec_height() == height,
            forall|x: int, y: int|
                0 <= x < width && 0 <= y < height ==> r.pixel_spec(x, y) == fill,
    {
        proof {
            lemma_mul_bounds(width as int, height as int, MAX_DIM as int, MAX_DIM as int);
        }
        let total: u32 = width * height;
        let mut data: Vec<u8> = Vec::new();
        let mut i: u32 = 0;
        while i < total
            invariant
                i <= total,
                total == (width as int) * (height as int),
                data@.len() == 3 * (i as int),
                forall|k: int|
                    0 <= k < i ==> #[trigger] data@[3 * k] == fill.0 && data@[3 * k + 1] == fill.1
                        && data@[3 * k + 2] == fill.2,
            decreases total - i,
        {
            let ghost prev = data@;
            data.push(fill.0);
            data.push(fill.1);
            data.push(fill.2);
            proof {
                assert(data@ =~= prev + seq![fill.0, fill.1, fill.2]);
                assert forall|k: int| 0 <= k < i as int + 1 implies #[trigger] data@[3 * k]
                    == fill.0 && data@[3 * k + 1] == fill.1 && data@[3 * k + 2] == fill.2 by {
                    if k < i as int {
                        assert(prev[3 * k] == fill.0);
                        assert(3 * k + 2 < prev.len());
                    }
                }
            }
            i = i + 1;
        }
        let r = Frame { width, height, data };
        proof {
            reveal(Frame::data_wf);
            assert(3 * (total as int) == 3 * (width as int) * (height as int)) by (nonlinear_arith)
                requires
                    total == (width as int) * (height as int),
            ;
            assert forall|x: int, y: int|
                0 <= x < width && 0 <= y < height implies r.pixel_spec(x, y) == fill by {
                lemma_rowmajor_in_range(width as int, height as int, x, y);
            }
        }
        r
    }

    /// Wraps packed red-green-blue bytes as a frame.  Returns `None` when
    /// the dimensions are out of range or the byte count does not match.
    pub fn from_rgb_bytes(width: u32, height: u32, data: Vec<u8>) -> (r: Option<Frame>)
        ensures
            r is Some <==> width <= MAX_DIM && height <= MAX_DIM && data@.len() == 3
                * (width as int) * (height as int),
            r matches Some(f) ==> {
                &&& f.wf()
                &&& f.spec_width() == width
                &&& f.spec_height() == height
                &&& forall|x: int, y: int|
                    0 <= x < width && 0 <= y < height ==> f.pixel_spec(x, y) == rgb_at(
                        data@,
                        width as int,
                        x,
                        y,
                    )
            },
    {
        if width > MAX_DIM || height > MAX_DIM {
            return None;
        }
        proof {
            lemma_mul_bounds(width as int, height as int, MAX_DIM as int, MAX_DIM as int);
            assert((3 * (width as int)) * (height as int) == 3 * (width as int) * (height as int))
                by (nonlinear_arith);
            lemma_mul_bounds(3 * (width as int), height as int, 3 * (MAX_DIM as int), MAX_DIM as int);
        }
        let total: u64 = 3 * (width as u64) * (height as u64);
        if (data.len() as u64) != total {
            return None;
        }
        let f = Frame { width, height, data };
        proof {
            reveal(Frame::data_wf);
        }
        Some(f)
    }

    /// Converts packed red-green-blue-alpha bytes to a frame, dropping the
    /// alpha channel.  Returns `None` when the dimensions are out of range
    /// or the byte count does not match.
    pub fn from_rgba_bytes(width: u32, height: u32, data: Vec<u8>) -> (r: Option<Frame>)
        ensures
            r is Some <==> width <= MAX_DIM && height <= MAX_DIM && data@.len() == 4
                * (width as int) * (height as int),
            r matches Some(f) ==> {
                &&& f.wf()
                &&& f.spec_width() == width
                &&& f.spec_height() == height
                &&& forall|x: int, y: int|
                    0 <= x < width && 0 <= y < height ==> f.pixel_spec(x, y) == rgba_at(
                        data@,
                        width as int,
                        x,
                        y,
                    )
            },
    {
        if width > MAX_DIM || height > MAX_DIM {
            return None;
        }
        proof {
            lemma_mul_bounds(width as int, height as int, MAX_DIM as int, MAX_DIM as int);
        }
        let total: u32 = width * height;
        proof {
            assert(4 * (total as int) == 4 * (width as int) * (height as int)) by (nonlinear_arith)
                requires
                    total == (width as int) * (height as int),
            ;
        }
        if (data.len() as u64) != 4 * (total as u64) {
            return None;
        }
        let mut rgb: Vec<u8> = Vec::new();
        let mut i: u32 = 0;
        while i < total
            invariant
                i <= total,
                total <= 0x10000000,
                total == (width as int) * (height as int),
                data@.len() == 4 * (total as int),
                rgb@.len() == 3 * (i as int),
                forall|k: int|
                    0 <= k < i ==> #[trigger] rgb@[3 * k] == data@[4 * k] && rgb@[3 * k + 1]
                        == data@[4 * k + 1] && rgb@[3 * k + 2] == data@[4 * k + 2],
            decreases total - i,
        {
            let base = (4 * i) as usize;
            let ghost prev = rgb@;
            rgb.push(data[base]);
            rgb.push(data[base + 1]);
            rgb.push(data[base + 2]);
            proof {
                assert(rgb@ =~= prev + seq![data@[4 * (i as int)], data@[4 * (i as int) + 1],
                    data@[4 * (i as int) + 2]]);
                assert forall|k: int| 0 <= k < i as int + 1 implies #[trigger] rgb@[3 * k]
                    == data@[4 * k] && rgb@[3 * k + 1] == data@[4 * k + 1] && rgb@[3 * k + 2]
                    == data@[4 * k + 2] by {
                    if k < i as int {
                        assert(prev[3 * k] == data@[4 * k]);
                        assert(3 * k + 2 < prev.len());
                    }
                }
            }
            i = i + 1;
        }
        let f = Frame { width, height, data: rgb };
        proof {
            reveal(Frame::data_wf);
            assert(3 * (total as int) == 3 * (width as int) * (height as int)) by (nonlinear_arith)
                requires
                    total == (width as int) * (height as int),
            ;
            assert forall|x: int, y: int|
                0 <= x < width && 0 <= y < height implies f.pixel_spec(x, y) == rgba_at(
                data@,
                width as int,
                x,
                y,
            ) by {
                lemma_rowmajor_in_range(width as int, height as int, x, y);
            }
        }
        Some(f)
    }

    /// An independent copy of the frame, pixel for pixel.
    pub fn duplicate(&self) -> (r: Frame)
        requires
            self.wf(),
        ensures
            r.wf(),
            r.spec_width() == self.spec_width(),
            r.spec_height() == self.spec_height(),
            forall|x: int, y: int|
                0 <= x < self.spec_width() && 0 <= y < self.spec_height() ==> r.pixel_spec(x, y)
                    == self.pixel_spec(x, y),
    {
        let mut data: Vec<u8> = Vec::new();
        let mut k: usize = 0;
        let len = self.data.len();
        while k < len
            invariant
                k <= len,
                len == self.data@.len(),
                data@ == self.data@.subrange(0, k as int),
            decreases len - k,
        {
            data.push(self.data[k]);
            proof {
                assert(data@ =~= self.data@.subrange(0, k as int + 1));
            }
            k = k + 1;
        }
        proof {
            assert(data@ =~= self.data@);
            reveal(Frame::data_wf);
        }
        Frame { width: self.width, height: self.height, data }
    }

    /// The packed render buffer of the frame: one `0x00RRGGBB` word per
    /// pixel, row-major.
    pub fn packed(&self) -> (r: Vec<u32>)
        requires
            self.wf(),
        ensures
            r@ == packed_spec(*self),
    {
        proof {
            reveal(Frame::data_wf);
            lemma_mul_bounds(self.width as int, self.height as int, MAX_DIM as int, MAX_DIM as int);
        }
        let total: u32 = self.width * self.height;
        let mut out: Vec<u32> = Vec::new();
        let mut i: u32 = 0;
        while i < total
            invariant
                i <= total,
                self.wf(),
                total == (self.spec_width() as int) * (self.spec_height() as int),
                out@.len() == i as int,
                forall|k: int|
                    0 <= k < i ==> out@[k] == pack_rgb(
                        self.pixel_spec(
                            k % (self.spec_width() as int),
                            k / (self.spec_width() as int),
                        ),
                    ),
            decreases total - i,
        {
            proof {
                reveal(Frame::data_wf);
                assert(self.spec_width() > 0) by (nonlinear_arith)
                    requires
                        (i as int) < total as int,
                        0 <= i,
                        total == (self.spec_width() as int) * (self.spec_height() as int),
                ;
                lemma_linear_split(self.spec_width() as int, self.spec_height() as int, i as int);
            }
            let x: u32 = i % self.width;
            let y: u32 = i / self.width;
            let p = self.pixel(x, y);
            let word: u32 = (p.2 as u32) + (p.1 as u32) * 0x100 + (p.0 as u32) * 0x10000;
            out.push(word);
            i = i + 1;
        }
        proof {
            assert(out@ =~= packed_spec(*self));
        }
        out
    }
}

/// A linear index below `w * h` splits as `i == (i / w) * w + i % w` with
/// `i % w < w` and `i / w < h`.
pub(crate) proof fn lemma_linear_split(w: int, h: int, i: int)
    by (nonlinear_arith)
    requires
        0 < w,
        0 <= h,
        0 <= i < w * h,
    ensures
        i % w < w,
        i / w < h,
        0 <= i % w,
        0 <= i / w,
        (i / w) * w + (i % w) == i,
{
}

/// Distinct row-major pixel positions map to distinct linear indices.
proof fn lemma_rowmajor_distinct(w: int, x1: int, y1: int, x2: int, y2: int)
    by (nonlinear_arith)
    requires
        0 <= x1 < w,
        0 <= x2 < w,
        0 <= y1,
        0 <= y2,
        !(x1 == x2 && y1 == y2),
    ensures
        y1 * w + x1 != y2 * w + x2,
{
}

/// The three bytes of an in-bounds pixel lie inside the frame data.
proof fn lemma_rowmajor_in_range(w: int, h: int, x: int, y: int)
    by (nonlinear_arith)
    requires
        0 <= x < w,
        0 <= y < h,
    ensures
        0 <= 3 * (y * w + x),
        3 * (y * w + x) + 2 < 3 * w * h,
        y * w + x < w * h,
{
}

/// Bounded factors give a bounded product.
pub(crate) proof fn lemma_mul_bounds(a: int, b: int, am: int, bm: int)
    by (nonlinear_arith)
    requires
        0 <= a <= am,
        0 <= b <= bm,
    ensures
        0 <= a * b <= am * bm,
{
}

} // verus!
