//! The magnifier compositor.
//!
//! Once per redraw, while the zoom is active, the compositor crops a square
//! around the cursor, measures its average luminance to pick a contrasting
//! border color, upscales the crop by nearest-neighbor resampling, paints a
//! grid line over every magnified source-pixel boundary, and overwrites the
//! magnified square onto a copy of the base frame centered at the cursor.
//! The base frame itself is never changed.

use vstd::prelude::*;
use crate::color::{Pixel, luma_spec, luma, lemma_luma_spec_bounds};
use crate::frame::{Frame, MAX_DIM, pack_rgb, lemma_mul_bounds};

verus! {

/// Side of the magnified square: `scale` magnified pixels per source pixel,
/// plus one trailing grid line.
pub open spec fn magnified_size(size: int, scale: int) -> int {
    size * scale + 1
}

/// The crop square of side `size` centered at `(cx, cy)` lies fully inside
/// the frame.
pub open spec fn crop_in_bounds(f: &Frame, cx: int, cy: int, size: int) -> bool {
    let half = size / 2;
    &&& cx - half >= 0
    &&& cy - half >= 0
    &&& cx + half < f.spec_width()
    &&& cy + half < f.spec_height()
}

/// Sum of the grayscale values of the first `n` pixels (row-major) of the
/// `size`-wide square whose top-left corner is `(x0, y0)`.
pub open spec fn crop_luma_sum(f: &Frame, x0: int, y0: int, size: int, n: int) -> int
    decreases n,
{
    if n <= 0 {
        0
    } else {
        crop_luma_sum(f, x0, y0, size, n - 1) + luma_spec(
            f.pixel_spec(x0 + (n - 1) % size, y0 + (n - 1) / size),
        )
    }
}

/// The grid and border color: the inverse of the average grayscale value of
/// the crop square, so the overlay contrasts with what it covers.
pub open spec fn border_color_spec(f: &Frame, cx: int, cy: int, size: int) -> int {
    255 - crop_luma_sum(f, cx - size / 2, cy - size / 2, size, size * size) / (size * size)
}

/// One pixel of the magnified, gridded square: grid lines every `scale`
/// pixels are painted in the border color; in between, nearest-neighbor
/// upscaling repeats the source pixel of the cell.
pub open spec fn tile_pixel_spec(
    f: &Frame,
    x0: int,
    y0: int,
    scale: int,
    border: u8,
    tx: int,
    ty: int,
) -> Pixel {
    if tx % scale == 0 || ty % scale == 0 {
        (border, border, border)
    } else {
        f.pixel_spec(x0 + tx / scale, y0 + ty / scale)
    }
}

/// One pixel of the full composite: inside the magnified square (centered
/// at the cursor, clipped to the frame) the tile pixel, elsewhere the
/// untouched base pixel.
pub open spec fn composed_pixel(
    f: &Frame,
    cx: int,
    cy: int,
    size: int,
    scale: int,
    x: int,
    y: int,
) -> Pixel {
    let zs = magnified_size(size, scale);
    let left = cx - zs / 2;
    let top = cy - zs / 2;
    if left <= x < left + zs && top <= y < top + zs {
        tile_pixel_spec(
            f,
            cx - size / 2,
            cy - size / 2,
            scale,
            (border_color_spec(f, cx, cy, size)) as u8,
            x - left,
            y - top,
        )
    } else {
        f.pixel_spec(x, y)
    }
}

/// The luma sum of `n` pixels stays between 0 and `255 * n`.
proof fn lemma_crop_luma_sum_bounds(f: &Frame, x0: int, y0: int, size: int, n: int)
    requires
        n >= 0,
    ensures
        0 <= crop_luma_sum(f, x0, y0, size, n) <= 255 * n,
    decreases n,
{
    if n > 0 {
        lemma_crop_luma_sum_bounds(f, x0, y0, size, n - 1);
        lemma_luma_spec_bounds(f.pixel_spec(x0 + (n - 1) % size, y0 + (n - 1) / size));
    }
}

/// Average grayscale value of the `size`-sided square with top-left corner
/// `(x0, y0)`.
pub fn average_luma(f: &Frame, x0: u32, y0: u32, size: u32) -> (r: u8)
    requires
        f.wf(),
        1 <= size,
        size <= MAX_DIM,
        x0 + size <= f.spec_width(),
        y0 + size <= f.spec_height(),
    ensures
        r == crop_luma_sum(f, x0 as int, y0 as int, size as int, (size as int) * (size as int))
            / ((size as int) * (size as int)),
{
    proof {
        lemma_mul_bounds(size as int, size as int, MAX_DIM as int, MAX_DIM as int);
    }
    let total: u32 = size * size;
    let mut sum: u64 = 0;
    let mut n: u32 = 0;
    while n < total
        invariant
            n <= total,
            f.wf(),
            1 <= size <= MAX_DIM,
            x0 + size <= f.spec_width(),
            y0 + size <= f.spec_height(),
            total == (size as int) * (size as int),
            sum == crop_luma_sum(f, x0 as int, y0 as int, size as int, n as int),
            sum <= 255 * (n as int),
        decreases total - n,
    {
        proof {
            lemma_linear_in_square(size as int, n as int);
        }
        let dx: u32 = n % size;
        let dy: u32 = n / size;
        let p = f.pixel(x0 + dx, y0 + dy);
        proof {
            lemma_luma_spec_bounds(p);
        }
        sum = sum + (luma(p) as u64);
        n = n + 1;
    }
    proof {
        assert(total >= 1) by (nonlinear_arith)
            requires
                total == (size as int) * (size as int),
                size >= 1,
        ;
        lemma_crop_luma_sum_bounds(f, x0 as int, y0 as int, size as int, total as int);
        lemma_div_bound(sum as int, total as int);
    }
    (sum / (total as u64)) as u8
}

/// Builds the magnified, gridded square of side `size * scale + 1` from the
/// crop whose top-left corner is `(x0, y0)`.
pub fn magnifier_tile(f: &Frame, x0: u32, y0: u32, size: u32, scale: u32, border: u8) -> (r: Frame)
    requires
        f.wf(),
        1 <= size,
        1 <= scale,
        magnified_size(size as int, scale as int) <= MAX_DIM,
        x0 + size <= f.spec_width(),
        y0 + size <= f.spec_height(),
    ensures
        r.wf(),
        r.spec_width() == magnified_size(size as int, scale as int),
        r.spec_height() == magnified_size(size as int, scale as int),
        forall|tx: int, ty: int|
            0 <= tx < magnified_size(size as int, scale as int) && 0 <= ty < magnified_size(
                size as int,
                scale as int,
            ) ==> r.pixel_spec(tx, ty) == tile_pixel_spec(
                f,
                x0 as int,
                y0 as int,
                scale as int,
                border,
                tx,
                ty,
            ),
{
    let zs: u32 = size * scale + 1;
    let mut tile = Frame::solid(zs, zs, (border, border, border));
    let ghost spec_zs = magnified_size(size as int, scale as int);
    let mut ty: u32 = 0;
    while ty < zs
        invariant
            ty <= zs,
            f.wf(),
            tile.wf(),
            1 <= size,
            1 <= scale,
            zs == spec_zs,
            spec_zs == magnified_size(size as int, scale as int),
            spec_zs <= MAX_DIM,
            x0 + size <= f.spec_width(),
            y0 + size <= f.spec_height(),
            tile.spec_width() == spec_zs,
            tile.spec_height() == spec_zs,
            forall|px: int, py: int|
                0 <= px < spec_zs && 0 <= py < spec_zs && py < ty ==> tile.pixel_spec(px, py)
                    == tile_pixel_spec(f, x0 as int, y0 as int, scale as int, border, px, py),
            forall|px: int, py: int|
                0 <= px < spec_zs && 0 <= py < spec_zs && py >= ty ==> tile.pixel_spec(px, py) == (
                border,
                border,
                border,
                ),
        decreases zs - ty,
    {
        let mut tx: u32 = 0;
        while tx < zs
            invariant
                tx <= zs,
                ty < zs,
                f.wf(),
                tile.wf(),
                1 <= size,
                1 <= scale,
                zs == spec_zs,
                spec_zs == magnified_size(size as int, scale as int),
                spec_zs <= MAX_DIM,
                x0 + size <= f.spec_width(),
                y0 + size <= f.spec_height(),
                tile.spec_width() == spec_zs,
                tile.spec_height() == spec_zs,
                forall|px: int, py: int|
                    0 <= px < spec_zs && 0 <= py < spec_zs && (py < ty || (py == ty && px < tx))
                        ==> tile.pixel_spec(px, py) == tile_pixel_spec(
                        f,
                        x0 as int,
                        y0 as int,
                        scale as int,
                        border,
                        px,
                        py,
                    ),
                forall|px: int, py: int|
                    0 <= px < spec_zs && 0 <= py < spec_zs && (py > ty || (py == ty && px >= tx))
                        ==> tile.pixel_spec(px, py) == (border, border, border),
            decreases zs - tx,
        {
            if tx % scale != 0 && ty % scale != 0 {
                proof {
                    lemma_cell_index(size as int, scale as int, tx as int);
                    lemma_cell_index(size as int, scale as int, ty as int);
                }
                let sx: u32 = x0 + tx / scale;
                let sy: u32 = y0 + ty / scale;
                let p = f.pixel(sx, sy);
                tile.set_pixel(tx, ty, p);
            }
            tx = tx + 1;
        }
        ty = ty + 1;
    }
    tile
}

/// Copies `tile` onto a duplicate of `base` with its top-left corner at
/// `(left, top)`, clipping whatever falls outside the base frame.  The base
/// frame itself is untouched.
pub fn composite_over(base: &Frame, tile: &Frame, left: i64, top: i64) -> (r: Frame)
    requires
        base.wf(),
        tile.wf(),
        -0x1_0000_0000 <= left <= 0x1_0000_0000,
        -0x1_0000_0000 <= top <= 0x1_0000_0000,
    ensures
        r.wf(),
        r.spec_width() == base.spec_width(),
        r.spec_height() == base.spec_height(),
        forall|x: int, y: int|
            0 <= x < base.spec_width() && 0 <= y < base.spec_height() ==> r.pixel_spec(x, y) == (
            if left <= x < left + tile.spec_width() && top <= y < top + tile.spec_height() {
                tile.pixel_spec(x - left, y - top)
            } else {
                base.pixel_spec(x, y)
            }),
{
    let mut r = base.duplicate();
    let tw = tile.width();
    let th = tile.height();
    let mut ty: u32 = 0;
    while ty < th
        invariant
            ty <= th,
            base.wf(),
            tile.wf(),
            r.wf(),
            tw == tile.spec_width(),
            th == tile.spec_height(),
            -0x1_0000_0000 <= left <= 0x1_0000_0000,
            -0x1_0000_0000 <= top <= 0x1_0000_0000,
            r.spec_width() == base.spec_width(),
            r.spec_height() == base.spec_height(),
            forall|x: int, y: int|
                0 <= x < base.spec_width() && 0 <= y < base.spec_height() ==> r.pixel_spec(x, y)
                    == (if left <= x < left + tw && top <= y < top + ty {
                    tile.pixel_spec(x - left, y - top)
                } else {
                    base.pixel_spec(x, y)
                }),
        decreases th - ty,
    {
        let dy: i64 = top + (ty as i64);
        if 0 <= dy && dy < (r.height() as i64) {
            let mut tx: u32 = 0;
            while tx < tw
                invariant
                    tx <= tw,
                    ty < th,
                    base.wf(),
                    tile.wf(),
                    r.wf(),
                    tw == tile.spec_width(),
                    th == tile.spec_height(),
                    -0x1_0000_0000 <= left <= 0x1_0000_0000,
                    -0x1_0000_0000 <= top <= 0x1_0000_0000,
                    dy == top + ty,
                    0 <= dy < base.spec_height(),
                    r.spec_width() == base.spec_width(),
                    r.spec_height() == base.spec_height(),
                    forall|x: int, y: int|
                        0 <= x < base.spec_width() && 0 <= y < base.spec_height() ==> r.pixel_spec(
                            x,
                            y,
                        ) == (if left <= x < left + tw && top <= y < top + ty {
                            tile.pixel_spec(x - left, y - top)
                        } else if y == dy && left <= x < left + tx {
                            tile.pixel_spec(x - left, y - top)
                        } else {
                            base.pixel_spec(x, y)
                        }),
                decreases tw - tx,
            {
                let dx: i64 = left + (tx as i64);
                if 0 <= dx && dx < (r.width() as i64) {
                    let p = tile.pixel(tx, ty);
                    r.set_pixel(dx as u32, dy as u32, p);
                }
                tx = tx + 1;
            }
        }
        ty = ty + 1;
    }
    r
}

/// The full compositor step.  Returns the composite frame, or `None` when
/// the crop square around the cursor does not fit inside the frame (the
/// caller then falls back to the passthrough buffer).
pub fn magnify(f: &Frame, cx: u32, cy: u32, size: u32, scale: u32) -> (r: Option<Frame>)
    requires
        f.wf(),
        1 <= size,
        1 <= scale,
        magnified_size(size as int, scale as int) <= MAX_DIM,
    ensures
        r is Some <==> crop_in_bounds(f, cx as int, cy as int, size as int),
        r matches Some(m) ==> {
            &&& m.wf()
            &&& m.spec_width() == f.spec_width()
            &&& m.spec_height() == f.spec_height()
            &&& forall|x: int, y: int|
                0 <= x < f.spec_width() && 0 <= y < f.spec_height() ==> m.pixel_spec(x, y)
                    == composed_pixel(f, cx as int, cy as int, size as int, scale as int, x, y)
        },
{
    let half: u32 = size / 2;
    if cx < half || cy < half {
        return None;
    }
    let w = f.width();
    let h = f.height();
    if (cx as u64) + (half as u64) >= (w as u64) || (cy as u64) + (half as u64) >= (h as u64) {
        return None;
    }
    let x0: u32 = cx - half;
    let y0: u32 = cy - half;
    let border: u8 = 255 - average_luma(f, x0, y0, size);
    let zs: u32 = size * scale + 1;
    let tile = magnifier_tile(f, x0, y0, size, scale, border);
    let left: i64 = (cx as i64) - ((zs / 2) as i64);
    let top: i64 = (cy as i64) - ((zs / 2) as i64);
    let out = composite_over(f, &tile, left, top);
    proof {
        assert forall|x: int, y: int|
            0 <= x < f.spec_width() && 0 <= y < f.spec_height() implies out.pixel_spec(x, y)
            == composed_pixel(f, cx as int, cy as int, size as int, scale as int, x, y) by {
        }
    }
    Some(out)
}

/// A linear index below `size * size` yields in-square coordinates.
proof fn lemma_linear_in_square(size: int, n: int)
    by (nonlinear_arith)
    requires
        1 <= size,
        0 <= n < size * size,
    ensures
        0 <= n % size < size,
        0 <= n / size < size,
{
}

/// A non-grid coordinate of the magnified square falls in a source cell
/// strictly inside the crop.
proof fn lemma_cell_index(size: int, scale: int, t: int)
    by (nonlinear_arith)
    requires
        1 <= size,
        1 <= scale,
        0 <= t < size * scale + 1,
        t % scale != 0,
    ensures
        0 <= t / scale < size,
{
}

/// The packed render buffer of the full composite, row-major.
pub open spec fn packed_composed(f: &Frame, cx: int, cy: int, size: int, scale: int) -> Seq<u32> {
    Seq::new(
        ((f.spec_width() as int) * (f.spec_height() as int)) as nat,
        |i: int| pack_rgb(
            composed_pixel(
                f,
                cx,
                cy,
                size,
                scale,
                i % (f.spec_width() as int),
                i / (f.spec_width() as int),
            ),
        ),
    )
}

/// A nonnegative value divided by a positive divisor that bounds it at
/// `255 * d` stays below 256.
proof fn lemma_div_bound(s: int, d: int)
    by (nonlinear_arith)
    requires
        0 < d,
        0 <= s <= 255 * d,
    ensures
        0 <= s / d <= 255,
{
}

} // verus!
