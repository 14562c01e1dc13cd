//! Cell-grid geometry: rectangles, font metrics, resize policies, and the
//! integer arithmetic that maps pixel sizes onto cell grids.

use vstd::prelude::*;

verus! {

/// Pixel footprint of one terminal cell: (width, height), both > 0.
pub type FontSize = (u16, u16);

/// A 24-bit color, one byte per channel.
#[derive(Clone, Copy, PartialEq, Eq, Structural, Debug)]
pub struct Rgb8 {
    pub r: u8,
    pub g: u8,
    pub b: u8,
}

/// A rectangle on the cell grid, in cell units.
#[derive(Clone, Copy, PartialEq, Eq, Structural, Debug)]
pub struct Rect {
    pub x: u16,
    pub y: u16,
    pub width: u16,
    pub height: u16,
}

impl Rect {
    /// Build a rectangle from its corner and extent.
    pub fn new(x: u16, y: u16, width: u16, height: u16) -> (r: Rect)
        ensures
            r == (Rect { x, y, width, height }),
    {
        Rect { x, y, width, height }
    }

    /// Number of cells the rectangle covers.
    pub open spec fn spec_area(self) -> int {
        self.width * self.height
    }

    /// Whether the cell at column `cx`, row `cy` (absolute grid coordinates)
    /// lies inside the rectangle.
    pub open spec fn contains(self, cx: int, cy: int) -> bool {
        &&& self.x <= cx < self.x + self.width
        &&& self.y <= cy < self.y + self.height
    }
}

/// Rule governing how image pixels map onto the target cell rectangle.
#[derive(Clone, Copy, PartialEq, Eq, Structural, Debug)]
pub enum Resize {
    /// Scale to exactly fill the target rectangle, ignoring aspect ratio.
    Exact,
    /// Scale so the image fits entirely inside the rectangle, preserving
    /// aspect ratio; unfilled cells are left to the background.
    Fit,
    /// Scale up to cover the rectangle, preserving aspect ratio and cropping
    /// the overflow; no unfilled cells remain.
    Crop,
}

/// Ceiling of `a / b` for positive `b`.
pub open spec fn ceil_div(a: int, b: int) -> int {
    (a + b - 1) / b
}

/// Number of cells needed to cover `pixels` pixels at `cell` pixels per cell,
/// saturated to the largest cell coordinate.
pub open spec fn cells_for(pixels: int, cell: int) -> int {
    if ceil_div(pixels, cell) > 0xffff {
        0xffff
    } else {
        ceil_div(pixels, cell)
    }
}

/// Ceiling division on machine integers.
pub fn ceil_div_u32(a: u32, b: u32) -> (r: u32)
    requires
        b > 0,
    ensures
        r == ceil_div(a as int, b as int),
{
    let q = a / b;
    let m = a % b;
    proof {
        let ai = a as int;
        let bi = b as int;
        assert((ai + bi - 1) / bi == if ai % bi == 0 { ai / bi } else { ai / bi + 1 })
            by (nonlinear_arith)
            requires bi > 0 && ai >= 0;
        assert(ai % bi != 0 ==> ai / bi + 1 <= ai) by (nonlinear_arith)
            requires bi > 0 && ai >= 0;
    }
    if m == 0 {
        q
    } else {
        q + 1
    }
}

/// Clamp `v` into `1 ..= hi` (for `hi >= 1`).
pub open spec fn clamp_pos(v: int, hi: int) -> int {
    if v < 1 {
        1
    } else if v > hi {
        hi
    } else {
        v
    }
}

/// Pixel dimensions an `iw × ih` image is scaled to so that it fits entirely
/// inside a `bw × bh` pixel box while preserving aspect ratio. An image that
/// already fits is left at its own size.
pub open spec fn fit_dims(iw: int, ih: int, bw: int, bh: int) -> (int, int) {
    if iw <= bw && ih <= bh {
        (iw, ih)
    } else if iw * bh >= ih * bw {
        (bw, clamp_pos((ih * bw) / iw, bh))
    } else {
        (clamp_pos((iw * bh) / ih, bw), bh)
    }
}

/// Top-left region of an `iw × ih` image whose aspect ratio matches a
/// `bw × bh` box; scaling that region to the box covers it completely,
/// cropping the rest of the image.
pub open spec fn crop_src_dims(iw: int, ih: int, bw: int, bh: int) -> (int, int) {
    if iw * bh >= ih * bw {
        (clamp_pos((ih * bw) / bh, iw), ih)
    } else {
        (iw, clamp_pos((iw * bh) / bw, ih))
    }
}

/// The scaled image never overflows the box, and a dimension is only ever
/// shrunk relative to the box, never padded beyond the source's own footprint:
/// the filled region stays inside the intersection of the box and the
/// aspect-preserved image.
pub proof fn lemma_fit_dims_within(iw: int, ih: int, bw: int, bh: int)
    requires
        iw > 0,
        ih > 0,
        bw > 0,
        bh > 0,
    ensures
        1 <= fit_dims(iw, ih, bw, bh).0 <= bw,
        1 <= fit_dims(iw, ih, bw, bh).1 <= bh,
        fit_dims(iw, ih, bw, bh).0 <= iw || fit_dims(iw, ih, bw, bh).1 <= ih,
{
    if iw <= bw && ih <= bh {
    } else if iw * bh >= ih * bw {
        assert((ih * bw) / iw <= bh) by (nonlinear_arith)
            requires iw > 0 && bh > 0 && iw * bh >= ih * bw;
        assert(bw <= iw || bh <= ih) by (nonlinear_arith)
            requires iw > 0 && ih > 0 && bw > 0 && bh > 0 && !(iw <= bw && ih <= bh);
        if bw > iw {
            assert((ih * bw) / iw >= ih) by (nonlinear_arith)
                requires iw > 0 && ih > 0 && bw > iw;
        }
    } else {
        assert((iw * bh) / ih <= bw) by (nonlinear_arith)
            requires ih > 0 && bw > 0 && iw * bh <= ih * bw;
        if bh > ih {
            assert((iw * bh) / ih >= iw) by (nonlinear_arith)
                requires ih > 0 && iw > 0 && bh > ih;
        }
    }
}

/// The crop region is a genuine sub-rectangle of the source image.
pub proof fn lemma_crop_src_dims_within(iw: int, ih: int, bw: int, bh: int)
    requires
        iw > 0,
        ih > 0,
        bw > 0,
        bh > 0,
    ensures
        1 <= crop_src_dims(iw, ih, bw, bh).0 <= iw,
        1 <= crop_src_dims(iw, ih, bw, bh).1 <= ih,
{
}

/// The product of two `u32` values fits in a `u64`.
pub proof fn lemma_mul_u32_fits(a: int, b: int)
    requires
        0 <= a <= u32::MAX,
        0 <= b <= u32::MAX,
    ensures
        a * b <= u64::MAX,
{
    assert(a * b <= u32::MAX as int * u32::MAX as int) by (nonlinear_arith)
        requires 0 <= a <= u32::MAX && 0 <= b <= u32::MAX;
}

/// Dividing a product `a * b` by `c` stays at or under `d` whenever
/// `a * b <= d * c`.
proof fn lemma_div_le(a: int, b: int, c: int, d: int)
    requires
        a >= 0,
        b >= 0,
        c > 0,
        d >= 0,
        a * b <= d * c,
    ensures
        (a * b) / c <= d,
{
    assert((a * b) / c <= d) by (nonlinear_arith)
        requires c > 0 && d >= 0 && a * b >= 0 && a * b <= d * c;
}

/// Executable form of [`fit_dims`].
pub fn fit_dims_u32(iw: u32, ih: u32, bw: u32, bh: u32) -> (r: (u32, u32))
    requires
        iw > 0,
        ih > 0,
        bw > 0,
        bh > 0,
    ensures
        (r.0 as int, r.1 as int) == fit_dims(iw as int, ih as int, bw as int, bh as int),
        1 <= r.0 <= bw,
        1 <= r.1 <= bh,
{
    proof {
        lemma_fit_dims_within(iw as int, ih as int, bw as int, bh as int);
        lemma_mul_u32_fits(iw as int, bh as int);
        lemma_mul_u32_fits(ih as int, bw as int);
    }
    if iw <= bw && ih <= bh {
        (iw, ih)
    } else if iw as u64 * bh as u64 >= ih as u64 * bw as u64 {
        proof {
            assert(iw as int * bh as int == bh as int * iw as int) by (nonlinear_arith);
            lemma_div_le(ih as int, bw as int, iw as int, bh as int);
        }
        let s = (ih as u64 * bw as u64 / iw as u64) as u32;
        (bw, if s < 1 { 1 } else if s > bh { bh } else { s })
    } else {
        proof {
            assert(ih as int * bw as int == bw as int * ih as int) by (nonlinear_arith);
            lemma_div_le(iw as int, bh as int, ih as int, bw as int);
        }
        let s = (iw as u64 * bh as u64 / ih as u64) as u32;
        (if s < 1 { 1 } else if s > bw { bw } else { s }, bh)
    }
}

/// Executable form of [`crop_src_dims`].
pub fn crop_src_dims_u32(iw: u32, ih: u32, bw: u32, bh: u32) -> (r: (u32, u32))
    requires
        iw > 0,
        ih > 0,
        bw > 0,
        bh > 0,
    ensures
        (r.0 as int, r.1 as int) == crop_src_dims(iw as int, ih as int, bw as int, bh as int),
        1 <= r.0 <= iw,
        1 <= r.1 <= ih,
{
    proof {
        lemma_crop_src_dims_within(iw as int, ih as int, bw as int, bh as int);
        lemma_mul_u32_fits(iw as int, bh as int);
        lemma_mul_u32_fits(ih as int, bw as int);
    }
    if iw as u64 * bh as u64 >= ih as u64 * bw as u64 {
        proof {
            assert(iw as int * bh as int == bh as int * iw as int) by (nonlinear_arith);
            lemma_div_le(ih as int, bw as int, bh as int, iw as int);
        }
        let s = (ih as u64 * bw as u64 / bh as u64) as u32;
        (if s < 1 { 1 } else if s > iw { iw } else { s }, ih)
    } else {
        proof {
            assert(ih as int * bw as int == bw as int * ih as int) by (nonlinear_arith);
            lemma_div_le(iw as int, bh as int, bw as int, ih as int);
        }
        let s = (iw as u64 * bh as u64 / bw as u64) as u32;
        (iw, if s < 1 { 1 } else if s > ih { ih } else { s })
    }
}

/// Pixel dimensions of the payload a backend encodes for an `iw × ih` image
/// under `policy`, targeting a `bw × bh` pixel box.
pub open spec fn target_pixel_dims(policy: Resize, iw: int, ih: int, bw: int, bh: int) -> (
    int,
    int,
) {
    match policy {
        Resize::Exact => (bw, bh),
        Resize::Fit => fit_dims(iw, ih, bw, bh),
        Resize::Crop => (bw, bh),
    }
}

/// The source-image region that is read for an encode: the whole image,
/// except under crop-to-fill, where only the aspect-matched top-left region
/// is kept.
pub open spec fn source_region(policy: Resize, iw: int, ih: int, bw: int, bh: int) -> (int, int) {
    match policy {
        Resize::Exact => (iw, ih),
        Resize::Fit => (iw, ih),
        Resize::Crop => crop_src_dims(iw, ih, bw, bh),
    }
}

/// The target pixel dimensions never overflow the target box.
pub proof fn lemma_target_within(policy: Resize, iw: int, ih: int, bw: int, bh: int)
    requires
        iw > 0,
        ih > 0,
        bw > 0,
        bh > 0,
    ensures
        1 <= target_pixel_dims(policy, iw, ih, bw, bh).0 <= bw || !(policy is Fit),
        1 <= target_pixel_dims(policy, iw, ih, bw, bh).1 <= bh || !(policy is Fit),
        policy is Fit ==> 1 <= target_pixel_dims(policy, iw, ih, bw, bh).0 <= bw
            && 1 <= target_pixel_dims(policy, iw, ih, bw, bh).1 <= bh,
        !(policy is Fit) ==> target_pixel_dims(policy, iw, ih, bw, bh) == (bw, bh),
{
    if policy is Fit {
        lemma_fit_dims_within(iw, ih, bw, bh);
    }
}

/// Covering `a * b` pixels at `b` pixels per cell takes exactly `a` cells.
pub proof fn lemma_ceil_div_exact(a: int, b: int)
    requires
        a >= 0,
        b > 0,
    ensures
        ceil_div(a * b, b) == a,
{
    assert((a * b + b - 1) / b == a) by (nonlinear_arith)
        requires a >= 0 && b > 0;
}

/// Ceiling division never needs more cells than an upper bound `a` whose
/// pixel footprint `a * b` covers `x`.
pub proof fn lemma_ceil_div_le(x: int, a: int, b: int)
    requires
        0 <= x <= a * b,
        b > 0,
        a >= 0,
    ensures
        ceil_div(x, b) <= a,
{
    assert((x + b - 1) / b <= a) by (nonlinear_arith)
        requires 0 <= x <= a * b && b > 0 && a >= 0;
}

/// A positive pixel extent needs at least one cell.
pub proof fn lemma_ceil_div_pos(x: int, b: int)
    requires
        x >= 1,
        b > 0,
    ensures
        ceil_div(x, b) >= 1,
{
    assert((x + b - 1) / b >= 1) by (nonlinear_arith)
        requires x >= 1 && b > 0;
}

/// Cells needed for `pixels` pixels, saturated to `u16::MAX`.
pub fn cells_for_u16(pixels: u32, cell: u16) -> (r: u16)
    requires
        cell > 0,
    ensures
        r == cells_for(pixels as int, cell as int),
{
    let c = ceil_div_u32(pixels, cell as u32);
    if c > 0xffff {
        0xffff
    } else {
        c as u16
    }
}

} // verus!
