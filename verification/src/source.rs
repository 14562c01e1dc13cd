//! The image source: a decoded image together with the terminal's font
//! metrics, its cell-grid footprint, and a content fingerprint.

use vstd::prelude::*;
use crate::escape::clone_bytes;
use crate::geometry::{
    cells_for, crop_src_dims_u32, fit_dims_u32, lemma_mul_u32_fits, source_region,
    target_pixel_dims, FontSize, Rect, Resize,
};
use crate::img::{crop_grid, crop_top_left, fnv1a_64, fnv1a_hash, resample_rgb, resampled, Img};

verus! {

/// Image source for the stateful protocol backends.
///
/// Wraps the full-resolution decoded image, derives `desired` — the cell
/// rectangle the image would occupy unscaled — and fingerprints the pixel
/// content so that backends can tell a changed image from a resent one.
#[derive(Debug)]
pub struct ImageSource {
    /// The original image, unresized.
    pub image: Img,
    /// The pixel footprint of one terminal cell.
    pub font_size: FontSize,
    /// The cell rectangle the image covers unscaled, rounded up so a
    /// fractional cell is never dropped.
    pub desired: Rect,
    /// Fingerprint of the raw pixel bytes.
    pub hash: u64,
}

impl ImageSource {
    /// Well-formed: a valid image, positive font metrics, and the derived
    /// fields computed from them.
    pub open spec fn wf(self) -> bool {
        &&& self.image.wf()
        &&& self.font_size.0 > 0
        &&& self.font_size.1 > 0
        &&& self.desired.x == 0
        &&& self.desired.y == 0
        &&& self.desired.width == cells_for(self.image.width as int, self.font_size.0 as int)
        &&& self.desired.height == cells_for(self.image.height as int, self.font_size.1 as int)
        &&& self.hash == fnv1a_64(self.image.data@)
    }

    /// Two sources with the same content: equal metrics and equal pixels.
    pub open spec fn same_as(self, other: ImageSource) -> bool {
        &&& self.image.width == other.image.width
        &&& self.image.height == other.image.height
        &&& self.image.data@ == other.image.data@
        &&& self.font_size == other.font_size
        &&& self.desired == other.desired
        &&& self.hash == other.hash
    }

    /// Create a new image source. The derived footprint always covers every
    /// pixel and never wastes a whole cell (up to the largest expressible
    /// cell coordinate, where it saturates).
    pub fn new(image: Img, font_size: FontSize) -> (r: ImageSource)
        requires
            image.wf(),
            font_size.0 > 0,
            font_size.1 > 0,
        ensures
            r.wf(),
            r.image == image,
            r.font_size == font_size,
            r.desired == (Rect {
                x: 0,
                y: 0,
                width: cells_for(image.width as int, font_size.0 as int) as u16,
                height: cells_for(image.height as int, font_size.1 as int) as u16,
            }),
            r.hash == fnv1a_64(image.data@),
            crate::geometry::ceil_div(image.width as int, font_size.0 as int) <= 0xffff
                ==> r.desired.width * font_size.0 >= image.width
                    && (r.desired.width - 1) * font_size.0 < image.width,
            crate::geometry::ceil_div(image.height as int, font_size.1 as int) <= 0xffff
                ==> r.desired.height * font_size.1 >= image.height
                    && (r.desired.height - 1) * font_size.1 < image.height,
    {
        let desired = ImageSource::round_pixel_size_to_cells(image.width, image.height, font_size);
        let hash = fnv1a_hash(&image.data);
        proof {
            if crate::geometry::ceil_div(image.width as int, font_size.0 as int) <= 0xffff {
                crate::laws::lemma_cells_cover(image.width as int, font_size.0 as int);
            }
            if crate::geometry::ceil_div(image.height as int, font_size.1 as int) <= 0xffff {
                crate::laws::lemma_cells_cover(image.height as int, font_size.1 as int);
            }
        }
        ImageSource { image, font_size, desired, hash }
    }

    /// Round an image pixel size up to the covering cell rectangle.
    fn round_pixel_size_to_cells(img_width: u32, img_height: u32, font_size: FontSize) -> (r: Rect)
        requires
            font_size.0 > 0,
            font_size.1 > 0,
        ensures
            r.x == 0,
            r.y == 0,
            r.width == cells_for(img_width as int, font_size.0 as int),
            r.height == cells_for(img_height as int, font_size.1 as int),
    {
        let width = crate::geometry::cells_for_u16(img_width, font_size.0);
        let height = crate::geometry::cells_for_u16(img_height, font_size.1);
        Rect { x: 0, y: 0, width, height }
    }
}

impl Clone for ImageSource {
    /// Clone the source; the copy carries the same pixels, metrics,
    /// footprint and fingerprint.
    fn clone(&self) -> (r: ImageSource)
        ensures
            r.same_as(*self),
    {
        let data = clone_bytes(&self.image.data);
        ImageSource {
            image: Img { width: self.image.width, height: self.image.height, data },
            font_size: self.font_size,
            desired: self.desired,
            hash: self.hash,
        }
    }
}

/// The pixel box `area` spans at `src`'s font metrics.
pub open spec fn pixel_bounds(src: ImageSource, area: Rect) -> (int, int) {
    (area.width * src.font_size.0, area.height * src.font_size.1)
}

/// The pixel bytes a wire backend encodes for `src` under `policy` into
/// `area`: the source (cropped to the matching aspect region under
/// crop-to-fill) resampled to the target pixel dimensions; a source already
/// at the target size is passed through unchanged.
pub open spec fn target_data(src: ImageSource, policy: Resize, area: Rect) -> Seq<u8> {
    let iw = src.image.width as int;
    let ih = src.image.height as int;
    let b = pixel_bounds(src, area);
    let reg = source_region(policy, iw, ih, b.0, b.1);
    let tp = target_pixel_dims(policy, iw, ih, b.0, b.1);
    let region_data = if policy is Crop {
        crop_grid(src.image.data@, iw, reg.0, reg.1)
    } else {
        src.image.data@
    };
    if tp == reg {
        region_data
    } else {
        resampled(region_data, reg.0, reg.1, tp.0, tp.1)
    }
}

/// The target pixel payload fits in memory, and so does the resampler's
/// intermediate float buffer (source-region width by target height, four
/// channels).
pub open spec fn target_fits(src: ImageSource, policy: Resize, area: Rect) -> bool {
    let b = pixel_bounds(src, area);
    let iw = src.image.width as int;
    let ih = src.image.height as int;
    let reg = source_region(policy, iw, ih, b.0, b.1);
    let tp = target_pixel_dims(policy, iw, ih, b.0, b.1);
    &&& 3 * tp.0 * tp.1 <= usize::MAX
    &&& 4 * reg.0 * tp.1 <= usize::MAX
}

/// Resample `src` for `area` under `policy`; returns the pixel bytes and
/// their dimensions.
pub fn resample_target(src: &ImageSource, policy: Resize, area: Rect) -> (r: (Vec<u8>, u32, u32))
    requires
        src.wf(),
        area.width > 0,
        area.height > 0,
        target_fits(*src, policy, area),
    ensures
        r.0@ == target_data(*src, policy, area),
        (r.1 as int, r.2 as int) == target_pixel_dims(
            policy,
            src.image.width as int,
            src.image.height as int,
            pixel_bounds(*src, area).0,
            pixel_bounds(*src, area).1,
        ),
        r.0@.len() == 3 * r.1 * r.2,
        r.1 >= 1,
        r.2 >= 1,
{
    let fw = src.font_size.0;
    let fh = src.font_size.1;
    let iw = src.image.width;
    let ih = src.image.height;
    proof {
        lemma_mul_u32_fits(area.width as int, fw as int);
        lemma_mul_u32_fits(area.height as int, fh as int);
        assert(area.width as int * fw as int <= 0xffff * 0xffff) by (nonlinear_arith)
            requires area.width <= 0xffff && fw <= 0xffff;
        assert(area.height as int * fh as int <= 0xffff * 0xffff) by (nonlinear_arith)
            requires area.height <= 0xffff && fh <= 0xffff;
        assert(area.width as int * fw as int >= 1) by (nonlinear_arith)
            requires area.width >= 1 && fw >= 1;
        assert(area.height as int * fh as int >= 1) by (nonlinear_arith)
            requires area.height >= 1 && fh >= 1;
    }
    let bw: u32 = area.width as u32 * fw as u32;
    let bh: u32 = area.height as u32 * fh as u32;
    let (tpw, tph): (u32, u32) = match policy {
        Resize::Exact => (bw, bh),
        Resize::Fit => fit_dims_u32(iw, ih, bw, bh),
        Resize::Crop => (bw, bh),
    };
    let (rw, rh): (u32, u32) = match policy {
        Resize::Crop => crop_src_dims_u32(iw, ih, bw, bh),
        _ => (iw, ih),
    };
    let pix: Vec<u8> = match policy {
        Resize::Crop => {
            let region = crop_top_left(&src.image, rw, rh);
            if tpw == rw && tph == rh {
                region.data
            } else {
                resample_rgb(&region.data, rw, rh, tpw, tph)
            }
        },
        _ => {
            if tpw == rw && tph == rh {
                clone_bytes(&src.image.data)
            } else {
                resample_rgb(&src.image.data, iw, ih, tpw, tph)
            }
        },
    };
    proof {
        assert(3 * (tpw as int) * (tph as int) == 3 * ((tpw as int) * (tph as int)))
            by (nonlinear_arith);
        assert(3 * (rw as int) * (rh as int) == 3 * ((rw as int) * (rh as int)))
            by (nonlinear_arith);
    }
    (pix, tpw, tph)
}

} // verus!
