//! Laws relating the library's operations, stated and proved over the spec
//! functions that the contracts use.

use vstd::prelude::*;
use crate::buffer::CellBuffer;
use crate::geometry::{ceil_div, cells_for, crop_src_dims, fit_dims, lemma_ceil_div_exact,
    lemma_ceil_div_le, lemma_ceil_div_pos, lemma_fit_dims_within, Rect, Resize, Rgb8};
use crate::halfblocks::{hb_colors, hb_grid_dims, hb_region, is_hb_cell, StatefulHalfblocks};
use crate::img::all_pixels;
use crate::protocol::StatefulProtocol;
use crate::source::ImageSource;

verus! {

/// The derived cell footprint always covers every pixel, and never wastes a
/// whole cell: `cells` is exactly the ceiling of `pixels / cell`, so
/// `cells * cell` reaches `pixels` while one cell fewer would not (as long
/// as the grid coordinate does not saturate).
pub proof fn lemma_cells_cover(pixels: int, cell: int)
    requires
        pixels >= 1,
        cell >= 1,
        ceil_div(pixels, cell) <= 0xffff,
    ensures
        cells_for(pixels, cell) * cell >= pixels,
        (cells_for(pixels, cell) - 1) * cell < pixels,
        cells_for(pixels, cell) >= 1,
{
    lemma_ceil_div_pos(pixels, cell);
    assert(((pixels + cell - 1) / cell) * cell >= pixels) by (nonlinear_arith)
        requires pixels >= 1 && cell >= 1;
    assert((((pixels + cell - 1) / cell) - 1) * cell < pixels) by (nonlinear_arith)
        requires pixels >= 1 && cell >= 1;
}

/// Encoding a source of exactly the area's pixel size under exact-fit
/// yields a payload of exactly the area's cell extent, and on a solid-color
/// source every cell of the payload carries that color: no cropping or
/// padding artifacts.
pub proof fn lemma_exact_fit_solid(src: ImageSource, area: Rect, c: crate::geometry::Rgb8)
    requires
        src.wf(),
        area.width >= 1,
        area.height >= 1,
        src.image.width == area.width * src.font_size.0,
        src.image.height == area.height * src.font_size.1,
        all_pixels(src.image.data@, src.image.width as int, src.image.height as int, c),
    ensures
        hb_grid_dims(src, Resize::Exact, area) == (area.width as int, area.height as int),
        forall|cx: int, cy: int|
            0 <= cx < area.width && 0 <= cy < area.height
                ==> hb_colors(
                    src.image.data@,
                    src.image.width as int,
                    hb_region(src, Resize::Exact, area).0,
                    hb_region(src, Resize::Exact, area).1,
                    area.width as int,
                    area.height as int,
                    cx,
                    cy,
                ) == (c, c),
{
    let fw = src.font_size.0 as int;
    let fh = src.font_size.1 as int;
    let aw = area.width as int;
    let ah = area.height as int;
    let iw = src.image.width as int;
    let ih = src.image.height as int;
    lemma_ceil_div_exact(aw, fw);
    lemma_ceil_div_exact(ah, fh);
    assert forall|cx: int, cy: int|
        0 <= cx < aw && 0 <= cy < ah
            implies hb_colors(src.image.data@, iw, iw, ih, aw, ah, cx, cy) == (c, c) by {
        assert(0 <= (cx * iw) / aw < iw) by (nonlinear_arith)
            requires 0 <= cx < aw && iw >= 1 && aw >= 1;
        assert(0 <= (2 * cy * ih) / (2 * ah) < ih) by (nonlinear_arith)
            requires 0 <= cy < ah && ih >= 1 && ah >= 1;
        assert(0 <= ((2 * cy + 1) * ih) / (2 * ah) < ih) by (nonlinear_arith)
            requires 0 <= cy < ah && ih >= 1 && ah >= 1;
    }
}

/// Fit-within never fills cells outside the target area, and never claims
/// more cells than the aspect-preserved image needs; crop-to-fill always
/// fills the whole target area.
pub proof fn lemma_fit_and_crop_extents(src: ImageSource, area: Rect)
    requires
        src.wf(),
        area.width >= 1,
        area.height >= 1,
    ensures
        1 <= hb_grid_dims(src, Resize::Fit, area).0 <= area.width,
        1 <= hb_grid_dims(src, Resize::Fit, area).1 <= area.height,
        hb_grid_dims(src, Resize::Crop, area) == (area.width as int, area.height as int),
{
    let fw = src.font_size.0 as int;
    let fh = src.font_size.1 as int;
    let aw = area.width as int;
    let ah = area.height as int;
    let iw = src.image.width as int;
    let ih = src.image.height as int;
    let bw = aw * fw;
    let bh = ah * fh;
    assert(aw * fw >= 1) by (nonlinear_arith)
        requires aw >= 1 && fw >= 1;
    assert(ah * fh >= 1) by (nonlinear_arith)
        requires ah >= 1 && fh >= 1;
    lemma_fit_dims_within(iw, ih, bw, bh);
    lemma_ceil_div_le(fit_dims(iw, ih, bw, bh).0, aw, fw);
    lemma_ceil_div_le(fit_dims(iw, ih, bw, bh).1, ah, fh);
    lemma_ceil_div_pos(fit_dims(iw, ih, bw, bh).0, fw);
    lemma_ceil_div_pos(fit_dims(iw, ih, bw, bh).1, fh);
    lemma_ceil_div_exact(aw, fw);
    lemma_ceil_div_exact(ah, fh);
}

/// Switching from fit-within to crop-to-fill changes the visibly filled
/// region whenever the aspect mismatch leaves at least one whole cell row
/// (or column) unfilled under fit: crop always fills the full area, and fit
/// then fills strictly less in that dimension. (A mismatch smaller than one
/// cell can vanish in the rounding to cells, so it is excluded here.)
pub proof fn lemma_policy_switch_changes_extent(src: ImageSource, area: Rect)
    requires
        src.wf(),
        area.width >= 1,
        area.height >= 1,
        fit_dims(
            src.image.width as int,
            src.image.height as int,
            area.width * src.font_size.0,
            area.height * src.font_size.1,
        ).1 <= (area.height - 1) * src.font_size.1 || fit_dims(
            src.image.width as int,
            src.image.height as int,
            area.width * src.font_size.0,
            area.height * src.font_size.1,
        ).0 <= (area.width - 1) * src.font_size.0,
    ensures
        hb_grid_dims(src, Resize::Fit, area) != hb_grid_dims(src, Resize::Crop, area),
{
    let fw = src.font_size.0 as int;
    let fh = src.font_size.1 as int;
    let aw = area.width as int;
    let ah = area.height as int;
    let iw = src.image.width as int;
    let ih = src.image.height as int;
    let bw = aw * fw;
    let bh = ah * fh;
    lemma_fit_and_crop_extents(src, area);
    let fd = fit_dims(iw, ih, bw, bh);
    assert(aw * fw >= 1) by (nonlinear_arith)
        requires aw >= 1 && fw >= 1;
    assert(ah * fh >= 1) by (nonlinear_arith)
        requires ah >= 1 && fh >= 1;
    lemma_fit_dims_within(iw, ih, bw, bh);
    if fd.1 <= (ah - 1) * fh {
        lemma_ceil_div_le(fd.1, ah - 1, fh);
    } else {
        lemma_ceil_div_le(fd.0, aw - 1, fw);
    }
}

/// Fit-within never paints image-derived colors outside the
/// aspect-preserving fitted sub-rectangle: after an encode under fit with a
/// background color and a render at the same area, every buffer cell of
/// the area beyond the fitted extent holds only the background pair, and
/// the cells inside it hold the sampled image colors.
pub proof fn lemma_fit_background_render(
    st: StatefulHalfblocks,
    prev: StatefulHalfblocks,
    c: Rgb8,
    area: Rect,
    pre: CellBuffer,
    post: CellBuffer,
)
    requires
        st.encoded(prev, Resize::Fit, Some(c), area),
        st.renders(area, pre, post),
    ensures
        forall|cx: int, cy: int|
            pre.area.contains(cx, cy) && area.contains(cx, cy)
                && !(cx - area.x < hb_grid_dims(st.source, Resize::Fit, area).0
                    && cy - area.y < hb_grid_dims(st.source, Resize::Fit, area).1)
                ==> is_hb_cell(post.cell_at(cx, cy), (c, c)),
        forall|cx: int, cy: int|
            pre.area.contains(cx, cy) && area.contains(cx, cy)
                && cx - area.x < hb_grid_dims(st.source, Resize::Fit, area).0
                && cy - area.y < hb_grid_dims(st.source, Resize::Fit, area).1
                ==> is_hb_cell(
                    post.cell_at(cx, cy),
                    hb_colors(
                        st.source.image.data@,
                        st.source.image.width as int,
                        hb_region(st.source, Resize::Fit, area).0,
                        hb_region(st.source, Resize::Fit, area).1,
                        hb_grid_dims(st.source, Resize::Fit, area).0,
                        hb_grid_dims(st.source, Resize::Fit, area).1,
                        cx - area.x,
                        cy - area.y,
                    ),
                ),
{
    let dims = hb_grid_dims(st.source, Resize::Fit, area);
    match st.state {
        Some(e) => {
            assert forall|cx: int, cy: int|
                pre.area.contains(cx, cy) && area.contains(cx, cy)
                    implies is_hb_cell(
                        post.cell_at(cx, cy),
                        (if cx - area.x < dims.0 && cy - area.y < dims.1 {
                            hb_colors(
                                st.source.image.data@,
                                st.source.image.width as int,
                                hb_region(st.source, Resize::Fit, area).0,
                                hb_region(st.source, Resize::Fit, area).1,
                                dims.0,
                                dims.1,
                                cx - area.x,
                                cy - area.y,
                            )
                        } else {
                            (c, c)
                        }),
                    ) by {
                let dx = cx - area.x;
                let dy = cy - area.y;
                assert(e.grid.cells@[dy * area.width + dx] == (if dx < dims.0 && dy < dims.1 {
                    hb_colors(
                        st.source.image.data@,
                        st.source.image.width as int,
                        hb_region(st.source, Resize::Fit, area).0,
                        hb_region(st.source, Resize::Fit, area).1,
                        dims.0,
                        dims.1,
                        dx,
                        dy,
                    )
                } else {
                    (c, c)
                }));
                assert(crate::halfblocks::hb_covered(e.grid, area, cx, cy));
                assert(is_hb_cell(
                    post.cell_at(cx, cy),
                    e.grid.cells@[(cy - area.y) * e.grid.rect.width + (cx - area.x)],
                ));
            }
        },
        None => {
        },
    }
}

/// Crop-to-fill reads only a sub-rectangle of the source: cropping is never
/// padding.
pub proof fn lemma_crop_region_within(src: ImageSource, area: Rect)
    requires
        src.wf(),
        area.width >= 1,
        area.height >= 1,
    ensures
        1 <= hb_region(src, Resize::Crop, area).0 <= src.image.width,
        1 <= hb_region(src, Resize::Crop, area).1 <= src.image.height,
{
    let fw = src.font_size.0 as int;
    let fh = src.font_size.1 as int;
    assert(area.width * fw >= 1) by (nonlinear_arith)
        requires area.width >= 1 && fw >= 1;
    assert(area.height * fh >= 1) by (nonlinear_arith)
        requires area.height >= 1 && fh >= 1;
    crate::geometry::lemma_crop_src_dims_within(
        src.image.width as int,
        src.image.height as int,
        area.width * fw,
        area.height * fh,
    );
}

} // verus!
