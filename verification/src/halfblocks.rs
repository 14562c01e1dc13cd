//! Block-approximation backend: maps each target cell to an upper-half-block
//! glyph whose foreground and background colors are sampled from the upper
//! and lower halves of the corresponding source-pixel block. Works in any
//! terminal; no wire protocol involved.

use vstd::prelude::*;
use crate::buffer::{Cell, CellBuffer};
use crate::geometry::{
    cells_for, cells_for_u16, crop_src_dims_u32, fit_dims_u32, lemma_ceil_div_exact,
    lemma_ceil_div_le, lemma_ceil_div_pos, lemma_mul_u32_fits, source_region, target_pixel_dims,
    Rect, Resize, Rgb8,
};
use crate::img::{pixel, pixel_at};
use crate::protocol::{CacheKey, Protocol, StatefulProtocol};
use crate::source::ImageSource;

verus! {

/// The smaller of two values.
pub open spec fn spec_min(a: int, b: int) -> int {
    if a < b {
        a
    } else {
        b
    }
}

/// The encoded payload: one (upper, lower) color pair per cell of `rect`,
/// row-major.
#[derive(Debug)]
pub struct HalfblockGrid {
    /// Placement and extent of the encoded cells.
    pub rect: Rect,
    /// One color pair per cell.
    pub cells: Vec<(Rgb8, Rgb8)>,
}

impl HalfblockGrid {
    /// Well-formed: one color pair per cell.
    pub open spec fn wf(self) -> bool {
        self.cells@.len() == self.rect.width * self.rect.height
    }
}

/// Cell dimensions of the halfblock grid encoded for `src` under `policy`
/// into `area`.
pub open spec fn hb_grid_dims(src: ImageSource, policy: Resize, area: Rect) -> (int, int) {
    let bw = area.width * src.font_size.0;
    let bh = area.height * src.font_size.1;
    let tp = target_pixel_dims(policy, src.image.width as int, src.image.height as int, bw, bh);
    (cells_for(tp.0, src.font_size.0 as int), cells_for(tp.1, src.font_size.1 as int))
}

/// Source-pixel region the encode samples from.
pub open spec fn hb_region(src: ImageSource, policy: Resize, area: Rect) -> (int, int) {
    source_region(
        policy,
        src.image.width as int,
        src.image.height as int,
        area.width * src.font_size.0,
        area.height * src.font_size.1,
    )
}

/// The (upper, lower) colors of target cell (cx, cy): representative pixels
/// sampled from the upper and lower halves of the cell's block in the
/// `rw × rh` source region of a `w`-wide pixel grid.
pub open spec fn hb_colors(
    data: Seq<u8>,
    w: int,
    rw: int,
    rh: int,
    tw: int,
    th: int,
    cx: int,
    cy: int,
) -> (Rgb8, Rgb8) {
    let sx = (cx * rw) / tw;
    let syu = (2 * cy * rh) / (2 * th);
    let syl = ((2 * cy + 1) * rh) / (2 * th);
    (pixel_at(data, w, sx, syu), pixel_at(data, w, sx, syl))
}

/// `g` is exactly the grid that encoding `src` under `policy` into `area`
/// produces.
pub open spec fn grid_matches(g: HalfblockGrid, src: ImageSource, policy: Resize, area: Rect) -> bool {
    let dims = hb_grid_dims(src, policy, area);
    let reg = hb_region(src, policy, area);
    &&& g.wf()
    &&& g.rect.x == area.x
    &&& g.rect.y == area.y
    &&& g.rect.width == dims.0
    &&& g.rect.height == dims.1
    &&& forall|cx: int, cy: int|
        0 <= cx < dims.0 && 0 <= cy < dims.1
            ==> g.cells@[cy * dims.0 + cx] == hb_colors(
                src.image.data@,
                src.image.width as int,
                reg.0,
                reg.1,
                dims.0,
                dims.1,
                cx,
                cy,
            )
}

/// Mapping step `c` of `t` onto an extent `r` stays inside the extent.
proof fn lemma_sample_range(c: int, r: int, t: int)
    requires
        0 <= c < t,
        r >= 1,
        t >= 1,
    ensures
        0 <= (c * r) / t < r,
{
    assert(0 <= (c * r) / t && (c * r) / t < r) by (nonlinear_arith)
        requires 0 <= c < t && r >= 1 && t >= 1;
}

/// Encode `src` into a halfblock grid for `area` under `policy`.
pub fn encode_halfblocks(src: &ImageSource, policy: Resize, area: Rect) -> (g: HalfblockGrid)
    requires
        src.wf(),
        area.width > 0,
        area.height > 0,
    ensures
        grid_matches(g, *src, policy, area),
        g.rect.width <= area.width,
        g.rect.height <= area.height,
        g.rect.width >= 1,
        g.rect.height >= 1,
{
    let fw = src.font_size.0;
    let fh = src.font_size.1;
    let iw = src.image.width;
    let ih = src.image.height;
    proof {
        lemma_mul_u32_fits(area.width as int, fw as int);
        lemma_mul_u32_fits(area.height as int, fh as int);
        assert(area.width as int * fw as int <= 0xffff * 0xffff) by (nonlinear_arith)
            requires area.width <= 0xffff && fw <= 0xffff;
        assert(area.height as int * fh as int <= 0xffff * 0xffff) by (nonlinear_arith)
            requires area.height <= 0xffff && fh <= 0xffff;
        assert(area.width as int * fw as int >= 1) by (nonlinear_arith)
            requires area.width >= 1 && fw >= 1;
        assert(area.height as int * fh as int >= 1) by (nonlinear_arith)
            requires area.height >= 1 && fh >= 1;
    }
    let bw: u32 = area.width as u32 * fw as u32;
    let bh: u32 = area.height as u32 * fh as u32;
    let (tpw, tph): (u32, u32) = match policy {
        Resize::Exact => (bw, bh),
        Resize::Fit => fit_dims_u32(iw, ih, bw, bh),
        Resize::Crop => (bw, bh),
    };
    let (rw, rh): (u32, u32) = match policy {
        Resize::Crop => crop_src_dims_u32(iw, ih, bw, bh),
        _ => (iw, ih),
    };
    let tw: u16 = cells_for_u16(tpw, fw);
    let th: u16 = cells_for_u16(tph, fh);
    proof {
        lemma_ceil_div_exact(area.width as int, fw as int);
        lemma_ceil_div_exact(area.height as int, fh as int);
        lemma_ceil_div_le(tpw as int, area.width as int, fw as int);
        lemma_ceil_div_le(tph as int, area.height as int, fh as int);
        lemma_ceil_div_pos(tpw as int, fw as int);
        lemma_ceil_div_pos(tph as int, fh as int);
    }
    let ghost dims = hb_grid_dims(*src, policy, area);
    let ghost reg = hb_region(*src, policy, area);
    proof {
        assert(dims.0 == tw && dims.1 == th);
        assert(reg.0 == rw && reg.1 == rh);
        assert(rw <= iw && rh <= ih && rw >= 1 && rh >= 1);
    }
    let mut cells: Vec<(Rgb8, Rgb8)> = Vec::new();
    let mut cy: u16 = 0;
    while cy < th
        invariant
            src.wf(),
            1 <= tw <= area.width,
            1 <= th <= area.height,
            1 <= rw <= src.image.width,
            1 <= rh <= src.image.height,
            dims == (tw as int, th as int),
            reg == (rw as int, rh as int),
            cy <= th,
            cells@.len() == cy as int * tw as int,
            forall|x: int, y: int|
                0 <= x < tw && 0 <= y < cy
                    ==> cells@[y * tw as int + x] == hb_colors(
                        src.image.data@,
                        src.image.width as int,
                        rw as int,
                        rh as int,
                        tw as int,
                        th as int,
                        x,
                        y,
                    ),
        decreases th - cy,
    {
        let mut cx: u16 = 0;
        while cx < tw
            invariant
                src.wf(),
                1 <= tw <= area.width,
                1 <= th <= area.height,
                1 <= rw <= src.image.width,
                1 <= rh <= src.image.height,
                cy < th,
                cx <= tw,
                cells@.len() == cy as int * tw as int + cx as int,
                forall|x: int, y: int|
                    0 <= x < tw && (0 <= y < cy || (y == cy && 0 <= x < cx))
                        ==> cells@[y * tw as int + x] == hb_colors(
                            src.image.data@,
                            src.image.width as int,
                            rw as int,
                            rh as int,
                            tw as int,
                            th as int,
                            x,
                            y,
                        ),
            decreases tw - cx,
        {
            proof {
                lemma_sample_range(cx as int, rw as int, tw as int);
                lemma_sample_range(2 * cy as int, rh as int, 2 * th as int);
                lemma_sample_range(2 * cy as int + 1, rh as int, 2 * th as int);
                lemma_mul_u32_fits(cx as int, rw as int);
                lemma_mul_u32_fits(2 * cy as int + 1, rh as int);
                lemma_mul_u32_fits(2 * cy as int, rh as int);
            }
            let sx = (cx as u64 * rw as u64 / tw as u64) as u32;
            let syu = (2 * cy as u64 * rh as u64 / (2 * th as u64)) as u32;
            let syl = ((2 * cy as u64 + 1) * rh as u64 / (2 * th as u64)) as u32;
            let up = pixel(&src.image, sx, syu);
            let lo = pixel(&src.image, sx, syl);
            let ghost pre = cells@;
            cells.push((up, lo));
            proof {
                assert((cy as int * tw as int + cx as int) < (th as int) * (tw as int))
                    by (nonlinear_arith)
                    requires 0 <= cx < tw && 0 <= cy < th;
                assert forall|x: int, y: int|
                    0 <= x < tw && (0 <= y < cy || (y == cy && 0 <= x < cx + 1))
                        implies cells@[y * tw as int + x] == hb_colors(
                            src.image.data@,
                            src.image.width as int,
                            rw as int,
                            rh as int,
                            tw as int,
                            th as int,
                            x,
                            y,
                        ) by {
                    if y < cy || x < cx {
                        assert(0 <= y * (tw as int) + x && (y * (tw as int) + x)
                            < cy as int * (tw as int) + cx as int)
                            by (nonlinear_arith)
                            requires
                                0 <= x < tw && 0 <= y
                                && (y < cy || (y == cy && x < cx));
                        assert(cells@[y * tw as int + x] == pre[y * tw as int + x]);
                    } else {
                        assert(y == cy && x == cx);
                        assert(y * tw as int + x == pre.len());
                    }
                }
            }
            cx = cx + 1;
        }
        proof {
            assert(cy as int * tw as int + tw as int == (cy as int + 1) * tw as int)
                by (nonlinear_arith);
        }
        cy = cy + 1;
    }
    proof {
        assert(th as int * tw as int == tw as int * th as int) by (nonlinear_arith);
    }
    HalfblockGrid { rect: Rect { x: area.x, y: area.y, width: tw, height: th }, cells }
}

/// What one encode stores: the sampled grid, extended to the full area
/// with background-colored cells when fit-within was asked to fill with a
/// background. A degenerate area stores an empty grid, whose render writes
/// nothing.
pub open spec fn grid_for(
    g: HalfblockGrid,
    src: ImageSource,
    policy: Resize,
    bg: Option<Rgb8>,
    area: Rect,
) -> bool {
    if area.width == 0 || area.height == 0 {
        &&& g.wf()
        &&& g.rect == (Rect { x: area.x, y: area.y, width: 0, height: 0 })
        &&& g.cells@.len() == 0
    } else {
        grid_for_nonempty(g, src, policy, bg, area)
    }
}

/// [`grid_for`], for a target area with both extents positive.
pub open spec fn grid_for_nonempty(
    g: HalfblockGrid,
    src: ImageSource,
    policy: Resize,
    bg: Option<Rgb8>,
    area: Rect,
) -> bool {
    match bg {
        Some(c) => if policy is Fit {
            let dims = hb_grid_dims(src, policy, area);
            let reg = hb_region(src, policy, area);
            &&& g.wf()
            &&& g.rect == (Rect { x: area.x, y: area.y, width: area.width, height: area.height })
            &&& forall|cx: int, cy: int|
                0 <= cx < area.width && 0 <= cy < area.height
                    ==> #[trigger] g.cells@[cy * area.width + cx] == (if cx < dims.0 && cy < dims.1 {
                        hb_colors(
                            src.image.data@,
                            src.image.width as int,
                            reg.0,
                            reg.1,
                            dims.0,
                            dims.1,
                            cx,
                            cy,
                        )
                    } else {
                        (c, c)
                    })
        } else {
            grid_matches(g, src, policy, area)
        },
        None => grid_matches(g, src, policy, area),
    }
}

/// Extend a grid to the full extent of `area`, filling the added cells
/// with the background color: under fit-within, unfilled cells are
/// rendered as background.
pub fn pad_grid(g: HalfblockGrid, area: Rect, c: Rgb8) -> (r: HalfblockGrid)
    requires
        g.wf(),
        g.rect.width <= area.width,
        g.rect.height <= area.height,
    ensures
        r.wf(),
        r.rect == (Rect { x: g.rect.x, y: g.rect.y, width: area.width, height: area.height }),
        forall|cx: int, cy: int|
            0 <= cx < area.width && 0 <= cy < area.height
                ==> #[trigger] r.cells@[cy * area.width + cx] == (if cx < g.rect.width && cy
                    < g.rect.height {
                    g.cells@[cy * g.rect.width + cx]
                } else {
                    (c, c)
                }),
{
    let aw = area.width;
    let ah = area.height;
    let gw = g.rect.width;
    let gh = g.rect.height;
    let mut cells: Vec<(Rgb8, Rgb8)> = Vec::new();
    let mut cy: u16 = 0;
    while cy < ah
        invariant
            g.wf(),
            gw == g.rect.width <= aw,
            gh == g.rect.height <= ah,
            cy <= ah,
            cells@.len() == cy as int * aw as int,
            forall|x: int, y: int|
                0 <= x < aw && 0 <= y < cy
                    ==> #[trigger] cells@[y * aw as int + x] == (if x < gw && y < gh {
                        g.cells@[y * gw as int + x]
                    } else {
                        (c, c)
                    }),
        decreases ah - cy,
    {
        let mut cx: u16 = 0;
        while cx < aw
            invariant
                g.wf(),
                gw == g.rect.width <= aw,
                gh == g.rect.height <= ah,
                cy < ah,
                cx <= aw,
                cells@.len() == cy as int * aw as int + cx as int,
                forall|x: int, y: int|
                    0 <= x < aw && (0 <= y < cy || (y == cy && 0 <= x < cx))
                        ==> #[trigger] cells@[y * aw as int + x] == (if x < gw && y < gh {
                            g.cells@[y * gw as int + x]
                        } else {
                            (c, c)
                        }),
            decreases aw - cx,
        {
            let pair: (Rgb8, Rgb8) = if cx < gw && cy < gh {
                proof {
                    assert((cy as int * gw as int + cx as int) < (gh as int) * (gw as int))
                        by (nonlinear_arith)
                        requires 0 <= cx < gw && 0 <= cy < gh;
                    assert((gw as int) * (gh as int) == (gh as int) * (gw as int))
                        by (nonlinear_arith);
                }
                let glen: usize = g.cells.len();
                let gi: usize = cy as usize * gw as usize + cx as usize;
                g.cells[gi]
            } else {
                (c, c)
            };
            let ghost pre = cells@;
            cells.push(pair);
            proof {
                assert((cy as int * aw as int + cx as int) < (ah as int) * (aw as int))
                    by (nonlinear_arith)
                    requires 0 <= cx < aw && 0 <= cy < ah;
                assert forall|x: int, y: int|
                    0 <= x < aw && (0 <= y < cy || (y == cy && 0 <= x < cx + 1))
                        implies #[trigger] cells@[y * aw as int + x] == (if x < gw && y < gh {
                            g.cells@[y * gw as int + x]
                        } else {
                            (c, c)
                        }) by {
                    if y < cy || x < cx {
                        assert(0 <= y * (aw as int) + x && (y * (aw as int) + x)
                            < cy as int * (aw as int) + cx as int)
                            by (nonlinear_arith)
                            requires
                                0 <= x < aw && 0 <= y
                                && (y < cy || (y == cy && x < cx));
                        assert(cells@[y * aw as int + x] == pre[y * aw as int + x]);
                    } else {
                        assert(y == cy && x == cx);
                        assert(y * aw as int + x == pre.len());
                    }
                }
            }
            cx = cx + 1;
        }
        proof {
            assert(cy as int * aw as int + aw as int == (cy as int + 1) * (aw as int))
                by (nonlinear_arith);
        }
        cy = cy + 1;
    }
    proof {
        assert((ah as int) * (aw as int) == (aw as int) * (ah as int)) by (nonlinear_arith);
    }
    HalfblockGrid {
        rect: Rect { x: g.rect.x, y: g.rect.y, width: aw, height: ah },
        cells,
    }
}

/// A written halfblock cell: the upper-half-block glyph (UTF-8
/// `e2 96 80`) with the pair's colors as foreground and background.
pub open spec fn is_hb_cell(c: Cell, colors: (Rgb8, Rgb8)) -> bool {
    &&& c.sym@ == seq![0xe2u8, 0x96u8, 0x80u8]
    &&& c.fg == Some(colors.0)
    &&& c.bg == Some(colors.1)
}

/// The grid cells that rendering `g` at `area` covers: the grid clipped to
/// the area's extent, placed at the area's corner.
pub open spec fn hb_covered(g: HalfblockGrid, area: Rect, cx: int, cy: int) -> bool {
    &&& area.x <= cx < area.x + spec_min(g.rect.width as int, area.width as int)
    &&& area.y <= cy < area.y + spec_min(g.rect.height as int, area.height as int)
}

/// `post` is `pre` with `g` written at `area`: covered cells (that the
/// buffer holds) carry the grid's glyph and colors, all other cells are
/// untouched.
pub open spec fn hb_rendered(g: HalfblockGrid, area: Rect, pre: CellBuffer, post: CellBuffer) -> bool {
    &&& forall|cx: int, cy: int|
        pre.area.contains(cx, cy) && hb_covered(g, area, cx, cy)
            ==> is_hb_cell(
                post.cell_at(cx, cy),
                g.cells@[(cy - area.y) * g.rect.width + (cx - area.x)],
            )
    &&& forall|cx: int, cy: int|
        pre.area.contains(cx, cy) && !hb_covered(g, area, cx, cy)
            ==> post.cell_at(cx, cy) == pre.cell_at(cx, cy)
}

/// Write `g` into `buf` at `area`, clipped to the buffer.
pub fn render_grid(g: &HalfblockGrid, area: Rect, buf: &mut CellBuffer)
    requires
        g.wf(),
        old(buf).wf(),
    ensures
        final(buf).wf(),
        final(buf).area == old(buf).area,
        hb_rendered(*g, area, *old(buf), *final(buf)),
{
    let ww: u16 = if g.rect.width < area.width { g.rect.width } else { area.width };
    let hh: u16 = if g.rect.height < area.height { g.rect.height } else { area.height };
    let mut dy: u16 = 0;
    while dy < hh
        invariant
            g.wf(),
            buf.wf(),
            buf.area == old(buf).area,
            ww == spec_min(g.rect.width as int, area.width as int),
            hh == spec_min(g.rect.height as int, area.height as int),
            dy <= hh,
            forall|cx: int, cy: int|
                old(buf).area.contains(cx, cy) && hb_covered(*g, area, cx, cy)
                    && cy - area.y < dy
                    ==> is_hb_cell(
                        buf.cell_at(cx, cy),
                        g.cells@[(cy - area.y) * g.rect.width + (cx - area.x)],
                    ),
            forall|cx: int, cy: int|
                old(buf).area.contains(cx, cy)
                    && !(hb_covered(*g, area, cx, cy) && cy - area.y < dy)
                    ==> buf.cell_at(cx, cy) == old(buf).cell_at(cx, cy),
        decreases hh - dy,
    {
        let mut dx: u16 = 0;
        while dx < ww
            invariant
                g.wf(),
                buf.wf(),
                buf.area == old(buf).area,
                ww == spec_min(g.rect.width as int, area.width as int),
                hh == spec_min(g.rect.height as int, area.height as int),
                dy < hh,
                dx <= ww,
                forall|cx: int, cy: int|
                    old(buf).area.contains(cx, cy) && hb_covered(*g, area, cx, cy)
                        && (cy - area.y < dy || (cy - area.y == dy && cx - area.x < dx))
                        ==> is_hb_cell(
                            buf.cell_at(cx, cy),
                            g.cells@[(cy - area.y) * g.rect.width + (cx - area.x)],
                        ),
                forall|cx: int, cy: int|
                    old(buf).area.contains(cx, cy)
                        && !(hb_covered(*g, area, cx, cy)
                            && (cy - area.y < dy || (cy - area.y == dy && cx - area.x < dx)))
                        ==> buf.cell_at(cx, cy) == old(buf).cell_at(cx, cy),
            decreases ww - dx,
        {
            let ax32: u32 = area.x as u32 + dx as u32;
            let ay32: u32 = area.y as u32 + dy as u32;
            let inside: bool = ax32 >= buf.area.x as u32
                && ax32 < buf.area.x as u32 + buf.area.width as u32
                && ay32 >= buf.area.y as u32
                && ay32 < buf.area.y as u32 + buf.area.height as u32;
            if inside {
                let ax = ax32 as u16;
                let ay = ay32 as u16;
                proof {
                    assert((dy as int * (g.rect.width as int) + dx as int)
                        < (g.rect.height as int) * (g.rect.width as int))
                        by (nonlinear_arith)
                        requires
                            0 <= dx < g.rect.width && 0 <= dy < g.rect.height;
                    assert(g.rect.width as int * g.rect.height as int
                        == g.rect.height as int * g.rect.width as int) by (nonlinear_arith);
                }
                let glen: usize = g.cells.len();
                let gi: usize = dy as usize * g.rect.width as usize + dx as usize;
                let pair = g.cells[gi];
                let mut sym: Vec<u8> = Vec::new();
                sym.push(0xe2);
                sym.push(0x96);
                sym.push(0x80);
                proof {
                    assert(sym@ =~= seq![0xe2u8, 0x96u8, 0x80u8]);
                }
                let cell = Cell { sym, fg: Some(pair.0), bg: Some(pair.1) };
                buf.put(ax, ay, cell);
            }
            proof {
                assert forall|cx: int, cy: int|
                    old(buf).area.contains(cx, cy) && hb_covered(*g, area, cx, cy)
                        && (cy - area.y < dy || (cy - area.y == dy && cx - area.x < dx + 1))
                        implies is_hb_cell(
                            buf.cell_at(cx, cy),
                            g.cells@[(cy - area.y) * g.rect.width + (cx - area.x)],
                        ) by {
                    if cy - area.y == dy && cx - area.x == dx {
                        assert(cx == ax32 && cy == ay32);
                        assert(inside);
                    }
                }
            }
            dx = dx + 1;
        }
        dy = dy + 1;
    }
}

/// A cached encode: the exact key it is valid for, and its payload.
#[derive(Debug)]
pub struct HbEncoded {
    /// The (policy, area, fingerprint) triple of the encode.
    pub key: CacheKey,
    /// The encoded glyph grid.
    pub grid: HalfblockGrid,
}

/// Stateful halfblock backend: re-encodes only when policy, area or source
/// fingerprint changed.
#[derive(Debug)]
pub struct StatefulHalfblocks {
    /// The image being displayed.
    pub source: ImageSource,
    /// The last encode, if any.
    pub state: Option<HbEncoded>,
}

impl StatefulHalfblocks {
    /// Fresh state for `source`: nothing encoded yet.
    pub fn new(source: ImageSource) -> (r: StatefulHalfblocks)
        ensures
            r.source == source,
            r.state is None,
    {
        StatefulHalfblocks { source, state: None }
    }
}

impl StatefulProtocol for StatefulHalfblocks {
    open spec fn source(&self) -> ImageSource {
        self.source
    }

    open spec fn cache(&self) -> Option<CacheKey> {
        match self.state {
            Some(e) => Some(e.key),
            None => None,
        }
    }

    open spec fn inv(&self) -> bool {
        &&& self.source.wf()
        &&& match self.state {
            Some(e) => e.grid.wf(),
            None => true,
        }
    }

    open spec fn can_encode(&self, area: Rect) -> bool {
        true
    }

    open spec fn encoded(&self, prev: Self, resize: Resize, background_color: Option<Rgb8>, area: Rect) -> bool {
        match self.state {
            Some(e) => grid_for(e.grid, self.source, resize, background_color, area),
            None => false,
        }
    }

    open spec fn same_backend(&self, other: &Self) -> bool {
        true
    }

    proof fn lemma_same_backend_refl(&self) {
    }

    open spec fn renders(&self, area: Rect, pre: CellBuffer, post: CellBuffer) -> bool {
        match self.state {
            Some(e) => hb_rendered(e.grid, area, pre, post),
            None => post == pre,
        }
    }

    fn needs_resize(&mut self, resize: &Resize, area: Rect) -> (r: Option<Rect>) {
        let key = CacheKey { policy: *resize, area, hash: self.source.hash };
        match &self.state {
            Some(e) => if e.key == key {
                None
            } else {
                Some(area)
            },
            None => Some(area),
        }
    }

    fn resize_encode(&mut self, resize: &Resize, background_color: Option<Rgb8>, area: Rect) {
        let grid = if area.width == 0 || area.height == 0 {
            HalfblockGrid {
                rect: Rect { x: area.x, y: area.y, width: 0, height: 0 },
                cells: Vec::new(),
            }
        } else {
            let grid = encode_halfblocks(&self.source, *resize, area);
            match (resize, background_color) {
                (Resize::Fit, Some(c)) => pad_grid(grid, area, c),
                _ => grid,
            }
        };
        let key = CacheKey { policy: *resize, area, hash: self.source.hash };
        self.state = Some(HbEncoded { key, grid });
        proof {
            assert(self.encoded(*old(self), *resize, background_color, area));
        }
    }

    fn render(&mut self, area: Rect, buf: &mut CellBuffer) {
        match &self.state {
            Some(e) => {
                render_grid(&e.grid, area, buf);
            },
            None => {},
        }
    }
}

/// Fixed halfblock protocol: encoded once at creation for one area.
#[derive(Debug)]
pub struct Halfblocks {
    /// The encoded glyph grid.
    pub grid: HalfblockGrid,
}

impl Halfblocks {
    /// Encode `source` once for `area` under `policy`.
    pub fn new(source: &ImageSource, policy: Resize, area: Rect) -> (r: Halfblocks)
        requires
            source.wf(),
            area.width > 0,
            area.height > 0,
        ensures
            r.grid.wf(),
            grid_matches(r.grid, *source, policy, area),
    {
        Halfblocks { grid: encode_halfblocks(source, policy, area) }
    }
}

impl Protocol for Halfblocks {
    open spec fn spec_rect(&self) -> Rect {
        self.grid.rect
    }

    open spec fn inv(&self) -> bool {
        self.grid.wf()
    }

    open spec fn renders(&self, area: Rect, pre: CellBuffer, post: CellBuffer) -> bool {
        hb_rendered(self.grid, area, pre, post)
    }

    fn render(&self, area: Rect, buf: &mut CellBuffer) {
        render_grid(&self.grid, area, buf);
    }

    fn rect(&self) -> (r: Rect) {
        self.grid.rect
    }
}

} // verus!
