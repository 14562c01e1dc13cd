//! Run-length binary backend: quantizes the resampled pixels to a fixed
//! 64-color palette and emits them as sixel bands — six rows per band, one
//! run-length-encoded pass per palette color — wrapped in the
//! device-control introducer and terminator.

use vstd::prelude::*;
use crate::buffer::CellBuffer;
use crate::escape::{dec_digits, push_dec};
use crate::geometry::{ceil_div, ceil_div_u32, cells_for_u16, lemma_ceil_div_le,
    lemma_ceil_div_pos, lemma_target_within, target_pixel_dims, Rect, Resize, Rgb8};
use crate::img::{pixel_at, pixel_raw};
use crate::kitty::{esc_st, kitty_cell_span, payload_rendered, render_payload};
use crate::protocol::{CacheKey, Protocol, StatefulProtocol};
use crate::source::{pixel_bounds, resample_target, target_data, target_fits, ImageSource};

verus! {

/// Palette index of a pixel: two bits per channel, 64 colors.
pub open spec fn quant(c: Rgb8) -> int {
    (c.r / 64) * 16 + (c.g / 64) * 4 + (c.b / 64)
}

/// Whether row `y` of column `x` belongs to palette color `k` (rows past
/// the image contribute nothing).
pub open spec fn mask_bit(data: Seq<u8>, w: int, h: int, x: int, y: int, k: int) -> int {
    if y < h && quant(pixel_at(data, w, x, y)) == k {
        1
    } else {
        0
    }
}

/// The six-row bit pattern of band `b`, column `x`, for palette color `k`.
pub open spec fn sixel_mask(data: Seq<u8>, w: int, h: int, x: int, b: int, k: int) -> int {
    mask_bit(data, w, h, x, 6 * b, k) + 2 * mask_bit(data, w, h, x, 6 * b + 1, k) + 4 * mask_bit(
        data, w, h, x, 6 * b + 2, k) + 8 * mask_bit(data, w, h, x, 6 * b + 3, k) + 16 * mask_bit(
        data, w, h, x, 6 * b + 4, k) + 32 * mask_bit(data, w, h, x, 6 * b + 5, k)
}

/// Length of the run of equal bit patterns starting at column `x`.
pub open spec fn run_len(data: Seq<u8>, w: int, h: int, b: int, k: int, x: int) -> int
    decreases w - x,
{
    if x + 1 < w && sixel_mask(data, w, h, x + 1, b, k) == sixel_mask(data, w, h, x, b, k) {
        1 + run_len(data, w, h, b, k, x + 1)
    } else {
        1
    }
}

/// A run is nonempty and stays inside the row.
pub proof fn lemma_run_len_bounds(data: Seq<u8>, w: int, h: int, b: int, k: int, x: int)
    requires
        x < w,
    ensures
        1 <= run_len(data, w, h, b, k, x) <= w - x,
    decreases w - x,
{
    if x + 1 < w && sixel_mask(data, w, h, x + 1, b, k) == sixel_mask(data, w, h, x, b, k) {
        lemma_run_len_bounds(data, w, h, b, k, x + 1);
    }
}

/// The run-length tokens of palette color `k` over band `b`, from column
/// `x` on: each run is `!<count><pattern>` with the pattern offset by 63.
pub open spec fn sixel_color_line(data: Seq<u8>, w: int, h: int, b: int, k: int, x: int) -> Seq<u8>
    decreases w - x
        via sixel_color_line_dec
{
    if x >= w {
        Seq::<u8>::empty()
    } else {
        let n = run_len(data, w, h, b, k, x);
        seq![33u8] + dec_digits(n) + seq![(63 + sixel_mask(data, w, h, x, b, k)) as u8]
            + sixel_color_line(data, w, h, b, k, x + n)
    }
}

#[via_fn]
proof fn sixel_color_line_dec(data: Seq<u8>, w: int, h: int, b: int, k: int, x: int) {
    if x < w {
        lemma_run_len_bounds(data, w, h, b, k, x);
    }
}

/// One band's passes for palette colors `k ..= 63`, ended by the band
/// terminator `-`: each pass selects `#<k>`, emits the color's runs, and
/// returns the cursor with `$`.
pub open spec fn sixel_band_colors(data: Seq<u8>, w: int, h: int, b: int, k: int) -> Seq<u8>
    decreases 64 - k,
{
    if k >= 64 {
        seq![45u8]
    } else {
        seq![35u8] + dec_digits(k) + sixel_color_line(data, w, h, b, k, 0) + seq![36u8]
            + sixel_band_colors(data, w, h, b, k + 1)
    }
}

/// Bands `b ..< nb`.
pub open spec fn sixel_bands(data: Seq<u8>, w: int, h: int, b: int, nb: int) -> Seq<u8>
    decreases nb - b,
{
    if b >= nb {
        Seq::<u8>::empty()
    } else {
        sixel_band_colors(data, w, h, b, 0) + sixel_bands(data, w, h, b + 1, nb)
    }
}

/// Percentage (0–100) of a two-bit channel level.
pub open spec fn level_pct(l: int) -> int {
    l * 100 / 3
}

/// RGB palette definitions `#<k>;2;<r>;<g>;<b>` for colors `k ..= 63`.
pub open spec fn sixel_palette(k: int) -> Seq<u8>
    decreases 64 - k,
{
    if k >= 64 {
        Seq::<u8>::empty()
    } else {
        seq![35u8] + dec_digits(k) + seq![59u8, 50u8, 59u8] + dec_digits(level_pct(k / 16))
            + seq![59u8] + dec_digits(level_pct((k / 4) % 4)) + seq![59u8] + dec_digits(
            level_pct(k % 4)) + sixel_palette(k + 1)
    }
}

/// The complete sixel frame for a `w × h` RGB pixel grid: a cursor save,
/// the device-control introducer, raster attributes, palette, the
/// run-length-encoded bands, the string terminator, and a cursor restore —
/// so the image never disturbs the surrounding text layout.
pub open spec fn sixel_encode(data: Seq<u8>, w: int, h: int) -> Seq<u8> {
    seq![27u8, 55u8] + seq![27u8, 80u8, 48u8, 59u8, 48u8, 59u8, 56u8, 113u8] + seq![
        34u8,
        49u8,
        59u8,
        49u8,
        59u8,
    ] + dec_digits(w) + seq![59u8] + dec_digits(h) + sixel_palette(0) + sixel_bands(data, w, h, 0,
        ceil_div(h, 6)) + esc_st() + seq![27u8, 56u8]
}

/// Palette index of the pixel at (x, y).
fn quant_px(data: &Vec<u8>, w: u32, h: u32, x: u32, y: u32) -> (q: u8)
    requires
        data@.len() == 3 * w * h,
        x < w,
        y < h,
    ensures
        q == quant(pixel_at(data@, w as int, x as int, y as int)),
        q < 64,
{
    let c = pixel_raw(data, w, h, x, y);
    (c.r / 64) * 16 + (c.g / 64) * 4 + c.b / 64
}

/// The six-row bit pattern of band `b` at column `x` for color `k`.
fn mask_at(data: &Vec<u8>, w: u32, h: u32, x: u32, b: u32, k: u8) -> (m: u8)
    requires
        data@.len() == 3 * w * h,
        x < w,
        6 * b < h,
    ensures
        m == sixel_mask(data@, w as int, h as int, x as int, b as int, k as int),
        m < 64,
{
    let y0: u32 = 6 * b;
    let mut m: u8 = 0;
    if quant_px(data, w, h, x, y0) == k {
        m = m + 1;
    }
    if y0 as u64 + 1 < h as u64 && quant_px(data, w, h, x, y0 + 1) == k {
        m = m + 2;
    }
    if y0 as u64 + 2 < h as u64 && quant_px(data, w, h, x, y0 + 2) == k {
        m = m + 4;
    }
    if y0 as u64 + 3 < h as u64 && quant_px(data, w, h, x, y0 + 3) == k {
        m = m + 8;
    }
    if y0 as u64 + 4 < h as u64 && quant_px(data, w, h, x, y0 + 4) == k {
        m = m + 16;
    }
    if y0 as u64 + 5 < h as u64 && quant_px(data, w, h, x, y0 + 5) == k {
        m = m + 32;
    }
    m
}

/// Scan the run of equal bit patterns starting at column `x`.
fn run_scan(data: &Vec<u8>, w: u32, h: u32, b: u32, k: u8, x: u32, m: u8) -> (n: u32)
    requires
        data@.len() == 3 * w * h,
        6 * b < h,
        x < w,
        m == sixel_mask(data@, w as int, h as int, x as int, b as int, k as int),
    ensures
        n == run_len(data@, w as int, h as int, b as int, k as int, x as int),
        1 <= n,
        x + n <= w,
{
    let mut n: u32 = 1;
    let mut go: bool = if x + 1 < w {
        mask_at(data, w, h, x + 1, b, k) == m
    } else {
        false
    };
    while go
        invariant
            data@.len() == 3 * w * h,
            6 * b < h,
            x < w,
            1 <= n,
            x + n <= w,
            m == sixel_mask(data@, w as int, h as int, x as int, b as int, k as int),
            sixel_mask(data@, w as int, h as int, x as int + n - 1, b as int, k as int)
                == m as int,
            run_len(data@, w as int, h as int, b as int, k as int, x as int) == n - 1 + run_len(
                data@, w as int, h as int, b as int, k as int, x as int + n - 1),
            go == (x + n < w && sixel_mask(data@, w as int, h as int, x as int + n, b as int,
                k as int) == m as int),
        decreases w - x - n,
    {
        n = n + 1;
        if x + n < w {
            go = mask_at(data, w, h, x + n, b, k) == m;
        } else {
            go = false;
        }
    }
    proof {
        assert(run_len(data@, w as int, h as int, b as int, k as int, x as int + n - 1) == 1);
    }
    n
}

/// Append the run-length tokens of color `k` over band `b`.
#[verifier::rlimit(100)]
fn push_color_line(out: &mut Vec<u8>, data: &Vec<u8>, w: u32, h: u32, b: u32, k: u8)
    requires
        data@.len() == 3 * w * h,
        6 * b < h,
    ensures
        final(out)@ == old(out)@ + sixel_color_line(data@, w as int, h as int, b as int,
            k as int, 0),
{
    let ghost full = sixel_color_line(data@, w as int, h as int, b as int, k as int, 0);
    let mut x: u32 = 0;
    proof {
        if w == 0 {
            assert(full =~= Seq::<u8>::empty());
        }
    }
    while x < w
        invariant
            data@.len() == 3 * w * h,
            6 * b < h,
            x <= w,
            full == sixel_color_line(data@, w as int, h as int, b as int, k as int, 0),
            old(out)@ + full == out@ + sixel_color_line(data@, w as int, h as int, b as int,
                k as int, x as int),
        decreases w - x,
    {
        let m = mask_at(data, w, h, x, b, k);
        let n = run_scan(data, w, h, b, k, x, m);
        let ghost pre = out@;
        out.push(33);
        push_dec(out, n as u64);
        out.push(63 + m);
        proof {
            let tok = seq![33u8] + dec_digits(n as int) + seq![(63 + m as int) as u8];
            assert(out@ =~= pre + tok);
            assert(sixel_color_line(data@, w as int, h as int, b as int, k as int, x as int)
                == tok + sixel_color_line(data@, w as int, h as int, b as int, k as int,
                x as int + n));
            assert(out@ + sixel_color_line(data@, w as int, h as int, b as int, k as int,
                x as int + n) =~= pre + sixel_color_line(data@, w as int, h as int, b as int,
                k as int, x as int));
        }
        x = x + n;
    }
    proof {
        assert(sixel_color_line(data@, w as int, h as int, b as int, k as int, w as int)
            =~= Seq::<u8>::empty());
        assert(out@ =~= old(out)@ + full);
    }
}

/// Append one band: all 64 color passes and the band terminator.
fn push_band_colors(out: &mut Vec<u8>, data: &Vec<u8>, w: u32, h: u32, b: u32, k: u8)
    requires
        data@.len() == 3 * w * h,
        6 * b < h,
        k <= 64,
    ensures
        final(out)@ == old(out)@ + sixel_band_colors(data@, w as int, h as int, b as int,
            k as int),
    decreases 64 - k,
{
    if k >= 64 {
        out.push(45);
        proof {
            assert(out@ =~= old(out)@ + sixel_band_colors(data@, w as int, h as int, b as int,
                k as int));
        }
    } else {
        out.push(35);
        push_dec(out, k as u64);
        push_color_line(out, data, w, h, b, k);
        out.push(36);
        push_band_colors(out, data, w, h, b, k + 1);
        proof {
            assert(out@ =~= old(out)@ + sixel_band_colors(data@, w as int, h as int, b as int,
                k as int));
        }
    }
}

/// Append all bands.
fn push_bands(out: &mut Vec<u8>, data: &Vec<u8>, w: u32, h: u32, nb: u32)
    requires
        data@.len() == 3 * w * h,
        nb == ceil_div(h as int, 6),
        h >= 1,
    ensures
        final(out)@ == old(out)@ + sixel_bands(data@, w as int, h as int, 0, nb as int),
{
    let mut b: u32 = 0;
    while b < nb
        invariant
            data@.len() == 3 * w * h,
            nb == ceil_div(h as int, 6),
            h >= 1,
            b <= nb,
            old(out)@ + sixel_bands(data@, w as int, h as int, 0, nb as int) == out@
                + sixel_bands(data@, w as int, h as int, b as int, nb as int),
        decreases nb - b,
    {
        proof {
            assert(6 * b < h) by (nonlinear_arith)
                requires b < nb && nb == (h + 5) / 6 && h >= 1 && b >= 0;
        }
        let ghost pre = out@;
        push_band_colors(out, data, w, h, b, 0);
        proof {
            assert(sixel_bands(data@, w as int, h as int, b as int, nb as int)
                == sixel_band_colors(data@, w as int, h as int, b as int, 0) + sixel_bands(
                data@, w as int, h as int, b as int + 1, nb as int));
            assert(out@ + sixel_bands(data@, w as int, h as int, b as int + 1, nb as int)
                =~= pre + sixel_bands(data@, w as int, h as int, b as int, nb as int));
        }
        b = b + 1;
    }
    proof {
        assert(sixel_bands(data@, w as int, h as int, nb as int, nb as int)
            =~= Seq::<u8>::empty());
        assert(out@ =~= old(out)@ + sixel_bands(data@, w as int, h as int, 0, nb as int));
    }
}

/// Append the palette definitions for colors `k ..= 63`.
fn push_palette(out: &mut Vec<u8>, k: u8)
    requires
        k <= 64,
    ensures
        final(out)@ == old(out)@ + sixel_palette(k as int),
    decreases 64 - k,
{
    if k >= 64 {
        proof {
            assert(out@ =~= old(out)@ + sixel_palette(k as int));
        }
    } else {
        out.push(35);
        push_dec(out, k as u64);
        out.push(59);
        out.push(50);
        out.push(59);
        push_dec(out, ((k as u64 / 16) * 100) / 3);
        out.push(59);
        push_dec(out, (((k as u64 / 4) % 4) * 100) / 3);
        out.push(59);
        push_dec(out, ((k as u64 % 4) * 100) / 3);
        push_palette(out, k + 1);
        proof {
            assert(out@ =~= old(out)@ + sixel_palette(k as int));
        }
    }
}

/// Encode a `w × h` RGB pixel grid as a sixel frame.
pub fn encode_sixel(data: &Vec<u8>, w: u32, h: u32) -> (out: Vec<u8>)
    requires
        data@.len() == 3 * w * h,
        w >= 1,
        h >= 1,
    ensures
        out@ == sixel_encode(data@, w as int, h as int),
{
    let mut out: Vec<u8> = Vec::new();
    out.push(27);
    out.push(55);
    out.push(27);
    out.push(80);
    out.push(48);
    out.push(59);
    out.push(48);
    out.push(59);
    out.push(56);
    out.push(113);
    out.push(34);
    out.push(49);
    out.push(59);
    out.push(49);
    out.push(59);
    push_dec(&mut out, w as u64);
    out.push(59);
    push_dec(&mut out, h as u64);
    push_palette(&mut out, 0);
    let nb = ceil_div_u32(h, 6);
    push_bands(&mut out, data, w, h, nb);
    out.push(27);
    out.push(92);
    out.push(27);
    out.push(56);
    proof {
        assert(out@ =~= sixel_encode(data@, w as int, h as int));
    }
    out
}

/// The wire payload of one encode: the sixel frame over the resampled
/// target pixels.
pub open spec fn sixel_payload(src: ImageSource, policy: Resize, area: Rect) -> Seq<u8> {
    let b = pixel_bounds(src, area);
    let tp = target_pixel_dims(policy, src.image.width as int, src.image.height as int, b.0, b.1);
    sixel_encode(target_data(src, policy, area), tp.0, tp.1)
}

/// Build the sixel frame and placement rectangle for one encode.
fn encode_sixel_target(source: &ImageSource, resize: &Resize, area: Rect) -> (r: (Vec<u8>, Rect))
    requires
        source.wf(),
        area.width > 0,
        area.height > 0,
        target_fits(*source, *resize, area),
    ensures
        r.0@ == sixel_payload(*source, *resize, area),
        r.1.x == area.x,
        r.1.y == area.y,
        r.1.width == kitty_cell_span(*source, *resize, area).0,
        r.1.height == kitty_cell_span(*source, *resize, area).1,
{
    let (pix, tpw, tph) = resample_target(source, *resize, area);
    proof {
        let fw = source.font_size.0 as int;
        let fh = source.font_size.1 as int;
        assert(area.width * fw >= 1) by (nonlinear_arith)
            requires area.width >= 1 && fw >= 1;
        assert(area.height * fh >= 1) by (nonlinear_arith)
            requires area.height >= 1 && fh >= 1;
        lemma_target_within(
            *resize,
            source.image.width as int,
            source.image.height as int,
            pixel_bounds(*source, area).0,
            pixel_bounds(*source, area).1,
        );
        assert(area.width * fw <= 0xffff * fw) by (nonlinear_arith)
            requires area.width <= 0xffff && fw >= 0;
        assert(area.height * fh <= 0xffff * fh) by (nonlinear_arith)
            requires area.height <= 0xffff && fh >= 0;
        lemma_ceil_div_le(tpw as int, 0xffff, fw);
        lemma_ceil_div_le(tph as int, 0xffff, fh);
        lemma_ceil_div_pos(tpw as int, fw);
        lemma_ceil_div_pos(tph as int, fh);
    }
    let cols = cells_for_u16(tpw, source.font_size.0);
    let rows = cells_for_u16(tph, source.font_size.1);
    let payload = encode_sixel(&pix, tpw, tph);
    (payload, Rect { x: area.x, y: area.y, width: cols, height: rows })
}

/// A cached sixel encode.
#[derive(Debug)]
pub struct SixelEncoded {
    /// The (policy, area, fingerprint) triple of the encode.
    pub key: CacheKey,
    /// The sixel frame bytes.
    pub payload: Vec<u8>,
    /// Cell placement.
    pub rect: Rect,
}

/// Stateful sixel backend state; re-encoding here is the costliest of all
/// backends, so the cache matters most.
#[derive(Debug)]
pub struct StatefulSixel {
    /// The image being displayed.
    pub source: ImageSource,
    /// The last encode, if any.
    pub state: Option<SixelEncoded>,
}

impl StatefulSixel {
    /// Fresh state for `source`: nothing encoded yet.
    pub fn new(source: ImageSource) -> (r: StatefulSixel)
        ensures
            r.source == source,
            r.state is None,
    {
        StatefulSixel { source, state: None }
    }
}

impl StatefulProtocol for StatefulSixel {
    open spec fn source(&self) -> ImageSource {
        self.source
    }

    open spec fn cache(&self) -> Option<CacheKey> {
        match self.state {
            Some(e) => Some(e.key),
            None => None,
        }
    }

    open spec fn inv(&self) -> bool {
        self.source.wf()
    }

    open spec fn can_encode(&self, area: Rect) -> bool {
        target_fits(self.source, Resize::Exact, area) && target_fits(self.source, Resize::Fit,
            area) && target_fits(self.source, Resize::Crop, area)
    }

    open spec fn encoded(&self, prev: Self, resize: Resize, background_color: Option<Rgb8>, area: Rect) -> bool {
        match self.state {
            Some(e) => {
                let span = kitty_cell_span(self.source, resize, area);
                if area.width == 0 || area.height == 0 {
                    &&& e.payload@.len() == 0
                    &&& e.rect == (Rect { x: area.x, y: area.y, width: 0, height: 0 })
                } else {
                    &&& e.payload@ == sixel_payload(self.source, resize, area)
                    &&& e.rect.x == area.x
                    &&& e.rect.y == area.y
                    &&& e.rect.width == span.0
                    &&& e.rect.height == span.1
                }
            },
            None => false,
        }
    }

    open spec fn renders(&self, area: Rect, pre: CellBuffer, post: CellBuffer) -> bool {
        match self.state {
            Some(e) => payload_rendered(e.payload@, area, pre, post),
            None => post == pre,
        }
    }

    open spec fn same_backend(&self, other: &Self) -> bool {
        true
    }

    proof fn lemma_same_backend_refl(&self) {
    }

    fn needs_resize(&mut self, resize: &Resize, area: Rect) -> (r: Option<Rect>) {
        let key = CacheKey { policy: *resize, area, hash: self.source.hash };
        match &self.state {
            Some(e) => if e.key == key {
                None
            } else {
                Some(area)
            },
            None => Some(area),
        }
    }

    fn resize_encode(&mut self, resize: &Resize, background_color: Option<Rgb8>, area: Rect) {
        if area.width == 0 || area.height == 0 {
            let key = CacheKey { policy: *resize, area, hash: self.source.hash };
            let rect = Rect { x: area.x, y: area.y, width: 0, height: 0 };
            self.state = Some(SixelEncoded { key, payload: Vec::new(), rect });
            proof {
                assert(self.encoded(*old(self), *resize, background_color, area));
            }
            return ;
        }
        let (payload, rect) = encode_sixel_target(&self.source, resize, area);
        let key = CacheKey { policy: *resize, area, hash: self.source.hash };
        self.state = Some(SixelEncoded { key, payload, rect });
        proof {
            assert(self.encoded(*old(self), *resize, background_color, area));
        }
    }

    fn render(&mut self, area: Rect, buf: &mut CellBuffer) {
        match &self.state {
            Some(e) => {
                render_payload(&e.payload, area, buf);
            },
            None => {},
        }
    }
}

/// Fixed sixel protocol: encoded once at creation.
#[derive(Debug)]
pub struct Sixel {
    /// The sixel frame bytes.
    pub payload: Vec<u8>,
    /// Cell placement.
    pub rect: Rect,
}

impl Sixel {
    /// Encode `source` once for `area` under `policy`.
    pub fn new(source: &ImageSource, policy: Resize, area: Rect) -> (r: Sixel)
        requires
            source.wf(),
            area.width > 0,
            area.height > 0,
            target_fits(*source, policy, area),
        ensures
            r.payload@ == sixel_payload(*source, policy, area),
            r.rect.x == area.x,
            r.rect.y == area.y,
            r.rect.width == kitty_cell_span(*source, policy, area).0,
            r.rect.height == kitty_cell_span(*source, policy, area).1,
    {
        let (payload, rect) = encode_sixel_target(source, &policy, area);
        Sixel { payload, rect }
    }
}

impl Protocol for Sixel {
    open spec fn spec_rect(&self) -> Rect {
        self.rect
    }

    open spec fn inv(&self) -> bool {
        true
    }

    open spec fn renders(&self, area: Rect, pre: CellBuffer, post: CellBuffer) -> bool {
        payload_rendered(self.payload@, area, pre, post)
    }

    fn render(&self, area: Rect, buf: &mut CellBuffer) {
        render_payload(&self.payload, area, buf);
    }

    fn rect(&self) -> (r: Rect) {
        self.rect
    }
}

} // verus!
