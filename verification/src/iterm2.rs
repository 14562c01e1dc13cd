//! Inline-image backend: the resampled raster is PNG-encoded in memory,
//! base64-embedded in a single escape sequence carrying its byte length and
//! intended cell span, and the terminal does the final scaling.

use vstd::prelude::*;
use crate::buffer::CellBuffer;
use crate::escape::{b64_encode, dec_digits, push_b64, push_dec};
use crate::geometry::{cells_for_u16, lemma_ceil_div_le, lemma_ceil_div_pos,
    lemma_target_within, target_pixel_dims, Rect, Resize, Rgb8};
use crate::img::{encode_png_rgb, png_of};
use crate::kitty::{kitty_cell_span, payload_rendered, render_payload};
use crate::protocol::{CacheKey, Protocol, StatefulProtocol};
use crate::source::{pixel_bounds, resample_target, target_data, target_fits, ImageSource};

verus! {

/// The single inline-image escape sequence: `ESC ]` introducer, the
/// `1337;File=` parameters (inline flag, byte size, cell span), a colon,
/// the base64 payload, and a BEL terminator.
pub open spec fn iterm2_seq(png: Seq<u8>, cols: int, rows: int) -> Seq<u8> {
    seq![27u8, 93u8]  // ESC ]
        + seq![49u8, 51u8, 51u8, 55u8, 59u8]  // 1337;
        + seq![70u8, 105u8, 108u8, 101u8, 61u8]  // File=
        + seq![105u8, 110u8, 108u8, 105u8, 110u8, 101u8, 61u8, 49u8, 59u8]  // inline=1;
        + seq![115u8, 105u8, 122u8, 101u8, 61u8] + dec_digits(png.len() as int)  // size=<n>
        + seq![59u8, 119u8, 105u8, 100u8, 116u8, 104u8, 61u8] + dec_digits(cols)  // ;width=<c>
        + seq![59u8, 104u8, 101u8, 105u8, 103u8, 104u8, 116u8, 61u8] + dec_digits(rows)  // ;height=<r>
        + seq![58u8]  // :
        + b64_encode(png) + seq![7u8]  // payload BEL
}

/// The wire payload of one encode: the inline sequence over the PNG of the
/// resampled target pixels.
pub open spec fn iterm2_payload(src: ImageSource, policy: Resize, area: Rect) -> Seq<u8> {
    let b = pixel_bounds(src, area);
    let tp = target_pixel_dims(policy, src.image.width as int, src.image.height as int, b.0, b.1);
    let span = kitty_cell_span(src, policy, area);
    iterm2_seq(png_of(target_data(src, policy, area), tp.0, tp.1), span.0, span.1)
}

/// Build the inline-image escape bytes and placement rectangle.
#[verifier::rlimit(100)]
fn encode_iterm2(source: &ImageSource, resize: &Resize, area: Rect) -> (r: (Vec<u8>, Rect))
    requires
        source.wf(),
        area.width > 0,
        area.height > 0,
        target_fits(*source, *resize, area),
    ensures
        r.0@ == iterm2_payload(*source, *resize, area),
        r.1.x == area.x,
        r.1.y == area.y,
        r.1.width == kitty_cell_span(*source, *resize, area).0,
        r.1.height == kitty_cell_span(*source, *resize, area).1,
{
    let (pix, tpw, tph) = resample_target(source, *resize, area);
    proof {
        let fw = source.font_size.0 as int;
        let fh = source.font_size.1 as int;
        assert(area.width * fw >= 1) by (nonlinear_arith)
            requires area.width >= 1 && fw >= 1;
        assert(area.height * fh >= 1) by (nonlinear_arith)
            requires area.height >= 1 && fh >= 1;
        lemma_target_within(
            *resize,
            source.image.width as int,
            source.image.height as int,
            pixel_bounds(*source, area).0,
            pixel_bounds(*source, area).1,
        );
        assert(area.width * fw <= 0xffff * fw) by (nonlinear_arith)
            requires area.width <= 0xffff && fw >= 0;
        assert(area.height * fh <= 0xffff * fh) by (nonlinear_arith)
            requires area.height <= 0xffff && fh >= 0;
        lemma_ceil_div_le(tpw as int, 0xffff, fw);
        lemma_ceil_div_le(tph as int, 0xffff, fh);
        lemma_ceil_div_pos(tpw as int, fw);
        lemma_ceil_div_pos(tph as int, fh);
    }
    let cols = cells_for_u16(tpw, source.font_size.0);
    let rows = cells_for_u16(tph, source.font_size.1);
    let png = encode_png_rgb(&pix, tpw, tph);
    let mut out: Vec<u8> = Vec::new();
    out.push(27);
    out.push(93);
    out.push(49);
    out.push(51);
    out.push(51);
    out.push(55);
    out.push(59);
    out.push(70);
    out.push(105);
    out.push(108);
    out.push(101);
    out.push(61);
    out.push(105);
    out.push(110);
    out.push(108);
    out.push(105);
    out.push(110);
    out.push(101);
    out.push(61);
    out.push(49);
    out.push(59);
    out.push(115);
    out.push(105);
    out.push(122);
    out.push(101);
    out.push(61);
    push_dec(&mut out, png.len() as u64);
    out.push(59);
    out.push(119);
    out.push(105);
    out.push(100);
    out.push(116);
    out.push(104);
    out.push(61);
    push_dec(&mut out, cols as u64);
    out.push(59);
    out.push(104);
    out.push(101);
    out.push(105);
    out.push(103);
    out.push(104);
    out.push(116);
    out.push(61);
    push_dec(&mut out, rows as u64);
    out.push(58);
    push_b64(&mut out, &png, 0, png.len());
    out.push(7);
    proof {
        assert(png@.subrange(0, png@.len() as int) =~= png@);
        assert(out@ =~= iterm2_seq(png@, cols as int, rows as int));
    }
    (out, Rect { x: area.x, y: area.y, width: cols, height: rows })
}

/// A cached inline-image encode.
#[derive(Debug)]
pub struct Iterm2Encoded {
    /// The (policy, area, fingerprint) triple of the encode.
    pub key: CacheKey,
    /// The inline escape bytes.
    pub payload: Vec<u8>,
    /// Cell placement.
    pub rect: Rect,
}

/// Stateful inline-image backend state.
#[derive(Debug)]
pub struct Iterm2State {
    /// The image being displayed.
    pub source: ImageSource,
    /// The last encode, if any.
    pub state: Option<Iterm2Encoded>,
}

impl Iterm2State {
    /// Fresh state for `source`: nothing encoded yet.
    pub fn new(source: ImageSource) -> (r: Iterm2State)
        ensures
            r.source == source,
            r.state is None,
    {
        Iterm2State { source, state: None }
    }
}

impl StatefulProtocol for Iterm2State {
    open spec fn source(&self) -> ImageSource {
        self.source
    }

    open spec fn cache(&self) -> Option<CacheKey> {
        match self.state {
            Some(e) => Some(e.key),
            None => None,
        }
    }

    open spec fn inv(&self) -> bool {
        self.source.wf()
    }

    open spec fn can_encode(&self, area: Rect) -> bool {
        target_fits(self.source, Resize::Exact, area) && target_fits(self.source, Resize::Fit,
            area) && target_fits(self.source, Resize::Crop, area)
    }

    open spec fn encoded(&self, prev: Self, resize: Resize, background_color: Option<Rgb8>, area: Rect) -> bool {
        match self.state {
            Some(e) => {
                let span = kitty_cell_span(self.source, resize, area);
                if area.width == 0 || area.height == 0 {
                    &&& e.payload@.len() == 0
                    &&& e.rect == (Rect { x: area.x, y: area.y, width: 0, height: 0 })
                } else {
                    &&& e.payload@ == iterm2_payload(self.source, resize, area)
                    &&& e.rect.x == area.x
                    &&& e.rect.y == area.y
                    &&& e.rect.width == span.0
                    &&& e.rect.height == span.1
                }
            },
            None => false,
        }
    }

    open spec fn renders(&self, area: Rect, pre: CellBuffer, post: CellBuffer) -> bool {
        match self.state {
            Some(e) => payload_rendered(e.payload@, area, pre, post),
            None => post == pre,
        }
    }

    open spec fn same_backend(&self, other: &Self) -> bool {
        true
    }

    proof fn lemma_same_backend_refl(&self) {
    }

    fn needs_resize(&mut self, resize: &Resize, area: Rect) -> (r: Option<Rect>) {
        let key = CacheKey { policy: *resize, area, hash: self.source.hash };
        match &self.state {
            Some(e) => if e.key == key {
                None
            } else {
                Some(area)
            },
            None => Some(area),
        }
    }

    fn resize_encode(&mut self, resize: &Resize, background_color: Option<Rgb8>, area: Rect) {
        if area.width == 0 || area.height == 0 {
            let key = CacheKey { policy: *resize, area, hash: self.source.hash };
            let rect = Rect { x: area.x, y: area.y, width: 0, height: 0 };
            self.state = Some(Iterm2Encoded { key, payload: Vec::new(), rect });
            proof {
                assert(self.encoded(*old(self), *resize, background_color, area));
            }
            return ;
        }
        let (payload, rect) = encode_iterm2(&self.source, resize, area);
        let key = CacheKey { policy: *resize, area, hash: self.source.hash };
        self.state = Some(Iterm2Encoded { key, payload, rect });
        proof {
            assert(self.encoded(*old(self), *resize, background_color, area));
        }
    }

    fn render(&mut self, area: Rect, buf: &mut CellBuffer) {
        match &self.state {
            Some(e) => {
                render_payload(&e.payload, area, buf);
            },
            None => {},
        }
    }
}

/// Fixed inline-image protocol: encoded once at creation.
#[derive(Debug)]
pub struct FixedIterm2 {
    /// The inline escape bytes.
    pub payload: Vec<u8>,
    /// Cell placement.
    pub rect: Rect,
}

impl FixedIterm2 {
    /// Encode `source` once for `area` under `policy`.
    pub fn new(source: &ImageSource, policy: Resize, area: Rect) -> (r: FixedIterm2)
        requires
            source.wf(),
            area.width > 0,
            area.height > 0,
            target_fits(*source, policy, area),
        ensures
            r.payload@ == iterm2_payload(*source, policy, area),
            r.rect.x == area.x,
            r.rect.y == area.y,
            r.rect.width == kitty_cell_span(*source, policy, area).0,
            r.rect.height == kitty_cell_span(*source, policy, area).1,
    {
        let (payload, rect) = encode_iterm2(source, &policy, area);
        FixedIterm2 { payload, rect }
    }
}

impl Protocol for FixedIterm2 {
    open spec fn spec_rect(&self) -> Rect {
        self.rect
    }

    open spec fn inv(&self) -> bool {
        true
    }

    open spec fn renders(&self, area: Rect, pre: CellBuffer, post: CellBuffer) -> bool {
        payload_rendered(self.payload@, area, pre, post)
    }

    fn render(&self, area: Rect, buf: &mut CellBuffer) {
        render_payload(&self.payload, area, buf);
    }

    fn rect(&self) -> (r: Rect) {
        self.rect
    }
}

} // verus!
