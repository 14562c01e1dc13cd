//! Chunked-transfer graphics backend: uploads the raw pixel payload as
//! base64 chunks under a session-unique object id, places the object by
//! cell span, and deletes it by id when the state is torn down.

use vstd::prelude::*;
use crate::buffer::{Cell, CellBuffer};
use crate::escape::{b64_encode, clone_bytes, dec_digits, push_b64, push_dec};
use crate::geometry::{cells_for, cells_for_u16, lemma_ceil_div_exact, lemma_ceil_div_le,
    lemma_ceil_div_pos, target_pixel_dims, Rect, Resize, Rgb8};
use crate::protocol::{CacheKey, Protocol, StatefulProtocol};
use crate::source::{pixel_bounds, resample_target, target_data, target_fits, ImageSource};

verus! {

/// Raw bytes per transmitted chunk; a multiple of three, so chunked base64
/// concatenates to the base64 of the whole payload.
pub const CHUNK: usize = 3072;

/// The string terminator `ESC \`.
pub open spec fn esc_st() -> Seq<u8> {
    seq![27u8, 92u8]
}

/// The graphics-command introducer `ESC _ G`.
pub open spec fn apc_g() -> Seq<u8> {
    seq![27u8, 95u8, 71u8]
}

/// One `key=<n>` parameter followed by a terminator byte.
pub open spec fn key_num(k: u8, n: int, term: u8) -> Seq<u8> {
    seq![k, 61u8] + dec_digits(n) + seq![term]
}

/// Control data of the first transmission chunk: transmit-direct action,
/// 24-bit RGB format, pixel size, object id, and the continuation flag.
pub open spec fn kitty_ctl_first(id: int, w: int, h: int, more: int) -> Seq<u8> {
    apc_g() + seq![97u8, 61u8, 84u8, 44u8] + seq![102u8, 61u8, 50u8, 52u8, 44u8]
        + key_num(115u8, w, 44u8) + key_num(118u8, h, 44u8) + key_num(105u8, id, 44u8)
        + key_num(109u8, more, 59u8)
}

/// Control data of a continuation chunk: only the continuation flag.
pub open spec fn kitty_ctl_more(more: int) -> Seq<u8> {
    apc_g() + key_num(109u8, more, 59u8)
}

/// The full chunked transmission of `data`: each frame carries at most
/// [`CHUNK`] raw bytes as base64, with `m=1` on every frame but the last.
pub open spec fn kitty_chunks(data: Seq<u8>, id: int, w: int, h: int, first: bool) -> Seq<u8>
    decreases data.len(),
{
    let more: int = if data.len() > 3072 { 1 } else { 0 };
    let head = if first {
        kitty_ctl_first(id, w, h, more)
    } else {
        kitty_ctl_more(more)
    };
    if data.len() <= 3072 {
        head + b64_encode(data) + esc_st()
    } else {
        head + b64_encode(data.take(3072)) + esc_st()
            + kitty_chunks(data.skip(3072), id, w, h, false)
    }
}

/// The placement command: display object `id` over `cols × rows` cells.
pub open spec fn kitty_place(id: int, cols: int, rows: int) -> Seq<u8> {
    apc_g() + seq![97u8, 61u8, 112u8, 44u8] + key_num(105u8, id, 44u8)
        + key_num(99u8, cols, 44u8) + key_num(114u8, rows, 59u8) + esc_st()
}

/// The deletion command for object `id`.
pub open spec fn kitty_delete(id: int) -> Seq<u8> {
    apc_g() + seq![97u8, 61u8, 100u8, 44u8] + seq![100u8, 61u8, 105u8, 44u8]
        + key_num(105u8, id, 59u8) + esc_st()
}

/// Append `ESC \`.
fn push_st(out: &mut Vec<u8>)
    ensures
        final(out)@ == old(out)@ + esc_st(),
{
    out.push(27);
    out.push(92);
    proof {
        assert(out@ =~= old(out)@ + esc_st());
    }
}

/// Append `ESC _ G`.
fn push_apc_g(out: &mut Vec<u8>)
    ensures
        final(out)@ == old(out)@ + apc_g(),
{
    out.push(27);
    out.push(95);
    out.push(71);
    proof {
        assert(out@ =~= old(out)@ + apc_g());
    }
}

/// Append `key=<n>` and a terminator.
fn push_key(out: &mut Vec<u8>, k: u8, n: u32, term: u8)
    ensures
        final(out)@ == old(out)@ + key_num(k, n as int, term),
{
    out.push(k);
    out.push(61);
    push_dec(out, n as u64);
    out.push(term);
    proof {
        assert(out@ =~= old(out)@ + key_num(k, n as int, term));
    }
}

/// Append the chunked transmission of `data[from..]`.
#[verifier::rlimit(60)]
fn push_kitty_chunks(out: &mut Vec<u8>, data: &Vec<u8>, from: usize, id: u32, w: u32, h: u32,
    first: bool)
    requires
        from <= data@.len(),
    ensures
        final(out)@ == old(out)@ + kitty_chunks(
            data@.skip(from as int), id as int, w as int, h as int, first),
    decreases data@.len() - from,
{
    let ghost s = data@.skip(from as int);
    let n = data.len() - from;
    let more: u32 = if n > CHUNK {
        1
    } else {
        0
    };
    if first {
        push_apc_g(out);
        out.push(97);
        out.push(61);
        out.push(84);
        out.push(44);
        out.push(102);
        out.push(61);
        out.push(50);
        out.push(52);
        out.push(44);
        push_key(out, 115, w, 44);
        push_key(out, 118, h, 44);
        push_key(out, 105, id, 44);
        push_key(out, 109, more, 59);
        proof {
            assert(out@ =~= old(out)@ + kitty_ctl_first(id as int, w as int, h as int,
                more as int));
        }
    } else {
        push_apc_g(out);
        push_key(out, 109, more, 59);
        proof {
            assert(out@ =~= old(out)@ + kitty_ctl_more(more as int));
        }
    }
    let ghost head_done = out@;
    if n <= CHUNK {
        push_b64(out, data, from, data.len());
        push_st(out);
        proof {
            assert(data@.subrange(from as int, data@.len() as int) =~= s);
            assert(out@ =~= old(out)@ + kitty_chunks(s, id as int, w as int, h as int, first));
        }
    } else {
        push_b64(out, data, from, from + CHUNK);
        push_st(out);
        push_kitty_chunks(out, data, from + CHUNK, id, w, h, false);
        proof {
            assert(data@.subrange(from as int, from as int + 3072) =~= s.take(3072));
            assert(data@.skip(from as int + 3072) =~= s.skip(3072));
            assert(out@ =~= old(out)@ + kitty_chunks(s, id as int, w as int, h as int, first));
        }
    }
}

/// Append the placement command.
fn push_kitty_place(out: &mut Vec<u8>, id: u32, cols: u16, rows: u16)
    ensures
        final(out)@ == old(out)@ + kitty_place(id as int, cols as int, rows as int),
{
    push_apc_g(out);
    out.push(97);
    out.push(61);
    out.push(112);
    out.push(44);
    push_key(out, 105, id, 44);
    push_key(out, 99, cols as u32, 44);
    push_key(out, 114, rows as u32, 59);
    push_st(out);
    proof {
        assert(out@ =~= old(out)@ + kitty_place(id as int, cols as int, rows as int));
    }
}

/// Append the deletion command.
fn push_kitty_delete(out: &mut Vec<u8>, id: u32)
    ensures
        final(out)@ == old(out)@ + kitty_delete(id as int),
{
    push_apc_g(out);
    out.push(97);
    out.push(61);
    out.push(100);
    out.push(44);
    out.push(100);
    out.push(61);
    out.push(105);
    out.push(44);
    push_key(out, 105, id, 59);
    push_st(out);
    proof {
        assert(out@ =~= old(out)@ + kitty_delete(id as int));
    }
}

/// Cell span of the placed object.
pub open spec fn kitty_cell_span(src: ImageSource, policy: Resize, area: Rect) -> (int, int) {
    let b = pixel_bounds(src, area);
    let tp = target_pixel_dims(policy, src.image.width as int, src.image.height as int, b.0, b.1);
    (cells_for(tp.0, src.font_size.0 as int), cells_for(tp.1, src.font_size.1 as int))
}

/// The full wire payload of one encode: chunked transmission followed by a
/// placement.
pub open spec fn kitty_payload(src: ImageSource, policy: Resize, area: Rect, id: int) -> Seq<u8> {
    let b = pixel_bounds(src, area);
    let tp = target_pixel_dims(policy, src.image.width as int, src.image.height as int, b.0, b.1);
    let span = kitty_cell_span(src, policy, area);
    kitty_chunks(target_data(src, policy, area), id, tp.0, tp.1, true)
        + kitty_place(id, span.0, span.1)
}

/// A payload cell as rendering writes it: the escape bytes in the symbol,
/// no colors.
pub open spec fn is_payload_cell(c: Cell, payload: Seq<u8>) -> bool {
    &&& c.sym@ == payload
    &&& c.fg is None
    &&& c.bg is None
}

/// `post` is `pre` with `payload` written into the cell at `area`'s corner
/// (when the buffer holds it); everything else untouched.
pub open spec fn payload_rendered(payload: Seq<u8>, area: Rect, pre: CellBuffer, post: CellBuffer) -> bool {
    &&& pre.area.contains(area.x as int, area.y as int) && area.width > 0 && area.height > 0
        ==> is_payload_cell(post.cell_at(area.x as int, area.y as int), payload)
    &&& forall|cx: int, cy: int|
        pre.area.contains(cx, cy) && !(cx == area.x && cy == area.y && area.width > 0
            && area.height > 0)
            ==> post.cell_at(cx, cy) == pre.cell_at(cx, cy)
}

/// Write `payload` into the corner cell of `area`, clipped to the buffer.
pub(crate) fn render_payload(payload: &Vec<u8>, area: Rect, buf: &mut CellBuffer)
    requires
        old(buf).wf(),
    ensures
        final(buf).wf(),
        final(buf).area == old(buf).area,
        payload_rendered(payload@, area, *old(buf), *final(buf)),
{
    if area.width == 0 || area.height == 0 {
        return ;
    }
    let inside: bool = area.x >= buf.area.x
        && (area.x as u32) < buf.area.x as u32 + buf.area.width as u32
        && area.y >= buf.area.y
        && (area.y as u32) < buf.area.y as u32 + buf.area.height as u32;
    if inside {
        let cell = Cell { sym: clone_bytes(payload), fg: None, bg: None };
        buf.put(area.x, area.y, cell);
    }
}

/// The chunked transmission for a target extent of `w × h` cells: the
/// upload depends on the policy, the extent and the pixels — never on the
/// area's origin, so a moved area can reuse it.
pub open spec fn kitty_transmission(src: ImageSource, policy: Resize, w: u16, h: u16, id: int) -> Seq<u8> {
    let area = Rect { x: 0, y: 0, width: w, height: h };
    let b = pixel_bounds(src, area);
    let tp = target_pixel_dims(policy, src.image.width as int, src.image.height as int, b.0, b.1);
    kitty_chunks(target_data(src, policy, area), id, tp.0, tp.1, true)
}

/// Everything an encode derives from the area goes through its extent:
/// rectangles that differ only in origin share target data, span and
/// memory bound.
pub proof fn lemma_encode_origin_free(src: ImageSource, policy: Resize, a: Rect, b: Rect)
    requires
        a.width == b.width,
        a.height == b.height,
    ensures
        target_data(src, policy, a) == target_data(src, policy, b),
        kitty_cell_span(src, policy, a) == kitty_cell_span(src, policy, b),
        target_fits(src, policy, a) == target_fits(src, policy, b),
        pixel_bounds(src, a) == pixel_bounds(src, b),
{
}

/// Cell span of the target under `resize`, computed without resampling.
fn span_cells(source: &ImageSource, resize: &Resize, area: Rect) -> (r: (u16, u16))
    requires
        source.wf(),
        area.width > 0,
        area.height > 0,
    ensures
        (r.0 as int, r.1 as int) == kitty_cell_span(*source, *resize, area),
        r.0 >= 1,
        r.1 >= 1,
{
    let fw = source.font_size.0;
    let fh = source.font_size.1;
    let iw = source.image.width;
    let ih = source.image.height;
    proof {
        crate::geometry::lemma_mul_u32_fits(area.width as int, fw as int);
        crate::geometry::lemma_mul_u32_fits(area.height as int, fh as int);
        assert(area.width as int * fw as int <= 0xffff * 0xffff) by (nonlinear_arith)
            requires area.width <= 0xffff && fw <= 0xffff;
        assert(area.height as int * fh as int <= 0xffff * 0xffff) by (nonlinear_arith)
            requires area.height <= 0xffff && fh <= 0xffff;
        assert(area.width as int * fw as int >= 1) by (nonlinear_arith)
            requires area.width >= 1 && fw >= 1;
        assert(area.height as int * fh as int >= 1) by (nonlinear_arith)
            requires area.height >= 1 && fh >= 1;
    }
    let bw: u32 = area.width as u32 * fw as u32;
    let bh: u32 = area.height as u32 * fh as u32;
    let (tpw, tph): (u32, u32) = match *resize {
        Resize::Exact => (bw, bh),
        Resize::Fit => crate::geometry::fit_dims_u32(iw, ih, bw, bh),
        Resize::Crop => (bw, bh),
    };
    proof {
        crate::geometry::lemma_target_within(
            *resize,
            iw as int,
            ih as int,
            bw as int,
            bh as int,
        );
        assert(area.width * (fw as int) <= 0xffff * (fw as int)) by (nonlinear_arith)
            requires area.width <= 0xffff && fw >= 0;
        assert(area.height * (fh as int) <= 0xffff * (fh as int)) by (nonlinear_arith)
            requires area.height <= 0xffff && fh >= 0;
        lemma_ceil_div_le(tpw as int, 0xffff, fw as int);
        lemma_ceil_div_le(tph as int, 0xffff, fh as int);
        lemma_ceil_div_pos(tpw as int, fw as int);
        lemma_ceil_div_pos(tph as int, fh as int);
    }
    (cells_for_u16(tpw, fw), cells_for_u16(tph, fh))
}

/// Build the full wire payload and placement rectangle of one encode.
fn encode_kitty(source: &ImageSource, resize: &Resize, area: Rect, id: u32) -> (r: (Vec<u8>, Rect))
    requires
        source.wf(),
        area.width > 0,
        area.height > 0,
        target_fits(*source, *resize, area),
    ensures
        r.0@ == kitty_payload(*source, *resize, area, id as int),
        r.1.x == area.x,
        r.1.y == area.y,
        r.1.width == kitty_cell_span(*source, *resize, area).0,
        r.1.height == kitty_cell_span(*source, *resize, area).1,
{
    let (pix, tpw, tph) = resample_target(source, *resize, area);
    let (cols, rows) = span_cells(source, resize, area);
    let mut payload: Vec<u8> = Vec::new();
    push_kitty_chunks(&mut payload, &pix, 0, id, tpw, tph, true);
    push_kitty_place(&mut payload, id, cols, rows);
    let rect = Rect { x: area.x, y: area.y, width: cols, height: rows };
    proof {
        assert(pix@.skip(0) =~= pix@);
        assert(payload@ =~= Seq::<u8>::empty() + kitty_chunks(pix@, id as int, tpw as int,
            tph as int, true) + kitty_place(id as int, cols as int, rows as int));
    }
    (payload, rect)
}

/// What a transmitted upload is valid for: the upload changes with the
/// policy, the area's cell extent and the source fingerprint, but not with
/// the area's origin — a pure move reuses it.
#[derive(Clone, Copy, PartialEq, Eq, Structural, Debug)]
pub struct TransmitKey {
    /// Resize policy of the upload.
    pub policy: Resize,
    /// Cell width of the target area.
    pub width: u16,
    /// Cell height of the target area.
    pub height: u16,
    /// Source fingerprint at the upload.
    pub hash: u64,
}

/// An upload already sent to the terminal: its key and the chunked
/// transmission bytes.
#[derive(Debug)]
pub struct KittyTransmit {
    /// The (policy, extent, fingerprint) triple of the upload.
    pub key: TransmitKey,
    /// The transmission frames.
    pub chunks: Vec<u8>,
}

/// Whether a state already holds the upload for `key`.
pub open spec fn has_upload(st: StatefulKitty, key: TransmitKey) -> bool {
    match st.transmit {
        Some(t) => t.key == key,
        None => false,
    }
}

/// A cached kitty encode.
#[derive(Debug)]
pub struct KittyEncoded {
    /// The (policy, area, fingerprint) triple of the encode.
    pub key: CacheKey,
    /// The escape bytes this encode must send: a fresh upload followed by a
    /// placement, or — when the upload was already transmitted — the
    /// placement alone.
    pub payload: Vec<u8>,
    /// Cell placement of the object.
    pub rect: Rect,
}

/// Stateful chunked-transfer backend state. Owns a terminal-side object id
/// that must be deleted exactly once at teardown; the upload is kept apart
/// from the placement so that a moved area retransmits nothing.
#[derive(Debug)]
pub struct StatefulKitty {
    /// The image being displayed.
    pub source: ImageSource,
    /// Session-unique object id.
    pub id: u32,
    /// The last transmitted upload, if any.
    pub transmit: Option<KittyTransmit>,
    /// The last encode, if any.
    pub state: Option<KittyEncoded>,
    /// Whether the deletion command was already emitted.
    pub deleted: bool,
}

impl StatefulKitty {
    /// Fresh state for `source` under object id `id`.
    pub fn new(source: ImageSource, id: u32) -> (r: StatefulKitty)
        ensures
            r.source == source,
            r.id == id,
            r.transmit is None,
            r.state is None,
            r.deleted == false,
    {
        StatefulKitty { source, id, transmit: None, state: None, deleted: false }
    }

    /// Emit the deletion command for this state's object id: exactly once;
    /// a second call yields nothing. Callers send the returned bytes to the
    /// terminal when tearing the state down — that this happens at
    /// destruction is the owner's obligation (a drop guard in the
    /// surrounding shell), outside what is verified here.
    pub fn delete_seq(&mut self) -> (r: Vec<u8>)
        ensures
            final(self).source == old(self).source,
            final(self).id == old(self).id,
            final(self).transmit == old(self).transmit,
            final(self).state == old(self).state,
            final(self).deleted,
            !old(self).deleted ==> r@ == kitty_delete(old(self).id as int),
            old(self).deleted ==> r@.len() == 0,
    {
        let mut out: Vec<u8> = Vec::new();
        if !self.deleted {
            push_kitty_delete(&mut out, self.id);
            self.deleted = true;
            proof {
                assert(out@ =~= Seq::<u8>::empty() + kitty_delete(self.id as int));
                assert(Seq::<u8>::empty() + kitty_delete(self.id as int)
                    =~= kitty_delete(self.id as int));
            }
        }
        out
    }
}

impl StatefulProtocol for StatefulKitty {
    open spec fn source(&self) -> ImageSource {
        self.source
    }

    open spec fn cache(&self) -> Option<CacheKey> {
        match self.state {
            Some(e) => Some(e.key),
            None => None,
        }
    }

    open spec fn inv(&self) -> bool {
        &&& self.source.wf()
        &&& match self.transmit {
            Some(t) => {
                &&& t.key.hash == self.source.hash
                &&& t.chunks@ == kitty_transmission(
                    self.source,
                    t.key.policy,
                    t.key.width,
                    t.key.height,
                    self.id as int,
                )
            },
            None => true,
        }
    }

    open spec fn can_encode(&self, area: Rect) -> bool {
        target_fits(self.source, Resize::Exact, area) && target_fits(self.source, Resize::Fit,
            area) && target_fits(self.source, Resize::Crop, area)
    }

    open spec fn encoded(&self, prev: Self, resize: Resize, background_color: Option<Rgb8>, area: Rect) -> bool {
        match self.state {
            Some(e) => {
                let span = kitty_cell_span(self.source, resize, area);
                let tkey = TransmitKey {
                    policy: resize,
                    width: area.width,
                    height: area.height,
                    hash: self.source.hash,
                };
                let chunks = kitty_transmission(self.source, resize, area.width, area.height,
                    self.id as int);
                let place = kitty_place(self.id as int, span.0, span.1);
                &&& self.id == prev.id
                &&& self.deleted == prev.deleted
                &&& if area.width == 0 || area.height == 0 {
                    &&& self.transmit == prev.transmit
                    &&& e.payload@.len() == 0
                    &&& e.rect == (Rect { x: area.x, y: area.y, width: 0, height: 0 })
                } else {
                    &&& has_upload(*self, tkey)
                    &&& e.payload@ == if has_upload(prev, tkey) {
                        place
                    } else {
                        chunks + place
                    }
                    &&& e.rect.x == area.x
                    &&& e.rect.y == area.y
                    &&& e.rect.width == span.0
                    &&& e.rect.height == span.1
                }
            },
            None => false,
        }
    }

    open spec fn renders(&self, area: Rect, pre: CellBuffer, post: CellBuffer) -> bool {
        match self.state {
            Some(e) => payload_rendered(e.payload@, area, pre, post),
            None => post == pre,
        }
    }

    open spec fn same_backend(&self, other: &Self) -> bool {
        true
    }

    proof fn lemma_same_backend_refl(&self) {
    }

    fn needs_resize(&mut self, resize: &Resize, area: Rect) -> (r: Option<Rect>) {
        let key = CacheKey { policy: *resize, area, hash: self.source.hash };
        match &self.state {
            Some(e) => if e.key == key {
                None
            } else {
                Some(area)
            },
            None => Some(area),
        }
    }

    fn resize_encode(&mut self, resize: &Resize, background_color: Option<Rgb8>, area: Rect) {
        if area.width == 0 || area.height == 0 {
            let key = CacheKey { policy: *resize, area, hash: self.source.hash };
            let rect = Rect { x: area.x, y: area.y, width: 0, height: 0 };
            self.state = Some(KittyEncoded { key, payload: Vec::new(), rect });
            proof {
                assert(self.encoded(*old(self), *resize, background_color, area));
            }
            return ;
        }
        let tkey = TransmitKey {
            policy: *resize,
            width: area.width,
            height: area.height,
            hash: self.source.hash,
        };
        let reuse: bool = match &self.transmit {
            Some(t) => t.key == tkey,
            None => false,
        };
        let (cols, rows) = span_cells(&self.source, resize, area);
        let key = CacheKey { policy: *resize, area, hash: self.source.hash };
        let rect = Rect { x: area.x, y: area.y, width: cols, height: rows };
        proof {
            lemma_encode_origin_free(self.source, *resize, area, Rect {
                x: 0,
                y: 0,
                width: area.width,
                height: area.height,
            });
        }
        if reuse {
            let mut payload: Vec<u8> = Vec::new();
            push_kitty_place(&mut payload, self.id, cols, rows);
            proof {
                assert(payload@ =~= kitty_place(self.id as int, cols as int, rows as int));
            }
            self.state = Some(KittyEncoded { key, payload, rect });
            proof {
                assert(self.encoded(*old(self), *resize, background_color, area));
            }
        } else {
            let (pix, tpw, tph) = resample_target(&self.source, *resize, area);
            let mut chunks: Vec<u8> = Vec::new();
            push_kitty_chunks(&mut chunks, &pix, 0, self.id, tpw, tph, true);
            let mut payload: Vec<u8> = clone_bytes(&chunks);
            push_kitty_place(&mut payload, self.id, cols, rows);
            proof {
                assert(pix@.skip(0) =~= pix@);
                assert(chunks@ == kitty_transmission(self.source, *resize, area.width,
                    area.height, self.id as int));
            }
            self.transmit = Some(KittyTransmit { key: tkey, chunks });
            self.state = Some(KittyEncoded { key, payload, rect });
            proof {
                assert(self.encoded(*old(self), *resize, background_color, area));
            }
        }
    }

    fn render(&mut self, area: Rect, buf: &mut CellBuffer) {
        match &self.state {
            Some(e) => {
                render_payload(&e.payload, area, buf);
            },
            None => {},
        }
    }
}

/// Fixed chunked-transfer protocol: encoded once at creation.
#[derive(Debug)]
pub struct Kitty {
    /// Transmission plus placement escape bytes.
    pub payload: Vec<u8>,
    /// Cell placement of the object.
    pub rect: Rect,
    /// The terminal-side object id.
    pub id: u32,
}

impl Kitty {
    /// Encode `source` once for `area` under `policy`, as object `id`.
    pub fn new(source: &ImageSource, policy: Resize, area: Rect, id: u32) -> (r: Kitty)
        requires
            source.wf(),
            area.width > 0,
            area.height > 0,
            target_fits(*source, policy, area),
        ensures
            r.payload@ == kitty_payload(*source, policy, area, id as int),
            r.id == id,
            r.rect.x == area.x,
            r.rect.y == area.y,
            r.rect.width == kitty_cell_span(*source, policy, area).0,
            r.rect.height == kitty_cell_span(*source, policy, area).1,
    {
        let (payload, rect) = encode_kitty(source, &policy, area, id);
        Kitty { payload, rect, id }
    }

    /// Emit the deletion command for this object id.
    pub fn delete_seq(&self) -> (r: Vec<u8>)
        ensures
            r@ == kitty_delete(self.id as int),
    {
        let mut out: Vec<u8> = Vec::new();
        push_kitty_delete(&mut out, self.id);
        proof {
            assert(Seq::<u8>::empty() + kitty_delete(self.id as int)
                =~= kitty_delete(self.id as int));
        }
        out
    }
}

impl Protocol for Kitty {
    open spec fn spec_rect(&self) -> Rect {
        self.rect
    }

    open spec fn inv(&self) -> bool {
        true
    }

    open spec fn renders(&self, area: Rect, pre: CellBuffer, post: CellBuffer) -> bool {
        payload_rendered(self.payload@, area, pre, post)
    }

    fn render(&self, area: Rect, buf: &mut CellBuffer) {
        render_payload(&self.payload, area, buf);
    }

    fn rect(&self) -> (r: Rect) {
        self.rect
    }
}

} // verus!
