//! The shared protocol contract: fixed one-shot rendering, and the stateful
//! resize-avoidance cycle (`needs_resize` / `resize_encode` / `render`)
//! common to all backends.

use vstd::prelude::*;
use crate::buffer::CellBuffer;
use crate::geometry::{Rect, Resize, Rgb8};
use crate::halfblocks::{Halfblocks, StatefulHalfblocks};
use crate::iterm2::{FixedIterm2, Iterm2State};
use crate::kitty::{Kitty, StatefulKitty};
use crate::sixel::{Sixel, StatefulSixel};
use crate::source::ImageSource;

verus! {

/// The exact triple a cached payload is valid for: any mismatch invalidates
/// the cache and forces a re-encode.
#[derive(Clone, Copy, PartialEq, Eq, Structural, Debug)]
pub struct CacheKey {
    /// Resize policy of the last encode.
    pub policy: Resize,
    /// Target area of the last encode.
    pub area: Rect,
    /// Source fingerprint at the last encode.
    pub hash: u64,
}

/// A fixed image protocol: encoded once at creation for one area, rendered
/// as often as needed, never resized.
pub trait Protocol: Sized {
    /// The cell rectangle of the encoded image.
    spec fn spec_rect(&self) -> Rect;

    /// Validity of the encoded state.
    spec fn inv(&self) -> bool;

    /// What rendering at `area` does to a buffer: `post` is `pre` with the
    /// encoded payload written inside `area`, everything else untouched.
    spec fn renders(&self, area: Rect, pre: CellBuffer, post: CellBuffer) -> bool;

    /// Render the encoded data into `buf` at `area`.
    fn render(&self, area: Rect, buf: &mut CellBuffer)
        requires
            self.inv(),
            old(buf).wf(),
        ensures
            final(buf).wf(),
            final(buf).area == old(buf).area,
            self.renders(area, *old(buf), *final(buf)),
            forall|cx: int, cy: int|
                old(buf).area.contains(cx, cy) && !area.contains(cx, cy)
                    ==> final(buf).cell_at(cx, cy) == old(buf).cell_at(cx, cy),
    ;

    /// The cell rectangle of the image.
    fn rect(&self) -> (r: Rect)
        ensures
            r == self.spec_rect(),
    ;
}

/// A stateful, resize-aware image protocol.
///
/// The cached payload is valid only for the exact (policy, area, fingerprint)
/// triple it was produced from; `needs_resize` reports staleness cheaply,
/// `resize_encode` redoes the expensive work, and `render` only ever writes
/// the currently cached payload.
pub trait StatefulProtocol: Sized {
    /// The image source this state was built from.
    spec fn source(&self) -> ImageSource;

    /// The key of the last encode, if any encode happened yet.
    spec fn cache(&self) -> Option<CacheKey>;

    /// Validity of the state.
    spec fn inv(&self) -> bool;

    /// Machine-size bound under which this backend can encode for `area`.
    spec fn can_encode(&self, area: Rect) -> bool;

    /// What a completed encode stores, relative to the state it replaced:
    /// the backend-specific payload derived from the source under the given
    /// request, and what of `prev` (identity, uploads already transmitted)
    /// the encode carries over.
    spec fn encoded(&self, prev: Self, resize: Resize, background_color: Option<Rgb8>, area: Rect) -> bool;

    /// Whether two states belong to the same concrete backend.
    spec fn same_backend(&self, other: &Self) -> bool;

    /// A state is its own backend.
    proof fn lemma_same_backend_refl(&self)
        ensures
            self.same_backend(self),
    ;

    /// What rendering at `area` does to a buffer.
    spec fn renders(&self, area: Rect, pre: CellBuffer, post: CellBuffer) -> bool;

    /// Check whether the cached state is stale for the given policy and
    /// area: returns the target area to encode for iff the cache does not
    /// already hold the exact (policy, area, fingerprint) triple. Cheap, and
    /// free of side effects; called every frame.
    fn needs_resize(&mut self, resize: &Resize, area: Rect) -> (r: Option<Rect>)
        requires
            old(self).inv(),
        ensures
            *final(self) == *old(self),
            r == (if old(self).cache() == Some(CacheKey {
                policy: *resize,
                area,
                hash: old(self).source().hash,
            }) {
                Option::<Rect>::None
            } else {
                Option::<Rect>::Some(area)
            }),
    ;

    /// Resample the source to the target geometry under `resize` and convert
    /// it to this backend's wire representation, caching the result for the
    /// exact (policy, area, fingerprint) triple. The source itself is only
    /// read, never changed. A degenerate area is a no-op encode: it caches
    /// an empty payload whose render writes nothing.
    fn resize_encode(&mut self, resize: &Resize, background_color: Option<Rgb8>, area: Rect)
        requires
            old(self).inv(),
            old(self).can_encode(area),
        ensures
            final(self).inv(),
            final(self).source() == old(self).source(),
            final(self).same_backend(old(self)),
            final(self).cache() == Some(CacheKey {
                policy: *resize,
                area,
                hash: old(self).source().hash,
            }),
            final(self).encoded(*old(self), *resize, background_color, area),
    ;

    /// Write the currently cached payload into `buf` at `area`. Never
    /// resizes or recomputes; with no cache yet, the buffer is left exactly
    /// as it was.
    fn render(&mut self, area: Rect, buf: &mut CellBuffer)
        requires
            old(self).inv(),
            old(buf).wf(),
        ensures
            *final(self) == *old(self),
            final(buf).wf(),
            final(buf).area == old(buf).area,
            old(self).cache() is None ==> *final(buf) == *old(buf),
            old(self).renders(area, *old(buf), *final(buf)),
            forall|cx: int, cy: int|
                old(buf).area.contains(cx, cy) && !area.contains(cx, cy)
                    ==> final(buf).cell_at(cx, cy) == old(buf).cell_at(cx, cy),
    ;

    /// Re-encode if the cache is stale, then render; blocks until encoding
    /// completes. On a cache hit the state is left exactly as it was; on a
    /// miss the state holds a fresh encode for the request.
    fn resize_encode_render(
        &mut self,
        resize: &Resize,
        background_color: Option<Rgb8>,
        area: Rect,
        buf: &mut CellBuffer,
    )
        requires
            old(self).inv(),
            old(self).can_encode(area),
            old(buf).wf(),
        ensures
            final(self).inv(),
            final(self).source() == old(self).source(),
            final(self).same_backend(old(self)),
            final(self).cache() == Some(CacheKey {
                policy: *resize,
                area,
                hash: old(self).source().hash,
            }),
            old(self).cache() == Some(CacheKey {
                policy: *resize,
                area,
                hash: old(self).source().hash,
            }) ==> *final(self) == *old(self),
            old(self).cache() != Some(CacheKey {
                policy: *resize,
                area,
                hash: old(self).source().hash,
            }) ==> final(self).encoded(*old(self), *resize, background_color, area),
            final(buf).wf(),
            final(buf).area == old(buf).area,
            final(self).renders(area, *old(buf), *final(buf)),
    {
        if let Some(rect) = self.needs_resize(resize, area) {
            self.resize_encode(resize, background_color, rect);
        }
        self.render(area, buf);
        proof {
            self.lemma_same_backend_refl();
        }
    }
}

/// The closed set of stateful backends, dispatched by variant.
#[derive(Debug)]
pub enum StatefulBlock {
    /// Block-approximation backend.
    Halfblocks(StatefulHalfblocks),
    /// Run-length binary backend.
    Sixel(StatefulSixel),
    /// Chunked-transfer binary backend.
    Kitty(StatefulKitty),
    /// Inline-image backend.
    Iterm2(Iterm2State),
}

impl StatefulProtocol for StatefulBlock {
    open spec fn source(&self) -> ImageSource {
        match self {
            StatefulBlock::Halfblocks(p) => p.source(),
            StatefulBlock::Sixel(p) => p.source(),
            StatefulBlock::Kitty(p) => p.source(),
            StatefulBlock::Iterm2(p) => p.source(),
        }
    }

    open spec fn cache(&self) -> Option<CacheKey> {
        match self {
            StatefulBlock::Halfblocks(p) => p.cache(),
            StatefulBlock::Sixel(p) => p.cache(),
            StatefulBlock::Kitty(p) => p.cache(),
            StatefulBlock::Iterm2(p) => p.cache(),
        }
    }

    open spec fn inv(&self) -> bool {
        match self {
            StatefulBlock::Halfblocks(p) => p.inv(),
            StatefulBlock::Sixel(p) => p.inv(),
            StatefulBlock::Kitty(p) => p.inv(),
            StatefulBlock::Iterm2(p) => p.inv(),
        }
    }

    open spec fn can_encode(&self, area: Rect) -> bool {
        match self {
            StatefulBlock::Halfblocks(p) => p.can_encode(area),
            StatefulBlock::Sixel(p) => p.can_encode(area),
            StatefulBlock::Kitty(p) => p.can_encode(area),
            StatefulBlock::Iterm2(p) => p.can_encode(area),
        }
    }

    open spec fn encoded(&self, prev: Self, resize: Resize, background_color: Option<Rgb8>, area: Rect) -> bool {
        match (self, prev) {
            (StatefulBlock::Halfblocks(p), StatefulBlock::Halfblocks(q)) => p.encoded(q, resize,
                background_color, area),
            (StatefulBlock::Sixel(p), StatefulBlock::Sixel(q)) => p.encoded(q, resize,
                background_color, area),
            (StatefulBlock::Kitty(p), StatefulBlock::Kitty(q)) => p.encoded(q, resize,
                background_color, area),
            (StatefulBlock::Iterm2(p), StatefulBlock::Iterm2(q)) => p.encoded(q, resize,
                background_color, area),
            _ => false,
        }
    }

    open spec fn same_backend(&self, other: &Self) -> bool {
        match (self, other) {
            (StatefulBlock::Halfblocks(_), StatefulBlock::Halfblocks(_)) => true,
            (StatefulBlock::Sixel(_), StatefulBlock::Sixel(_)) => true,
            (StatefulBlock::Kitty(_), StatefulBlock::Kitty(_)) => true,
            (StatefulBlock::Iterm2(_), StatefulBlock::Iterm2(_)) => true,
            _ => false,
        }
    }

    proof fn lemma_same_backend_refl(&self) {
    }

    open spec fn renders(&self, area: Rect, pre: CellBuffer, post: CellBuffer) -> bool {
        match self {
            StatefulBlock::Halfblocks(p) => p.renders(area, pre, post),
            StatefulBlock::Sixel(p) => p.renders(area, pre, post),
            StatefulBlock::Kitty(p) => p.renders(area, pre, post),
            StatefulBlock::Iterm2(p) => p.renders(area, pre, post),
        }
    }

    fn needs_resize(&mut self, resize: &Resize, area: Rect) -> (r: Option<Rect>) {
        match self {
            StatefulBlock::Halfblocks(p) => p.needs_resize(resize, area),
            StatefulBlock::Sixel(p) => p.needs_resize(resize, area),
            StatefulBlock::Kitty(p) => p.needs_resize(resize, area),
            StatefulBlock::Iterm2(p) => p.needs_resize(resize, area),
        }
    }

    fn resize_encode(&mut self, resize: &Resize, background_color: Option<Rgb8>, area: Rect) {
        match self {
            StatefulBlock::Halfblocks(p) => p.resize_encode(resize, background_color, area),
            StatefulBlock::Sixel(p) => p.resize_encode(resize, background_color, area),
            StatefulBlock::Kitty(p) => p.resize_encode(resize, background_color, area),
            StatefulBlock::Iterm2(p) => p.resize_encode(resize, background_color, area),
        }
        proof {
            assert(self.encoded(*old(self), *resize, background_color, area));
            assert(self.same_backend(old(self)));
        }
    }

    fn render(&mut self, area: Rect, buf: &mut CellBuffer) {
        match self {
            StatefulBlock::Halfblocks(p) => p.render(area, buf),
            StatefulBlock::Sixel(p) => p.render(area, buf),
            StatefulBlock::Kitty(p) => p.render(area, buf),
            StatefulBlock::Iterm2(p) => p.render(area, buf),
        }
    }
}

impl From<StatefulHalfblocks> for StatefulBlock {
    fn from(p: StatefulHalfblocks) -> (r: StatefulBlock)
        ensures
            r == StatefulBlock::Halfblocks(p),
    {
        StatefulBlock::Halfblocks(p)
    }
}

impl vstd::std_specs::convert::FromSpecImpl<StatefulHalfblocks> for StatefulBlock {
    open spec fn obeys_from_spec() -> bool {
        true
    }

    open spec fn from_spec(p: StatefulHalfblocks) -> StatefulBlock {
        StatefulBlock::Halfblocks(p)
    }
}

impl From<StatefulSixel> for StatefulBlock {
    fn from(p: StatefulSixel) -> (r: StatefulBlock)
        ensures
            r == StatefulBlock::Sixel(p),
    {
        StatefulBlock::Sixel(p)
    }
}

impl vstd::std_specs::convert::FromSpecImpl<StatefulSixel> for StatefulBlock {
    open spec fn obeys_from_spec() -> bool {
        true
    }

    open spec fn from_spec(p: StatefulSixel) -> StatefulBlock {
        StatefulBlock::Sixel(p)
    }
}

impl From<StatefulKitty> for StatefulBlock {
    fn from(p: StatefulKitty) -> (r: StatefulBlock)
        ensures
            r == StatefulBlock::Kitty(p),
    {
        StatefulBlock::Kitty(p)
    }
}

impl vstd::std_specs::convert::FromSpecImpl<StatefulKitty> for StatefulBlock {
    open spec fn obeys_from_spec() -> bool {
        true
    }

    open spec fn from_spec(p: StatefulKitty) -> StatefulBlock {
        StatefulBlock::Kitty(p)
    }
}

impl From<Iterm2State> for StatefulBlock {
    fn from(p: Iterm2State) -> (r: StatefulBlock)
        ensures
            r == StatefulBlock::Iterm2(p),
    {
        StatefulBlock::Iterm2(p)
    }
}

impl vstd::std_specs::convert::FromSpecImpl<Iterm2State> for StatefulBlock {
    open spec fn obeys_from_spec() -> bool {
        true
    }

    open spec fn from_spec(p: Iterm2State) -> StatefulBlock {
        StatefulBlock::Iterm2(p)
    }
}

/// The closed set of fixed backends, dispatched by variant.
#[derive(Debug)]
pub enum FixedBlock {
    /// Block-approximation backend.
    Halfblocks(Halfblocks),
    /// Run-length binary backend.
    Sixel(Sixel),
    /// Chunked-transfer binary backend.
    Kitty(Kitty),
    /// Inline-image backend.
    Iterm2(FixedIterm2),
}

impl Protocol for FixedBlock {
    open spec fn spec_rect(&self) -> Rect {
        match self {
            FixedBlock::Halfblocks(p) => p.spec_rect(),
            FixedBlock::Sixel(p) => p.spec_rect(),
            FixedBlock::Kitty(p) => p.spec_rect(),
            FixedBlock::Iterm2(p) => p.spec_rect(),
        }
    }

    open spec fn inv(&self) -> bool {
        match self {
            FixedBlock::Halfblocks(p) => p.inv(),
            FixedBlock::Sixel(p) => p.inv(),
            FixedBlock::Kitty(p) => p.inv(),
            FixedBlock::Iterm2(p) => p.inv(),
        }
    }

    open spec fn renders(&self, area: Rect, pre: CellBuffer, post: CellBuffer) -> bool {
        match self {
            FixedBlock::Halfblocks(p) => p.renders(area, pre, post),
            FixedBlock::Sixel(p) => p.renders(area, pre, post),
            FixedBlock::Kitty(p) => p.renders(area, pre, post),
            FixedBlock::Iterm2(p) => p.renders(area, pre, post),
        }
    }

    fn render(&self, area: Rect, buf: &mut CellBuffer) {
        match self {
            FixedBlock::Halfblocks(p) => p.render(area, buf),
            FixedBlock::Sixel(p) => p.render(area, buf),
            FixedBlock::Kitty(p) => p.render(area, buf),
            FixedBlock::Iterm2(p) => p.render(area, buf),
        }
    }

    fn rect(&self) -> (r: Rect) {
        match self {
            FixedBlock::Halfblocks(p) => p.rect(),
            FixedBlock::Sixel(p) => p.rect(),
            FixedBlock::Kitty(p) => p.rect(),
            FixedBlock::Iterm2(p) => p.rect(),
        }
    }
}

impl From<Halfblocks> for FixedBlock {
    fn from(p: Halfblocks) -> (r: FixedBlock)
        ensures
            r == FixedBlock::Halfblocks(p),
    {
        FixedBlock::Halfblocks(p)
    }
}

impl vstd::std_specs::convert::FromSpecImpl<Halfblocks> for FixedBlock {
    open spec fn obeys_from_spec() -> bool {
        true
    }

    open spec fn from_spec(p: Halfblocks) -> FixedBlock {
        FixedBlock::Halfblocks(p)
    }
}

impl From<Sixel> for FixedBlock {
    fn from(p: Sixel) -> (r: FixedBlock)
        ensures
            r == FixedBlock::Sixel(p),
    {
        FixedBlock::Sixel(p)
    }
}

impl vstd::std_specs::convert::FromSpecImpl<Sixel> for FixedBlock {
    open spec fn obeys_from_spec() -> bool {
        true
    }

    open spec fn from_spec(p: Sixel) -> FixedBlock {
        FixedBlock::Sixel(p)
    }
}

impl From<Kitty> for FixedBlock {
    fn from(p: Kitty) -> (r: FixedBlock)
        ensures
            r == FixedBlock::Kitty(p),
    {
        FixedBlock::Kitty(p)
    }
}

impl vstd::std_specs::convert::FromSpecImpl<Kitty> for FixedBlock {
    open spec fn obeys_from_spec() -> bool {
        true
    }

    open spec fn from_spec(p: Kitty) -> FixedBlock {
        FixedBlock::Kitty(p)
    }
}

impl From<FixedIterm2> for FixedBlock {
    fn from(p: FixedIterm2) -> (r: FixedBlock)
        ensures
            r == FixedBlock::Iterm2(p),
    {
        FixedBlock::Iterm2(p)
    }
}

impl vstd::std_specs::convert::FromSpecImpl<FixedIterm2> for FixedBlock {
    open spec fn obeys_from_spec() -> bool {
        true
    }

    open spec fn from_spec(p: FixedIterm2) -> FixedBlock {
        FixedBlock::Iterm2(p)
    }
}

} // verus!
