//! The image model: decoded raster pixels as plain bytes, with the content
//! fingerprint and the resampling and cropping operations backends need.

use vstd::prelude::*;
use crate::geometry::Rgb8;

verus! {

/// A decoded raster image: `width × height` pixels, three bytes (red, green,
/// blue) per pixel, row-major.
#[derive(Debug)]
pub struct Img {
    pub width: u32,
    pub height: u32,
    pub data: Vec<u8>,
}

impl Img {
    /// Well-formed: positive dimensions and exactly three bytes per pixel.
    pub open spec fn wf(self) -> bool {
        &&& self.width > 0
        &&& self.height > 0
        &&& self.data@.len() == 3 * self.width * self.height
    }

    /// Wrap raw RGB bytes as an image.
    pub fn new(width: u32, height: u32, data: Vec<u8>) -> (r: Img)
        requires
            width > 0,
            height > 0,
            data@.len() == 3 * width * height,
        ensures
            r == (Img { width, height, data }),
            r.wf(),
    {
        Img { width, height, data }
    }
}

/// The pixel at column `x`, row `y` of a row-major RGB byte grid `w` wide.
pub open spec fn pixel_at(data: Seq<u8>, w: int, x: int, y: int) -> Rgb8 {
    Rgb8 {
        r: data[3 * (y * w + x)],
        g: data[3 * (y * w + x) + 1],
        b: data[3 * (y * w + x) + 2],
    }
}

/// Every pixel of the `w × h` grid is `c`.
pub open spec fn all_pixels(data: Seq<u8>, w: int, h: int, c: Rgb8) -> bool {
    forall|x: int, y: int|
        0 <= x < w && 0 <= y < h ==> pixel_at(data, w, x, y) == c
}

/// A pixel's byte offset lies inside the grid's byte range.
pub proof fn lemma_pixel_index(w: int, h: int, x: int, y: int)
    requires
        0 <= x < w,
        0 <= y < h,
    ensures
        0 <= 3 * (y * w + x),
        3 * (y * w + x) + 2 < 3 * w * h,
        y * w + x < w * h,
{
    assert(y * w + x < w * h && 0 <= y * w + x) by (nonlinear_arith)
        requires 0 <= x < w && 0 <= y < h;
    assert(3 * w * h == 3 * (w * h)) by (nonlinear_arith);
}

/// Read one pixel of a raw RGB byte grid.
pub fn pixel_raw(data: &Vec<u8>, w: u32, h: u32, x: u32, y: u32) -> (c: Rgb8)
    requires
        data@.len() == 3 * w * h,
        x < w,
        y < h,
    ensures
        c == pixel_at(data@, w as int, x as int, y as int),
{
    let n: usize = data.len();
    proof {
        lemma_pixel_index(w as int, h as int, x as int, y as int);
        assert(3 * (w as int * h as int) == 3 * w * h) by (nonlinear_arith);
        assert(3 * (y as int * w as int + x as int) + 2 < n);
    }
    let i: usize = 3 * ((y as usize) * (w as usize) + x as usize);
    Rgb8 { r: data[i], g: data[i + 1], b: data[i + 2] }
}

/// Read one pixel.
pub fn pixel(img: &Img, x: u32, y: u32) -> (c: Rgb8)
    requires
        img.wf(),
        x < img.width,
        y < img.height,
    ensures
        c == pixel_at(img.data@, img.width as int, x as int, y as int),
{
    pixel_raw(&img.data, img.width, img.height, x, y)
}

/// One step of 64-bit FNV-1a: fold a byte into the running hash.
pub open spec fn fnv1a_step(h: u64, b: u8) -> u64 {
    (((h ^ (b as u64)) as nat * 0x100000001b3) % 0x10000000000000000) as u64
}

/// 64-bit FNV-1a over a byte sequence: the content fingerprint. Cheap and
/// non-cryptographic; collisions only cost a skipped re-render.
pub open spec fn fnv1a_64(s: Seq<u8>) -> u64
    decreases s.len(),
{
    if s.len() == 0 {
        0xcbf29ce484222325u64
    } else {
        fnv1a_step(fnv1a_64(s.drop_last()), s.last())
    }
}

/// Compute the FNV-1a fingerprint of `data`.
pub fn fnv1a_hash(data: &Vec<u8>) -> (h: u64)
    ensures
        h == fnv1a_64(data@),
{
    let mut h: u64 = 0xcbf29ce484222325;
    let mut i: usize = 0;
    while i < data.len()
        invariant
            i <= data@.len(),
            h == fnv1a_64(data@.take(i as int)),
        decreases data@.len() - i,
    {
        let b = data[i];
        h = (h ^ (b as u64)).wrapping_mul(0x100000001b3);
        proof {
            assert(data@.take(i + 1 as int).drop_last() =~= data@.take(i as int));
            assert(data@.take(i + 1 as int).last() == b);
        }
        i = i + 1;
    }
    proof {
        assert(data@.take(data@.len() as int) =~= data@);
    }
    h
}

/// The bytes of the top-left `cw × ch` region of a `w`-wide RGB grid.
pub open spec fn crop_grid(data: Seq<u8>, w: int, cw: int, ch: int) -> Seq<u8> {
    Seq::new((3 * cw * ch) as nat, |i: int|
        data[3 * ((i / 3) / cw * w + (i / 3) % cw) + i % 3])
}

/// Copy the top-left `cw × ch` region of an image.
pub fn crop_top_left(img: &Img, cw: u32, ch: u32) -> (r: Img)
    requires
        img.wf(),
        1 <= cw <= img.width,
        1 <= ch <= img.height,
    ensures
        r.wf(),
        r.width == cw,
        r.height == ch,
        r.data@ == crop_grid(img.data@, img.width as int, cw as int, ch as int),
        forall|x: int, y: int|
            0 <= x < cw && 0 <= y < ch
                ==> pixel_at(r.data@, cw as int, x, y)
                    == pixel_at(img.data@, img.width as int, x, y),
{
    let mut out: Vec<u8> = Vec::new();
    let mut cy: u32 = 0;
    while cy < ch
        invariant
            img.wf(),
            1 <= cw <= img.width,
            1 <= ch <= img.height,
            cy <= ch,
            out@.len() == 3 * ((cy as int) * (cw as int)),
            forall|x: int, y: int|
                0 <= x < cw && 0 <= y < cy
                    ==> pixel_at(out@, cw as int, x, y)
                        == pixel_at(img.data@, img.width as int, x, y),
        decreases ch - cy,
    {
        let mut cx: u32 = 0;
        while cx < cw
            invariant
                img.wf(),
                1 <= cw <= img.width,
                1 <= ch <= img.height,
                cy < ch,
                cx <= cw,
                out@.len() == 3 * ((cy as int) * (cw as int) + cx as int),
                forall|x: int, y: int|
                    0 <= x < cw
                        && (0 <= y < cy || (y == cy && 0 <= x < cx))
                        ==> pixel_at(out@, cw as int, x, y)
                            == pixel_at(img.data@, img.width as int, x, y),
            decreases cw - cx,
        {
            let c = pixel(img, cx, cy);
            let ghost pre = out@;
            proof {
                lemma_pixel_index(cw as int, ch as int, cx as int, cy as int);
                assert((cy as int) * (cw as int) + cx < (ch as int) * (cw as int))
                    by (nonlinear_arith)
                    requires 0 <= cx < cw && 0 <= cy < ch;
            }
            out.push(c.r);
            out.push(c.g);
            out.push(c.b);
            proof {
                assert forall|x: int, y: int|
                    0 <= x < cw
                        && (0 <= y < cy || (y == cy && 0 <= x < cx + 1))
                        implies pixel_at(out@, cw as int, x, y)
                            == pixel_at(img.data@, img.width as int, x, y) by {
                    let idx = 3 * (y * (cw as int) + x);
                    if y < cy || x < cx {
                        assert(0 <= y * (cw as int) + x && y * (cw as int) + x
                            < (cy as int) * (cw as int) + cx)
                            by (nonlinear_arith)
                            requires
                                0 <= x < cw && 0 <= y
                                && (y < cy || (y == cy && x < cx));
                        assert(out@[idx] == pre[idx]);
                        assert(out@[idx + 1] == pre[idx + 1]);
                        assert(out@[idx + 2] == pre[idx + 2]);
                        assert(pixel_at(pre, cw as int, x, y)
                            == pixel_at(img.data@, img.width as int, x, y));
                    } else {
                        assert(y == cy && x == cx);
                        assert(idx == pre.len());
                        assert(out@[idx] == c.r && out@[idx + 1] == c.g && out@[idx + 2] == c.b);
                    }
                }
            }
            cx = cx + 1;
        }
        proof {
            assert((cy as int) * (cw as int) + cw as int == (cy as int + 1) * (cw as int))
                by (nonlinear_arith);
        }
        cy = cy + 1;
    }
    proof {
        assert(3 * ((ch as int) * (cw as int)) == 3 * cw * ch) by (nonlinear_arith);
        let w = img.width as int;
        let cwi = cw as int;
        let chi = ch as int;
        let cg = crop_grid(img.data@, w, cwi, chi);
        assert(3 * cwi * chi == 3 * (chi * cwi)) by (nonlinear_arith);
        assert(out@.len() == cg.len());
        assert forall|i: int| 0 <= i < out@.len() implies out@[i] == cg[i] by {
            let p = i / 3;
            let k = i % 3;
            let y = p / cwi;
            let x = p % cwi;
            assert(0 <= k < 3 && i == 3 * p + k && 0 <= p) by (nonlinear_arith)
                requires i >= 0 && p == i / 3 && k == i % 3;
            assert(0 <= x < cwi && p == y * cwi + x && 0 <= y) by (nonlinear_arith)
                requires p >= 0 && cwi >= 1 && y == p / cwi && x == p % cwi;
            assert(y < chi) by (nonlinear_arith)
                requires
                    0 <= p && p == y * cwi + x && 0 <= x < cwi && cwi >= 1 && 0 <= y
                    && 3 * p + k == i && 0 <= k && i < 3 * (chi * cwi);
            assert(pixel_at(out@, cwi, x, y) == pixel_at(img.data@, w, x, y));
            assert(cg[i] == img.data@[3 * (y * w + x) + k]);
            if k == 0 {
                assert(out@[3 * (y * cwi + x)] == img.data@[3 * (y * w + x)]);
            } else if k == 1 {
                assert(out@[3 * (y * cwi + x) + 1] == img.data@[3 * (y * w + x) + 1]);
            } else {
                assert(out@[3 * (y * cwi + x) + 2] == img.data@[3 * (y * w + x) + 2]);
            }
        }
        assert(out@ =~= cg);
    }
    Img { width: cw, height: ch, data: out }
}

/// What `image`'s resampler returns for a given source and target geometry:
/// a function of the pixels and dimensions alone.
pub uninterp spec fn resampled(data: Seq<u8>, w: int, h: int, tw: int, th: int) -> Seq<u8>;

/// What `image`'s PNG encoder returns for a raw RGB buffer: a function of
/// the pixels and dimensions alone.
pub uninterp spec fn png_of(data: Seq<u8>, w: int, h: int) -> Seq<u8>;

/// Relies on `image::DynamicImage::write_to` with the PNG format: the bytes
/// it writes for a `w × h` RGB buffer depend only on the pixels and the
/// dimensions (an encoder refusal, possible only past PNG's dimension
/// limits, deterministically leaves what was written so far).
#[verifier::external_body]
pub(crate) fn encode_png_rgb(data: &Vec<u8>, w: u32, h: u32) -> (r: Vec<u8>)
    requires
        w > 0,
        h > 0,
        data@.len() == 3 * w * h,
    ensures
        r@ == png_of(data@, w as int, h as int),
{
    let mut out: Vec<u8> = Vec::new();
    if let Some(img) = image::RgbImage::from_raw(w, h, data.clone()) {
        let dynimg = image::DynamicImage::ImageRgb8(img);
        let _ = dynimg.write_to(&mut std::io::Cursor::new(&mut out), image::ImageFormat::Png);
    }
    out
}

/// Relies on `image::imageops::resize` over an `image::RgbImage`: resampling
/// a `w × h` RGB buffer to `tw × th` yields a `tw × th` RGB buffer whose
/// content depends only on the source pixels and the dimensions. The
/// resampler builds an intermediate four-channel float buffer of the source
/// width by the target height; the `4 * w * th` bound keeps its element
/// count addressable.
#[verifier::external_body]
pub(crate) fn resample_rgb(data: &Vec<u8>, w: u32, h: u32, tw: u32, th: u32) -> (r: Vec<u8>)
    requires
        w > 0,
        h > 0,
        tw > 0,
        th > 0,
        data@.len() == 3 * w * h,
        3 * tw * th <= usize::MAX,
        4 * w * th <= usize::MAX,
    ensures
        r@.len() == 3 * tw * th,
        r@ == resampled(data@, w as int, h as int, tw as int, th as int),
{
    let img: image::RgbImage = image::RgbImage::from_raw(w, h, data.clone()).unwrap();
    let out = image::imageops::resize(&img, tw, th, image::imageops::FilterType::Triangle);
    out.into_raw()
}

} // verus!
