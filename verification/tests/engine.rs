use ratatui_image::buffer::{Cell, CellBuffer};
use ratatui_image::geometry::{fit_dims_u32, Rect, Resize, Rgb8};
use ratatui_image::halfblocks::{encode_halfblocks, Halfblocks, StatefulHalfblocks};
use ratatui_image::img::{fnv1a_hash, crop_top_left, pixel, Img};
use ratatui_image::protocol::{Protocol, StatefulBlock, StatefulProtocol};
use ratatui_image::source::ImageSource;

fn solid(w: u32, h: u32, c: Rgb8) -> Img {
    let mut data = Vec::new();
    for _ in 0..(w * h) {
        data.push(c.r);
        data.push(c.g);
        data.push(c.b);
    }
    Img::new(w, h, data)
}

const RED: Rgb8 = Rgb8 { r: 255, g: 0, b: 0 };
const BLUE: Rgb8 = Rgb8 { r: 0, g: 0, b: 255 };

#[test]
fn desired_dims_round_up() {
    // 100x50 pixels at a 7x14 font: ceil(100/7) = 15, ceil(50/14) = 4.
    let src = ImageSource::new(solid(100, 50, RED), (7, 14));
    assert_eq!(src.desired.width, 15);
    assert_eq!(src.desired.height, 4);
    assert_eq!(src.desired.x, 0);
    assert_eq!(src.desired.y, 0);
}

#[test]
fn desired_dims_exact_multiple() {
    let src = ImageSource::new(solid(14, 28, RED), (7, 14));
    assert_eq!(src.desired.width, 2);
    assert_eq!(src.desired.height, 2);
}

#[test]
fn desired_dims_one_pixel() {
    let src = ImageSource::new(solid(1, 1, RED), (7, 14));
    assert_eq!(src.desired.width, 1);
    assert_eq!(src.desired.height, 1);
}

#[test]
fn fingerprint_distinguishes_content() {
    let a = ImageSource::new(solid(4, 4, RED), (2, 4));
    let b = ImageSource::new(solid(4, 4, BLUE), (2, 4));
    let a2 = ImageSource::new(solid(4, 4, RED), (2, 4));
    assert_ne!(a.hash, b.hash);
    assert_eq!(a.hash, a2.hash);
}

#[test]
fn fnv_known_vectors() {
    assert_eq!(fnv1a_hash(&Vec::new()), 0xcbf29ce484222325);
    assert_eq!(fnv1a_hash(&vec![b'a']), 0xaf63dc4c8601ec8c);
}

#[test]
fn needs_resize_cache_cycle() {
    let src = ImageSource::new(solid(8, 8, RED), (2, 4));
    let mut st = StatefulHalfblocks::new(src);
    let area = Rect::new(0, 0, 4, 2);
    // First call: no cache yet.
    assert_eq!(st.needs_resize(&Resize::Exact, area), Some(area));
    st.resize_encode(&Resize::Exact, None, area);
    // Identical (policy, area, fingerprint): nothing to do.
    assert_eq!(st.needs_resize(&Resize::Exact, area), None);
    // Changed area.
    let other = Rect::new(0, 0, 5, 2);
    assert_eq!(st.needs_resize(&Resize::Exact, other), Some(other));
    // Changed policy.
    assert_eq!(st.needs_resize(&Resize::Fit, area), Some(area));
    // Changed fingerprint.
    st.source = ImageSource::new(solid(8, 8, BLUE), (2, 4));
    assert_eq!(st.needs_resize(&Resize::Exact, area), Some(area));
}

#[test]
fn render_without_encode_is_blank() {
    let src = ImageSource::new(solid(8, 8, RED), (2, 4));
    let mut st = StatefulHalfblocks::new(src);
    let area = Rect::new(0, 0, 4, 2);
    let mut buf = CellBuffer::empty(area);
    st.render(area, &mut buf);
    for cell in &buf.cells {
        assert!(cell.sym.is_empty());
        assert!(cell.fg.is_none());
        assert!(cell.bg.is_none());
    }
}

#[test]
fn exact_fit_solid_round_trip() {
    // An image of exactly 2x2 cells at a 4x8 font.
    let src = ImageSource::new(solid(8, 16, RED), (4, 8));
    let mut st = StatefulHalfblocks::new(src);
    let area = Rect::new(0, 0, 2, 2);
    let mut buf = CellBuffer::empty(area);
    st.resize_encode_render(&Resize::Exact, None, area, &mut buf);
    // Exactly N cells written, all solid red, no cropping or padding.
    let upper: Vec<u8> = vec![0xe2, 0x96, 0x80];
    for cell in &buf.cells {
        assert_eq!(cell.sym, upper);
        assert_eq!(cell.fg, Some(RED));
        assert_eq!(cell.bg, Some(RED));
    }
}

#[test]
fn fit_and_crop_differ_on_aspect_mismatch() {
    // Image aspect 2:1, target area 1:1.
    let src = ImageSource::new(solid(100, 50, RED), (10, 10));
    let area = Rect::new(0, 0, 4, 4);
    let fit = encode_halfblocks(&src, Resize::Fit, area);
    let crop = encode_halfblocks(&src, Resize::Crop, area);
    // Crop-to-fill covers the whole area.
    assert_eq!((crop.rect.width, crop.rect.height), (4, 4));
    // Fit-within stays inside the aspect box: 40x20 pixels -> 4x2 cells.
    assert_eq!((fit.rect.width, fit.rect.height), (4, 2));
    // At least one dimension of the filled region changed.
    assert_ne!(fit.rect.height, crop.rect.height);
}

#[test]
fn empty_area_encode_is_a_no_op() {
    // A degenerate area is not an error: the encode caches an empty
    // payload and rendering writes nothing.
    let src = ImageSource::new(solid(8, 8, RED), (2, 4));
    let mut st = StatefulHalfblocks::new(src);
    let area = Rect::new(0, 0, 0, 3);
    let mut buf = CellBuffer::empty(Rect::new(0, 0, 4, 4));
    st.resize_encode_render(&Resize::Exact, None, area, &mut buf);
    assert!(st.state.is_some());
    for cell in &buf.cells {
        assert!(cell.sym.is_empty());
    }
    // The cache still keys on the exact triple.
    assert_eq!(st.needs_resize(&Resize::Exact, area), None);
}

#[test]
fn repeated_render_reencodes_nothing() {
    // A second call with the identical triple leaves the state untouched
    // and writes the same cells again.
    let src = ImageSource::new(solid(8, 16, RED), (4, 8));
    let mut st = StatefulHalfblocks::new(src);
    let area = Rect::new(0, 0, 2, 2);
    let mut first = CellBuffer::empty(area);
    st.resize_encode_render(&Resize::Exact, None, area, &mut first);
    let cached = st.state.as_ref().unwrap().grid.cells.clone();
    let mut second = CellBuffer::empty(area);
    st.resize_encode_render(&Resize::Exact, None, area, &mut second);
    assert_eq!(st.state.as_ref().unwrap().grid.cells, cached);
    for (a, b) in first.cells.iter().zip(second.cells.iter()) {
        assert_eq!(a, b);
    }
}

#[test]
fn fit_with_background_fills_leftover_cells() {
    // 100x50 at a 10x10 font into a 4x4 area fits as 4x2 cells; with a
    // background color the remaining rows are filled with it.
    let green = Rgb8 { r: 0, g: 255, b: 0 };
    let src = ImageSource::new(solid(100, 50, RED), (10, 10));
    let mut st = StatefulHalfblocks::new(src);
    let area = Rect::new(0, 0, 4, 4);
    let mut buf = CellBuffer::empty(area);
    st.resize_encode_render(&Resize::Fit, Some(green), area, &mut buf);
    assert_eq!(buf.get(0, 0).fg, Some(RED));
    assert_eq!(buf.get(0, 3).fg, Some(green));
    assert_eq!(buf.get(3, 3).bg, Some(green));
}

#[test]
fn crop_keeps_top_left_region() {
    // Left half red, right half blue; cropping a 2x1-cell image to one
    // cell keeps the top-left (red) region.
    let mut data = Vec::new();
    for _y in 0..10u32 {
        for x in 0..20u32 {
            let c = if x < 10 { RED } else { BLUE };
            data.push(c.r);
            data.push(c.g);
            data.push(c.b);
        }
    }
    let src = ImageSource::new(Img::new(20, 10, data), (10, 10));
    let g = encode_halfblocks(&src, Resize::Crop, Rect::new(0, 0, 1, 1));
    assert_eq!((g.rect.width, g.rect.height), (1, 1));
    assert_eq!(g.cells[0], (RED, RED));
}

#[test]
fn fit_dims_values() {
    // 100x50 into a 40x40 box: width-bound, 40x20.
    assert_eq!(fit_dims_u32(100, 50, 40, 40), (40, 20));
    // Already fits: unchanged.
    assert_eq!(fit_dims_u32(10, 10, 40, 40), (10, 10));
    // 50x100 into a 40x40 box: height-bound, 20x40.
    assert_eq!(fit_dims_u32(50, 100, 40, 40), (20, 40));
}

#[test]
fn clone_leaves_peer_state_and_source_untouched() {
    let src = ImageSource::new(solid(8, 8, RED), (2, 4));
    let s1_src = src.clone();
    let s2_src = src.clone();
    let mut s1 = StatefulHalfblocks::new(s1_src);
    let s2 = StatefulHalfblocks::new(s2_src);
    let area = Rect::new(0, 0, 4, 2);
    s1.resize_encode(&Resize::Exact, None, area);
    // The peer state has no cache, and both sources still hold the bytes.
    assert!(s2.state.is_none());
    assert_eq!(s2.source.image.data, src.image.data);
    assert_eq!(s1.source.image.data, src.image.data);
    assert_eq!(s1.source.hash, s2.source.hash);
}

#[test]
fn render_clips_to_buffer() {
    let src = ImageSource::new(solid(8, 16, RED), (4, 8));
    let mut st = StatefulHalfblocks::new(src);
    // Encode for a 2x2 area placed partly outside the 2x1 buffer.
    let area = Rect::new(1, 0, 2, 2);
    let mut buf = CellBuffer::empty(Rect::new(0, 0, 2, 1));
    st.resize_encode(&Resize::Exact, None, area);
    st.render(area, &mut buf);
    // (0,0) untouched, (1,0) written.
    assert!(buf.get(0, 0).sym.is_empty());
    assert_eq!(buf.get(1, 0).fg, Some(RED));
}

#[test]
fn fixed_halfblocks_rect_and_render() {
    let src = ImageSource::new(solid(8, 16, RED), (4, 8));
    let area = Rect::new(0, 0, 2, 2);
    let fixed = Halfblocks::new(&src, Resize::Exact, area);
    assert_eq!(fixed.rect(), Rect::new(0, 0, 2, 2));
    let mut buf = CellBuffer::empty(area);
    fixed.render(area, &mut buf);
    assert_eq!(buf.get(0, 0).fg, Some(RED));
}

#[test]
fn stateful_block_dispatch() {
    let src = ImageSource::new(solid(8, 16, RED), (4, 8));
    let mut block = StatefulBlock::from(StatefulHalfblocks::new(src));
    let area = Rect::new(0, 0, 2, 2);
    let mut buf = CellBuffer::empty(area);
    assert_eq!(block.needs_resize(&Resize::Exact, area), Some(area));
    block.resize_encode_render(&Resize::Exact, None, area, &mut buf);
    assert_eq!(block.needs_resize(&Resize::Exact, area), None);
    assert_eq!(buf.get(1, 1).bg, Some(RED));
}

#[test]
fn crop_top_left_keeps_pixels() {
    let mut data = Vec::new();
    for i in 0..(4 * 2) as u8 {
        data.push(i);
        data.push(i);
        data.push(i);
    }
    let img = Img::new(4, 2, data);
    let cropped = crop_top_left(&img, 2, 1);
    assert_eq!(cropped.width, 2);
    assert_eq!(cropped.height, 1);
    assert_eq!(pixel(&cropped, 0, 0), pixel(&img, 0, 0));
    assert_eq!(pixel(&cropped, 1, 0), pixel(&img, 1, 0));
}

#[test]
fn buffer_put_and_get() {
    let area = Rect::new(2, 3, 3, 2);
    let mut buf = CellBuffer::empty(area);
    let cell = Cell { sym: vec![b'x'], fg: Some(RED), bg: None };
    buf.put(3, 4, cell.clone());
    assert_eq!(*buf.get(3, 4), cell);
    assert!(buf.get(2, 3).sym.is_empty());
}
