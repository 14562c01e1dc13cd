use ratatui_image::buffer::CellBuffer;
use ratatui_image::escape::{push_b64, push_dec};
use ratatui_image::geometry::{Rect, Resize, Rgb8};
use ratatui_image::img::Img;
use ratatui_image::iterm2::Iterm2State;
use ratatui_image::kitty::{Kitty, StatefulKitty};
use ratatui_image::protocol::{Protocol, StatefulProtocol};
use ratatui_image::sixel::{encode_sixel, StatefulSixel};
use ratatui_image::source::ImageSource;

fn solid(w: u32, h: u32, c: Rgb8) -> Img {
    let mut data = Vec::new();
    for _ in 0..(w * h) {
        data.push(c.r);
        data.push(c.g);
        data.push(c.b);
    }
    Img::new(w, h, data)
}

fn b64(data: &[u8]) -> Vec<u8> {
    let mut out = Vec::new();
    let v = data.to_vec();
    push_b64(&mut out, &v, 0, v.len());
    out
}

fn contains(haystack: &[u8], needle: &[u8]) -> bool {
    haystack.windows(needle.len().max(1)).any(|w| w == needle)
}

const WHITE: Rgb8 = Rgb8 { r: 255, g: 255, b: 255 };
const RED: Rgb8 = Rgb8 { r: 255, g: 0, b: 0 };

#[test]
fn dec_digits_values() {
    let mut out = Vec::new();
    push_dec(&mut out, 0);
    push_dec(&mut out, 7);
    push_dec(&mut out, 1234567);
    assert_eq!(out, b"071234567".to_vec());
}

#[test]
fn base64_known_vectors() {
    assert_eq!(b64(b""), b"".to_vec());
    assert_eq!(b64(b"f"), b"Zg==".to_vec());
    assert_eq!(b64(b"fo"), b"Zm8=".to_vec());
    assert_eq!(b64(b"foo"), b"Zm9v".to_vec());
    assert_eq!(b64(b"foob"), b"Zm9vYg==".to_vec());
    assert_eq!(b64(b"fooba"), b"Zm9vYmE=".to_vec());
    assert_eq!(b64(b"foobar"), b"Zm9vYmFy".to_vec());
}

#[test]
fn kitty_payload_exact_bytes() {
    // A 3x6-pixel image at a 1x2 font is exactly 3x3 cells: exact-fit to a
    // 3x3 area resends the source bytes unresampled.
    let img = solid(3, 6, RED);
    let raw = img.data.clone();
    let src = ImageSource::new(img, (1, 2));
    let mut st = StatefulKitty::new(src, 9);
    let area = Rect::new(0, 0, 3, 3);
    st.resize_encode(&Resize::Exact, None, area);
    let payload = &st.state.as_ref().unwrap().payload;
    let mut expected = b"\x1b_Ga=T,f=24,s=3,v=6,i=9,m=0;".to_vec();
    expected.extend(b64(&raw));
    expected.extend(b"\x1b\\");
    expected.extend(b"\x1b_Ga=p,i=9,c=3,r=3;\x1b\\");
    assert_eq!(*payload, expected);
}

#[test]
fn kitty_chunks_large_payload() {
    // 64x64 pixels = 12288 bytes = 4 chunks of 3072.
    let img = solid(64, 64, RED);
    let src = ImageSource::new(img, (1, 1));
    let mut st = StatefulKitty::new(src, 1);
    let area = Rect::new(0, 0, 64, 64);
    st.resize_encode(&Resize::Exact, None, area);
    let payload = &st.state.as_ref().unwrap().payload;
    let text = payload.clone();
    let m1 = b"m=1;";
    let count_m1 = (0..text.len().saturating_sub(3)).filter(|&i| &text[i..i + 4] == m1).count();
    assert_eq!(count_m1, 3);
    assert!(contains(&text, b"m=0;"));
    assert!(contains(&text, b"s=64,v=64,"));
}

#[test]
fn kitty_resamples_to_target_dimensions() {
    // A 4x4 image shrunk to a 2x2 area at a 1x1 font must transmit 2x2
    // pixels (12 bytes, 16 base64 chars), not the original 48 bytes.
    let src = ImageSource::new(solid(4, 4, RED), (1, 1));
    let mut st = StatefulKitty::new(src, 1);
    let area = Rect::new(0, 0, 2, 2);
    st.resize_encode(&Resize::Exact, None, area);
    let payload = st.state.as_ref().unwrap().payload.clone();
    let prefix = b"\x1b_Ga=T,f=24,s=2,v=2,i=1,m=0;";
    let suffix = b"\x1b\\\x1b_Ga=p,i=1,c=2,r=2;\x1b\\";
    assert!(payload.starts_with(prefix));
    assert!(payload.ends_with(suffix));
    assert_eq!(payload.len(), prefix.len() + 16 + suffix.len());
}

#[test]
fn kitty_delete_emitted_exactly_once() {
    let src = ImageSource::new(solid(2, 2, RED), (1, 1));
    let mut st = StatefulKitty::new(src, 7);
    let first = st.delete_seq();
    let second = st.delete_seq();
    assert_eq!(first, b"\x1b_Ga=d,d=i,i=7;\x1b\\".to_vec());
    assert!(second.is_empty());
}

#[test]
fn kitty_delete_references_creation_id() {
    let src = ImageSource::new(solid(2, 2, RED), (1, 1));
    let mut st = StatefulKitty::new(src, 42);
    let area = Rect::new(0, 0, 2, 2);
    st.resize_encode(&Resize::Exact, None, area);
    let payload = st.state.as_ref().unwrap().payload.clone();
    // The transmit and placement both carry i=42, and so does the deletion.
    assert!(contains(&payload, b"i=42,"));
    let del = st.delete_seq();
    assert!(contains(&del, b"i=42;"));
}

#[test]
fn kitty_render_writes_payload_cell() {
    let src = ImageSource::new(solid(2, 2, RED), (1, 1));
    let mut st = StatefulKitty::new(src, 3);
    let area = Rect::new(0, 0, 2, 2);
    let mut buf = CellBuffer::empty(area);
    st.resize_encode(&Resize::Exact, None, area);
    st.render(area, &mut buf);
    let corner = buf.get(0, 0);
    assert!(!corner.sym.is_empty());
    assert_eq!(corner.sym, st.state.as_ref().unwrap().payload);
    // Other cells untouched.
    assert!(buf.get(1, 1).sym.is_empty());
}

#[test]
fn fixed_kitty_delete() {
    let src = ImageSource::new(solid(2, 2, RED), (1, 1));
    let area = Rect::new(0, 0, 2, 2);
    let fixed = Kitty::new(&src, Resize::Exact, area, 5);
    assert_eq!(fixed.rect(), Rect::new(0, 0, 2, 2));
    assert_eq!(fixed.delete_seq(), b"\x1b_Ga=d,d=i,i=5;\x1b\\".to_vec());
}

#[test]
fn sixel_frame_structure() {
    // One solid white pixel: palette index 63, one band, run of one.
    let img = solid(1, 1, WHITE);
    let data = img.data.clone();
    let frame = encode_sixel(&data, 1, 1);
    // Cursor is saved before the frame and restored after it.
    assert!(frame.starts_with(b"\x1b7\x1bP0;0;8q\"1;1;1;1"));
    assert!(frame.ends_with(b"\x1b\\\x1b8"));
    // Palette definition for color 63: 100% on each channel.
    assert!(contains(&frame, b"#63;2;100;100;100"));
    // Color 63 covers the single pixel (bit 0 -> 63+1 = '@').
    assert!(contains(&frame, b"#63!1@$-"));
    // A color that is absent emits an empty pattern ('?' = 63).
    assert!(contains(&frame, b"#0!1?$"));
}

#[test]
fn sixel_runs_collapse() {
    // A 4x1 solid row: one run of 4, not four runs of 1.
    let img = solid(4, 1, WHITE);
    let data = img.data.clone();
    let frame = encode_sixel(&data, 4, 1);
    assert!(contains(&frame, b"#63!4@$"));
    assert!(!contains(&frame, b"#63!1@"));
}

#[test]
fn stateful_sixel_cache() {
    let src = ImageSource::new(solid(2, 2, WHITE), (1, 1));
    let mut st = StatefulSixel::new(src);
    let area = Rect::new(0, 0, 2, 2);
    assert_eq!(st.needs_resize(&Resize::Exact, area), Some(area));
    st.resize_encode(&Resize::Exact, None, area);
    assert_eq!(st.needs_resize(&Resize::Exact, area), None);
    let payload = &st.state.as_ref().unwrap().payload;
    assert!(payload.starts_with(b"\x1b7\x1bP"));
}

#[test]
fn kitty_move_reuses_upload() {
    // Encode once, then move the same-sized area one cell right: the new
    // payload is the placement alone — no transmission chunks.
    let src = ImageSource::new(solid(3, 6, RED), (1, 2));
    let mut st = StatefulKitty::new(src, 9);
    let area = Rect::new(0, 0, 3, 3);
    st.resize_encode(&Resize::Exact, None, area);
    let moved = Rect::new(1, 0, 3, 3);
    assert_eq!(st.needs_resize(&Resize::Exact, moved), Some(moved));
    st.resize_encode(&Resize::Exact, None, moved);
    let payload = st.state.as_ref().unwrap().payload.clone();
    assert_eq!(payload, b"\x1b_Ga=p,i=9,c=3,r=3;\x1b\\".to_vec());
    assert!(!contains(&payload, b"a=T"));
    // Rendering at the moved area writes only those placement bytes.
    let mut buf = CellBuffer::empty(Rect::new(0, 0, 5, 3));
    st.render(moved, &mut buf);
    assert_eq!(buf.get(1, 0).sym, payload);
    assert!(buf.get(0, 0).sym.is_empty());
}

#[test]
fn kitty_resize_retransmits() {
    // A changed extent (or fingerprint) cannot reuse the upload: the new
    // payload carries a fresh transmission before its placement.
    let src = ImageSource::new(solid(4, 4, RED), (1, 1));
    let mut st = StatefulKitty::new(src, 2);
    st.resize_encode(&Resize::Exact, None, Rect::new(0, 0, 4, 4));
    st.resize_encode(&Resize::Exact, None, Rect::new(0, 0, 2, 2));
    let payload = st.state.as_ref().unwrap().payload.clone();
    assert!(contains(&payload, b"a=T"));
    assert!(contains(&payload, b"s=2,v=2,"));
}

#[test]
fn iterm2_sequence_structure() {
    let src = ImageSource::new(solid(2, 2, RED), (1, 1));
    let mut st = Iterm2State::new(src);
    let area = Rect::new(0, 0, 2, 2);
    st.resize_encode(&Resize::Exact, None, area);
    let payload = st.state.as_ref().unwrap().payload.clone();
    assert!(payload.starts_with(b"\x1b]1337;File=inline=1;size="));
    assert!(contains(&payload, b";width=2;height=2:"));
    assert_eq!(*payload.last().unwrap(), 0x07);
    // The embedded base64 decodes from a PNG stream: PNG magic begins with
    // 0x89 'P', whose base64 prefix is "iVBO".
    assert!(contains(&payload, b":iVBO"));
}

#[test]
fn iterm2_render_blank_before_encode() {
    let src = ImageSource::new(solid(2, 2, RED), (1, 1));
    let mut st = Iterm2State::new(src);
    let area = Rect::new(0, 0, 2, 2);
    let mut buf = CellBuffer::empty(area);
    st.render(area, &mut buf);
    for cell in &buf.cells {
        assert!(cell.sym.is_empty());
    }
}
