//! What an image list slot holds.

use prvw::browser::windows::thumbnail::{compose_slot, slot_bytes};

/// One BGRA pixel out of a composed canvas.
fn pixel(canvas: &[u8], side: u32, x: u32, y: u32) -> (u8, u8, u8, u8) {
    let at = ((y as usize) * (side as usize) + x as usize) * 4;
    (canvas[at], canvas[at + 1], canvas[at + 2], canvas[at + 3])
}

/// One RGBA pixel, repeated.
fn solid(width: u32, height: u32, rgb: (u8, u8, u8)) -> Vec<u8> {
    let mut out = Vec::with_capacity((width * height * 4) as usize);
    for _ in 0..width * height {
        out.extend_from_slice(&[rgb.0, rgb.1, rgb.2, 0xff]);
    }
    out
}

#[test]
fn a_landscape_thumbnail_is_letterboxed_top_and_bottom() {
    // 8 wide, 4 tall, into an 8 × 8 slot: two rows of background above and below.
    let source = solid(8, 4, (10, 20, 30));
    let canvas = compose_slot(&source, 8, 4, 8, (200, 200, 200));
    assert_eq!(canvas.len(), slot_bytes(8));
    // The letterbox.
    assert_eq!(pixel(&canvas, 8, 0, 0), (200, 200, 200, 0xff));
    assert_eq!(pixel(&canvas, 8, 0, 7), (200, 200, 200, 0xff));
    // The image, in BGRA rather than RGBA.
    assert_eq!(pixel(&canvas, 8, 0, 2), (30, 20, 10, 0xff));
    assert_eq!(pixel(&canvas, 8, 7, 5), (30, 20, 10, 0xff));
}

#[test]
fn a_portrait_thumbnail_is_letterboxed_left_and_right() {
    let source = solid(4, 8, (10, 20, 30));
    let canvas = compose_slot(&source, 4, 8, 8, (0, 0, 0));
    assert_eq!(pixel(&canvas, 8, 0, 0), (0, 0, 0, 0xff));
    assert_eq!(pixel(&canvas, 8, 2, 0), (30, 20, 10, 0xff));
    assert_eq!(pixel(&canvas, 8, 7, 7), (0, 0, 0, 0xff));
}

/// Rows come out top-down, matching the negative `biHeight` the DIB section is created with.
/// Getting this backwards shows every thumbnail upside down.
#[test]
fn rows_are_written_top_down() {
    // Two rows: the first red, the second green.
    let mut source = solid(2, 1, (255, 0, 0));
    source.extend(solid(2, 1, (0, 255, 0)));
    let canvas = compose_slot(&source, 2, 2, 2, (0, 0, 0));
    assert_eq!(pixel(&canvas, 2, 0, 0), (0, 0, 255, 0xff), "top row is red");
    assert_eq!(
        pixel(&canvas, 2, 0, 1),
        (0, 255, 0, 0xff),
        "bottom row is green"
    );
}

/// A corrupt or half-written delivery must produce a blank slot rather than a panic or a
/// slot full of whatever was next in memory.
#[test]
fn a_short_or_empty_source_is_a_blank_slot() {
    for (source, width, height) in [
        (Vec::new(), 0, 0),
        (Vec::new(), 4, 4),
        (solid(4, 1, (1, 2, 3)), 4, 4),
    ] {
        let canvas = compose_slot(&source, width, height, 4, (7, 8, 9));
        assert_eq!(canvas.len(), slot_bytes(4));
        assert_eq!(pixel(&canvas, 4, 0, 0), (9, 8, 7, 0xff));
        assert_eq!(pixel(&canvas, 4, 3, 3), (9, 8, 7, 0xff));
    }
}

/// A source that came back a pixel bigger than asked for is cropped from its centre, which
/// costs one row rather than a second resample of a megabyte.
#[test]
fn an_oversized_source_is_cropped_rather_than_rescaled() {
    let source = solid(6, 6, (10, 20, 30));
    let canvas = compose_slot(&source, 6, 6, 4, (0, 0, 0));
    assert_eq!(canvas.len(), slot_bytes(4));
    for x in 0..4 {
        for y in 0..4 {
            assert_eq!(pixel(&canvas, 4, x, y), (30, 20, 10, 0xff));
        }
    }
}

/// Every slot is opaque. A partly transparent one lets the listview's background through the
/// picture rather than through the letterbox.
#[test]
fn every_pixel_is_opaque() {
    let mut source = solid(4, 4, (10, 20, 30));
    // A source claiming full transparency still composes opaque.
    for pixel in source.as_chunks_mut::<4>().0 {
        pixel[3] = 0;
    }
    let canvas = compose_slot(&source, 4, 4, 8, (1, 2, 3));
    for pixel in canvas.as_chunks::<4>().0 {
        assert_eq!(pixel[3], 0xff);
    }
}

/// The cost is exact whatever the source was, one that claims more pixels than can be counted
/// included.
#[test]
fn a_slot_costs_what_its_canvas_holds() {
    let source = solid(3, 2, (1, 2, 3));
    for (width, height) in [(3, 2), (0, 0), (9, 9), (u32::MAX, u32::MAX)] {
        for side in [0, 1, 4] {
            let canvas = compose_slot(&source, width, height, side, (7, 8, 9));
            assert_eq!(canvas.len(), slot_bytes(side));
            assert_eq!(canvas.len(), (side * side * 4) as usize);
        }
    }
    let blank = compose_slot(&source, u32::MAX, u32::MAX, 1, (7, 8, 9));
    assert_eq!(blank, [9, 8, 7, 255]);
}
