//! The bytes that go on the clipboard.

use prvw::clipboard::{
    dib_bgr24, dib_v5_bgra32, hdrop, windows_bitmaps, BI_BITFIELDS, BI_RGB, LCS_GM_IMAGES, LCS_SRGB,
};

/// Two pixels wide, two tall: red opaque, green opaque / blue opaque, white opaque.
fn opaque_2x2() -> Vec<u8> {
    vec![
        255, 0, 0, 255, // top-left red
        0, 255, 0, 255, // top-right green
        0, 0, 255, 255, // bottom-left blue
        255, 255, 255, 255, // bottom-right white
    ]
}

fn header_u32(dib: &[u8], offset: usize) -> u32 {
    u32::from_le_bytes(dib[offset..offset + 4].try_into().unwrap())
}

/// The header a `CF_DIB` consumer parses first. Every field here is one a consumer reads
/// before it touches a pixel, and a wrong one means a paste that shows nothing.
#[test]
fn the_dib_header_says_24_bit_bottom_up_bgr() {
    let dib = dib_bgr24(2, 2, &opaque_2x2());
    assert_eq!(header_u32(&dib, 0), 40, "biSize");
    assert_eq!(header_u32(&dib, 4), 2, "biWidth");
    assert_eq!(header_u32(&dib, 8), 2, "biHeight, positive for bottom-up");
    assert_eq!(u16::from_le_bytes([dib[12], dib[13]]), 1, "biPlanes");
    assert_eq!(u16::from_le_bytes([dib[14], dib[15]]), 24, "biBitCount");
    assert_eq!(header_u32(&dib, 16), BI_RGB, "biCompression");
    assert_eq!(
        header_u32(&dib, 20),
        16,
        "biSizeImage: two 6-byte rows, each padded to 8"
    );
    assert_eq!(header_u32(&dib, 24), 3780, "biXPelsPerMeter");
}

/// Windows stores a DIB's last row first and its channels backwards. Getting either wrong
/// pastes an upside-down or blue-for-red image, which no compiler catches.
#[test]
fn dib_rows_run_bottom_up_and_channels_run_bgr() {
    let dib = dib_bgr24(2, 2, &opaque_2x2());
    let pixels = &dib[40..];
    // First row stored is the image's bottom row: blue, then white.
    assert_eq!(&pixels[0..3], &[255, 0, 0], "blue as BGR");
    assert_eq!(&pixels[3..6], &[255, 255, 255], "white");
    assert_eq!(&pixels[6..8], &[0, 0], "the row's padding to 8 bytes");
    // Then the top row: red, then green.
    assert_eq!(&pixels[8..11], &[0, 0, 255], "red as BGR");
    assert_eq!(&pixels[11..14], &[0, 255, 0], "green");
}

/// A 24-bit row is 3 bytes per pixel, so any odd width needs padding to the 4-byte
/// boundary. One pixel wide is the case that pads most: 3 bytes of colour, 1 of padding.
#[test]
fn odd_widths_pad_each_row_to_four_bytes() {
    let one_pixel_wide = vec![10, 20, 30, 255, 40, 50, 60, 255];
    let dib = dib_bgr24(1, 2, &one_pixel_wide);
    assert_eq!(dib.len(), 40 + 8, "two 4-byte rows");
    assert_eq!(header_u32(&dib, 20), 8, "biSizeImage counts the padding");
    assert_eq!(&dib[40..44], &[60, 50, 40, 0], "bottom row, then its pad");
    assert_eq!(&dib[44..48], &[30, 20, 10, 0], "top row, then its pad");
}

/// The alpha decision: a consumer that ignores the fourth byte never sees one, because
/// `CF_DIB` has none. Half-transparent red over white is the mid-tone that proves the
/// blend actually ran rather than the channel being passed through.
#[test]
fn dib_composites_transparency_over_white() {
    let half_transparent_red = vec![255, 0, 0, 128];
    let dib = dib_bgr24(1, 1, &half_transparent_red);
    assert_eq!(
        &dib[40..43],
        &[127, 127, 255],
        "B, G at ~50% white; R stays"
    );

    let fully_transparent = vec![0, 0, 0, 0];
    let dib = dib_bgr24(1, 1, &fully_transparent);
    assert_eq!(&dib[40..43], &[255, 255, 255], "invisible pixels are white");
}

/// `CF_DIBV5`'s whole reason to exist is the alpha mask and the colour space. A consumer
/// reads both out of the header, so they're pinned by offset.
#[test]
fn the_v5_header_declares_alpha_and_srgb() {
    let v5 = dib_v5_bgra32(2, 2, &opaque_2x2());
    assert_eq!(header_u32(&v5, 0), 124, "bV5Size");
    assert_eq!(u16::from_le_bytes([v5[14], v5[15]]), 32, "bV5BitCount");
    assert_eq!(header_u32(&v5, 16), BI_BITFIELDS, "bV5Compression");
    assert_eq!(header_u32(&v5, 40), 0x00FF_0000, "bV5RedMask");
    assert_eq!(header_u32(&v5, 44), 0x0000_FF00, "bV5GreenMask");
    assert_eq!(header_u32(&v5, 48), 0x0000_00FF, "bV5BlueMask");
    assert_eq!(header_u32(&v5, 52), 0xFF00_0000, "bV5AlphaMask");
    assert_eq!(header_u32(&v5, 56), LCS_SRGB, "bV5CSType");
    assert_eq!(header_u32(&v5, 108), LCS_GM_IMAGES, "bV5Intent");
    assert_eq!(
        v5.len(),
        124 + 16,
        "header plus four 4-byte pixels, no padding needed"
    );
}

/// V5 keeps the alpha it was given, unblended and unpremultiplied, in the fourth byte.
#[test]
fn v5_keeps_straight_alpha_in_bgra_order() {
    let half_transparent_red = vec![255, 0, 0, 128];
    let v5 = dib_v5_bgra32(1, 1, &half_transparent_red);
    assert_eq!(&v5[124..128], &[0, 0, 255, 128]);
}

/// The format choice itself: an opaque image gets one representation, because a second one
/// carrying an all-255 alpha channel would double the memory to say nothing.
#[test]
fn v5_is_offered_only_when_alpha_is_doing_something() {
    assert!(windows_bitmaps(2, 2, &opaque_2x2()).dib_v5.is_none());

    let mut with_hole = opaque_2x2();
    with_hole[3] = 0;
    assert!(windows_bitmaps(2, 2, &with_hole).dib_v5.is_some());
}

/// A decoder that disagrees with its own dimensions must not take the app down mid-copy.
#[test]
fn a_short_buffer_pads_instead_of_panicking() {
    let one_pixel = vec![1, 2, 3, 255];
    let dib = dib_bgr24(2, 2, &one_pixel);
    assert_eq!(dib.len(), 40 + 2 * 8, "still a full 2x2 of rows");
    let v5 = dib_v5_bgra32(2, 2, &one_pixel);
    assert_eq!(v5.len(), 124 + 2 * 8);
}

/// The `DROPFILES` header is fixed except for one flag: `fWide`, which is what tells the
/// shell the list is UTF-16 rather than ANSI. Reading it wrong turns a path into mojibake.
#[test]
fn the_hdrop_header_points_past_itself_and_says_wide() {
    let block = hdrop(&[r"C:\a.jpg"]).unwrap();
    assert_eq!(header_u32(&block, 0), 20, "pFiles: the list starts at 20");
    assert_eq!(header_u32(&block, 4), 0, "pt.x");
    assert_eq!(header_u32(&block, 8), 0, "pt.y");
    assert_eq!(header_u32(&block, 12), 0, "fNC");
    assert_eq!(header_u32(&block, 16), 1, "fWide");
}

/// Every path terminates, and the list terminates again after the last one. A missing
/// second terminator is the classic `CF_HDROP` bug: the shell reads past the block.
#[test]
fn hdrop_paths_are_utf16_and_double_terminated() {
    let block = hdrop(&[r"C:\a.jpg", r"C:\b.png"]).unwrap();
    let units: Vec<u16> = block[20..]
        .as_chunks::<2>()
        .0
        .iter()
        .map(|pair| u16::from_le_bytes([pair[0], pair[1]]))
        .collect();
    let expected: Vec<u16> = r"C:\a.jpg"
        .encode_utf16()
        .chain([0])
        .chain(r"C:\b.png".encode_utf16())
        .chain([0, 0])
        .collect();
    assert_eq!(units, expected);
}

/// Non-ASCII survives the trip: a Swedish photo folder is an ordinary case here, and a
/// path outside the BMP still has to come out as a valid surrogate pair.
#[test]
fn hdrop_carries_paths_the_ansi_list_could_not() {
    let block = hdrop(&[r"C:\Bilder\Lujza på ön 🎈.jpg"]).unwrap();
    let units: Vec<u16> = block[20..block.len() - 4]
        .as_chunks::<2>()
        .0
        .iter()
        .map(|pair| u16::from_le_bytes([pair[0], pair[1]]))
        .collect();
    assert_eq!(
        String::from_utf16(&units).unwrap(),
        r"C:\Bilder\Lujza på ön 🎈.jpg"
    );
}

/// A drop list with nothing expressible in it is no drop list: offering Explorer an empty
/// `CF_HDROP` is worse than offering it none.
#[test]
fn hdrop_is_absent_when_no_path_can_be_expressed() {
    assert_eq!(hdrop(&[r"\\?\C:\photos\NUL.jpg"]), None);
    assert!(hdrop(&[]).is_none());
}
