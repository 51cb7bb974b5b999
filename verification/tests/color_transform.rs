//! Converting pixels between ICC profiles.

use moxcms::{ColorProfile, ToneReprCurve};
use prvw::color::transform::{
    can_invert, format_with_separators, probe_lattice, profile_description, profiles_match, srgb_icc_bytes,
    transform_icc, transform_is_negligible, transform_tried, try_conversion, Conversion,
    ProfileText, Trial, PROBE_STEPS,
};

/// The Adobe RGB (1998) ICC profile.
const ADOBE_RGB_ICC: &[u8] = &[
    0x00, 0x00, 0x02, 0x30, 0x41, 0x44, 0x42, 0x45, 0x02, 0x10, 0x00, 0x00, 0x6d, 0x6e, 0x74, 0x72,
    0x52, 0x47, 0x42, 0x20, 0x58, 0x59, 0x5a, 0x20, 0x07, 0xd0, 0x00, 0x08, 0x00, 0x0b, 0x00, 0x13,
    0x00, 0x33, 0x00, 0x3b, 0x61, 0x63, 0x73, 0x70, 0x41, 0x50, 0x50, 0x4c, 0x00, 0x00, 0x00, 0x00,
    0x6e, 0x6f, 0x6e, 0x65, 0x00, 0x00, 0x00, 0x00, 0x00, 0x00, 0x00, 0x00, 0x00, 0x00, 0x00, 0x00,
    0x00, 0x00, 0x00, 0x00, 0x00, 0x00, 0xf6, 0xd6, 0x00, 0x01, 0x00, 0x00, 0x00, 0x00, 0xd3, 0x2d,
    0x41, 0x44, 0x42, 0x45, 0x00, 0x00, 0x00, 0x00, 0x00, 0x00, 0x00, 0x00, 0x00, 0x00, 0x00, 0x00,
    0x00, 0x00, 0x00, 0x00, 0x00, 0x00, 0x00, 0x00, 0x00, 0x00, 0x00, 0x00, 0x00, 0x00, 0x00, 0x00,
    0x00, 0x00, 0x00, 0x00, 0x00, 0x00, 0x00, 0x00, 0x00, 0x00, 0x00, 0x00, 0x00, 0x00, 0x00, 0x00,
    0x00, 0x00, 0x00, 0x0a, 0x63, 0x70, 0x72, 0x74, 0x00, 0x00, 0x00, 0xfc, 0x00, 0x00, 0x00, 0x32,
    0x64, 0x65, 0x73, 0x63, 0x00, 0x00, 0x01, 0x30, 0x00, 0x00, 0x00, 0x6b, 0x77, 0x74, 0x70, 0x74,
    0x00, 0x00, 0x01, 0x9c, 0x00, 0x00, 0x00, 0x14, 0x62, 0x6b, 0x70, 0x74, 0x00, 0x00, 0x01, 0xb0,
    0x00, 0x00, 0x00, 0x14, 0x72, 0x54, 0x52, 0x43, 0x00, 0x00, 0x01, 0xc4, 0x00, 0x00, 0x00, 0x0e,
    0x67, 0x54, 0x52, 0x43, 0x00, 0x00, 0x01, 0xd4, 0x00, 0x00, 0x00, 0x0e, 0x62, 0x54, 0x52, 0x43,
    0x00, 0x00, 0x01, 0xe4, 0x00, 0x00, 0x00, 0x0e, 0x72, 0x58, 0x59, 0x5a, 0x00, 0x00, 0x01, 0xf4,
    0x00, 0x00, 0x00, 0x14, 0x67, 0x58, 0x59, 0x5a, 0x00, 0x00, 0x02, 0x08, 0x00, 0x00, 0x00, 0x14,
    0x62, 0x58, 0x59, 0x5a, 0x00, 0x00, 0x02, 0x1c, 0x00, 0x00, 0x00, 0x14, 0x74, 0x65, 0x78, 0x74,
    0x00, 0x00, 0x00, 0x00, 0x43, 0x6f, 0x70, 0x79, 0x72, 0x69, 0x67, 0x68, 0x74, 0x20, 0x32, 0x30,
    0x30, 0x30, 0x20, 0x41, 0x64, 0x6f, 0x62, 0x65, 0x20, 0x53, 0x79, 0x73, 0x74, 0x65, 0x6d, 0x73,
    0x20, 0x49, 0x6e, 0x63, 0x6f, 0x72, 0x70, 0x6f, 0x72, 0x61, 0x74, 0x65, 0x64, 0x00, 0x00, 0x00,
    0x64, 0x65, 0x73, 0x63, 0x00, 0x00, 0x00, 0x00, 0x00, 0x00, 0x00, 0x11, 0x41, 0x64, 0x6f, 0x62,
    0x65, 0x20, 0x52, 0x47, 0x42, 0x20, 0x28, 0x31, 0x39, 0x39, 0x38, 0x29, 0x00, 0x00, 0x00, 0x00,
    0x00, 0x00, 0x00, 0x00, 0x00, 0x00, 0x00, 0x00, 0x00, 0x00, 0x00, 0x00, 0x00, 0x00, 0x00, 0x00,
    0x00, 0x00, 0x00, 0x00, 0x00, 0x00, 0x00, 0x00, 0x00, 0x00, 0x00, 0x00, 0x00, 0x00, 0x00, 0x00,
    0x00, 0x00, 0x00, 0x00, 0x00, 0x00, 0x00, 0x00, 0x00, 0x00, 0x00, 0x00, 0x00, 0x00, 0x00, 0x00,
    0x00, 0x00, 0x00, 0x00, 0x00, 0x00, 0x00, 0x00, 0x00, 0x00, 0x00, 0x00, 0x00, 0x00, 0x00, 0x00,
    0x00, 0x00, 0x00, 0x00, 0x00, 0x00, 0x00, 0x00, 0x00, 0x00, 0x00, 0x00, 0x58, 0x59, 0x5a, 0x20,
    0x00, 0x00, 0x00, 0x00, 0x00, 0x00, 0xf3, 0x51, 0x00, 0x01, 0x00, 0x00, 0x00, 0x01, 0x16, 0xcc,
    0x58, 0x59, 0x5a, 0x20, 0x00, 0x00, 0x00, 0x00, 0x00, 0x00, 0x00, 0x00, 0x00, 0x00, 0x00, 0x00,
    0x00, 0x00, 0x00, 0x00, 0x63, 0x75, 0x72, 0x76, 0x00, 0x00, 0x00, 0x00, 0x00, 0x00, 0x00, 0x01,
    0x02, 0x33, 0x00, 0x00, 0x63, 0x75, 0x72, 0x76, 0x00, 0x00, 0x00, 0x00, 0x00, 0x00, 0x00, 0x01,
    0x02, 0x33, 0x00, 0x00, 0x63, 0x75, 0x72, 0x76, 0x00, 0x00, 0x00, 0x00, 0x00, 0x00, 0x00, 0x01,
    0x02, 0x33, 0x00, 0x00, 0x58, 0x59, 0x5a, 0x20, 0x00, 0x00, 0x00, 0x00, 0x00, 0x00, 0x9c, 0x18,
    0x00, 0x00, 0x4f, 0xa5, 0x00, 0x00, 0x04, 0xfc, 0x58, 0x59, 0x5a, 0x20, 0x00, 0x00, 0x00, 0x00,
    0x00, 0x00, 0x34, 0x8d, 0x00, 0x00, 0xa0, 0x2c, 0x00, 0x00, 0x0f, 0x95, 0x58, 0x59, 0x5a, 0x20,
    0x00, 0x00, 0x00, 0x00, 0x00, 0x00, 0x26, 0x31, 0x00, 0x00, 0x10, 0x2f, 0x00, 0x00, 0xbe, 0x9c,
];

/// How far a channel may be off, for rounding.
const TOLERANCE: u8 = 1;

fn srgb_icc() -> Vec<u8> {
    srgb_icc_bytes()
}

fn assert_pixel_near(actual: [u8; 4], expected: [u8; 4], label: &str) {
    for (ch, (a, e)) in ["R", "G", "B", "A"]
        .iter()
        .zip(actual.iter().zip(expected.iter()))
    {
        let diff = (*a as i16 - *e as i16).unsigned_abs() as u8;
        assert!(
            diff <= TOLERANCE,
            "{label}: {ch} channel mismatch: got {a}, expected {e} (diff {diff}, tolerance {TOLERANCE})"
        );
    }
}

#[test]
fn color_adobe_rgb_to_srgb_known_values() {
    // Adobe RGB (146, 0, 0) -> sRGB (172, 0, 0): red is the most affected channel
    let mut red = [146, 0, 0, 255];
    transform_icc(&mut red, ADOBE_RGB_ICC, &srgb_icc(), false);
    assert_pixel_near(red, [172, 0, 0, 255], "red");

    // Adobe RGB (0, 147, 0) -> sRGB (0, 148, 0): green barely changes
    let mut green = [0, 147, 0, 255];
    transform_icc(&mut green, ADOBE_RGB_ICC, &srgb_icc(), false);
    assert_pixel_near(green, [0, 148, 0, 255], "green");

    // Adobe RGB (0, 0, 146) -> sRGB (0, 0, 150): blue shifts slightly
    let mut blue = [0, 0, 146, 255];
    transform_icc(&mut blue, ADOBE_RGB_ICC, &srgb_icc(), false);
    assert_pixel_near(blue, [0, 0, 150, 255], "blue");
}

#[test]
fn color_alpha_channel_preserved() {
    let mut pixel = [146, 0, 0, 128];
    transform_icc(&mut pixel, ADOBE_RGB_ICC, &srgb_icc(), false);
    assert_eq!(pixel[3], 128, "alpha must be preserved");
}

#[test]
fn color_matching_profiles_skip_transform() {
    let mut pixel = [200, 100, 50, 255];
    let original = pixel;
    transform_icc(&mut pixel, ADOBE_RGB_ICC, ADOBE_RGB_ICC, false);
    assert_eq!(pixel, original, "identical profiles should be a no-op");
}

#[test]
fn color_profiles_match_identical() {
    assert!(profiles_match(ADOBE_RGB_ICC, ADOBE_RGB_ICC));
}

#[test]
fn color_profiles_match_different() {
    assert!(!profiles_match(ADOBE_RGB_ICC, &srgb_icc()));
}

#[test]
fn color_malformed_source_is_noop() {
    let mut pixel = [200, 100, 50, 255];
    let original = pixel;
    transform_icc(&mut pixel, b"not a real ICC profile", &srgb_icc(), false);
    assert_eq!(
        pixel, original,
        "malformed source profile should be a no-op"
    );
}

#[test]
fn color_empty_source_is_noop() {
    let mut pixel = [200, 100, 50, 255];
    let original = pixel;
    transform_icc(&mut pixel, &[], &srgb_icc(), false);
    assert_eq!(pixel, original, "empty source profile should be a no-op");
}

#[test]
fn color_multi_pixel_transform() {
    // 3 pixels: red, green, blue in Adobe RGB
    let mut pixels = [
        146, 0, 0, 255, // red
        0, 147, 0, 255, // green
        0, 0, 146, 255, // blue
    ];
    transform_icc(&mut pixels, ADOBE_RGB_ICC, &srgb_icc(), false);

    assert_pixel_near(
        [pixels[0], pixels[1], pixels[2], pixels[3]],
        [172, 0, 0, 255],
        "pixel 0 red",
    );
    assert_pixel_near(
        [pixels[4], pixels[5], pixels[6], pixels[7]],
        [0, 148, 0, 255],
        "pixel 1 green",
    );
    assert_pixel_near(
        [pixels[8], pixels[9], pixels[10], pixels[11]],
        [0, 0, 150, 255],
        "pixel 2 blue",
    );
}
#[test]
fn transform_adobe_rgb_to_srgb_known_values() {
    // Adobe RGB (146, 0, 0) -> sRGB (172, 0, 0): red is the most affected channel
    let mut red = [146, 0, 0, 255];
    transform_icc(&mut red, ADOBE_RGB_ICC, &srgb_icc(), false);
    assert_pixel_near(red, [172, 0, 0, 255], "red");

    // Adobe RGB (0, 147, 0) -> sRGB (0, 148, 0): green barely changes
    let mut green = [0, 147, 0, 255];
    transform_icc(&mut green, ADOBE_RGB_ICC, &srgb_icc(), false);
    assert_pixel_near(green, [0, 148, 0, 255], "green");

    // Adobe RGB (0, 0, 146) -> sRGB (0, 0, 150): blue shifts slightly
    let mut blue = [0, 0, 146, 255];
    transform_icc(&mut blue, ADOBE_RGB_ICC, &srgb_icc(), false);
    assert_pixel_near(blue, [0, 0, 150, 255], "blue");
}

#[test]
fn transform_alpha_channel_preserved() {
    let mut pixel = [146, 0, 0, 128];
    transform_icc(&mut pixel, ADOBE_RGB_ICC, &srgb_icc(), false);
    assert_eq!(pixel[3], 128, "alpha must be preserved");
}

#[test]
fn transform_matching_profiles_skip_transform() {
    let mut pixel = [200, 100, 50, 255];
    let original = pixel;
    transform_icc(&mut pixel, ADOBE_RGB_ICC, ADOBE_RGB_ICC, false);
    assert_eq!(pixel, original, "identical profiles should be a no-op");
}

#[test]
fn transform_profiles_match_identical() {
    assert!(profiles_match(ADOBE_RGB_ICC, ADOBE_RGB_ICC));
}

#[test]
fn transform_profiles_match_different() {
    assert!(!profiles_match(ADOBE_RGB_ICC, &srgb_icc()));
}

/// The state at startup holds these bytes, so they have to be a profile.
#[test]
fn srgb_bytes_are_a_parseable_icc_profile() {
    let bytes = srgb_icc();
    assert!(bytes.len() > 128, "ICC blob suspiciously small");
    assert_eq!(
        u32::from_be_bytes([bytes[0], bytes[1], bytes[2], bytes[3]]) as usize,
        bytes.len(),
        "ICC header size doesn't match blob length"
    );
    let parsed = ColorProfile::new_from_slice(&bytes).expect("should parse back");
    assert_eq!(parsed.color_space, moxcms::DataColorSpace::Rgb);
}

/// An sRGB profile shaped the way operating systems ship it: same
/// colorimetry, but the transfer curve as a 1,024-entry table instead of
/// the parametric form. This is what macOS tags exports with, so it's the
/// profile most likely to arrive as a source alongside our generated one
/// as the target.
fn table_trc_srgb_icc() -> Vec<u8> {
    let mut profile = ColorProfile::new_srgb();
    let lut: Vec<u16> = (0..1024)
        .map(|i| {
            let linear = i as f32 / 1023.0;
            let encoded = if linear <= 0.003_130_8 {
                linear * 12.92
            } else {
                1.055 * linear.powf(1.0 / 2.4) - 0.055
            };
            (encoded * 65535.0).round() as u16
        })
        .collect();
    let curve = moxcms::ToneReprCurve::Lut(lut);
    profile.red_trc = Some(curve.clone());
    profile.green_trc = Some(curve.clone());
    profile.blue_trc = Some(curve);
    profile.encode().expect("table-TRC sRGB encodes cleanly")
}

/// Two encodings of sRGB aren't byte-equal, so `profiles_match` lets them
/// through. The transform they build has to be recognised as a no-op, or
/// every system-tagged image pays a full pass for nothing.
#[test]
fn equivalent_srgb_encodings_skip_the_transform() {
    let table_srgb = table_trc_srgb_icc();
    assert!(
        !profiles_match(&table_srgb, &srgb_icc()),
        "the two encodings differ byte-wise; that's the case under test"
    );

    let mut pixels = [200, 100, 50, 255, 12, 200, 240, 128];
    let original = pixels;
    transform_icc(&mut pixels, &table_srgb, &srgb_icc(), false);
    assert_eq!(
        pixels, original,
        "an sRGB-to-sRGB transform must leave the buffer untouched"
    );
}

/// The negligible check must not swallow a real conversion.
#[test]
fn different_color_spaces_still_transform() {
    let mut pixel = [146, 0, 0, 255];
    transform_icc(&mut pixel, ADOBE_RGB_ICC, &srgb_icc(), false);
    assert_ne!(
        pixel,
        [146, 0, 0, 255],
        "Adobe RGB to sRGB is a real conversion and must run"
    );
}

#[test]
fn probe_lattice_covers_the_cube_corners() {
    let lattice = probe_lattice();
    assert_eq!(lattice.len(), (PROBE_STEPS).pow(3) * 4);
    let has = |rgb: [u8; 3]| {
        lattice
            .chunks_exact(4)
            .any(|p| p[0] == rgb[0] && p[1] == rgb[1] && p[2] == rgb[2])
    };
    for corner in [
        [0, 0, 0],
        [255, 0, 0],
        [0, 255, 0],
        [0, 0, 255],
        [255, 255, 0],
        [255, 0, 255],
        [0, 255, 255],
        [255, 255, 255],
    ] {
        assert!(has(corner), "lattice is missing corner {corner:?}");
    }
}

#[test]
fn transform_malformed_source_is_noop() {
    let mut pixel = [200, 100, 50, 255];
    let original = pixel;
    transform_icc(&mut pixel, b"not a real ICC profile", &srgb_icc(), false);
    assert_eq!(
        pixel, original,
        "malformed source profile should be a no-op"
    );
}

#[test]
fn transform_empty_source_is_noop() {
    let mut pixel = [200, 100, 50, 255];
    let original = pixel;
    transform_icc(&mut pixel, &[], &srgb_icc(), false);
    assert_eq!(pixel, original, "empty source profile should be a no-op");
}

#[test]
fn transform_multi_pixel_transform() {
    // 3 pixels: red, green, blue in Adobe RGB
    let mut pixels = [
        146, 0, 0, 255, // red
        0, 147, 0, 255, // green
        0, 0, 146, 255, // blue
    ];
    transform_icc(&mut pixels, ADOBE_RGB_ICC, &srgb_icc(), false);

    assert_pixel_near(
        [pixels[0], pixels[1], pixels[2], pixels[3]],
        [172, 0, 0, 255],
        "pixel 0 red",
    );
    assert_pixel_near(
        [pixels[4], pixels[5], pixels[6], pixels[7]],
        [0, 148, 0, 255],
        "pixel 1 green",
    );
    assert_pixel_near(
        [pixels[8], pixels[9], pixels[10], pixels[11]],
        [0, 0, 150, 255],
        "pixel 2 blue",
    );
}
/// The outcome says what became of the pixels, and only a conversion touches them.
#[test]
fn the_outcome_says_what_happened() {
    let mut pixel = [146, 0, 0, 255];
    assert_eq!(
        transform_icc(&mut pixel, ADOBE_RGB_ICC, &[], false),
        Conversion::Disabled
    );
    assert_eq!(
        transform_icc(&mut pixel, ADOBE_RGB_ICC, ADOBE_RGB_ICC, true),
        Conversion::SameProfile
    );
    assert_eq!(
        transform_icc(&mut pixel, b"garbage", &srgb_icc(), false),
        Conversion::Impossible
    );
    assert_eq!(
        transform_icc(&mut pixel, &table_trc_srgb_icc(), &srgb_icc(), false),
        Conversion::Negligible
    );
    assert_eq!(pixel, [146, 0, 0, 255]);
    assert_eq!(
        transform_icc(&mut pixel, ADOBE_RGB_ICC, &srgb_icc(), true),
        Conversion::Converted
    );
    assert_ne!(pixel, [146, 0, 0, 255]);
    // Half a pixel more than one.
    let mut ragged = [146, 0, 0, 255, 10, 20];
    assert_eq!(
        transform_icc(&mut ragged, ADOBE_RGB_ICC, &srgb_icc(), false),
        Conversion::Impossible
    );
    assert_eq!(ragged, [146, 0, 0, 255, 10, 20]);
}

/// A probe that comes back unchanged, or off by one, moves nothing visible.
#[test]
fn a_probe_is_negligible_up_to_one_level() {
    let mut probe = probe_lattice();
    assert!(transform_is_negligible(true, &probe));
    assert!(!transform_is_negligible(false, &probe));
    probe[0] += 1;
    assert!(transform_is_negligible(true, &probe));
    probe[0] += 1;
    assert!(!transform_is_negligible(true, &probe));
}

#[test]
fn pixel_counts_are_readable() {
    assert_eq!(format_with_separators(0), "0");
    assert_eq!(format_with_separators(999), "999");
    assert_eq!(format_with_separators(24_000_000), "24,000,000");
}

#[test]
fn a_profile_is_called_by_its_text() {
    assert_eq!(
        profile_description(&ProfileText::Plain("Display P3".to_string())),
        "Display P3"
    );
    assert_eq!(
        profile_description(&ProfileText::Localizable(vec!["Bildschirm".to_string()])),
        "Bildschirm"
    );
}

#[test]
fn a_trial_decides_whether_pixels_are_converted() {
    let srgb = srgb_icc();
    let still = Trial { ran: true, probe: probe_lattice() };
    let mut pixel = [200, 100, 50, 128];
    let outcome = transform_tried(&mut pixel, ADOBE_RGB_ICC, &srgb, false, &still);
    assert_eq!(outcome, Conversion::Negligible);
    assert_eq!(pixel, [200, 100, 50, 128]);

    let mut moved = probe_lattice();
    moved[0] = 2;
    let moving = Trial { ran: true, probe: moved };
    let outcome = transform_tried(&mut pixel, ADOBE_RGB_ICC, &srgb, false, &moving);
    assert_eq!(outcome, Conversion::Converted);
    assert_ne!(pixel, [200, 100, 50, 128]);
    assert_eq!(pixel[3], 128);

    let mut ragged = [1, 2, 3, 4, 5];
    let outcome = transform_tried(&mut ragged, ADOBE_RGB_ICC, &srgb, false, &moving);
    assert_eq!(outcome, Conversion::Impossible);
    assert_eq!(ragged, [1, 2, 3, 4, 5]);
}

#[test]
fn a_trial_runs_between_profiles_that_connect() {
    let trial = try_conversion(ADOBE_RGB_ICC, &srgb_icc(), false);
    assert!(trial.ran);
    assert_eq!(trial.probe.len(), probe_lattice().len());
    assert_ne!(trial.probe, probe_lattice());
    assert!(trial.probe.chunks(4).all(|pixel| pixel[3] == 255));

    let trial = try_conversion(&[1, 2, 3], &srgb_icc(), false);
    assert!(!trial.ran);
    assert_eq!(trial.probe, probe_lattice());
}

/// sRGB's primaries with this curve in every channel.
fn with_curve(points: Vec<u16>) -> Vec<u8> {
    let mut profile = ColorProfile::new_srgb();
    profile.cicp = None;
    profile.red_trc = Some(ToneReprCurve::Lut(points.clone()));
    profile.green_trc = Some(ToneReprCurve::Lut(points.clone()));
    profile.blue_trc = Some(ToneReprCurve::Lut(points));
    profile.encode().expect("the profile encodes")
}

/// A straight line of so many points.
fn line(count: u32) -> Vec<u16> {
    (0..count)
        .map(|i| (i as u64 * 65_535 / (count as u64 - 1)) as u16)
        .collect()
}

/// A curve of so many points with these many zeros first and these many full levels last.
fn flat_ended(count: usize, zeros: usize, fulls: usize) -> Vec<u16> {
    let mut points = vec![30_000; count];
    points[..zeros].fill(0);
    points[count - fulls..].fill(65_535);
    points
}

#[test]
fn a_curve_can_be_inverted_unless_that_overflows() {
    assert!(can_invert(&srgb_icc()));
    assert!(can_invert(ADOBE_RGB_ICC));
    assert!(can_invert(&[]));
    assert!(can_invert(&[0xff; 200]));
    assert!(can_invert(&with_curve(line(40_000))));
    for (count, zeros, fulls, invertible) in [
        (40_000, 2, 0, true),
        (40_000, 2, 1, true),
        (32_771, 0, 2, true),
        (32_772, 0, 2, false),
        (32_772, 0, 3, true),
        (40_000, 0, 2, false),
        (40_000, 0, 7_230, false),
        (40_000, 0, 7_231, true),
        (40_000, 32_769, 0, true),
        (40_000, 32_770, 0, false),
        (32_769, 32_769, 0, true),
    ] {
        let target = with_curve(flat_ended(count, zeros, fulls));
        assert_eq!(can_invert(&target), invertible, "{count} {zeros} {fulls}");
    }
}

/// Code points that name a transfer function count before any curve.
#[test]
fn a_named_transfer_function_needs_no_curve() {
    let mut profile = ColorProfile::new_srgb();
    let curve = ToneReprCurve::Lut(flat_ended(40_000, 0, 2));
    profile.red_trc = Some(curve.clone());
    profile.green_trc = Some(curve.clone());
    profile.blue_trc = Some(curve);
    let target = profile.encode().expect("the profile encodes");
    assert!(can_invert(&target));
    let mut pixel = [200, 100, 50, 128];
    let outcome = transform_icc(&mut pixel, ADOBE_RGB_ICC, &target, false);
    assert_eq!(outcome, Conversion::Converted);
}

#[test]
fn a_target_that_cannot_be_inverted_converts_nothing() {
    let target = with_curve(flat_ended(40_000, 0, 2));
    assert!(!try_conversion(&srgb_icc(), &target, false).ran);
    let mut pixel = [200, 100, 50, 128];
    let outcome = transform_icc(&mut pixel, &srgb_icc(), &target, false);
    assert_eq!(outcome, Conversion::Impossible);
    assert_eq!(pixel, [200, 100, 50, 128]);
}

#[test]
fn a_target_with_a_long_curve_converts() {
    let mut two_zeros = line(40_000);
    two_zeros[1] = 0;
    let mut three_fulls = line(32_772);
    three_fulls[32_769..].fill(65_535);
    for curve in [line(40_000), two_zeros, three_fulls] {
        let mut pixel = [200, 100, 50, 128];
        let outcome = transform_icc(&mut pixel, &srgb_icc(), &with_curve(curve), false);
        assert_eq!(outcome, Conversion::Converted);
        // A linear target holds the light itself, which is below the encoded level.
        assert!(pixel[0] < 200 && pixel[1] < 100 && pixel[2] < 50, "{pixel:?}");
        assert_eq!(pixel[3], 128);
    }
}
