//! Working spaces, illuminants and the state of colour management.

use moxcms::ColorProfile;
use prvw::color::dcp::apply::{corners, hue_index_wrap, hue_index_wrap_next, samplable};
use prvw::color::dcp::illuminant::{
    blend_for, illuminant_temp_k, Blend, Slot, DEFAULT_SCENE_TEMP_K,
};
use prvw::color::dcp::parser::{Dcp, HueSatMap};
use prvw::color::display_profile::describe_icc;
use prvw::color::profiles::{linear_rec2020_icc_bytes, HdrDisplaySpace};
use prvw::color::settings_panel::setting_rows;
use prvw::color::transform::srgb_icc_bytes;
use prvw::color::{Settings, State};

/// macOS names the layer colourspace itself and picks the wider gamut; every other platform
/// gets scRGB, which is the only thing a DXGI fp16 swapchain presents.
#[test]
fn the_host_gets_the_hdr_space_its_compositor_expects() {
    assert_eq!(
        HdrDisplaySpace::for_host(true),
        HdrDisplaySpace::LinearDisplayP3
    );
    assert_eq!(
        HdrDisplaySpace::for_host(false),
        HdrDisplaySpace::LinearSrgb
    );
}

#[test]
fn linear_rec2020_profile_encodes() {
    let bytes = linear_rec2020_icc_bytes();
    assert!(
        bytes.len() > 128,
        "ICC blob suspiciously small ({} bytes)",
        bytes.len()
    );
    // First four bytes of an ICC file are its size.
    assert_eq!(
        u32::from_be_bytes([bytes[0], bytes[1], bytes[2], bytes[3]]) as usize,
        bytes.len(),
        "ICC header size doesn't match blob length"
    );
}

#[test]
fn linear_rec2020_profile_parses_back() {
    let bytes = linear_rec2020_icc_bytes();
    let parsed = ColorProfile::new_from_slice(&bytes).expect("should parse back");
    assert!(parsed.red_trc.is_some());
    assert!(parsed.green_trc.is_some());
    assert!(parsed.blue_trc.is_some());
}

/// The bytes of a profile's tag.
fn tag(icc: &[u8], signature: &[u8; 4]) -> Vec<u8> {
    let number = |at: usize| u32::from_be_bytes(icc[at..at + 4].try_into().unwrap()) as usize;
    let entry = (0..number(128))
        .map(|i| 132 + i * 12)
        .find(|&at| icc[at..at + 4] == *signature)
        .expect("no such tag");
    icc[number(entry + 4)..number(entry + 4) + number(entry + 8)].to_vec()
}

#[test]
fn linear_rec2020_is_linear_and_says_so() {
    let bytes = linear_rec2020_icc_bytes();
    assert_eq!(
        describe_icc(&bytes).as_deref(),
        Some("Linear Rec.2020 (Prvw)")
    );
    for signature in [b"rTRC", b"gTRC", b"bTRC"] {
        assert_eq!(tag(&bytes, signature), b"curv\0\0\0\0\0\0\0\0");
    }
    for signature in [b"rXYZ", b"gXYZ", b"bXYZ"] {
        let primary = tag(&bytes, signature);
        assert_eq!(primary.len(), 20);
        assert_eq!(primary[..8], *b"XYZ \0\0\0\0");
    }
    let mut description = b"mluc\0\0\0\0\0\0\0\x01\0\0\0\x0cenUS\0\0\0\x2c\0\0\0\x1c".to_vec();
    for unit in "Linear Rec.2020 (Prvw)".encode_utf16() {
        description.extend_from_slice(&unit.to_be_bytes());
    }
    assert_eq!(tag(&bytes, b"desc"), description);
}

#[test]
fn srgb_is_called_so() {
    let settings = Settings {
        icc_color_management: true,
        color_match_display: true,
        use_relative_colorimetric: false,
    };
    let state = State::from_settings(&settings, srgb_icc_bytes());
    let name = describe_icc(&state.display_icc);
    assert_eq!(name.as_deref(), Some("sRGB IEC61966-2.1"));
}

#[test]
fn illuminant_temp_lookup() {
    assert_eq!(illuminant_temp_k(17), 2856);
    assert_eq!(illuminant_temp_k(21), 6504);
    assert_eq!(illuminant_temp_k(23), 5003);
    // Unknown codes fall back.
    assert_eq!(illuminant_temp_k(255), DEFAULT_SCENE_TEMP_K);
}

fn map(hue_divs: u32) -> HueSatMap {
    let cells = (hue_divs * 2) as usize;
    HueSatMap {
        hue_divs,
        sat_divs: 2,
        val_divs: 1,
        data: (0..cells as u32 * 3).collect(),
    }
}

fn dcp(first: Option<(u16, HueSatMap)>, second: Option<(u16, HueSatMap)>) -> Dcp {
    let (calibration_illuminant_1, hue_sat_map_1) = first.unzip();
    let (calibration_illuminant_2, hue_sat_map_2) = second.unzip();
    Dcp {
        unique_camera_model: None,
        profile_name: None,
        profile_copyright: None,
        profile_calibration_signature: None,
        calibration_illuminant_1,
        calibration_illuminant_2,
        hue_sat_map_1,
        hue_sat_map_2,
        hue_sat_map_encoding: 0,
        look_table: None,
        look_table_encoding: 0,
        tone_curve: None,
    }
}

/// Two maps of one shape are mixed, coolest last, whichever slot they stand in.
#[test]
fn two_maps_are_mixed_between_their_temperatures() {
    let mixed = Blend::Mix {
        low: Slot::First,
        low_k: 2856,
        high: Slot::Second,
        high_k: 6504,
    };
    assert_eq!(blend_for(&dcp(Some((17, map(2))), Some((21, map(2))))), mixed);
    let swapped = Blend::Mix {
        low: Slot::Second,
        low_k: 2856,
        high: Slot::First,
        high_k: 6504,
    };
    assert_eq!(
        blend_for(&dcp(Some((21, map(2))), Some((17, map(2))))),
        swapped
    );
}

/// A single map applies as it is, and maps of different shapes aren't mixed.
#[test]
fn without_a_pair_one_map_applies() {
    assert_eq!(blend_for(&dcp(None, None)), Blend::Nothing);
    assert_eq!(
        blend_for(&dcp(Some((17, map(2))), None)),
        Blend::Single(Slot::First)
    );
    assert_eq!(
        blend_for(&dcp(None, Some((21, map(2))))),
        Blend::Single(Slot::Second)
    );
    assert_eq!(
        blend_for(&dcp(Some((17, map(2))), Some((21, map(3))))),
        Blend::Single(Slot::Second)
    );
}

/// The last hue division and the first are neighbours.
#[test]
fn hues_go_round() {
    assert_eq!(hue_index_wrap(-1, 90), 89);
    assert_eq!(hue_index_wrap(90, 90), 0);
    assert_eq!(hue_index_wrap(181, 90), 1);
    assert_eq!(hue_index_wrap_next(89, 90), 0);
    assert_eq!(hue_index_wrap_next(3, 90), 4);
}

#[test]
fn the_corners_of_a_cell_are_its_neighbours() {
    let map = map(2);
    assert!(samplable(&map));
    let cells = corners(&map, 1, 0, 0);
    // Hue 1 and hue 0 again, saturation 0 and 1; there's one value division.
    let at = |h: u32, s: u32| {
        let first = (h * 2 + s) * 3;
        (first, first + 1, first + 2)
    };
    for expected in [at(1, 0), at(1, 1), at(0, 0), at(0, 1)] {
        assert_eq!(cells.iter().filter(|cell| **cell == expected).count(), 2);
    }
    let short = HueSatMap {
        hue_divs: 2,
        sat_divs: 2,
        val_divs: 1,
        data: vec![0; 11],
    };
    assert!(!samplable(&short));
}

#[test]
fn the_state_starts_with_srgb() {
    let srgb = srgb_icc_bytes();
    let settings = Settings {
        icc_color_management: true,
        color_match_display: false,
        use_relative_colorimetric: true,
    };
    let state = State::from_settings(&settings, srgb.clone());
    assert_eq!(state.display_icc, srgb);
    assert!(state.icc_enabled && !state.match_display && state.relative_col);
    assert!(ColorProfile::new_from_slice(&state.display_icc).is_ok());
}

/// Without color management the other two switches can't be used.
#[test]
fn the_panel_follows_the_settings() {
    let rows = setting_rows(&Settings {
        icc_color_management: false,
        color_match_display: true,
        use_relative_colorimetric: false,
    });
    assert_eq!(rows[0].title, "ICC color management");
    assert_eq!((rows[0].on, rows[0].enabled), (false, true));
    assert_eq!((rows[1].on, rows[1].enabled), (true, false));
    assert_eq!((rows[2].on, rows[2].enabled), (false, false));
}
