//! Finding the profile of a camera.

use prvw::color::dcp::discovery::{
    dcp_matches, find_dcp_for_camera, is_dcp_extension, load_and_match, normalize, search_dirs,
    DCP_DIR_ENV_VAR,
};
use prvw::color::dcp::parser::Dcp;

/// A profile with one 1x1x1 map, for a camera of this name.
fn tiny_dcp(camera: &str) -> Vec<u8> {
    let mut name = camera.as_bytes().to_vec();
    name.push(0);
    while name.len() < 5 {
        name.push(0);
    }
    let payload = 8 + 2 + 3 * 12 + 4;
    let mut out = b"IIRC".to_vec();
    out.extend_from_slice(&8u32.to_le_bytes());
    out.extend_from_slice(&3u16.to_le_bytes());
    let dims = payload + name.len();
    let data = dims + 12;
    for (tag, kind, count, at) in [
        (50708u16, 2u16, name.len(), payload),
        (50937, 4, 3, dims),
        (50938, 11, 3, data),
    ] {
        out.extend_from_slice(&tag.to_le_bytes());
        out.extend_from_slice(&kind.to_le_bytes());
        out.extend_from_slice(&(count as u32).to_le_bytes());
        out.extend_from_slice(&(at as u32).to_le_bytes());
    }
    out.extend_from_slice(&0u32.to_le_bytes());
    out.extend_from_slice(&name);
    for dim in [1u32, 1, 1] {
        out.extend_from_slice(&dim.to_le_bytes());
    }
    for value in [0.0f32, 1.0, 1.0] {
        out.extend_from_slice(&value.to_le_bytes());
    }
    out
}

#[test]
fn normalize_collapses_whitespace_and_cases() {
    assert_eq!(normalize("  Sony   ILCE-7M3 "), "sony ilce-7m3");
    assert_eq!(normalize("Canon\tEOS\nR6"), "canon eos r6");
    assert_eq!(normalize(""), "");
}

#[test]
fn empty_camera_id_returns_none() {
    let files = vec![tiny_dcp("Test Camera"), tiny_dcp("")];
    assert!(find_dcp_for_camera("", &files).is_none());
    assert!(find_dcp_for_camera("   ", &files).is_none());
}

#[test]
fn dcp_matches_by_unique_camera_model() {
    let dcp = Dcp {
        unique_camera_model: Some("Sony ILCE-7M3".to_string()),
        profile_name: None,
        profile_copyright: None,
        profile_calibration_signature: None,
        calibration_illuminant_1: None,
        calibration_illuminant_2: None,
        hue_sat_map_1: None,
        hue_sat_map_2: None,
        hue_sat_map_encoding: 0,
        look_table: None,
        look_table_encoding: 0,
        tone_curve: None,
    };
    assert!(dcp_matches(&dcp, &normalize("Sony ILCE-7M3")));
    assert!(dcp_matches(&dcp, &normalize("SONY    ilce-7m3")));
    assert!(!dcp_matches(&dcp, &normalize("Sony ILCE-7M4")));
}

#[test]
fn dcp_matches_by_calibration_signature() {
    let dcp = Dcp {
        unique_camera_model: Some("Sony ILCE-7M3".to_string()),
        profile_name: None,
        profile_copyright: None,
        profile_calibration_signature: Some("custom-sig-xyz".to_string()),
        calibration_illuminant_1: None,
        calibration_illuminant_2: None,
        hue_sat_map_1: None,
        hue_sat_map_2: None,
        hue_sat_map_encoding: 0,
        look_table: None,
        look_table_encoding: 0,
        tone_curve: None,
    };
    assert!(dcp_matches(&dcp, &normalize("custom-sig-xyz")));
}

/// The first file that's for the camera wins, and one that doesn't parse is passed over.
#[test]
fn the_first_matching_file_is_found() {
    let files = vec![
        b"not a profile".to_vec(),
        tiny_dcp("Other Camera"),
        tiny_dcp("Test  camera"),
        tiny_dcp("Test Camera"),
    ];
    let found = find_dcp_for_camera(" TEST Camera", &files).expect("should find one");
    assert_eq!(found.unique_camera_model.as_deref(), Some("Test  camera"));
    assert!(find_dcp_for_camera("Unknown Camera", &files).is_none());
}

#[test]
fn a_file_says_why_it_was_passed_over() {
    assert!(load_and_match(b"not a profile", "test camera").is_err());
    assert!(load_and_match(&tiny_dcp("Other Camera"), "test camera")
        .expect("parses")
        .is_none());
    assert!(load_and_match(&tiny_dcp("Test Camera"), "test camera")
        .expect("parses")
        .is_some());
}

#[test]
fn the_users_folder_is_searched_first() {
    assert_eq!(DCP_DIR_ENV_VAR, "PRVW_DCP_DIR");
    let dirs = search_dirs(Some("/profiles".to_string()), Some("/Users/dave".to_string()));
    assert_eq!(dirs.len(), 3);
    assert_eq!(dirs[0].base, "/profiles");
    assert!(dirs[0].below.is_empty());
    assert_eq!(dirs[1].base, "/Users/dave");
    assert_eq!(dirs[1].below.last(), Some(&"CameraProfiles"));
    assert_eq!(dirs[2].below.last(), Some(&"Adobe Standard"));
    assert!(search_dirs(Some(String::new()), None).is_empty());
}

#[test]
fn extensions_ignore_case() {
    assert!(is_dcp_extension("dcp"));
    assert!(is_dcp_extension("DCP"));
    assert!(!is_dcp_extension("icc"));
}

/// Normalizing twice changes nothing more.
#[test]
fn normalizing_twice_is_normalizing_once() {
    let once = normalize("  Sony \t ILCE-7M3 ");
    assert_eq!(normalize(&once), once);
    assert_eq!(once, normalize("SONY ilce-7m3"));
}

#[test]
fn a_normalized_name_keeps_its_letters_in_lower_case() {
    let normalized = normalize("  Leica\tQ2   MONO-Ä ");
    assert!(!normalized.contains(|c: char| c.is_ascii_uppercase()));
    let letters: String = normalized.chars().filter(|c| !c.is_whitespace()).collect();
    assert_eq!(letters, "leicaq2mono-Ä");
}
