//! The profile inside a DNG.

use prvw::color::dcp::embedded::{from_dng_tags, TagValue};
use prvw::color::dcp::parser::{
    TAG_CALIBRATION_ILLUMINANT_1, TAG_CALIBRATION_ILLUMINANT_2, TAG_PROFILE_COPYRIGHT,
    TAG_PROFILE_HUE_SAT_MAP_DATA_1, TAG_PROFILE_HUE_SAT_MAP_DATA_2, TAG_PROFILE_HUE_SAT_MAP_DIMS,
    TAG_PROFILE_HUE_SAT_MAP_ENCODING, TAG_PROFILE_NAME, TAG_UNIQUE_CAMERA_MODEL,
};
use std::collections::HashMap;

fn bits(values: &[f32]) -> Vec<u32> {
    values.iter().map(|value| value.to_bits()).collect()
}

fn rounded(values: &[f64]) -> Vec<u32> {
    values.iter().map(|value| (*value as f32).to_bits()).collect()
}

fn identity_map_data(hue_divs: u32, sat_divs: u32, val_divs: u32) -> Vec<f32> {
    let entries = (hue_divs * sat_divs * val_divs) as usize;
    let mut data = Vec::with_capacity(entries * 3);
    for _ in 0..entries {
        data.push(0.0); // hue shift degrees
        data.push(1.0); // sat scale
        data.push(1.0); // val scale
    }
    data
}

/// Insert the minimum viable profile (dims + one data map) into a
/// fresh tag map. Handy for the happy-path tests below.
fn minimal_tag_map(hue_divs: u32, sat_divs: u32, val_divs: u32) -> HashMap<u16, TagValue> {
    let mut map = HashMap::new();
    map.insert(
        TAG_PROFILE_HUE_SAT_MAP_DIMS,
        TagValue::Long(vec![hue_divs, sat_divs, val_divs]),
    );
    map.insert(
        TAG_PROFILE_HUE_SAT_MAP_DATA_1,
        TagValue::Float(bits(&identity_map_data(hue_divs, sat_divs, val_divs))),
    );
    map
}

#[test]
fn returns_none_when_dims_missing() {
    let mut map = HashMap::new();
    map.insert(
        TAG_PROFILE_HUE_SAT_MAP_DATA_1,
        TagValue::Float(bits(&[0.0, 1.0, 1.0])),
    );
    assert!(from_dng_tags(&map).is_none());
}

#[test]
fn returns_none_when_both_data_maps_missing() {
    let mut map = HashMap::new();
    map.insert(TAG_PROFILE_HUE_SAT_MAP_DIMS, TagValue::Long(vec![2, 2, 1]));
    assert!(from_dng_tags(&map).is_none());
}

#[test]
fn reads_minimal_profile_from_data_1() {
    let tags = minimal_tag_map(2, 2, 1);
    let dcp = from_dng_tags(&tags).expect("should parse minimal profile");
    assert!(dcp.hue_sat_map_1.is_some(), "data_1 should be populated");
    assert!(dcp.hue_sat_map_2.is_none());
    let map = dcp.hue_sat_map_1.unwrap();
    assert_eq!((map.hue_divs, map.sat_divs, map.val_divs), (2, 2, 1));
    assert_eq!(map.data.len(), 2 * 2 * 3);
    assert_eq!(dcp.hue_sat_map_encoding, 0, "defaults to linear encoding");
}

#[test]
fn reads_only_data_2_when_data_1_missing() {
    // Some DNGs ship only the D65 slot in `Data2`; make sure the
    // single-slot case works either way.
    let mut tags = HashMap::new();
    tags.insert(TAG_PROFILE_HUE_SAT_MAP_DIMS, TagValue::Long(vec![2, 2, 1]));
    tags.insert(
        TAG_PROFILE_HUE_SAT_MAP_DATA_2,
        TagValue::Float(bits(&identity_map_data(2, 2, 1))),
    );
    let dcp = from_dng_tags(&tags).expect("should parse profile with only Data2");
    assert!(dcp.hue_sat_map_1.is_none());
    assert!(dcp.hue_sat_map_2.is_some());
}

#[test]
fn missing_illuminant_leaves_it_none_but_still_parses() {
    let tags = minimal_tag_map(2, 2, 1);
    let dcp = from_dng_tags(&tags).expect("should still produce a Dcp");
    assert!(dcp.calibration_illuminant_1.is_none());
    assert!(dcp.calibration_illuminant_2.is_none());
    // `pick_hue_sat_map` must still return something — it defers to
    // the first populated map when no D65 illuminant is specified.
    assert!(dcp.pick_hue_sat_map().is_some());
}

#[test]
fn reads_full_metadata_including_strings() {
    let mut tags = minimal_tag_map(2, 2, 1);
    tags.insert(
        TAG_UNIQUE_CAMERA_MODEL,
        TagValue::Ascii(vec!["Google Pixel 6 Pro".to_string()]),
    );
    tags.insert(
        TAG_PROFILE_NAME,
        TagValue::Ascii(vec!["Google Embedded Camera Profile".to_string()]),
    );
    tags.insert(
        TAG_PROFILE_COPYRIGHT,
        TagValue::Ascii(vec!["Copyright 2021 Google LLC".to_string()]),
    );
    tags.insert(TAG_CALIBRATION_ILLUMINANT_1, TagValue::Short(vec![17]));
    tags.insert(TAG_CALIBRATION_ILLUMINANT_2, TagValue::Short(vec![21]));
    tags.insert(TAG_PROFILE_HUE_SAT_MAP_ENCODING, TagValue::Long(vec![1]));
    // Add Data2 too so the pick-map logic has a choice.
    tags.insert(
        TAG_PROFILE_HUE_SAT_MAP_DATA_2,
        TagValue::Float(bits(&identity_map_data(2, 2, 1))),
    );

    let dcp = from_dng_tags(&tags).expect("should parse");
    assert_eq!(
        dcp.unique_camera_model.as_deref(),
        Some("Google Pixel 6 Pro")
    );
    assert_eq!(
        dcp.profile_name.as_deref(),
        Some("Google Embedded Camera Profile")
    );
    assert_eq!(
        dcp.profile_copyright.as_deref(),
        Some("Copyright 2021 Google LLC")
    );
    assert_eq!(dcp.calibration_illuminant_1, Some(17));
    assert_eq!(dcp.calibration_illuminant_2, Some(21));
    assert_eq!(dcp.hue_sat_map_encoding, 1);
    // With illuminant 2 = D65, pick_hue_sat_map prefers map 2.
    let picked = dcp.pick_hue_sat_map().expect("picked");
    assert!(std::ptr::eq(picked, dcp.hue_sat_map_2.as_ref().unwrap()));
}

#[test]
fn rejects_size_mismatch_between_dims_and_data() {
    // dims say 2×2×1 → 12 floats; supply only 3 → parse declines.
    let mut tags = HashMap::new();
    tags.insert(TAG_PROFILE_HUE_SAT_MAP_DIMS, TagValue::Long(vec![2, 2, 1]));
    tags.insert(
        TAG_PROFILE_HUE_SAT_MAP_DATA_1,
        TagValue::Float(bits(&[0.0, 1.0, 1.0])),
    );
    assert!(from_dng_tags(&tags).is_none());
}

#[test]
fn accepts_double_payload_as_fallback() {
    // Spec calls for f32 but a liberal reader accepts f64 payloads too.
    let mut tags = HashMap::new();
    tags.insert(TAG_PROFILE_HUE_SAT_MAP_DIMS, TagValue::Long(vec![2, 2, 1]));
    let doubles: Vec<f64> = identity_map_data(2, 2, 1)
        .iter()
        .map(|&f| f as f64)
        .collect();
    tags.insert(TAG_PROFILE_HUE_SAT_MAP_DATA_1, TagValue::Double(rounded(&doubles)));
    let dcp = from_dng_tags(&tags).expect("f64 payload should be accepted");
    assert_eq!(dcp.hue_sat_map_1.as_ref().unwrap().data.len(), 12);
}

/// A tag of another type than the one it should have counts as missing.
#[test]
fn a_tag_of_the_wrong_type_is_no_tag() {
    let mut tags = minimal_tag_map(2, 2, 1);
    tags.insert(TAG_PROFILE_HUE_SAT_MAP_DIMS, TagValue::Other);
    assert!(from_dng_tags(&tags).is_none());
    tags.insert(TAG_PROFILE_HUE_SAT_MAP_DIMS, TagValue::Short(vec![2, 2, 1]));
    assert!(from_dng_tags(&tags).is_some());
}
