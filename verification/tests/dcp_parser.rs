//! Reading camera profiles.

use prvw::color::dcp::parser::{
    parse, Dcp, HueSatMap, ParseError, TAG_CALIBRATION_ILLUMINANT_1,
    TAG_PROFILE_HUE_SAT_MAP_DATA_1, TAG_PROFILE_HUE_SAT_MAP_DIMS, TAG_PROFILE_LOOK_TABLE_DATA,
    TAG_PROFILE_LOOK_TABLE_DIMS, TAG_PROFILE_NAME, TAG_PROFILE_TONE_CURVE, TAG_UNIQUE_CAMERA_MODEL,
    TYPE_ASCII, TYPE_FLOAT, TYPE_LONG, TYPE_SHORT,
};

fn bits(values: &[f32]) -> Vec<u32> {
    values.iter().map(|value| value.to_bits()).collect()
}

fn triple(a: f32, b: f32, c: f32) -> (u32, u32, u32) {
    (a.to_bits(), b.to_bits(), c.to_bits())
}

/// Build a minimal DCP with a single hue/sat map. Handy for unit tests.
/// Returns `(bytes, unique_camera_model)`.
///
/// Layout:
/// - header (8 B)
/// - IFD count (2 B) + entries
/// - out-of-line payload (ASCII strings, dims, f32 data)
fn build_minimal_dcp(
    unique_model: &str,
    hue_divs: u32,
    sat_divs: u32,
    val_divs: u32,
    data: &[f32],
    illuminant: u16,
) -> Vec<u8> {
    assert_eq!(
        data.len(),
        (hue_divs * sat_divs * val_divs * 3) as usize,
        "data length must match dims"
    );

    // Compute offsets up front. Start of IFD = 8. IFD has 5 entries
    // (UniqueCameraModel, CalibrationIlluminant1, ProfileHueSatMapDims,
    // ProfileHueSatMapData1, ProfileName), plus 4-byte next-IFD
    // terminator. Entries = 5 × 12 = 60 bytes, plus 2 count, plus 4
    // next-IFD = 66. First out-of-line payload sits at offset 8 + 66 = 74.
    let num_entries: u16 = 5;
    let ifd_end = 8 + 2 + (num_entries as usize) * 12 + 4;

    let ucm_bytes = {
        let mut v = unique_model.as_bytes().to_vec();
        v.push(0);
        v
    };
    let ucm_offset = ifd_end;
    let ucm_count = ucm_bytes.len();

    let profile_name = "Test Profile";
    let pn_bytes = {
        let mut v = profile_name.as_bytes().to_vec();
        v.push(0);
        v
    };
    let pn_offset = ucm_offset + ucm_count;
    let pn_count = pn_bytes.len();

    let dims_offset = pn_offset + pn_count;
    let dims_bytes: Vec<u8> = [hue_divs, sat_divs, val_divs]
        .iter()
        .flat_map(|v| v.to_le_bytes().to_vec())
        .collect();

    let data_offset = dims_offset + 12;
    let data_bytes: Vec<u8> = data.iter().flat_map(|f| f.to_le_bytes().to_vec()).collect();

    let total_len = data_offset + data_bytes.len();
    let mut out = vec![0u8; total_len];
    out[0..4].copy_from_slice(b"IIRC");
    out[4..8].copy_from_slice(&8u32.to_le_bytes());

    // How many entries
    out[8..10].copy_from_slice(&num_entries.to_le_bytes());

    // Entry 0: UniqueCameraModel, ASCII
    let mut eo = 10;
    write_entry(
        &mut out,
        eo,
        TAG_UNIQUE_CAMERA_MODEL,
        TYPE_ASCII,
        ucm_count as u32,
        ucm_offset as u32,
    );
    eo += 12;
    // Entry 1: ProfileName, ASCII
    write_entry(
        &mut out,
        eo,
        TAG_PROFILE_NAME,
        TYPE_ASCII,
        pn_count as u32,
        pn_offset as u32,
    );
    eo += 12;
    // Entry 2: CalibrationIlluminant1, SHORT (inline)
    let mut inline = [0u8; 4];
    inline[0..2].copy_from_slice(&illuminant.to_le_bytes());
    write_entry_inline(
        &mut out,
        eo,
        TAG_CALIBRATION_ILLUMINANT_1,
        TYPE_SHORT,
        1,
        inline,
    );
    eo += 12;
    // Entry 3: ProfileHueSatMapDims, LONG (3 values, out-of-line)
    write_entry(
        &mut out,
        eo,
        TAG_PROFILE_HUE_SAT_MAP_DIMS,
        TYPE_LONG,
        3,
        dims_offset as u32,
    );
    eo += 12;
    // Entry 4: ProfileHueSatMapData1, FLOAT
    write_entry(
        &mut out,
        eo,
        TAG_PROFILE_HUE_SAT_MAP_DATA_1,
        TYPE_FLOAT,
        data.len() as u32,
        data_offset as u32,
    );

    // Payload
    out[ucm_offset..ucm_offset + ucm_count].copy_from_slice(&ucm_bytes);
    out[pn_offset..pn_offset + pn_count].copy_from_slice(&pn_bytes);
    out[dims_offset..dims_offset + 12].copy_from_slice(&dims_bytes);
    out[data_offset..data_offset + data_bytes.len()].copy_from_slice(&data_bytes);

    out
}

fn write_entry(
    out: &mut [u8],
    eo: usize,
    tag: u16,
    typ: u16,
    count: u32,
    value_or_offset: u32,
) {
    out[eo..eo + 2].copy_from_slice(&tag.to_le_bytes());
    out[eo + 2..eo + 4].copy_from_slice(&typ.to_le_bytes());
    out[eo + 4..eo + 8].copy_from_slice(&count.to_le_bytes());
    out[eo + 8..eo + 12].copy_from_slice(&value_or_offset.to_le_bytes());
}

fn write_entry_inline(
    out: &mut [u8],
    eo: usize,
    tag: u16,
    typ: u16,
    count: u32,
    inline: [u8; 4],
) {
    out[eo..eo + 2].copy_from_slice(&tag.to_le_bytes());
    out[eo + 2..eo + 4].copy_from_slice(&typ.to_le_bytes());
    out[eo + 4..eo + 8].copy_from_slice(&count.to_le_bytes());
    out[eo + 8..eo + 12].copy_from_slice(&inline);
}

#[test]
fn rejects_too_short() {
    assert!(matches!(parse(&[]), Err(ParseError::TooShort)));
    assert!(matches!(parse(&[0u8; 5]), Err(ParseError::TooShort)));
}

#[test]
fn rejects_bad_magic() {
    let mut bytes = vec![0u8; 32];
    bytes[0..4].copy_from_slice(b"II\x2a\x00"); // plain TIFF magic, not DCP
    assert!(matches!(parse(&bytes), Err(ParseError::BadMagic)));
}

#[test]
fn rejects_bad_ifd_offset() {
    let mut bytes = vec![0u8; 16];
    bytes[0..4].copy_from_slice(b"IIRC");
    bytes[4..8].copy_from_slice(&1_000_000u32.to_le_bytes());
    assert!(matches!(parse(&bytes), Err(ParseError::BadIfdOffset)));
}

#[test]
fn parses_minimal_dcp() {
    // 2×2×1 identity-ish HSM: hue_shift=0, sat_scale=1, val_scale=1 for
    // every entry.
    let data = vec![0.0, 1.0, 1.0, 0.0, 1.0, 1.0, 0.0, 1.0, 1.0, 0.0, 1.0, 1.0];
    let bytes = build_minimal_dcp("Test Camera", 2, 2, 1, &data, 21);
    let dcp = parse(&bytes).expect("parse should succeed");
    assert_eq!(dcp.unique_camera_model.as_deref(), Some("Test Camera"));
    assert_eq!(dcp.profile_name.as_deref(), Some("Test Profile"));
    assert_eq!(dcp.calibration_illuminant_1, Some(21));
    let map = dcp.hue_sat_map_1.expect("HueSatMap1 should be present");
    assert_eq!(map.hue_divs, 2);
    assert_eq!(map.sat_divs, 2);
    assert_eq!(map.val_divs, 1);
    assert_eq!(map.data, bits(&data));
}

#[test]
fn pick_hue_sat_map_prefers_d65() {
    // Map 1 on Standard Light A (17), map 2 on D65 (21) -> pick map 2.
    let dcp = Dcp {
        unique_camera_model: None,
        profile_name: None,
        profile_copyright: None,
        profile_calibration_signature: None,
        calibration_illuminant_1: Some(17),
        calibration_illuminant_2: Some(21),
        hue_sat_map_1: Some(HueSatMap {
            hue_divs: 1,
            sat_divs: 1,
            val_divs: 1,
            data: bits(&[10.0, 2.0, 2.0]), // distinctive
        }),
        hue_sat_map_2: Some(HueSatMap {
            hue_divs: 1,
            sat_divs: 1,
            val_divs: 1,
            data: bits(&[20.0, 3.0, 3.0]), // distinctive
        }),
        hue_sat_map_encoding: 0,
        look_table: None,
        look_table_encoding: 0,
        tone_curve: None,
    };
    let picked = dcp.pick_hue_sat_map().expect("should pick one");
    assert_eq!(picked.data, bits(&[20.0, 3.0, 3.0]));
}

#[test]
fn pick_hue_sat_map_falls_back_to_single() {
    let dcp = Dcp {
        unique_camera_model: None,
        profile_name: None,
        profile_copyright: None,
        profile_calibration_signature: None,
        calibration_illuminant_1: Some(17),
        calibration_illuminant_2: None,
        hue_sat_map_1: Some(HueSatMap {
            hue_divs: 1,
            sat_divs: 1,
            val_divs: 1,
            data: bits(&[5.0, 1.5, 1.5]),
        }),
        hue_sat_map_2: None,
        hue_sat_map_encoding: 0,
        look_table: None,
        look_table_encoding: 0,
        tone_curve: None,
    };
    let picked = dcp.pick_hue_sat_map().expect("should pick map 1");
    assert_eq!(picked.data, bits(&[5.0, 1.5, 1.5]));
}

/// Build a DCP that includes optional `ProfileLookTable*` and
/// `ProfileToneCurve` alongside the required HueSatMap. Shares its IFD
/// scaffolding with [`build_minimal_dcp`] but adds three more entries.
fn build_dcp_with_look_and_curve(
    hsm_dims: [u32; 3],
    hsm_data: &[f32],
    look_dims: [u32; 3],
    look_data: &[f32],
    curve_points: &[(f32, f32)],
) -> Vec<u8> {
    // Seven entries: UniqueCameraModel, ProfileName, HSM dims, HSM data
    // 1, LookTable dims, LookTable data, ToneCurve.
    let num_entries: u16 = 7;
    let ifd_end = 8 + 2 + (num_entries as usize) * 12 + 4;

    let ucm_bytes = b"Test Camera\0".to_vec();
    let ucm_offset = ifd_end;
    let ucm_count = ucm_bytes.len();

    let pn_bytes = b"Test Profile\0".to_vec();
    let pn_offset = ucm_offset + ucm_count;
    let pn_count = pn_bytes.len();

    let dims_offset = pn_offset + pn_count;
    let dims_bytes: Vec<u8> = hsm_dims
        .iter()
        .flat_map(|v| v.to_le_bytes().to_vec())
        .collect();

    let hsm_data_offset = dims_offset + 12;
    let hsm_data_bytes: Vec<u8> = hsm_data
        .iter()
        .flat_map(|f| f.to_le_bytes().to_vec())
        .collect();

    let look_dims_offset = hsm_data_offset + hsm_data_bytes.len();
    let look_dims_bytes: Vec<u8> = look_dims
        .iter()
        .flat_map(|v| v.to_le_bytes().to_vec())
        .collect();

    let look_data_offset = look_dims_offset + 12;
    let look_data_bytes: Vec<u8> = look_data
        .iter()
        .flat_map(|f| f.to_le_bytes().to_vec())
        .collect();

    let curve_offset = look_data_offset + look_data_bytes.len();
    let curve_floats: Vec<f32> = curve_points.iter().flat_map(|(x, y)| [*x, *y]).collect();
    let curve_bytes: Vec<u8> = curve_floats
        .iter()
        .flat_map(|f| f.to_le_bytes().to_vec())
        .collect();

    let total_len = curve_offset + curve_bytes.len();
    let mut out = vec![0u8; total_len];
    out[0..4].copy_from_slice(b"IIRC");
    out[4..8].copy_from_slice(&8u32.to_le_bytes());
    out[8..10].copy_from_slice(&num_entries.to_le_bytes());

    let mut eo = 10;
    write_entry(
        &mut out,
        eo,
        TAG_UNIQUE_CAMERA_MODEL,
        TYPE_ASCII,
        ucm_count as u32,
        ucm_offset as u32,
    );
    eo += 12;
    write_entry(
        &mut out,
        eo,
        TAG_PROFILE_NAME,
        TYPE_ASCII,
        pn_count as u32,
        pn_offset as u32,
    );
    eo += 12;
    write_entry(
        &mut out,
        eo,
        TAG_PROFILE_HUE_SAT_MAP_DIMS,
        TYPE_LONG,
        3,
        dims_offset as u32,
    );
    eo += 12;
    write_entry(
        &mut out,
        eo,
        TAG_PROFILE_HUE_SAT_MAP_DATA_1,
        TYPE_FLOAT,
        hsm_data.len() as u32,
        hsm_data_offset as u32,
    );
    eo += 12;
    write_entry(
        &mut out,
        eo,
        TAG_PROFILE_LOOK_TABLE_DIMS,
        TYPE_LONG,
        3,
        look_dims_offset as u32,
    );
    eo += 12;
    write_entry(
        &mut out,
        eo,
        TAG_PROFILE_LOOK_TABLE_DATA,
        TYPE_FLOAT,
        look_data.len() as u32,
        look_data_offset as u32,
    );
    eo += 12;
    write_entry(
        &mut out,
        eo,
        TAG_PROFILE_TONE_CURVE,
        TYPE_FLOAT,
        curve_floats.len() as u32,
        curve_offset as u32,
    );

    out[ucm_offset..ucm_offset + ucm_count].copy_from_slice(&ucm_bytes);
    out[pn_offset..pn_offset + pn_count].copy_from_slice(&pn_bytes);
    out[dims_offset..dims_offset + 12].copy_from_slice(&dims_bytes);
    out[hsm_data_offset..hsm_data_offset + hsm_data_bytes.len()]
        .copy_from_slice(&hsm_data_bytes);
    out[look_dims_offset..look_dims_offset + 12].copy_from_slice(&look_dims_bytes);
    out[look_data_offset..look_data_offset + look_data_bytes.len()]
        .copy_from_slice(&look_data_bytes);
    out[curve_offset..curve_offset + curve_bytes.len()].copy_from_slice(&curve_bytes);

    out
}

#[test]
fn parses_dcp_with_look_table_and_tone_curve() {
    let hsm_data = vec![
        0.0_f32, 1.0, 1.0, 0.0, 1.0, 1.0, 0.0, 1.0, 1.0, 0.0, 1.0, 1.0,
    ];
    let look_data = vec![
        5.0_f32, 1.2, 1.0, 5.0, 1.2, 1.0, 5.0, 1.2, 1.0, 5.0, 1.2, 1.0,
    ];
    let curve = vec![(0.0, 0.0), (0.5, 0.45), (1.0, 1.0)];
    let bytes =
        build_dcp_with_look_and_curve([2, 2, 1], &hsm_data, [2, 2, 1], &look_data, &curve);
    let dcp = parse(&bytes).expect("parse should succeed");
    // HueSatMap still there.
    let hsm = dcp.hue_sat_map_1.expect("hsm present");
    assert_eq!((hsm.hue_divs, hsm.sat_divs, hsm.val_divs), (2, 2, 1));
    // LookTable carried through.
    let look = dcp.look_table.expect("look present");
    assert_eq!((look.hue_divs, look.sat_divs, look.val_divs), (2, 2, 1));
    assert_eq!(look.data, bits(&look_data));
    // ToneCurve carried through.
    let tc = dcp.tone_curve.expect("tone curve present");
    let points: Vec<(u32, u32)> = curve
        .iter()
        .map(|(x, y): &(f32, f32)| (x.to_bits(), y.to_bits()))
        .collect();
    assert_eq!(tc, points);
}

#[test]
fn rejects_implausible_entry_count() {
    let mut bytes = vec![0u8; 16];
    bytes[0..4].copy_from_slice(b"IIRC");
    bytes[4..8].copy_from_slice(&8u32.to_le_bytes());
    // Claim 30_000 entries in an 8-byte remaining buffer.
    bytes[8..10].copy_from_slice(&30_000u16.to_le_bytes());
    assert!(matches!(
        parse(&bytes),
        Err(ParseError::ImplausibleEntryCount)
    ));
}

#[test]
fn huesat_map_sample_at_corners() {
    // 2×2×1 map where each corner is distinct.
    let data = vec![
        1.0, 1.1, 1.2, // (h=0, s=0, v=0)
        2.0, 2.1, 2.2, // (h=0, s=1, v=0)
        3.0, 3.1, 3.2, // (h=1, s=0, v=0)
        4.0, 4.1, 4.2, // (h=1, s=1, v=0)
    ];
    let m = HueSatMap {
        hue_divs: 2,
        sat_divs: 2,
        val_divs: 1,
        data: bits(&data),
    };
    assert_eq!(m.sample(0, 0, 0), triple(1.0, 1.1, 1.2));
    assert_eq!(m.sample(0, 1, 0), triple(2.0, 2.1, 2.2));
    assert_eq!(m.sample(1, 0, 0), triple(3.0, 3.1, 3.2));
    assert_eq!(m.sample(1, 1, 0), triple(4.0, 4.1, 4.2));
}

/// A text that starts outside the file, and dimensions that don't fit their data.
#[test]
fn refuses_payloads_that_do_not_fit() {
    let data = [0.0, 1.0, 1.0];
    let mut outside = build_minimal_dcp("Test Camera", 1, 1, 1, &data, 21);
    // The offset of the first entry's payload.
    outside[18..22].copy_from_slice(&1_000_000u32.to_le_bytes());
    assert!(matches!(
        parse(&outside),
        Err(ParseError::BadEntryOffset { tag: 0 })
    ));

    let mut mismatch = build_minimal_dcp("Test Camera", 1, 1, 1, &data, 21);
    // The dimensions stand right before the three floats.
    let dims = mismatch.len() - 12 - 12;
    mismatch[dims] = 2;
    assert!(matches!(parse(&mismatch), Err(ParseError::BadHueSatMap)));
}

/// Every way a file can be refused says so in words.
#[test]
fn refusals_have_a_message() {
    assert_eq!(ParseError::TooShort.message(), "file too short to be a DCP");
    assert_eq!(ParseError::BadMagic.message(), "missing `IIRC` magic");
    assert_eq!(
        ParseError::BadIfdOffset.message(),
        "IFD offset points outside buffer"
    );
    assert_eq!(
        ParseError::BadEntryOffset { tag: 0xc614 }.message(),
        "entry data out of bounds for tag 0xc614"
    );
    assert_eq!(
        ParseError::BadHueSatMap.message(),
        "hue/sat map dimensions or payload malformed"
    );
    assert_eq!(
        ParseError::ImplausibleEntryCount.message(),
        "implausible IFD entry count"
    );
    assert_eq!(
        ParseError::BadToneCurve.message(),
        "tone curve payload overflows"
    );
}

/// A name that isn't UTF-8 is read as far as it can be.
#[test]
fn a_name_that_is_not_utf8_is_read_anyway() {
    let mut bytes = build_minimal_dcp("Test Camera", 1, 1, 1, &[0.0, 1.0, 1.0], 21);
    // The first byte of the camera's name.
    bytes[74] = 0xff;
    let dcp = parse(&bytes).expect("parse should succeed");
    assert_eq!(
        dcp.unique_camera_model.as_deref(),
        Some("\u{fffd}est Camera")
    );
}
