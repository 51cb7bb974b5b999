//! The profiles that ship with the viewer.

use prvw::color::dcp::bundled::{
    bundled_count, decompressed_blob, find_bundled_dcp, find_in_bundle, parse_index, BundleError,
};
use prvw::color::dcp::discovery::normalize;
use prvw::color::dcp::{find_applicable, find_profile};

/// A profile with one 1x1x1 map, for a camera of this name.
fn tiny_dcp(camera: &str) -> Vec<u8> {
    let mut name = camera.as_bytes().to_vec();
    name.push(0);
    let payload = 8 + 2 + 3 * 12 + 4;
    let mut out = b"IIRC".to_vec();
    out.extend_from_slice(&8u32.to_le_bytes());
    out.extend_from_slice(&3u16.to_le_bytes());
    let dims = payload + name.len();
    let data = dims + 12;
    for (tag, kind, count, at) in [
        (50708u16, 2u16, name.len(), payload),
        (50937, 4, 3, dims),
        (50938, 11, 3, data),
    ] {
        out.extend_from_slice(&tag.to_le_bytes());
        out.extend_from_slice(&kind.to_le_bytes());
        out.extend_from_slice(&(count as u32).to_le_bytes());
        out.extend_from_slice(&(at as u32).to_le_bytes());
    }
    out.extend_from_slice(&0u32.to_le_bytes());
    out.extend_from_slice(&name);
    for dim in [1u32, 1, 1] {
        out.extend_from_slice(&dim.to_le_bytes());
    }
    for value in [0.0f32, 1.0, 1.0] {
        out.extend_from_slice(&value.to_le_bytes());
    }
    out
}

/// A collection of 161 profiles, the size of the one that ships: its index, and its files end to
/// end.
fn collection() -> (Vec<u8>, Vec<u8>) {
    let mut names: Vec<String> = (0..160).map(|i| format!("Maker Model-{i}")).collect();
    names.push("SONY ILCE-7M3".to_string());
    let mut index = String::new();
    let mut blob = Vec::new();
    for name in names {
        let file = tiny_dcp(&name);
        index.push_str(&format!("{name}.dcp\t{}\t{}\n", blob.len(), file.len()));
        blob.extend_from_slice(&file);
    }
    (index.into_bytes(), blob)
}

fn compressed(blob: &[u8]) -> Vec<u8> {
    zstd::bulk::compress(blob, 3).expect("compresses")
}

#[test]
fn bundled_count_is_nonzero() {
    let (index, _) = collection();
    assert!(bundled_count(&index) > 0, "bundled DCP count should be > 0");
}

#[test]
fn bundled_count_matches_build_assets() {
    let (index, _) = collection();
    let count = bundled_count(&index);
    assert!(
        count >= 100,
        "expected at least 100 bundled DCPs, got {count}"
    );
    assert_eq!(count, 161);
}

#[test]
fn find_bundled_dcp_returns_known_camera() {
    let (index, blob) = collection();
    let dcp = find_bundled_dcp("SONY ILCE-7M3", &index, &compressed(&blob)).expect("decompresses");
    assert!(
        dcp.is_some(),
        "expected a bundled DCP for 'SONY ILCE-7M3'"
    );
    let dcp = dcp.unwrap();
    let model = dcp.unique_camera_model.as_deref().unwrap_or("");
    assert_eq!(
        normalize(model),
        normalize("SONY ILCE-7M3"),
        "profile's UniqueCameraModel should normalize to 'sony ilce-7m3'"
    );
}

#[test]
fn find_bundled_dcp_returns_none_for_unknown_camera() {
    let (index, blob) = collection();
    assert!(
        find_bundled_dcp("NoSuch Camera XZY-99999", &index, &compressed(&blob))
            .expect("decompresses")
            .is_none(),
        "should return None for an unknown camera"
    );
}

#[test]
fn a_bundle_that_does_not_decompress_is_an_error() {
    let (index, _) = collection();
    assert_eq!(
        find_bundled_dcp("SONY ILCE-7M3", &index, b"not zstd").err(),
        Some(BundleError::Corrupt)
    );
    // A camera without a name is answered before the bundle is touched.
    assert!(matches!(
        find_bundled_dcp("  ", &index, b"not zstd"),
        Ok(None)
    ));
}

#[test]
fn an_index_line_names_a_file() {
    let entries = parse_index(b"a.dcp\t0\t10\r\nb.dcp\t+10\t20\nnothing\n\t1\t2\nzero.dcp\t1\t0\n");
    let named: Vec<(&str, usize, usize)> = entries
        .iter()
        .map(|entry| (entry.name.as_str(), entry.offset, entry.length))
        .collect();
    assert_eq!(named, vec![("a.dcp", 0, 10), ("b.dcp", 10, 20)]);
    assert_eq!(bundled_count(&[0xff, 0xfe]), 0);
}

/// An entry that points outside the bundle is passed over.
#[test]
fn a_file_outside_the_bundle_is_passed_over() {
    let file = tiny_dcp("Test Camera");
    let index = format!("outside.dcp\t{}\t10\ninside.dcp\t0\t{}\n", file.len(), file.len());
    let found = find_in_bundle("test camera", index.as_bytes(), &file).expect("the second one");
    assert_eq!(found.unique_camera_model.as_deref(), Some("Test Camera"));
}

/// The disk goes before the bundle, and a camera's own profile before a stand-in's.
#[test]
fn profiles_are_searched_in_order() {
    let own = tiny_dcp("Sony ILCE-5000");
    let other = tiny_dcp("Sony ILCE-6000");
    let index = format!("6000.dcp\t0\t{}\n", other.len());
    // ILCE-6000 stands in for ILCE-5000.
    let found = find_profile("Sony ILCE-5000", &Vec::new(), index.as_bytes(), &other)
        .expect("a stand-in");
    assert_eq!(found.unique_camera_model.as_deref(), Some("Sony ILCE-6000"));
    let found = find_applicable("Sony ILCE-5000", &vec![own], index.as_bytes(), &other)
        .expect("its own");
    assert_eq!(found.unique_camera_model.as_deref(), Some("Sony ILCE-5000"));
    assert!(find_profile("Nobody 1", &Vec::new(), index.as_bytes(), &other).is_none());
    assert!(find_applicable(" ", &Vec::new(), index.as_bytes(), &other).is_none());
}

#[test]
fn a_bundle_decompresses_to_its_files() {
    let (_, blob) = collection();
    assert_eq!(decompressed_blob(&compressed(&blob)), Ok(blob));
    assert_eq!(decompressed_blob(&[1, 2, 3]), Err(BundleError::Corrupt));
}
