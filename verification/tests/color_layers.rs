//! Lens corrections, filter samples and the Metal layer.

use prvw::color::lens_correction::{
    lensfun_db, loaded_database, match_lens, plan_passes, precheck, LensMatch, Pass, Skip,
};
use prvw::color::metal_layer::{
    edr_state, find_metal_layer, layer_color_space, LayerColorSpace, MetalLayer,
    MTL_PIXEL_FORMAT_BGRA8_UNORM_SRGB, MTL_PIXEL_FORMAT_RGBA16_FLOAT,
};
use prvw::color::raster::{bilinear_offsets, can_blur, clamp_index, holds_image, tap_index};

/// The database knows a common camera and a lens of its mount, whatever the case.
#[test]
fn a_common_camera_and_lens_are_found() {
    let db = lensfun_db().expect("the database loads");
    match match_lens(&db, "SONY", "ILCE-7M3", "FE 24-105mm f/4 G OSS") {
        LensMatch::Found { camera, lens } => {
            assert_eq!(camera.maker.to_lowercase(), "sony");
            assert!(lens.model.contains("24-105mm"), "{}", lens.model);
        }
        LensMatch::UnknownCamera => panic!("the camera is in the database"),
        LensMatch::UnknownLens => panic!("the lens is in the database"),
    }
}

#[test]
fn every_camera_and_lens_is_complete() {
    let db = lensfun_db().expect("the database loads");
    assert!(!db.cameras.is_empty());
    assert!(!db.lenses.is_empty());
    for camera in &db.cameras {
        assert!(!camera.maker.is_empty() && !camera.model.is_empty() && !camera.mount.is_empty());
    }
    for lens in &db.lenses {
        assert!(!lens.model.is_empty() && !lens.mounts.is_empty());
        assert!(lens.mounts.iter().all(|mount| !mount.is_empty()));
    }
}

#[test]
fn a_load_that_fails_leaves_no_database() {
    assert!(loaded_database(Err(lensfun::Error::NoMatch("gone".to_string()))).is_none());
    let mut db = lensfun::Database::new();
    db.load_str(
        "<lensdatabase version=\"2\"><camera><maker>Sony</maker><model>ILCE-7M3</model>\
         <mount>Sony E</mount><cropfactor>1</cropfactor></camera></lensdatabase>",
    )
    .expect("a camera loads");
    let db = loaded_database(Ok(db)).expect("the database stays");
    assert_eq!(db.cameras.len(), 1);
    assert_eq!(db.cameras[0].model, "ILCE-7M3");
}

#[test]
fn an_unknown_camera_or_lens_is_told_apart() {
    let db = lensfun_db().expect("the database loads");
    assert!(matches!(
        match_lens(&db, "Nobody", "ZZZ-99999", "FE 24-105mm f/4 G OSS"),
        LensMatch::UnknownCamera
    ));
    assert!(matches!(
        match_lens(&db, "SONY", "ILCE-7M3", "Quux 7-8mm f/0.1"),
        LensMatch::UnknownLens
    ));
}

#[test]
fn a_file_without_lens_data_is_skipped() {
    assert_eq!(precheck(12, 2, 2, "FE 28mm f/2", true, true), None);
    assert_eq!(
        precheck(11, 2, 2, "FE 28mm f/2", true, true),
        Some(Skip::BufferMismatch)
    );
    for (lens, focal, aperture) in [
        ("", true, true),
        ("FE 28mm f/2", false, true),
        ("FE 28mm f/2", true, false),
    ] {
        assert_eq!(
            precheck(12, 2, 2, lens, focal, aperture),
            Some(Skip::MissingMetadata)
        );
    }
}

/// Brightness first, then geometry, then the channels.
#[test]
fn passes_run_in_order() {
    assert_eq!(
        plan_passes(true, true, true),
        vec![Pass::Vignetting, Pass::Distortion, Pass::ChromaticAberration]
    );
    assert_eq!(plan_passes(false, true, false), vec![Pass::ChromaticAberration]);
    assert!(plan_passes(false, false, false).is_empty());
}

#[test]
fn buffers_are_checked_before_they_are_filtered() {
    assert!(holds_image(24, 4, 2, 3));
    assert!(!holds_image(23, 4, 2, 3));
    assert!(!holds_image(usize::MAX, u32::MAX, u32::MAX, 4));
    assert!(can_blur(24, 4, 2, 3));
    assert!(!can_blur(3, 1, 1, 3));
    assert!(!can_blur(0, 0, 2, 3));
}

#[test]
fn samples_stop_at_the_edge() {
    assert_eq!(clamp_index(-3, 5), 0);
    assert_eq!(clamp_index(2, 5), 2);
    assert_eq!(clamp_index(9, 5), 4);
    for (tap, expected) in [(0, 0), (1, 0), (2, 1), (3, 2), (4, 3)] {
        assert_eq!(tap_index(1, tap, 2, 4), expected);
    }
    assert_eq!(tap_index(3, 4, 2, 4), 3);
    assert_eq!(bilinear_offsets(3, 2, 0, 0), [0, 3, 9, 12]);
    assert_eq!(bilinear_offsets(3, 2, 2, 1), [15, 15, 15, 15]);
}

#[test]
fn the_metal_layer_is_the_one_that_takes_a_colour_space() {
    assert_eq!(find_metal_layer(true, None), MetalLayer::Own);
    assert_eq!(
        find_metal_layer(false, Some(&[false, true, true])),
        MetalLayer::Sublayer(1)
    );
    assert_eq!(find_metal_layer(false, Some(&[false])), MetalLayer::Missing);
    assert_eq!(find_metal_layer(false, None), MetalLayer::Missing);
}

#[test]
fn a_layer_is_told_three_things_that_agree() {
    let on = edr_state(true, b"icc");
    assert!(on.extended_range);
    assert_eq!(on.pixel_format, MTL_PIXEL_FORMAT_RGBA16_FLOAT);
    assert_eq!(on.color_space, LayerColorSpace::ExtendedLinearDisplayP3);
    let off = edr_state(false, b"icc");
    assert!(!off.extended_range);
    assert_eq!(off.pixel_format, MTL_PIXEL_FORMAT_BGRA8_UNORM_SRGB);
    assert_eq!(off.color_space, LayerColorSpace::DisplayIcc);
    assert_eq!(layer_color_space(false, &[]), LayerColorSpace::Unchanged);
}
