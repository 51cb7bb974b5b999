//! Which profile a display has, and what it's called.

use prvw::color::display_profile::{
    describe_for_log, describe_icc, until_nul, usable_profile, MonitorId, MonitorTracker,
};
use prvw::color::transform::srgb_icc_bytes;

#[test]
fn a_generated_srgb_profile_is_usable() {
    let srgb = srgb_icc_bytes();
    assert_eq!(usable_profile(srgb.clone()), Some(srgb));
}

/// The Windows failure this guards: the registry names a profile file that isn't one, or is
/// half-written. Adopting it would make `transform_icc` skip the transform entirely, which
/// leaves the image further from right than sRGB would have.
#[test]
fn garbage_is_not_a_usable_profile() {
    assert_eq!(usable_profile(b"not an ICC profile at all".to_vec()), None);
}

#[test]
fn an_empty_file_is_not_a_usable_profile() {
    assert_eq!(usable_profile(Vec::new()), None);
}

#[test]
fn a_truncated_profile_is_not_usable() {
    let mut truncated = srgb_icc_bytes();
    truncated.truncate(truncated.len() / 2);
    assert_eq!(usable_profile(truncated), None);
}

#[test]
fn the_first_display_seen_is_always_a_change() {
    let mut tracker = MonitorTracker::new();
    assert!(tracker.moved_to(MonitorId(1)));
}

#[test]
fn staying_on_one_display_is_not_a_change() {
    let mut tracker = MonitorTracker::new();
    tracker.moved_to(MonitorId(7));
    // A title-bar drag sends one of these per mouse move.
    assert!(!tracker.moved_to(MonitorId(7)));
    assert!(!tracker.moved_to(MonitorId(7)));
}

#[test]
fn crossing_to_another_display_is_a_change() {
    let mut tracker = MonitorTracker::new();
    tracker.moved_to(MonitorId(7));
    assert!(tracker.moved_to(MonitorId(9)));
    assert!(!tracker.moved_to(MonitorId(9)));
    assert!(tracker.moved_to(MonitorId(7)));
}

/// `WM_DISPLAYCHANGE` can leave the same handle meaning a different monitor, or the same
/// monitor carrying a different profile, so a match after one proves nothing.
#[test]
fn forgetting_makes_the_same_display_count_as_a_change() {
    let mut tracker = MonitorTracker::new();
    tracker.moved_to(MonitorId(7));
    tracker.forget();
    assert!(tracker.moved_to(MonitorId(7)));
}

#[test]
fn a_wide_string_stops_at_its_terminator() {
    let buffer = [b'C' as u16, b':' as u16, 0, 0xDEAD, 0xBEEF];
    assert_eq!(until_nul(&buffer), &[b'C' as u16, b':' as u16]);
}

#[test]
fn a_wide_string_filled_to_capacity_keeps_every_unit() {
    let buffer = [b'C' as u16, b':' as u16];
    assert_eq!(until_nul(&buffer), &buffer);
}

#[test]
fn an_empty_buffer_is_an_empty_string() {
    assert!(until_nul(&[]).is_empty());
    assert!(until_nul(&[0]).is_empty());
}

/// `moxcms` writes ICC v4, so this is the `mluc` half of `describe_icc` against a profile that's
/// generated rather than written by hand.
#[test]
fn a_generated_srgb_profile_describes_itself() {
    assert_eq!(
        describe_icc(&srgb_icc_bytes()).as_deref(),
        Some("sRGB IEC61966-2.1")
    );
}

/// The ICC v2 spelling: Apple's display profiles and the `sRGB Color Space Profile.icm` that
/// Windows answers `GetICMProfileW` with when nothing is calibrated both use it.
#[test]
fn an_icc_v2_profile_describes_itself() {
    let profile = profile_with_desc_tag(&ascii_desc_tag("Display P3"));
    assert_eq!(describe_icc(&profile).as_deref(), Some("Display P3"));
}

#[test]
fn an_mluc_tag_prefers_american_english() {
    let tag = mluc_desc_tag(&[(*b"deDE", "Bildschirm"), (*b"enUS", "Display")]);
    let profile = profile_with_desc_tag(&tag);
    assert_eq!(describe_icc(&profile).as_deref(), Some("Display"));
}

/// A profile written for one locale still names the monitor, which is all a log line wants.
#[test]
fn an_mluc_tag_without_english_takes_the_first_record() {
    let tag = mluc_desc_tag(&[(*b"deDE", "Bildschirm")]);
    let profile = profile_with_desc_tag(&tag);
    assert_eq!(describe_icc(&profile).as_deref(), Some("Bildschirm"));
}

#[test]
fn a_profile_with_no_desc_tag_describes_nothing() {
    let profile = profile_with_tag(*b"wtpt", &ascii_desc_tag("not the tag we want"));
    assert_eq!(describe_icc(&profile), None);
}

/// A tag table that claims more entries than the file can hold is the shape a truncated
/// download takes, and it must not index past the end.
#[test]
fn a_lying_tag_table_describes_nothing() {
    let mut profile = profile_with_desc_tag(&ascii_desc_tag("Display P3"));
    profile[128..132].copy_from_slice(&10_000u32.to_be_bytes());
    assert_eq!(describe_icc(&profile), None);
}

#[test]
fn a_tag_that_overruns_the_profile_is_clamped_rather_than_panicking() {
    let mut profile = profile_with_desc_tag(&ascii_desc_tag("Display P3"));
    let size = profile.len() as u32;
    profile[140..144].copy_from_slice(&(size * 4).to_be_bytes());
    // Whatever comes back, the point is that it comes back.
    let _ = describe_icc(&profile);
}

#[test]
fn nothing_describable_logs_as_nothing() {
    assert_eq!(describe_for_log(b"too short"), "");
}

/// An ICC v2 `desc` tag: signature, four reserved bytes, the ASCII length including its NUL,
/// then the string.
fn ascii_desc_tag(text: &str) -> Vec<u8> {
    let mut tag = b"desc\0\0\0\0".to_vec();
    tag.extend_from_slice(&(text.len() as u32 + 1).to_be_bytes());
    tag.extend_from_slice(text.as_bytes());
    tag.push(0);
    tag
}

/// An ICC v4 `mluc` tag: signature, four reserved bytes, the record count and size, the
/// records, then the UTF-16BE strings they point at.
fn mluc_desc_tag(entries: &[([u8; 4], &str)]) -> Vec<u8> {
    const HEADER: usize = 16;
    const RECORD: usize = 12;
    let mut tag = b"mluc\0\0\0\0".to_vec();
    tag.extend_from_slice(&(entries.len() as u32).to_be_bytes());
    tag.extend_from_slice(&(RECORD as u32).to_be_bytes());
    let mut strings = Vec::new();
    for (locale, text) in entries {
        let utf16: Vec<u8> = text
            .encode_utf16()
            .flat_map(|unit| unit.to_be_bytes())
            .collect();
        tag.extend_from_slice(locale);
        tag.extend_from_slice(&(utf16.len() as u32).to_be_bytes());
        let offset = HEADER + entries.len() * RECORD + strings.len();
        tag.extend_from_slice(&(offset as u32).to_be_bytes());
        strings.extend_from_slice(&utf16);
    }
    tag.extend_from_slice(&strings);
    tag
}

fn profile_with_desc_tag(tag: &[u8]) -> Vec<u8> {
    profile_with_tag(*b"desc", tag)
}

/// The smallest thing `describe_icc` will read: a 128-byte header, a one-entry tag table, and
/// the tag itself.
fn profile_with_tag(signature: [u8; 4], tag: &[u8]) -> Vec<u8> {
    let mut profile = vec![0u8; 128];
    profile.extend_from_slice(&1u32.to_be_bytes());
    profile.extend_from_slice(&signature);
    profile.extend_from_slice(&144u32.to_be_bytes());
    profile.extend_from_slice(&(tag.len() as u32).to_be_bytes());
    profile.extend_from_slice(tag);
    profile
}
