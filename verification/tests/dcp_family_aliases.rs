//! Cameras that stand in for each other.

use prvw::color::dcp::discovery::normalize;
use prvw::color::dcp::family_aliases::{aliases_for, family_aliases, FamilyAlias};

#[test]
fn aliases_for_known_camera_returns_nonempty() {
    let a = aliases_for("Sony ILCE-5000");
    assert!(!a.is_empty(), "ILCE-5000 should have aliases");
    assert!(
        a.iter()
            .any(|s| normalize(s) == normalize("Sony ILCE-6000")),
        "ILCE-5000 alias list should include ILCE-6000"
    );
}

#[test]
fn aliases_for_unknown_camera_returns_empty() {
    let a = aliases_for("NoSuch Camera ZZZ-9999");
    assert!(a.is_empty());
}

#[test]
fn aliases_for_is_case_and_space_insensitive() {
    // Same camera, different case / extra space.
    let a1 = aliases_for("Sony ILCE-5000");
    let a2 = aliases_for("SONY ilce-5000");
    let a3 = aliases_for("sony  ILCE-5000 ");
    assert_eq!(a1.len(), a2.len());
    assert_eq!(a1.len(), a3.len());
}

#[test]
fn all_alias_entries_have_at_least_one_alias() {
    for FamilyAlias { camera: key, aliases } in family_aliases() {
        assert!(
            !aliases.is_empty(),
            "FAMILY_ALIASES entry for '{key}' has an empty alias list"
        );
    }
}
