//! What colour a window paints.

use prvw::chrome::{surface_for_class, theme_for, Color, Ink, Surface, Theme};

const THEMES: [Theme; 2] = [Theme::Light, Theme::Dark];
const SURFACES: [Surface; 2] = [Surface::Dialog, Surface::Field];
const INKS: [Ink; 2] = [Ink::Body, Ink::Secondary];

/// High contrast is an accessibility setting and it beats everything, including an explicit
/// dark preference on a build that could honour it.
#[test]
fn high_contrast_stays_light() {
    assert_eq!(theme_for(22631, Some(0), true), Theme::Light);
    assert_eq!(theme_for(19045, Some(0), true), Theme::Light);
}

/// 19045 is the oldest build that Prvw runs on, and it gets dark mode.
#[test]
fn the_support_floor_gets_dark_mode() {
    assert_eq!(theme_for(19045, Some(0), false), Theme::Dark);
    assert_eq!(theme_for(19045, Some(1), false), Theme::Light);
}

/// Below 18362 the ordinal means something else, so we don't touch it.
#[test]
fn older_builds_stay_light_whatever_the_preference() {
    assert_eq!(theme_for(17763, Some(0), false), Theme::Light);
    assert_eq!(theme_for(0, Some(0), false), Theme::Light);
}

/// A profile that never set the value is a light profile.
#[test]
fn a_missing_preference_means_light() {
    assert_eq!(theme_for(22631, None, false), Theme::Light);
}

/// The whole reason this decision hangs off the class rather than off the message: a
/// read-only edit sends `WM_CTLCOLORSTATIC`, so answering the message paints the file-type
/// list and the DCP folder field with the window's own colour instead of a field's.
#[test]
fn a_read_only_edit_is_still_a_field() {
    assert_eq!(surface_for_class("Edit"), Surface::Field);
    assert_eq!(surface_for_class("ListBox"), Surface::Field);
}

/// Window classes are case-insensitive, and `GetClassNameW` gives back whatever spelling the
/// class was registered with.
#[test]
fn a_class_matches_however_its_spelled() {
    assert_eq!(surface_for_class("EDIT"), Surface::Field);
    assert_eq!(surface_for_class("edit"), Surface::Field);
}

/// Every other control the settings dialog and the About box create, plus the dialog itself,
/// which is what `WM_CTLCOLORDLG` hands over.
#[test]
fn everything_else_sits_on_the_window() {
    for class in [
        "Static",
        "Button",
        "msctls_trackbar32",
        "SysTabControl32",
        "SysLink",
        "#32770",
        "",
    ] {
        assert_eq!(surface_for_class(class), Surface::Dialog, "{class}");
    }
}

/// The high-contrast guarantee, as an invariant rather than as a promise in a comment: a
/// literal anywhere in the light theme would paint over a person's accessibility scheme.
#[test]
fn the_light_theme_never_names_a_colour() {
    for surface in SURFACES {
        assert!(matches!(Theme::Light.background(surface), Color::System(_)));
        for ink in INKS {
            assert!(matches!(Theme::Light.text(surface, ink), Color::System(_)));
        }
    }
}

/// The mirror image. A system colour in the dark theme would come back light, because
/// `GetSysColor` answers with the light scheme whatever the app is painting.
#[test]
fn the_dark_theme_never_asks_the_system() {
    for surface in SURFACES {
        assert!(matches!(Theme::Dark.background(surface), Color::Fixed(_)));
        for ink in INKS {
            assert!(matches!(Theme::Dark.text(surface, ink), Color::Fixed(_)));
        }
    }
}

/// A field has to read as a field. Light gets this from the system; dark is ours to keep.
#[test]
fn a_dark_field_is_not_the_dark_window() {
    assert_ne!(
        Theme::Dark.background(Surface::Dialog),
        Theme::Dark.background(Surface::Field)
    );
}

/// Every dark pair clears WCAG AA for body text and AA-large for the secondary line.
#[test]
fn dark_text_is_legible_on_its_own_background() {
    for surface in SURFACES {
        let background = fixed(Theme::Dark.background(surface));
        for ink in INKS {
            let text = fixed(Theme::Dark.text(surface, ink));
            let floor = match ink {
                Ink::Body => 7.0,
                Ink::Secondary => 4.5,
            };
            let ratio = contrast(text, background);
            assert!(ratio >= floor, "{surface:?}/{ink:?} is only {ratio:.1}:1");
        }
    }
}

/// Both themes answer for every surface and ink. A `match` arm that got missed would be a
/// compile error, so this is really a guard on the sweeps above covering the whole table.
#[test]
fn every_surface_and_ink_has_an_answer_in_both_themes() {
    let mut answers = Vec::new();
    for theme in THEMES {
        for surface in SURFACES {
            answers.push(theme.background(surface));
            for ink in INKS {
                answers.push(theme.text(surface, ink));
            }
        }
    }
    assert_eq!(answers.len(), 2 * 2 * 3);
}

fn fixed(color: Color) -> u32 {
    match color {
        Color::Fixed(value) => value,
        Color::System(system) => panic!("{system:?} isn't a literal"),
    }
}

/// WCAG 2.1 relative luminance, over a `0x00BBGGRR` `COLORREF`.
fn luminance(color: u32) -> f64 {
    let channel = |shift: u32| {
        let value = f64::from((color >> shift) & 0xFF) / 255.0;
        if value <= 0.039_28 {
            value / 12.92
        } else {
            ((value + 0.055) / 1.055).powf(2.4)
        }
    };
    0.2126 * channel(0) + 0.7152 * channel(8) + 0.0722 * channel(16)
}

fn contrast(one: u32, other: u32) -> f64 {
    let (one, other) = (luminance(one), luminance(other));
    (one.max(other) + 0.05) / (one.min(other) + 0.05)
}
