//! Colour management: ICC profiles, displays and camera profiles.

use vstd::prelude::*;

pub mod dcp;
pub mod display_profile;
pub mod lens_correction;
pub mod metal_layer;
pub mod profiles;
pub mod raster;
pub mod settings_panel;
pub mod transform;

verus! {

/// The colour settings.
#[derive(Debug, Clone, Copy, PartialEq, Eq, Structural)]
pub struct Settings {
    pub icc_color_management: bool,
    pub color_match_display: bool,
    pub use_relative_colorimetric: bool,
}

/// The state of colour management while the viewer runs.
#[derive(Debug, Clone)]
pub struct State {
    /// Whether pixels are converted at all.
    pub icc_enabled: bool,
    /// Whether they're converted to the display's profile or to sRGB.
    pub match_display: bool,
    /// Relative colorimetric intent, or perceptual.
    pub relative_col: bool,
    /// The profile to convert to: sRGB until a display is detected.
    pub display_icc: Vec<u8>,
}

impl State {
    /// The state that the settings ask for, before any display was seen. `srgb_icc` is the sRGB
    /// profile that the whole process shares: profiles are told apart by their bytes, and those of
    /// one that's made anew differ by the time in them.
    pub fn from_settings(settings: &Settings, srgb_icc: Vec<u8>) -> (state: Self)
        ensures
            state.icc_enabled == settings.icc_color_management,
            state.match_display == settings.color_match_display,
            state.relative_col == settings.use_relative_colorimetric,
            state.display_icc == srgb_icc,
    {
        State {
            icc_enabled: settings.icc_color_management,
            match_display: settings.color_match_display,
            relative_col: settings.use_relative_colorimetric,
            display_icc: srgb_icc,
        }
    }
}

/// Each setting goes to its own place in the state, and the profile is the one that was given.
pub proof fn settings_go_to_their_place(settings: &Settings, srgb_icc: Vec<u8>, state: State)
    requires
        call_ensures(State::from_settings, (settings, srgb_icc), state),
    ensures
        state.icc_enabled <==> settings.icc_color_management,
        state.match_display <==> settings.color_match_display,
        state.relative_col <==> settings.use_relative_colorimetric,
        state.display_icc@ == srgb_icc@,
{
}

} // verus!
