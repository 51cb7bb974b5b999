//! The "Color" settings panel: ICC color management, display matching, rendering intent.

use super::Settings;
use vstd::prelude::*;

verus! {

/// One row of the panel: a switch, and the line under it.
#[derive(Debug, Clone, Copy, PartialEq, Eq)]
pub struct SettingRow {
    /// What the switch is called.
    pub title: &'static str,
    /// What it does.
    pub description: &'static str,
    /// Whether it's on.
    pub on: bool,
    /// Whether it can be switched.
    pub enabled: bool,
}

/// The panel's rows, top to bottom. Without color management there's nothing to match and no
/// intent to choose, so the other two can't be switched then.
pub fn setting_rows(settings: &Settings) -> (rows: [SettingRow; 3])
    ensures
        rows[0].title@ == "ICC color management"@,
        rows[1].title@ == "Color match display"@,
        rows[2].title@ == "Relative colorimetric"@,
        rows[0].description@
            == "Corrects colors in images that have an embedded color profile, like photos from professional cameras. Without this, some images \u{2014} especially those shot in Adobe RGB or ProPhoto \u{2014} can look washed out or have wrong colors."@,
        rows[1].description@
            == "Adapts colors to your specific display instead of assuming a standard sRGB screen. Different monitors reproduce colors differently, and this ensures you see the most accurate colors on yours. Makes the most difference on wide-gamut (P3) screens like MacBooks and Studio Displays."@,
        rows[2].description@
            == "Changes how colors outside your display\u{2019}s range are handled. By default, Prvw smoothly adjusts all colors to fit (perceptual). With this on, colors that your display can show stay pixel-perfect, but out-of-range colors get clipped. The difference is subtle \u{2014} photographers comparing specific color values may prefer this."@,
        rows[0].on == settings.icc_color_management,
        rows[1].on == settings.color_match_display,
        rows[2].on == settings.use_relative_colorimetric,
        rows[0].enabled,
        rows[1].enabled == settings.icc_color_management,
        rows[2].enabled == settings.icc_color_management,
{
    [
        SettingRow {
            title: "ICC color management",
            description:
                "Corrects colors in images that have an embedded color profile, like photos from professional cameras. Without this, some images \u{2014} especially those shot in Adobe RGB or ProPhoto \u{2014} can look washed out or have wrong colors.",
            on: settings.icc_color_management,
            enabled: true,
        },
        SettingRow {
            title: "Color match display",
            description:
                "Adapts colors to your specific display instead of assuming a standard sRGB screen. Different monitors reproduce colors differently, and this ensures you see the most accurate colors on yours. Makes the most difference on wide-gamut (P3) screens like MacBooks and Studio Displays.",
            on: settings.color_match_display,
            enabled: settings.icc_color_management,
        },
        SettingRow {
            title: "Relative colorimetric",
            description:
                "Changes how colors outside your display\u{2019}s range are handled. By default, Prvw smoothly adjusts all colors to fit (perceptual). With this on, colors that your display can show stay pixel-perfect, but out-of-range colors get clipped. The difference is subtle \u{2014} photographers comparing specific color values may prefer this.",
            on: settings.use_relative_colorimetric,
            enabled: settings.icc_color_management,
        },
    ]
}

// ----- laws -----

/// Each switch shows its own setting, and the second and third can be switched exactly where the
/// first is on.
pub proof fn switches_show_their_own_setting(settings: &Settings, rows: [SettingRow; 3])
    requires
        call_ensures(setting_rows, (settings,), rows),
    ensures
        rows[0].on <==> settings.icc_color_management,
        rows[1].on <==> settings.color_match_display,
        rows[2].on <==> settings.use_relative_colorimetric,
        rows[0].enabled,
        rows[1].enabled <==> rows[0].on,
        rows[2].enabled <==> rows[0].on,
{
}

} // verus!
