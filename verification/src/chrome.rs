//! What colour every Win32 window of the app paints, surface by surface.
//!
//! A Windows dialog has exactly two backgrounds: the window itself, and the inside of a field.
//! The message that asks for a colour doesn't say which is which, since a read-only edit control
//! sends the one that a label sends. So the control's class decides.
//!
//! Every colour the light theme paints is the system's, which is how a high-contrast scheme
//! comes through. Dark is the mirror image: Windows has no system colours for it, so every dark
//! value is a literal.

use crate::text::{ascii_lowered, eq_ignoring_ascii_case};
use vstd::prelude::*;

verus! {

/// Which way a window paints.
#[derive(Clone, Copy, Debug, PartialEq, Eq, Structural)]
pub enum Theme {
    Light,
    Dark,
}

/// The first build where `uxtheme` ordinal 135 is `SetPreferredAppMode(PreferredAppMode)` rather
/// than 17763's `AllowDarkModeForApp(BOOL)`.
pub const FIRST_DARK_MODE_BUILD: u32 = 18362;

/// Which theme a window should paint in, given the three things the system can tell.
///
/// `apps_use_light_theme` is `None` when the value isn't there at all, which is how a fresh
/// profile looks and means light.
pub fn theme_for(build: u32, apps_use_light_theme: Option<u32>, high_contrast: bool) -> (theme:
    Theme)
    ensures
        theme == Theme::Dark <==> !high_contrast && build >= FIRST_DARK_MODE_BUILD
            && apps_use_light_theme == Some(0u32),
        theme == Theme::Light || theme == Theme::Dark,
{
    if high_contrast || build < FIRST_DARK_MODE_BUILD {
        return Theme::Light;
    }
    match apps_use_light_theme {
        Some(0) => Theme::Dark,
        _ => Theme::Light,
    }
}

/// One of the two backgrounds a window has.
#[derive(Clone, Copy, Debug, PartialEq, Eq, Structural)]
pub enum Surface {
    /// The window, and everything drawn straight onto it: labels, checkbox and radio text, group
    /// boxes, trackbars, push buttons.
    Dialog,
    /// The inside of a field: an edit control or a list box.
    Field,
}

/// How loud a piece of text is.
#[derive(Clone, Copy, Debug, PartialEq, Eq, Structural)]
pub enum Ink {
    /// A label, a checkbox's text, a field's contents.
    Body,
    /// The grey line under a setting, and the number beside a trackbar.
    Secondary,
}

/// A system colour, named for the job it does rather than for its `COLOR_*` index.
#[derive(Clone, Copy, Debug, PartialEq, Eq, Structural)]
pub enum SystemColor {
    ButtonFace,
    ButtonText,
    Window,
    WindowText,
    GrayText,
}

/// Where a colour comes from.
#[derive(Clone, Copy, Debug, PartialEq, Eq, Structural)]
pub enum Color {
    /// Ask Windows, through `GetSysColor`. This is what carries a high-contrast scheme through.
    System(SystemColor),
    /// A literal `0x00BBGGRR`. Dark mode only: Windows has no system colours for it.
    Fixed(u32),
}

impl Theme {
    /// What a surface's background is filled with.
    pub open spec fn fill(self, surface: Surface) -> Color {
        match self {
            Theme::Light => Color::System(
                if surface == Surface::Dialog {
                    SystemColor::ButtonFace
                } else {
                    SystemColor::Window
                },
            ),
            Theme::Dark => Color::Fixed(
                if surface == Surface::Dialog {
                    0x0020_2020
                } else {
                    0x002B_2B2B
                },
            ),
        }
    }

    /// What a surface's background is filled with.
    ///
    /// The dark pair is Windows 11's own dialog grey and a field a shade lighter, rather than
    /// pure black: the dark control assets are drawn against that grey.
    pub fn background(self, surface: Surface) -> (color: Color)
        ensures
            color == self.fill(surface),
    {
        match (self, surface) {
            (Theme::Light, Surface::Dialog) => Color::System(SystemColor::ButtonFace),
            (Theme::Light, Surface::Field) => Color::System(SystemColor::Window),
            (Theme::Dark, Surface::Dialog) => Color::Fixed(0x0020_2020),
            (Theme::Dark, Surface::Field) => Color::Fixed(0x002B_2B2B),
        }
    }

    /// What text is coloured.
    pub open spec fn pen(self, surface: Surface, ink: Ink) -> Color {
        match self {
            Theme::Light => Color::System(
                if ink == Ink::Secondary {
                    SystemColor::GrayText
                } else if surface == Surface::Dialog {
                    SystemColor::ButtonText
                } else {
                    SystemColor::WindowText
                },
            ),
            Theme::Dark => Color::Fixed(
                if ink == Ink::Secondary {
                    0x00A0_A0A0
                } else {
                    0x00F0_F0F0
                },
            ),
        }
    }

    /// What text drawn on that surface is coloured.
    ///
    /// Body text differs by surface even in light, because a high-contrast scheme sets window
    /// text and button text separately and a field's contents follow the field.
    pub fn text(self, surface: Surface, ink: Ink) -> (color: Color)
        ensures
            color == self.pen(surface, ink),
    {
        match (self, ink, surface) {
            (Theme::Light, Ink::Body, Surface::Dialog) => Color::System(SystemColor::ButtonText),
            (Theme::Light, Ink::Body, Surface::Field) => Color::System(SystemColor::WindowText),
            (Theme::Light, Ink::Secondary, _) => Color::System(SystemColor::GrayText),
            (Theme::Dark, Ink::Body, _) => Color::Fixed(0x00F0_F0F0),
            (Theme::Dark, Ink::Secondary, _) => Color::Fixed(0x00A0_A0A0),
        }
    }
}

/// Whether a window class is that of a field. A combo box's drop-down list is a list box under
/// another name.
pub open spec fn is_field_class(class: Seq<char>) -> bool {
    let class = ascii_lowered(class);
    class == ascii_lowered("Edit"@) || class == ascii_lowered("ListBox"@) || class
        == ascii_lowered("ComboLBox"@)
}

/// Which surface a control of this window class sits on.
///
/// Class names are matched without regard to case, as Windows matches them. Anything
/// unrecognised sits on the window: a control painted the window's colour looks plain, where a
/// label painted the field's colour looks broken.
pub fn surface_for_class(class: &str) -> (surface: Surface)
    ensures
        surface == if is_field_class(class@) {
            Surface::Field
        } else {
            Surface::Dialog
        },
{
    if eq_ignoring_ascii_case(class, "Edit") || eq_ignoring_ascii_case(class, "ListBox")
        || eq_ignoring_ascii_case(class, "ComboLBox") {
        Surface::Field
    } else {
        Surface::Dialog
    }
}

// ----- legibility -----

/// One channel of a `0x00BBGGRR` colour: red, green and blue are 0, 1 and 2.
pub open spec fn level(color: u32, channel: int) -> int {
    if channel == 0 {
        color as int % 0x100
    } else if channel == 1 {
        color as int / 0x100 % 0x100
    } else {
        color as int / 0x1_0000 % 0x100
    }
}

/// The fifth power.
pub open spec fn to_the_fifth(x: int) -> int {
    x * (x * (x * (x * x)))
}

/// The third power.
pub open spec fn cubed(x: int) -> int {
    x * (x * x)
}

/// The twelfth power.
pub open spec fn to_the_twelfth(x: int) -> int {
    cubed(x) * (cubed(x) * (cubed(x) * cubed(x)))
}

/// Whether a channel at this level gives at least so many thousandths of its full light. WCAG's
/// curve is a line up to level 10 and the power 12/5 of `(level / 255 + 0.055) / 1.055` above it,
/// so the fifth power of the light is the twelfth power of that.
pub open spec fn gives_at_least(level: int, light: int) -> bool {
    if level <= 10 {
        light * 255 * 1292 <= level * 100 * 1000
    } else {
        to_the_fifth(light) * to_the_twelfth(10761) <= to_the_twelfth(40 * level + 561)
            * to_the_fifth(1000)
    }
}

/// Whether a channel at this level gives at most so many thousandths of its full light.
pub open spec fn gives_at_most(level: int, light: int) -> bool {
    if level <= 10 {
        light * 255 * 1292 >= level * 100 * 1000
    } else {
        to_the_fifth(light) * to_the_twelfth(10761) >= to_the_twelfth(40 * level + 561)
            * to_the_fifth(1000)
    }
}

/// WCAG's relative luminance, in ten-millionths, of what the three channels give in thousandths.
pub open spec fn luminance(red: int, green: int, blue: int) -> int {
    2126 * red + 7152 * green + 722 * blue
}

/// Whether a colour's relative luminance is at least so many ten-millionths.
pub open spec fn at_least_as_light(color: u32, parts: int) -> bool {
    exists|red: int, green: int, blue: int|
        {
            &&& #[trigger] luminance(red, green, blue) >= parts
            &&& gives_at_least(level(color, 0), red)
            &&& gives_at_least(level(color, 1), green)
            &&& gives_at_least(level(color, 2), blue)
        }
}

/// Whether a colour's relative luminance is at most so many ten-millionths.
pub open spec fn at_most_as_light(color: u32, parts: int) -> bool {
    exists|red: int, green: int, blue: int|
        {
            &&& #[trigger] luminance(red, green, blue) <= parts
            &&& gives_at_most(level(color, 0), red)
            &&& gives_at_most(level(color, 1), green)
            &&& gives_at_most(level(color, 2), blue)
        }
}

/// Whether light text has at least this contrast, in tenths, against a dark background: WCAG's
/// ratio of the two luminances, each raised by a twentieth of full light.
pub open spec fn stands_out(text: u32, background: u32, tenths: int) -> bool {
    exists|light: int, dark: int|
        {
            &&& #[trigger] at_least_as_light(text, light)
            &&& #[trigger] at_most_as_light(background, dark)
            &&& (light + 500_000) * 10 >= tenths * (dark + 500_000)
        }
}

// ----- laws -----

/// The light theme never names a colour: a literal anywhere in it would paint over a person's
/// accessibility scheme.
pub proof fn the_light_theme_asks_the_system(surface: Surface, ink: Ink)
    ensures
        Theme::Light.fill(surface) is System,
        Theme::Light.pen(surface, ink) is System,
{
}

/// The dark theme never asks the system, which would answer with the light scheme.
pub proof fn the_dark_theme_names_its_colours(surface: Surface, ink: Ink)
    ensures
        Theme::Dark.fill(surface) is Fixed,
        Theme::Dark.pen(surface, ink) is Fixed,
{
}

/// Text is coloured by how loud it is, and in the light theme body text by its surface too.
pub proof fn text_goes_with_its_surface(surface: Surface)
    ensures
        Theme::Light.pen(Surface::Dialog, Ink::Body) == Color::System(SystemColor::ButtonText),
        Theme::Light.pen(Surface::Field, Ink::Body) == Color::System(SystemColor::WindowText),
        Theme::Light.pen(surface, Ink::Secondary) == Color::System(SystemColor::GrayText),
        forall|ink: Ink|
            #[trigger] Theme::Dark.pen(surface, ink) == Theme::Dark.pen(Surface::Dialog, ink),
{
}

/// The powers that WCAG's curve is scaled by.
proof fn lemma_powers()
    ensures
        to_the_twelfth(10761) == 2_411_190_793_574_749_699_868_207_333_899_670_437_295_870_570_721int,
        to_the_fifth(1000) == 1_000_000_000_000_000int,
{
    assert(cubed(10761) == 1_246_114_341_081int);
    let c: int = 1_246_114_341_081;
    assert(c * (c * (c * c)) == 2_411_190_793_574_749_699_868_207_333_899_670_437_295_870_570_721int);
}

/// How light the dark theme's body text is at least.
proof fn lemma_body_is_light()
    ensures
        gives_at_least(0xf0, 870),
{
    lemma_powers();
    assert(to_the_fifth(870) == 498_420_920_700_000int);
    assert(cubed(10161) == 1_049_081_803_281int);
    assert(to_the_twelfth(10161) == 1_211_260_113_850_781_150_211_174_855_204_549_240_440_200_531_521int) by {
        let c: int = 1_049_081_803_281;
        assert(c * (c * (c * c)) == 1_211_260_113_850_781_150_211_174_855_204_549_240_440_200_531_521int);
    }
    assert(498_420_920_700_000int * 2_411_190_793_574_749_699_868_207_333_899_670_437_295_870_570_721int
        <= 1_211_260_113_850_781_150_211_174_855_204_549_240_440_200_531_521int * 1_000_000_000_000_000int);
}

/// How light its secondary text is at least.
proof fn lemma_secondary_is_light()
    ensures
        gives_at_least(0xa0, 351),
{
    lemma_powers();
    assert(to_the_fifth(351) == 5_327_648_726_751int);
    assert(cubed(6961) == 337_298_881_681int);
    assert(to_the_twelfth(6961) == 12_943_734_766_900_291_055_904_399_625_240_873_065_525_549_121int) by {
        let c: int = 337_298_881_681;
        assert(c * (c * (c * c)) == 12_943_734_766_900_291_055_904_399_625_240_873_065_525_549_121int);
    }
    assert(5_327_648_726_751int * 2_411_190_793_574_749_699_868_207_333_899_670_437_295_870_570_721int
        <= 12_943_734_766_900_291_055_904_399_625_240_873_065_525_549_121int * 1_000_000_000_000_000int);
}

/// How light its dialogs are at most.
proof fn lemma_dialog_is_dark()
    ensures
        gives_at_most(0x20, 15),
{
    lemma_powers();
    assert(to_the_fifth(15) == 759_375int);
    assert(cubed(1841) == 6_239_666_321int);
    assert(to_the_twelfth(1841) == 1_515_812_422_991_955_541_481_119_495_194_202_351_681int) by {
        let c: int = 6_239_666_321;
        assert(c * (c * (c * c)) == 1_515_812_422_991_955_541_481_119_495_194_202_351_681int);
    }
    assert(759_375int * 2_411_190_793_574_749_699_868_207_333_899_670_437_295_870_570_721int
        >= 1_515_812_422_991_955_541_481_119_495_194_202_351_681int * 1_000_000_000_000_000int);
}

/// How light its fields are at most.
proof fn lemma_field_is_dark()
    ensures
        gives_at_most(0x2b, 25),
{
    lemma_powers();
    assert(to_the_fifth(25) == 9_765_625int);
    assert(cubed(2281) == 11_867_954_041int);
    assert(to_the_twelfth(2281) == 19_838_252_942_481_985_608_409_625_286_427_009_361_761int) by {
        let c: int = 11_867_954_041;
        assert(c * (c * (c * c)) == 19_838_252_942_481_985_608_409_625_286_427_009_361_761int);
    }
    assert(9_765_625int * 2_411_190_793_574_749_699_868_207_333_899_670_437_295_870_570_721int
        >= 19_838_252_942_481_985_608_409_625_286_427_009_361_761int * 1_000_000_000_000_000int);
}

/// Every dark pair is legible: body text with a contrast of 7 at least, and the secondary line
/// with one of 4.5.
pub proof fn dark_text_is_legible(surface: Surface, ink: Ink)
    ensures
        Theme::Dark.pen(surface, ink) matches Color::Fixed(text) && Theme::Dark.fill(
            surface,
        ) matches Color::Fixed(background) && stands_out(
            text,
            background,
            if ink == Ink::Body {
                70
            } else {
                45
            },
        ),
{
    lemma_body_is_light();
    lemma_secondary_is_light();
    lemma_dialog_is_dark();
    lemma_field_is_dark();
    let text: u32 = if ink == Ink::Body {
        0x00F0_F0F0
    } else {
        0x00A0_A0A0
    };
    let background: u32 = if surface == Surface::Dialog {
        0x0020_2020
    } else {
        0x002B_2B2B
    };
    let light = if ink == Ink::Body {
        870int
    } else {
        351
    };
    let dark = if surface == Surface::Dialog {
        15int
    } else {
        25
    };
    assert(luminance(light, light, light) == light * 10_000);
    assert(luminance(dark, dark, dark) == dark * 10_000);
    assert(at_least_as_light(text, light * 10_000));
    assert(at_most_as_light(background, dark * 10_000));
}

/// A field has to read as a field, in both themes.
pub proof fn a_field_is_not_the_window(theme: Theme)
    ensures
        theme.fill(Surface::Field) != theme.fill(Surface::Dialog),
{
}

/// A class matches however it's spelled.
pub proof fn classes_ignore_case(a: Seq<char>, b: Seq<char>)
    requires
        ascii_lowered(a) == ascii_lowered(b),
    ensures
        is_field_class(a) == is_field_class(b),
{
}

/// Windows is dark exactly where apps are told not to use the light theme, no high-contrast
/// scheme is on, and the build is 18362 at least.
pub proof fn dark_needs_all_three(
    build: u32,
    light: Option<u32>,
    high_contrast: bool,
    theme: Theme,
)
    requires
        call_ensures(theme_for, (build, light, high_contrast), theme),
    ensures
        high_contrast ==> theme == Theme::Light,
        build < 18_362 ==> theme == Theme::Light,
        light is None ==> theme == Theme::Light,
        light is Some && light->0 != 0 ==> theme == Theme::Light,
        !high_contrast && build >= 18_362 && light is Some && light->0 == 0 ==> theme
            == Theme::Dark,
{
}

/// Each surface has its own colour in each theme.
pub proof fn surfaces_have_their_colours(theme: Theme, surface: Surface, color: Color)
    requires
        call_ensures(Theme::background, (theme, surface), color),
    ensures
        theme is Light && surface is Dialog ==> color == Color::System(SystemColor::ButtonFace),
        theme is Light && surface is Field ==> color == Color::System(SystemColor::Window),
        theme is Dark && surface is Dialog ==> color == Color::Fixed(0x20_20_20),
        theme is Dark && surface is Field ==> color == Color::Fixed(0x2b_2b_2b),
{
}

/// Each text has its own colour in each theme.
pub proof fn texts_have_their_colours(theme: Theme, surface: Surface, ink: Ink, color: Color)
    requires
        call_ensures(Theme::text, (theme, surface, ink), color),
    ensures
        theme is Light && ink is Body && surface is Dialog ==> color == Color::System(
            SystemColor::ButtonText,
        ),
        theme is Light && ink is Body && surface is Field ==> color == Color::System(
            SystemColor::WindowText,
        ),
        theme is Light && ink is Secondary ==> color == Color::System(SystemColor::GrayText),
        theme is Dark && ink is Body ==> color == Color::Fixed(0xf0_f0_f0),
        theme is Dark && ink is Secondary ==> color == Color::Fixed(0xa0_a0_a0),
{
}

/// The classes of the fields are those of edit controls, list boxes, and the lists of combo boxes,
/// in capitals or not.
pub proof fn fields_are_edits_and_lists(class: &str, surface: Surface)
    requires
        call_ensures(surface_for_class, (class,), surface),
    ensures
        surface is Field <==> ({
            ||| ascii_lowered(class@) == seq!['e', 'd', 'i', 't']
            ||| ascii_lowered(class@) == seq!['l', 'i', 's', 't', 'b', 'o', 'x']
            ||| ascii_lowered(class@) == seq!['c', 'o', 'm', 'b', 'o', 'l', 'b', 'o', 'x']
        }),
{
    reveal_strlit("Edit");
    reveal_strlit("ListBox");
    reveal_strlit("ComboLBox");
    assert(ascii_lowered("Edit"@) =~= seq!['e', 'd', 'i', 't']);
    assert(ascii_lowered("ListBox"@) =~= seq!['l', 'i', 's', 't', 'b', 'o', 'x']);
    assert(ascii_lowered("ComboLBox"@) =~= seq!['c', 'o', 'm', 'b', 'o', 'l', 'b', 'o', 'x']);
}

} // verus!
