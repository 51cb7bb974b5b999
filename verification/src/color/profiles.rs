//! The wide-gamut profiles that pixels pass through.

use super::display_profile::{
    be_units, clamped_end, desc_signature, english_record, icc_name, mluc_signature, number_at,
    tag_of, unicode_name,
};
use super::transform::{icc_parses, is_icc_file};
use crate::bytes::{be16s, be32, be_u32, big_endian_numbers_read_back};
use crate::paths::is_ascii_text;
use crate::text::{utf16, utf16_lossy, utf16_round_trips, without_padding};
use vstd::prelude::*;

verus! {

/// What linear values above white mean to the compositor.
#[derive(Debug, Clone, Copy, PartialEq, Eq, Structural)]
pub enum HdrDisplaySpace {
    /// Linear Display P3: what the macOS layer is set to.
    LinearDisplayP3,
    /// Linear BT.709, also called scRGB: the one space that a floating-point DXGI swapchain has.
    LinearSrgb,
}

impl HdrDisplaySpace {
    /// The space for a host. Linux goes with Windows.
    pub fn for_host(macos: bool) -> (space: Self)
        ensures
            space == (if macos {
                HdrDisplaySpace::LinearDisplayP3
            } else {
                HdrDisplaySpace::LinearSrgb
            }),
    {
        if macos {
            HdrDisplaySpace::LinearDisplayP3
        } else {
            HdrDisplaySpace::LinearSrgb
        }
    }
}

/// What the linear Rec.2020 profile is called.
pub const LINEAR_REC2020_NAME: &'static str = "Linear Rec.2020 (Prvw)";

/// ASCII characters as bytes.
pub open spec fn ascii_bytes(s: Seq<char>) -> Seq<u8> {
    Seq::new(s.len(), |i: int| (s[i] as u32) as u8)
}

/// A description tag with one record: the type, the record's locale, length and place, and the
/// text in UTF-16.
pub open spec fn description_tag(language: Seq<char>, country: Seq<char>, name: Seq<char>) -> Seq<
    u8,
> {
    mluc_signature() + be32(0) + be32(1) + be32(12) + ascii_bytes(language) + ascii_bytes(country)
        + be32((utf16(name).len() * 2) as u32) + be32(28) + be16s(utf16(name))
}

/// A curve tag: the type, the number of points, and the points.
pub open spec fn curve_tag(points: Seq<u16>) -> Seq<u8> {
    seq![0x63u8, 0x75u8, 0x72u8, 0x76u8] + be32(0) + be32(points.len() as u32) + be16s(points)
}

/// `rTRC`, `gTRC` and `bTRC`: the curves of the three channels.
pub open spec fn curve_signatures() -> Seq<Seq<u8>> {
    seq![
        seq![0x72u8, 0x54u8, 0x52u8, 0x43u8],
        seq![0x67u8, 0x54u8, 0x52u8, 0x43u8],
        seq![0x62u8, 0x54u8, 0x52u8, 0x43u8],
    ]
}

/// Whether each channel of a profile has this curve.
pub open spec fn has_curves(icc: Seq<u8>, points: Seq<u16>) -> bool {
    &&& tag_of(icc, curve_signatures()[0]) == Some(curve_tag(points))
    &&& tag_of(icc, curve_signatures()[1]) == Some(curve_tag(points))
    &&& tag_of(icc, curve_signatures()[2]) == Some(curve_tag(points))
}

/// `rXYZ`, `gXYZ` and `bXYZ`: the primaries of the three channels.
pub open spec fn primary_signatures() -> Seq<Seq<u8>> {
    seq![
        seq![0x72u8, 0x58u8, 0x59u8, 0x5au8],
        seq![0x67u8, 0x58u8, 0x59u8, 0x5au8],
        seq![0x62u8, 0x58u8, 0x59u8, 0x5au8],
    ]
}

/// Whether a tag holds one XYZ colour: the type and three numbers.
pub open spec fn is_xyz_tag(tag: Option<Seq<u8>>) -> bool {
    tag matches Some(tag) && tag.len() == 20 && tag.take(8) == seq![
        0x58u8,
        0x59u8,
        0x5au8,
        0x20u8,
        0,
        0,
        0,
        0,
    ]
}

/// Whether each channel of a profile has a primary.
pub open spec fn has_primaries(icc: Seq<u8>) -> bool {
    &&& is_xyz_tag(tag_of(icc, primary_signatures()[0]))
    &&& is_xyz_tag(tag_of(icc, primary_signatures()[1]))
    &&& is_xyz_tag(tag_of(icc, primary_signatures()[2]))
}

/// `moxcms::ColorProfile::new_bt2020`, with its curves replaced and its description set, then
/// encoded: a profile file that `moxcms` parses, with that curve and a primary in each channel and
/// that description. Which numbers the primaries are is left unsaid: they're rounded from floating
/// point. Its bytes hold the time at which it was made, so two calls may
/// differ.
#[verifier::external_body]
fn encode_rec2020(curve: Vec<u16>, locale: (&str, &str), name: &str) -> (bytes: Vec<u8>)
    requires
        curve@.len() <= 40_000,
        locale.0@.len() == 2 && is_ascii_text(locale.0@),
        locale.1@.len() == 2 && is_ascii_text(locale.1@),
        name@.len() <= 1_000 && is_ascii_text(name@),
    ensures
        is_icc_file(bytes@),
        icc_parses(bytes@),
        has_curves(bytes@, curve@),
        has_primaries(bytes@),
        tag_of(bytes@, desc_signature()) == Some(description_tag(locale.0@, locale.1@, name@)),
{
    let mut profile = moxcms::ColorProfile::new_bt2020();
    profile.red_trc = Some(moxcms::ToneReprCurve::Lut(curve.clone()));
    profile.green_trc = Some(moxcms::ToneReprCurve::Lut(curve.clone()));
    profile.blue_trc = Some(moxcms::ToneReprCurve::Lut(curve));
    let text = moxcms::LocalizableString::new(locale.0.into(), locale.1.into(), name.into());
    profile.description = Some(moxcms::ProfileText::Localizable(vec![text]));
    profile.encode().expect("the profile encodes")
}

/// The linear Rec.2020 profile as a file. An empty curve is the straight line.
pub fn linear_rec2020_icc_bytes() -> (bytes: Vec<u8>)
    ensures
        is_icc_file(bytes@),
        icc_parses(bytes@),
        has_curves(bytes@, Seq::empty()),
        has_primaries(bytes@),
        icc_name(bytes@) == Some("Linear Rec.2020 (Prvw)"@),
{
    proof {
        reveal_strlit("Linear Rec.2020 (Prvw)");
        reveal_strlit("en");
        reveal_strlit("US");
    }
    let curve: Vec<u16> = Vec::new();
    let bytes: Vec<u8> = encode_rec2020(curve, ("en", "US"), LINEAR_REC2020_NAME);
    proof {
        assert(curve@ =~= Seq::empty());
        lemma_utf16_len("Linear Rec.2020 (Prvw)"@);
        descriptions_read_back(bytes@, "en"@, "US"@, "Linear Rec.2020 (Prvw)"@);
    }
    bytes
}

// ----- laws -----

/// A text takes two UTF-16 units for a character at most.
proof fn lemma_utf16_len(s: Seq<char>)
    ensures
        utf16(s).len() <= s.len() * 2,
    decreases s.len(),
{
    if s.len() > 0 {
        lemma_utf16_len(s.drop_last());
    }
}

/// A profile is called what its description was set to.
pub proof fn descriptions_read_back(
    icc: Seq<u8>,
    language: Seq<char>,
    country: Seq<char>,
    name: Seq<char>,
)
    requires
        language.len() == 2,
        country.len() == 2,
        utf16(name).len() * 2 <= u32::MAX,
        without_padding(name) == name,
        tag_of(icc, desc_signature()) == Some(description_tag(language, country, name)),
    ensures
        icc_name(icc) == Some(name),
{
    let tag = description_tag(language, country, name);
    let units = utf16(name);
    let text = be16s(units);
    assert(tag.len() == 28 + text.len());
    assert(tag.take(4) =~= mluc_signature());
    assert(mluc_signature()[0] != desc_signature()[0]);
    assert(tag[8] == 0 && tag[9] == 0 && tag[10] == 0 && tag[11] == 1);
    assert(tag[12] == 0 && tag[13] == 0 && tag[14] == 0 && tag[15] == 12);
    let front = mluc_signature() + be32(0) + be32(1) + be32(12) + ascii_bytes(language)
        + ascii_bytes(country);
    let length = (units.len() * 2) as u32;
    big_endian_numbers_read_back(front, length, be32(28) + text);
    assert(front + be32(length) + (be32(28) + text) =~= tag);
    assert(be_u32(tag, 20) == length);
    assert(tag[24] == 0 && tag[25] == 0 && tag[26] == 0 && tag[27] == 28);
    assert(be_u32(tag, 24) == 28);
    assert(tag.subrange(28, 28 + length) =~= text);
    assert(be_units(text) =~= units) by {
        assert forall|i: int| 0 <= i < units.len() implies be_units(text)[i] == units[i] by {
            assert(text[i * 2] == (units[i] / 0x100) as u8);
            assert(text[i * 2 + 1] == (units[i] % 0x100) as u8);
        }
    }
    reveal_with_fuel(english_record, 2);
    assert(english_record(tag, 0, 1, 12) == 16);
    utf16_round_trips(name);
    assert(be_u32(tag, 8) == 1 && be_u32(tag, 12) == 12);
    assert(number_at(tag, 12) is Some);
    assert(clamped_end(tag, 28, length as int) == 28 + length);
    assert(unicode_name(tag) == Some(without_padding(utf16_lossy(be_units(text)))));
    assert(tag.take(4)[0] != desc_signature()[0]);
    assert(icc_name(icc) == unicode_name(tag));
}

/// Light above white means Display P3 on macOS and BT.709 elsewhere.
pub proof fn hosts_have_their_own_space(macos: bool, space: HdrDisplaySpace)
    requires
        call_ensures(HdrDisplaySpace::for_host, (macos,), space),
    ensures
        macos <==> space is LinearDisplayP3,
        !macos <==> space is LinearSrgb,
{
}

} // verus!
