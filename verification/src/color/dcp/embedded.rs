//! The profile inside a DNG.
//!
//! A DNG carries the tags of a profile in its main directory. The application reads them; what
//! they add up to is decided here.

use super::parser::{
    map_len, map_view, text_view, Dcp, DcpView, HueSatMap, HueSatMapView,
    TAG_CALIBRATION_ILLUMINANT_1, TAG_CALIBRATION_ILLUMINANT_2, TAG_PROFILE_CALIBRATION_SIGNATURE,
    TAG_PROFILE_COPYRIGHT, TAG_PROFILE_HUE_SAT_MAP_DATA_1, TAG_PROFILE_HUE_SAT_MAP_DATA_2,
    TAG_PROFILE_HUE_SAT_MAP_DIMS, TAG_PROFILE_HUE_SAT_MAP_ENCODING, TAG_PROFILE_NAME,
    TAG_UNIQUE_CAMERA_MODEL,
};
use crate::text::{
    chars_of, string_of, trim, trim_nuls, trimmed, without_trailing_nuls,
};
use std::collections::HashMap;
use vstd::prelude::*;

verus! {

/// The value of a TIFF tag, as far as a profile needs it.
#[derive(Debug, Clone, PartialEq, Eq)]
pub enum TagValue {
    Byte(Vec<u8>),
    Ascii(Vec<String>),
    Short(Vec<u16>),
    Long(Vec<u32>),
    /// 32-bit floats, as their bits.
    Float(Vec<u32>),
    /// 64-bit floats rounded to 32 bits, as the bits of those.
    Double(Vec<u32>),
    /// Any other type.
    Other,
}

/// The value under a tag.
pub open spec fn tag_value(tags: Map<u16, TagValue>, tag: u16) -> Option<TagValue> {
    if tags.dom().contains(tag) {
        Some(tags[tag])
    } else {
        None
    }
}

/// The dimensions of the maps: three numbers or more.
pub open spec fn dims_of(value: Option<TagValue>) -> Option<(u32, u32, u32)> {
    match value {
        Some(TagValue::Long(v)) => if v.len() >= 3 {
            Some((v[0], v[1], v[2]))
        } else {
            None
        },
        Some(TagValue::Short(v)) => if v.len() >= 3 {
            Some((v[0] as u32, v[1] as u32, v[2] as u32))
        } else {
            None
        },
        _ => None,
    }
}

/// A payload of exactly `expected` floats.
pub open spec fn floats_of(value: Option<TagValue>, expected: int) -> Option<Seq<u32>> {
    match value {
        Some(TagValue::Float(v)) => if v.len() == expected {
            Some(v@)
        } else {
            None
        },
        Some(TagValue::Double(v)) => if v.len() == expected {
            Some(v@)
        } else {
            None
        },
        _ => None,
    }
}

/// The first number of a tag.
pub open spec fn u32_of(value: Option<TagValue>) -> Option<u32> {
    match value {
        Some(TagValue::Long(v)) => if v.len() > 0 {
            Some(v[0])
        } else {
            None
        },
        Some(TagValue::Short(v)) => if v.len() > 0 {
            Some(v[0] as u32)
        } else {
            None
        },
        Some(TagValue::Byte(v)) => if v.len() > 0 {
            Some(v[0] as u32)
        } else {
            None
        },
        _ => None,
    }
}

/// The first number of a tag, the low 16 bits of it where it's wider.
pub open spec fn u16_of(value: Option<TagValue>) -> Option<u16> {
    match value {
        Some(TagValue::Short(v)) => if v.len() > 0 {
            Some(v[0])
        } else {
            None
        },
        Some(TagValue::Long(v)) => if v.len() > 0 {
            Some((v[0] % 0x1_0000) as u16)
        } else {
            None
        },
        _ => None,
    }
}

/// The first text of a tag without the NULs at its end and the white space around it. A blank
/// text is none.
pub open spec fn text_of(value: Option<TagValue>) -> Option<Seq<char>> {
    match value {
        Some(TagValue::Ascii(v)) => if v.len() > 0 && trimmed(without_trailing_nuls(v[0]@)).len()
            > 0 {
            Some(trimmed(without_trailing_nuls(v[0]@)))
        } else {
            None
        },
        _ => None,
    }
}

/// A map of these dimensions, where the tag holds its floats.
pub open spec fn map_of(value: Option<TagValue>, dims: (u32, u32, u32), expected: int) -> Option<
    HueSatMapView,
> {
    match floats_of(value, expected) {
        Some(data) => Some(
            HueSatMapView { hue_divs: dims.0, sat_divs: dims.1, val_divs: dims.2, data },
        ),
        None => None,
    }
}

/// The profile that a DNG's tags add up to: `None` without dimensions or without any map of
/// that size.
pub open spec fn embedded_profile(tags: Map<u16, TagValue>) -> Option<DcpView> {
    match dims_of(tag_value(tags, TAG_PROFILE_HUE_SAT_MAP_DIMS)) {
        None => None,
        Some(dims) => match map_len(dims) {
            None => None,
            Some(expected) => {
                let map_1 = map_of(
                    tag_value(tags, TAG_PROFILE_HUE_SAT_MAP_DATA_1),
                    dims,
                    expected,
                );
                let map_2 = map_of(
                    tag_value(tags, TAG_PROFILE_HUE_SAT_MAP_DATA_2),
                    dims,
                    expected,
                );
                if map_1 is None && map_2 is None {
                    None
                } else {
                    Some(
                        DcpView {
                            unique_camera_model: text_of(tag_value(tags, TAG_UNIQUE_CAMERA_MODEL)),
                            profile_name: text_of(tag_value(tags, TAG_PROFILE_NAME)),
                            profile_copyright: text_of(tag_value(tags, TAG_PROFILE_COPYRIGHT)),
                            profile_calibration_signature: text_of(
                                tag_value(tags, TAG_PROFILE_CALIBRATION_SIGNATURE),
                            ),
                            calibration_illuminant_1: u16_of(
                                tag_value(tags, TAG_CALIBRATION_ILLUMINANT_1),
                            ),
                            calibration_illuminant_2: u16_of(
                                tag_value(tags, TAG_CALIBRATION_ILLUMINANT_2),
                            ),
                            hue_sat_map_1: map_1,
                            hue_sat_map_2: map_2,
                            hue_sat_map_encoding: match u32_of(
                                tag_value(tags, TAG_PROFILE_HUE_SAT_MAP_ENCODING),
                            ) {
                                Some(encoding) => encoding,
                                None => 0,
                            },
                            look_table: None,
                            look_table_encoding: 0,
                            tone_curve: None,
                        },
                    )
                }
            },
        },
    }
}

/// The value behind an optional reference to one.
pub open spec fn referenced(value: Option<&TagValue>) -> Option<TagValue> {
    match value {
        Some(value) => Some(*value),
        None => None,
    }
}

/// Reads the dimensions of the maps.
pub fn dims_from_tag(value: Option<&TagValue>) -> (dims: Option<(u32, u32, u32)>)
    ensures
        dims == dims_of(referenced(value)),
{
    match value {
        Some(TagValue::Long(v)) => if v.len() >= 3 {
            Some((v[0], v[1], v[2]))
        } else {
            None
        },
        Some(TagValue::Short(v)) => if v.len() >= 3 {
            Some((v[0] as u32, v[1] as u32, v[2] as u32))
        } else {
            None
        },
        _ => None,
    }
}

/// A copy of float bits.
fn copy_floats(v: &Vec<u32>) -> (copy: Vec<u32>)
    ensures
        copy@ == v@,
{
    let mut copy: Vec<u32> = Vec::new();
    for i in 0..v.len()
        invariant
            copy@ == v@.take(i as int),
    {
        copy.push(v[i]);
    }
    assert(v@.take(v@.len() as int) =~= v@);
    copy
}

/// Reads a payload of exactly `expected` floats.
pub fn floats_from_tag(value: Option<&TagValue>, expected: usize) -> (floats: Option<Vec<u32>>)
    ensures
        match floats {
            Some(floats) => floats_of(referenced(value), expected as int) == Some(floats@),
            None => floats_of(referenced(value), expected as int) is None,
        },
{
    match value {
        Some(TagValue::Float(v)) => if v.len() == expected {
            Some(copy_floats(v))
        } else {
            None
        },
        Some(TagValue::Double(v)) => if v.len() == expected {
            Some(copy_floats(v))
        } else {
            None
        },
        _ => None,
    }
}

/// Reads the first number of a tag.
pub fn u32_from_tag(value: Option<&TagValue>) -> (number: Option<u32>)
    ensures
        number == u32_of(referenced(value)),
{
    match value {
        Some(TagValue::Long(v)) => if v.len() > 0 {
            Some(v[0])
        } else {
            None
        },
        Some(TagValue::Short(v)) => if v.len() > 0 {
            Some(v[0] as u32)
        } else {
            None
        },
        Some(TagValue::Byte(v)) => if v.len() > 0 {
            Some(v[0] as u32)
        } else {
            None
        },
        _ => None,
    }
}

/// Reads the first number of a tag as 16 bits.
pub fn u16_from_tag(value: Option<&TagValue>) -> (number: Option<u16>)
    ensures
        number == u16_of(referenced(value)),
{
    match value {
        Some(TagValue::Short(v)) => if v.len() > 0 {
            Some(v[0])
        } else {
            None
        },
        Some(TagValue::Long(v)) => if v.len() > 0 {
            Some((v[0] % 0x1_0000) as u16)
        } else {
            None
        },
        _ => None,
    }
}

/// Reads the first text of a tag.
pub fn string_from_tag(value: Option<&TagValue>) -> (text: Option<String>)
    ensures
        text_view(text) == text_of(referenced(value)),
{
    match value {
        Some(TagValue::Ascii(v)) => if v.len() > 0 {
            let chars: Vec<char> = trim(&trim_nuls(&chars_of(v[0].as_str())));
            if chars.len() > 0 {
                Some(string_of(chars))
            } else {
                None
            }
        } else {
            None
        },
        _ => None,
    }
}

/// Reads a map of these dimensions.
fn map_from_tag(value: Option<&TagValue>, dims: (u32, u32, u32), expected: usize) -> (map: Option<
    HueSatMap,
>)
    ensures
        map_view(map) == map_of(referenced(value), dims, expected as int),
{
    match floats_from_tag(value, expected) {
        Some(data) => Some(
            HueSatMap { hue_divs: dims.0, sat_divs: dims.1, val_divs: dims.2, data },
        ),
        None => None,
    }
}

/// The value under a tag.
fn lookup<'a>(tags: &'a HashMap<u16, TagValue>, tag: u16) -> (value: Option<&'a TagValue>)
    ensures
        referenced(value) == tag_value(tags@, tag),
{
    broadcast use vstd::std_specs::hash::group_hash_axioms;

    tags.get(&tag)
}

/// The profile that a DNG's tags add up to.
pub fn from_dng_tags(tags: &HashMap<u16, TagValue>) -> (dcp: Option<Dcp>)
    ensures
        crate::color::dcp::discovery::dcp_view(dcp) == embedded_profile(tags@),
{
    let dims: (u32, u32, u32) = match dims_from_tag(lookup(tags, TAG_PROFILE_HUE_SAT_MAP_DIMS)) {
        Some(dims) => dims,
        None => {
            return None;
        },
    };
    let expected: usize = match super::parser::count_floats(dims) {
        Some(expected) => expected,
        None => {
            return None;
        },
    };
    let map_1: Option<HueSatMap> = map_from_tag(
        lookup(tags, TAG_PROFILE_HUE_SAT_MAP_DATA_1),
        dims,
        expected,
    );
    let map_2: Option<HueSatMap> = map_from_tag(
        lookup(tags, TAG_PROFILE_HUE_SAT_MAP_DATA_2),
        dims,
        expected,
    );
    if map_1.is_none() && map_2.is_none() {
        return None;
    }
    let encoding: u32 = match u32_from_tag(lookup(tags, TAG_PROFILE_HUE_SAT_MAP_ENCODING)) {
        Some(encoding) => encoding,
        None => 0,
    };
    Some(
        Dcp {
            unique_camera_model: string_from_tag(lookup(tags, TAG_UNIQUE_CAMERA_MODEL)),
            profile_name: string_from_tag(lookup(tags, TAG_PROFILE_NAME)),
            profile_copyright: string_from_tag(lookup(tags, TAG_PROFILE_COPYRIGHT)),
            profile_calibration_signature: string_from_tag(
                lookup(tags, TAG_PROFILE_CALIBRATION_SIGNATURE),
            ),
            calibration_illuminant_1: u16_from_tag(lookup(tags, TAG_CALIBRATION_ILLUMINANT_1)),
            calibration_illuminant_2: u16_from_tag(lookup(tags, TAG_CALIBRATION_ILLUMINANT_2)),
            hue_sat_map_1: map_1,
            hue_sat_map_2: map_2,
            hue_sat_map_encoding: encoding,
            look_table: None,
            look_table_encoding: 0,
            tone_curve: None,
        },
    )
}

/// A profile from a DNG has a map to apply, and every map fills its grid.
pub proof fn embedded_profiles_are_well_formed(tags: Map<u16, TagValue>)
    requires
        embedded_profile(tags) is Some,
    ensures
        embedded_profile(tags)->0.well_formed(),
        embedded_profile(tags)->0.picked() is Some,
{
}

// ----- what an embedded profile holds, tag by tag -----

/// Whether a map has these dimensions.
pub open spec fn is_shaped(map: Option<HueSatMap>, hues: int, saturations: int, values: int) -> bool {
    map matches Some(map) ==> map.hue_divs == hues && map.sat_divs == saturations && map.val_divs
        == values && map.data@.len() == hues * saturations * values * 3
}

/// Every map has the dimensions that tag 50937 holds: hues, saturations and values, in that order,
/// as 32-bit numbers or as 16-bit ones.
pub proof fn maps_have_the_tagged_dimensions(
    tags: &HashMap<u16, TagValue>,
    dcp: Option<Dcp>,
    longs: Vec<u32>,
    shorts: Vec<u16>,
)
    requires
        call_ensures(from_dng_tags, (tags,), dcp),
    ensures
        !tags@.contains_key(50937) ==> dcp is None,
        tags@.contains_key(50937) && tags@[50937] == TagValue::Long(longs) ==> {
            &&& longs@.len() < 3 ==> dcp is None
            &&& dcp matches Some(dcp) ==> {
                let (h, s, v) = (longs@[0] as int, longs@[1] as int, longs@[2] as int);
                is_shaped(dcp.hue_sat_map_1, h, s, v) && is_shaped(dcp.hue_sat_map_2, h, s, v)
            }
        },
        tags@.contains_key(50937) && tags@[50937] == TagValue::Short(shorts) ==> {
            &&& shorts@.len() < 3 ==> dcp is None
            &&& dcp matches Some(dcp) ==> {
                let (h, s, v) = (shorts@[0] as int, shorts@[1] as int, shorts@[2] as int);
                is_shaped(dcp.hue_sat_map_1, h, s, v) && is_shaped(dcp.hue_sat_map_2, h, s, v)
            }
        },
        tags@.contains_key(50937) && !(tags@[50937] is Long) && !(tags@[50937] is Short) ==> dcp
            is None,
{
}

/// Whether a map holds the floats under a tag, where they're as many as the other numbers call
/// for, and isn't there where they aren't.
pub open spec fn holds_floats(
    tags: Map<u16, TagValue>,
    tag: u16,
    map: Option<HueSatMap>,
    wanted: int,
) -> bool {
    &&& !tags.contains_key(tag) ==> map is None
    &&& tags.contains_key(tag) ==> match tags[tag] {
        TagValue::Float(v) => (map is Some <==> v@.len() == wanted) && (map matches Some(map)
            ==> map.data@ == v@),
        TagValue::Double(v) => (map is Some <==> v@.len() == wanted) && (map matches Some(map)
            ==> map.data@ == v@),
        _ => map is None,
    }
}

/// The first map holds the floats under tag 50938 and the second those under 50939. A profile is
/// there where the dimensions are and either map fits them.
pub proof fn maps_hold_their_own_floats(
    tags: &HashMap<u16, TagValue>,
    dcp: Option<Dcp>,
    longs: Vec<u32>,
)
    requires
        call_ensures(from_dng_tags, (tags,), dcp),
        tags@.contains_key(50937),
        tags@[50937] == TagValue::Long(longs),
        longs@.len() >= 3,
        longs@[0] * longs@[1] <= usize::MAX,
        longs@[0] * longs@[1] * longs@[2] <= usize::MAX,
        longs@[0] * longs@[1] * longs@[2] * 3 <= usize::MAX,
    ensures
        ({
            let wanted = longs@[0] * longs@[1] * longs@[2] * 3;
            &&& dcp matches Some(dcp) ==> holds_floats(tags@, 50938, dcp.hue_sat_map_1, wanted)
                && holds_floats(tags@, 50939, dcp.hue_sat_map_2, wanted) && (dcp.hue_sat_map_1
                is Some || dcp.hue_sat_map_2 is Some)
            &&& dcp is None ==> holds_floats(tags@, 50938, None, wanted) && holds_floats(
                tags@,
                50939,
                None,
                wanted,
            )
        }),
{
}

/// Whether a text is the first one under a tag, without the NULs at its end and the white space
/// around it. A blank one is none.
pub open spec fn holds_first_text(
    tags: Map<u16, TagValue>,
    tag: u16,
    text: Option<String>,
) -> bool {
    &&& text matches Some(text) ==> tags.contains_key(tag) && (tags[tag] matches TagValue::Ascii(v)
        && v@.len() > 0 && text@.len() > 0 && text@ == trimmed(without_trailing_nuls(v@[0]@)))
    &&& text is None && tags.contains_key(tag) ==> (tags[tag] matches TagValue::Ascii(v)
        ==> v@.len() == 0 || trimmed(without_trailing_nuls(v@[0]@)).len() == 0)
}

/// Whether a number is the first one under a tag, of 16 bits, or the lower half of one of 32.
pub open spec fn holds_first_short(
    tags: Map<u16, TagValue>,
    tag: u16,
    number: Option<u16>,
) -> bool {
    &&& !tags.contains_key(tag) ==> number is None
    &&& tags.contains_key(tag) ==> match tags[tag] {
        TagValue::Short(v) => number == if v@.len() > 0 {
            Some(v@[0])
        } else {
            None
        },
        TagValue::Long(v) => if v@.len() > 0 {
            number matches Some(number) && number == v@[0] as int % 65_536
        } else {
            number is None
        },
        _ => number is None,
    }
}

/// The texts and numbers of an embedded profile are those under their own tags. It has no look
/// table and no tone curve.
pub proof fn the_rest_comes_from_its_own_tags(tags: &HashMap<u16, TagValue>, dcp: Option<Dcp>)
    requires
        call_ensures(from_dng_tags, (tags,), dcp),
    ensures
        dcp matches Some(dcp) ==> {
            &&& holds_first_text(tags@, 50708, dcp.unique_camera_model)
            &&& holds_first_text(tags@, 50936, dcp.profile_name)
            &&& holds_first_text(tags@, 50942, dcp.profile_copyright)
            &&& holds_first_text(tags@, 50932, dcp.profile_calibration_signature)
            &&& holds_first_short(tags@, 50778, dcp.calibration_illuminant_1)
            &&& holds_first_short(tags@, 50779, dcp.calibration_illuminant_2)
            &&& dcp.look_table is None
            &&& dcp.look_table_encoding == 0
            &&& dcp.tone_curve is None
            &&& !tags@.contains_key(51107) ==> dcp.hue_sat_map_encoding == 0
            &&& tags@.contains_key(51107) ==> match tags@[51107] {
                TagValue::Long(v) => v@.len() > 0 ==> dcp.hue_sat_map_encoding == v@[0],
                TagValue::Short(v) => v@.len() > 0 ==> dcp.hue_sat_map_encoding == v@[0],
                TagValue::Byte(v) => v@.len() > 0 ==> dcp.hue_sat_map_encoding == v@[0],
                _ => dcp.hue_sat_map_encoding == 0,
            }
        },
{
}

/// A tag's number is the first it holds: as it stands where 32 bits are read, of any whole type;
/// its low 16 bits where 16 are, of the two wider types. A tag without one has none.
pub proof fn numbers_are_the_first(
    value: Option<&TagValue>,
    wide: Option<u32>,
    narrow: Option<u16>,
)
    requires
        call_ensures(u32_from_tag, (value,), wide),
        call_ensures(u16_from_tag, (value,), narrow),
    ensures
        value is None ==> wide is None && narrow is None,
        value matches Some(TagValue::Byte(v)) ==> narrow is None && (wide is Some <==> v@.len() > 0)
            && (wide is Some ==> wide->0 == v@[0]),
        value matches Some(TagValue::Short(v)) ==> (wide is Some <==> v@.len() > 0)
            && (narrow is Some <==> v@.len() > 0) && (v@.len() > 0 ==> wide->0 == v@[0]
            && narrow->0 == v@[0]),
        value matches Some(TagValue::Long(v)) ==> (wide is Some <==> v@.len() > 0)
            && (narrow is Some <==> v@.len() > 0) && (v@.len() > 0 ==> wide->0 == v@[0] && (
        wide->0 - narrow->0) % 65_536 == 0),
        value matches Some(TagValue::Ascii(_)) ==> wide is None && narrow is None,
        value matches Some(TagValue::Float(_)) ==> wide is None && narrow is None,
{
}

/// Floats are handed out one for one, where there are as many as there should be.
pub proof fn floats_are_handed_out_whole(
    value: Option<&TagValue>,
    expected: usize,
    floats: Option<Vec<u32>>,
)
    requires
        call_ensures(floats_from_tag, (value, expected), floats),
    ensures
        value matches Some(TagValue::Float(v)) ==> (floats is Some <==> v@.len() == expected) && (
        floats is Some ==> floats->0@ == v@),
        value matches Some(TagValue::Double(v)) ==> (floats is Some <==> v@.len() == expected) && (
        floats is Some ==> floats->0@ == v@),
        value is None ==> floats is None,
        value matches Some(TagValue::Long(_)) ==> floats is None,
        value matches Some(TagValue::Short(_)) ==> floats is None,
{
}

/// A tag's text is its first, without the NULs at its end and then the white space around it. What
/// leaves nothing is no text.
pub proof fn texts_are_the_first(value: &TagValue, text: Option<String>)
    requires
        call_ensures(string_from_tag, (Some(value),), text),
    ensures
        value matches TagValue::Ascii(v) ==> (text is Some <==> v@.len() > 0 && trimmed(
            without_trailing_nuls(v@[0]@),
        ).len() > 0),
        value matches TagValue::Ascii(v) ==> (text is Some ==> text->0@ == trimmed(
            without_trailing_nuls(v@[0]@),
        )),
        !(value is Ascii) ==> text is None,
{
}

} // verus!
