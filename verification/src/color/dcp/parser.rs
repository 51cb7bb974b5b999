//! Adobe DCP (Digital Camera Profile) files.
//!
//! A DCP file is a TIFF-like container: the magic `IIRC`, the offset of a directory, and there a
//! 16-bit entry count followed by 12-byte entries (tag, type, count, and a value or the offset of
//! one). Numbers are little-endian. Entries whose tag or shape isn't known here are skipped, and
//! where a tag occurs twice the later entry counts.
//!
//! Floats are kept as the 32 bits they're stored as; the pixel code turns them into numbers.

use crate::bytes::{le_u16, le_u32, read_le_u16, read_le_u32};
use crate::text::{
    chars_of, from_utf8_lossy, hex4, hex4_chars, push_chars, string_of, trim, trim_nuls, trimmed, utf8_lossy,
    without_trailing_nuls,
};
use vstd::prelude::*;

verus! {

/// A 3D hue/saturation map: a grid of `(hue_shift_degrees, sat_scale, val_scale)` triples.
#[derive(Debug, Clone, PartialEq, Eq)]
pub struct HueSatMap {
    pub hue_divs: u32,
    pub sat_divs: u32,
    pub val_divs: u32,
    /// `hue_divs * sat_divs * val_divs * 3` floats as their bits, hue outermost, value innermost.
    pub data: Vec<u32>,
}

/// A parsed profile. Every field is optional because profiles vary in what they carry.
#[derive(Debug, Clone, PartialEq, Eq)]
pub struct Dcp {
    /// `UniqueCameraModel`, as in `Sony ILCE-7M3`.
    pub unique_camera_model: Option<String>,
    /// `ProfileName`.
    pub profile_name: Option<String>,
    /// `ProfileCopyright`.
    pub profile_copyright: Option<String>,
    /// `ProfileCalibrationSignature`, another key to match a camera by.
    pub profile_calibration_signature: Option<String>,
    /// EXIF light source of the first map: 17 is Standard Light A, 21 is D65.
    pub calibration_illuminant_1: Option<u16>,
    /// EXIF light source of the second map.
    pub calibration_illuminant_2: Option<u16>,
    pub hue_sat_map_1: Option<HueSatMap>,
    pub hue_sat_map_2: Option<HueSatMap>,
    /// 0 is a linear value axis, 1 an sRGB-encoded one.
    pub hue_sat_map_encoding: u32,
    /// `ProfileLookTable`, applied after the hue/saturation map.
    pub look_table: Option<HueSatMap>,
    /// As `hue_sat_map_encoding`, for the look table.
    pub look_table_encoding: u32,
    /// `ProfileToneCurve`: `(x, y)` points, each float as its bits.
    pub tone_curve: Option<Vec<(u32, u32)>>,
}

/// Why bytes aren't a usable DCP file.
#[derive(Debug, Clone, Copy, PartialEq, Eq)]
pub enum ParseError {
    /// Smaller than the 8-byte header.
    TooShort,
    /// The first four bytes aren't `IIRC`.
    BadMagic,
    /// The directory starts outside the file.
    BadIfdOffset,
    /// An entry's value lies outside the file. `tag` is 0 for a text entry.
    BadEntryOffset { tag: u16 },
    /// A map's dimensions and its data don't fit each other, or the data lies outside the file.
    BadHueSatMap,
    /// The directory claims more entries than the file can hold.
    ImplausibleEntryCount,
    /// The tone curve's byte length overflows.
    BadToneCurve,
}

pub const TAG_UNIQUE_CAMERA_MODEL: u16 = 50708;

pub const TAG_CALIBRATION_ILLUMINANT_1: u16 = 50778;

pub const TAG_CALIBRATION_ILLUMINANT_2: u16 = 50779;

pub const TAG_PROFILE_CALIBRATION_SIGNATURE: u16 = 50932;

pub const TAG_PROFILE_NAME: u16 = 50936;

pub const TAG_PROFILE_HUE_SAT_MAP_DIMS: u16 = 50937;

pub const TAG_PROFILE_HUE_SAT_MAP_DATA_1: u16 = 50938;

pub const TAG_PROFILE_HUE_SAT_MAP_DATA_2: u16 = 50939;

pub const TAG_PROFILE_TONE_CURVE: u16 = 50940;

pub const TAG_PROFILE_COPYRIGHT: u16 = 50942;

pub const TAG_PROFILE_LOOK_TABLE_DIMS: u16 = 50981;

pub const TAG_PROFILE_LOOK_TABLE_DATA: u16 = 50982;

pub const TAG_PROFILE_HUE_SAT_MAP_ENCODING: u16 = 51107;

pub const TAG_PROFILE_LOOK_TABLE_ENCODING: u16 = 51108;

pub const TYPE_ASCII: u16 = 2;

pub const TYPE_SHORT: u16 = 3;

pub const TYPE_LONG: u16 = 4;

pub const TYPE_FLOAT: u16 = 11;

/// The EXIF light source of D65 daylight.
pub const LIGHT_SOURCE_D65: u16 = 21;

// ----- what a file means -----

/// A hue/saturation map as mathematics.
#[verifier::ext_equal]
pub struct HueSatMapView {
    pub hue_divs: u32,
    pub sat_divs: u32,
    pub val_divs: u32,
    pub data: Seq<u32>,
}

/// A profile as mathematics.
#[verifier::ext_equal]
pub struct DcpView {
    pub unique_camera_model: Option<Seq<char>>,
    pub profile_name: Option<Seq<char>>,
    pub profile_copyright: Option<Seq<char>>,
    pub profile_calibration_signature: Option<Seq<char>>,
    pub calibration_illuminant_1: Option<u16>,
    pub calibration_illuminant_2: Option<u16>,
    pub hue_sat_map_1: Option<HueSatMapView>,
    pub hue_sat_map_2: Option<HueSatMapView>,
    pub hue_sat_map_encoding: u32,
    pub look_table: Option<HueSatMapView>,
    pub look_table_encoding: u32,
    pub tone_curve: Option<Seq<(u32, u32)>>,
}

/// The text of an optional string.
pub open spec fn text_view(text: Option<String>) -> Option<Seq<char>> {
    match text {
        Some(s) => Some(s@),
        None => None,
    }
}

/// The map of an optional map.
pub open spec fn map_view(map: Option<HueSatMap>) -> Option<HueSatMapView> {
    match map {
        Some(m) => Some(m@),
        None => None,
    }
}

/// The points of an optional curve.
pub open spec fn curve_view(curve: Option<Vec<(u32, u32)>>) -> Option<Seq<(u32, u32)>> {
    match curve {
        Some(c) => Some(c@),
        None => None,
    }
}

impl View for HueSatMap {
    type V = HueSatMapView;

    open spec fn view(&self) -> HueSatMapView {
        HueSatMapView {
            hue_divs: self.hue_divs,
            sat_divs: self.sat_divs,
            val_divs: self.val_divs,
            data: self.data@,
        }
    }
}

impl View for Dcp {
    type V = DcpView;

    open spec fn view(&self) -> DcpView {
        DcpView {
            unique_camera_model: text_view(self.unique_camera_model),
            profile_name: text_view(self.profile_name),
            profile_copyright: text_view(self.profile_copyright),
            profile_calibration_signature: text_view(self.profile_calibration_signature),
            calibration_illuminant_1: self.calibration_illuminant_1,
            calibration_illuminant_2: self.calibration_illuminant_2,
            hue_sat_map_1: map_view(self.hue_sat_map_1),
            hue_sat_map_2: map_view(self.hue_sat_map_2),
            hue_sat_map_encoding: self.hue_sat_map_encoding,
            look_table: map_view(self.look_table),
            look_table_encoding: self.look_table_encoding,
            tone_curve: curve_view(self.tone_curve),
        }
    }
}

/// Where the directory starts.
pub open spec fn ifd_offset(bytes: Seq<u8>) -> int {
    le_u32(bytes, 4) as int
}

/// How many entries the directory claims.
pub open spec fn entry_count(bytes: Seq<u8>) -> int {
    le_u16(bytes, ifd_offset(bytes)) as int
}

/// Where entry `i` starts.
pub open spec fn entry_at(bytes: Seq<u8>, i: int) -> int {
    ifd_offset(bytes) + 2 + i * 12
}

/// The tag of entry `i`.
pub open spec fn entry_tag(bytes: Seq<u8>, i: int) -> u16 {
    le_u16(bytes, entry_at(bytes, i))
}

/// The type of entry `i`.
pub open spec fn entry_type(bytes: Seq<u8>, i: int) -> u16 {
    le_u16(bytes, entry_at(bytes, i) + 2)
}

/// The element count of entry `i`.
pub open spec fn entry_len(bytes: Seq<u8>, i: int) -> u32 {
    le_u32(bytes, entry_at(bytes, i) + 4)
}

/// The value field of entry `i`, which holds a short value itself and the offset of a long one.
pub open spec fn entry_value(bytes: Seq<u8>, i: int) -> u32 {
    le_u32(bytes, entry_at(bytes, i) + 8)
}

/// Which element counts an entry may have to be read.
pub enum Elements {
    Any,
    Exactly(u32),
    /// At least two points, each of two floats.
    Points,
}

/// Whether entry `i` carries `tag` in the shape that is read.
pub open spec fn is_entry(
    bytes: Seq<u8>,
    i: int,
    tag: u16,
    typ: u16,
    elements: Elements,
) -> bool {
    &&& entry_tag(bytes, i) == tag
    &&& entry_type(bytes, i) == typ
    &&& match elements {
        Elements::Any => true,
        Elements::Exactly(n) => entry_len(bytes, i) == n,
        Elements::Points => entry_len(bytes, i) >= 4 && entry_len(bytes, i) % 2 == 0,
    }
}

/// The last of the first `n` entries that carries `tag` in the shape that is read.
pub open spec fn last_entry(
    bytes: Seq<u8>,
    n: nat,
    tag: u16,
    typ: u16,
    elements: Elements,
) -> Option<int>
    decreases n,
{
    if n == 0 {
        None
    } else if is_entry(bytes, n - 1, tag, typ, elements) {
        Some(n - 1)
    } else {
        last_entry(bytes, (n - 1) as nat, tag, typ, elements)
    }
}

/// The bytes before the first NUL.
pub open spec fn bytes_until_nul(bytes: Seq<u8>) -> Seq<u8> {
    match bytes.index_of_first(0u8) {
        Some(i) => bytes.take(i),
        None => bytes,
    }
}

/// The text that entry `i` holds, NUL-terminated or not: in the entry where it fits in the four
/// bytes there.
pub open spec fn entry_text(bytes: Seq<u8>, i: int) -> Option<Seq<char>> {
    let count = entry_len(bytes, i) as int;
    let start = if count <= 4 {
        entry_at(bytes, i) + 8
    } else {
        entry_value(bytes, i) as int
    };
    if count == 0 {
        None
    } else {
        Some(
            without_trailing_nuls(
                trimmed(utf8_lossy(bytes_until_nul(bytes.subrange(start, start + count)))),
            ),
        )
    }
}

/// Whether `tag` names a text that is read.
pub open spec fn is_text_tag(tag: u16) -> bool {
    ||| tag == TAG_UNIQUE_CAMERA_MODEL
    ||| tag == TAG_PROFILE_NAME
    ||| tag == TAG_PROFILE_COPYRIGHT
    ||| tag == TAG_PROFILE_CALIBRATION_SIGNATURE
}

/// Whether `tag` names the dimensions of a map.
pub open spec fn is_dims_tag(tag: u16) -> bool {
    tag == TAG_PROFILE_HUE_SAT_MAP_DIMS || tag == TAG_PROFILE_LOOK_TABLE_DIMS
}

/// What is wrong with entry `i` on its own.
pub open spec fn entry_error(bytes: Seq<u8>, i: int) -> Option<ParseError> {
    let tag = entry_tag(bytes, i);
    let len = entry_len(bytes, i);
    let off = entry_value(bytes, i);
    if is_text_tag(tag) && entry_type(bytes, i) == TYPE_ASCII {
        if len > 4 && off + len > bytes.len() {
            Some(ParseError::BadEntryOffset { tag: 0 })
        } else {
            None
        }
    } else if is_dims_tag(tag) && entry_type(bytes, i) == TYPE_LONG && len == 3 {
        if off + 12 > bytes.len() {
            Some(ParseError::BadEntryOffset { tag })
        } else {
            None
        }
    } else if is_entry(bytes, i, TAG_PROFILE_TONE_CURVE, TYPE_FLOAT, Elements::Points) {
        if len * 4 > usize::MAX {
            Some(ParseError::BadToneCurve)
        } else if off + len * 4 > bytes.len() {
            Some(ParseError::BadEntryOffset { tag })
        } else {
            None
        }
    } else {
        None
    }
}

/// The error of the first bad entry among the first `n`.
pub open spec fn first_error(bytes: Seq<u8>, n: nat) -> Option<ParseError>
    decreases n,
{
    if n == 0 {
        None
    } else {
        match first_error(bytes, (n - 1) as nat) {
            Some(e) => Some(e),
            None => entry_error(bytes, n - 1),
        }
    }
}

/// Three numbers side by side in the file.
pub open spec fn dims_at(bytes: Seq<u8>, off: int) -> (u32, u32, u32) {
    (le_u32(bytes, off), le_u32(bytes, off + 4), le_u32(bytes, off + 8))
}

/// `count` points of two floats each.
pub open spec fn points_at(bytes: Seq<u8>, off: int, count: int) -> Seq<(u32, u32)> {
    Seq::new(
        count as nat,
        |k: int| (le_u32(bytes, off + k * 8), le_u32(bytes, off + k * 8 + 4)),
    )
}

/// What the first `n` entries say, before maps are put together.
#[verifier::ext_equal]
pub struct ScanView {
    pub unique_camera_model: Option<Seq<char>>,
    pub profile_name: Option<Seq<char>>,
    pub profile_copyright: Option<Seq<char>>,
    pub profile_calibration_signature: Option<Seq<char>>,
    pub calibration_illuminant_1: Option<u16>,
    pub calibration_illuminant_2: Option<u16>,
    pub hue_sat_dims: Option<(u32, u32, u32)>,
    pub hue_sat_data_1: Option<(u32, u32)>,
    pub hue_sat_data_2: Option<(u32, u32)>,
    pub hue_sat_map_encoding: u32,
    pub look_dims: Option<(u32, u32, u32)>,
    pub look_data: Option<(u32, u32)>,
    pub look_table_encoding: u32,
    pub tone_curve: Option<Seq<(u32, u32)>>,
}

/// The text under `tag`.
pub open spec fn text_field(bytes: Seq<u8>, n: nat, tag: u16) -> Option<Seq<char>> {
    match last_entry(bytes, n, tag, TYPE_ASCII, Elements::Any) {
        Some(i) => entry_text(bytes, i),
        None => None,
    }
}

/// The 16-bit number under `tag`.
pub open spec fn short_field(bytes: Seq<u8>, n: nat, tag: u16) -> Option<u16> {
    match last_entry(bytes, n, tag, TYPE_SHORT, Elements::Exactly(1)) {
        Some(i) => Some(le_u16(bytes, entry_at(bytes, i) + 8)),
        None => None,
    }
}

/// The 32-bit number under `tag`, 0 where it's absent.
pub open spec fn long_field(bytes: Seq<u8>, n: nat, tag: u16) -> u32 {
    match last_entry(bytes, n, tag, TYPE_LONG, Elements::Exactly(1)) {
        Some(i) => entry_value(bytes, i),
        None => 0,
    }
}

/// The map dimensions under `tag`.
pub open spec fn dims_field(bytes: Seq<u8>, n: nat, tag: u16) -> Option<(u32, u32, u32)> {
    match last_entry(bytes, n, tag, TYPE_LONG, Elements::Exactly(3)) {
        Some(i) => Some(dims_at(bytes, entry_value(bytes, i) as int)),
        None => None,
    }
}

/// The offset and element count of the floats under `tag`.
pub open spec fn data_field(bytes: Seq<u8>, n: nat, tag: u16) -> Option<(u32, u32)> {
    match last_entry(bytes, n, tag, TYPE_FLOAT, Elements::Any) {
        Some(i) => Some((entry_value(bytes, i), entry_len(bytes, i))),
        None => None,
    }
}

/// The tone curve's points.
pub open spec fn curve_field(bytes: Seq<u8>, n: nat) -> Option<Seq<(u32, u32)>> {
    match last_entry(bytes, n, TAG_PROFILE_TONE_CURVE, TYPE_FLOAT, Elements::Points) {
        Some(i) => Some(
            points_at(bytes, entry_value(bytes, i) as int, entry_len(bytes, i) as int / 2),
        ),
        None => None,
    }
}

/// What the first `n` entries say.
pub open spec fn scanned(bytes: Seq<u8>, n: nat) -> ScanView {
    ScanView {
        unique_camera_model: text_field(bytes, n, TAG_UNIQUE_CAMERA_MODEL),
        profile_name: text_field(bytes, n, TAG_PROFILE_NAME),
        profile_copyright: text_field(bytes, n, TAG_PROFILE_COPYRIGHT),
        profile_calibration_signature: text_field(bytes, n, TAG_PROFILE_CALIBRATION_SIGNATURE),
        calibration_illuminant_1: short_field(bytes, n, TAG_CALIBRATION_ILLUMINANT_1),
        calibration_illuminant_2: short_field(bytes, n, TAG_CALIBRATION_ILLUMINANT_2),
        hue_sat_dims: dims_field(bytes, n, TAG_PROFILE_HUE_SAT_MAP_DIMS),
        hue_sat_data_1: data_field(bytes, n, TAG_PROFILE_HUE_SAT_MAP_DATA_1),
        hue_sat_data_2: data_field(bytes, n, TAG_PROFILE_HUE_SAT_MAP_DATA_2),
        hue_sat_map_encoding: long_field(bytes, n, TAG_PROFILE_HUE_SAT_MAP_ENCODING),
        look_dims: dims_field(bytes, n, TAG_PROFILE_LOOK_TABLE_DIMS),
        look_data: data_field(bytes, n, TAG_PROFILE_LOOK_TABLE_DATA),
        look_table_encoding: long_field(bytes, n, TAG_PROFILE_LOOK_TABLE_ENCODING),
        tone_curve: curve_field(bytes, n),
    }
}

/// How many floats a map of these dimensions holds, where the machine can count them.
pub open spec fn map_len(dims: (u32, u32, u32)) -> Option<int> {
    if dims.0 * dims.1 > usize::MAX || dims.0 * dims.1 * dims.2 > usize::MAX || dims.0 * dims.1
        * dims.2 * 3 > usize::MAX {
        None
    } else {
        Some(dims.0 * dims.1 * dims.2 * 3)
    }
}

/// Whether `data` is the offset and count of a map of these dimensions, inside the file.
pub open spec fn map_readable(bytes: Seq<u8>, dims: (u32, u32, u32), data: (u32, u32)) -> bool {
    &&& map_len(dims) == Some(data.1 as int)
    &&& data.0 + data.1 * 4 <= bytes.len()
}

/// The map at `data`.
pub open spec fn map_at(
    bytes: Seq<u8>,
    dims: (u32, u32, u32),
    data: (u32, u32),
) -> HueSatMapView {
    HueSatMapView {
        hue_divs: dims.0,
        sat_divs: dims.1,
        val_divs: dims.2,
        data: Seq::new(data.1 as nat, |k: int| le_u32(bytes, data.0 + k * 4)),
    }
}

/// A map, where the file has both its dimensions and its data.
pub open spec fn map_field(
    bytes: Seq<u8>,
    dims: Option<(u32, u32, u32)>,
    data: Option<(u32, u32)>,
) -> Option<HueSatMapView> {
    if dims is Some && data is Some {
        Some(map_at(bytes, dims->0, data->0))
    } else {
        None
    }
}

/// Whether a map that the file announces can't be read.
pub open spec fn map_broken(
    bytes: Seq<u8>,
    dims: Option<(u32, u32, u32)>,
    data: Option<(u32, u32)>,
) -> bool {
    dims is Some && data is Some && !map_readable(bytes, dims->0, data->0)
}

/// The profile that the entries add up to.
pub open spec fn assembled(bytes: Seq<u8>, scan: ScanView) -> Result<DcpView, ParseError> {
    if (scan.hue_sat_dims is Some && map_len(scan.hue_sat_dims->0) is None) || map_broken(
        bytes,
        scan.hue_sat_dims,
        scan.hue_sat_data_1,
    ) || map_broken(bytes, scan.hue_sat_dims, scan.hue_sat_data_2) || map_broken(
        bytes,
        scan.look_dims,
        scan.look_data,
    ) {
        Err(ParseError::BadHueSatMap)
    } else {
        Ok(
            DcpView {
                unique_camera_model: scan.unique_camera_model,
                profile_name: scan.profile_name,
                profile_copyright: scan.profile_copyright,
                profile_calibration_signature: scan.profile_calibration_signature,
                calibration_illuminant_1: scan.calibration_illuminant_1,
                calibration_illuminant_2: scan.calibration_illuminant_2,
                hue_sat_map_1: map_field(bytes, scan.hue_sat_dims, scan.hue_sat_data_1),
                hue_sat_map_2: map_field(bytes, scan.hue_sat_dims, scan.hue_sat_data_2),
                hue_sat_map_encoding: scan.hue_sat_map_encoding,
                look_table: map_field(bytes, scan.look_dims, scan.look_data),
                look_table_encoding: scan.look_table_encoding,
                tone_curve: scan.tone_curve,
            },
        )
    }
}

/// The bytes `IIRC` that open a DCP file.
pub open spec fn has_magic(bytes: Seq<u8>) -> bool {
    bytes[0] == 0x49 && bytes[1] == 0x49 && bytes[2] == 0x52 && bytes[3] == 0x43
}

/// What a file means.
pub open spec fn parsed(bytes: Seq<u8>) -> Result<DcpView, ParseError> {
    if bytes.len() < 8 {
        Err(ParseError::TooShort)
    } else if !has_magic(bytes) {
        Err(ParseError::BadMagic)
    } else if ifd_offset(bytes) + 2 > bytes.len() {
        Err(ParseError::BadIfdOffset)
    } else if entry_at(bytes, entry_count(bytes)) > bytes.len() {
        Err(ParseError::ImplausibleEntryCount)
    } else {
        match first_error(bytes, entry_count(bytes) as nat) {
            Some(e) => Err(e),
            None => assembled(bytes, scanned(bytes, entry_count(bytes) as nat)),
        }
    }
}

/// Whether a parse went as the file's meaning says.
pub open spec fn parse_agrees(bytes: Seq<u8>, result: Result<Dcp, ParseError>) -> bool {
    match result {
        Ok(dcp) => parsed(bytes) == Ok::<DcpView, ParseError>(dcp@),
        Err(e) => parsed(bytes) == Err::<DcpView, ParseError>(e),
    }
}

/// Where the triple of a grid cell starts in a map's data.
pub open spec fn cell_index(sat_divs: u32, val_divs: u32, h: u32, s: u32, v: u32) -> int {
    ((h * sat_divs + s) * val_divs + v) * 3
}

impl HueSatMapView {
    /// A map whose data fills its grid.
    pub open spec fn full(self) -> bool {
        self.data.len() == self.hue_divs * self.sat_divs * self.val_divs * 3
    }
}

impl DcpView {
    /// The map to apply where only one can be: the D65 one, looked for in slot 2 first, or else
    /// the first there is.
    pub open spec fn picked(self) -> Option<HueSatMapView> {
        if self.calibration_illuminant_2 == Some(LIGHT_SOURCE_D65) && self.hue_sat_map_2 is Some {
            self.hue_sat_map_2
        } else if self.calibration_illuminant_1 == Some(LIGHT_SOURCE_D65) && self.hue_sat_map_1
            is Some {
            self.hue_sat_map_1
        } else if self.hue_sat_map_1 is Some {
            self.hue_sat_map_1
        } else {
            self.hue_sat_map_2
        }
    }

    /// Every map fills its grid.
    pub open spec fn well_formed(self) -> bool {
        &&& self.hue_sat_map_1 matches Some(m) ==> m.full()
        &&& self.hue_sat_map_2 matches Some(m) ==> m.full()
        &&& self.look_table matches Some(m) ==> m.full()
    }
}

/// Every map of a profile that parses fills its grid.
pub proof fn parsed_maps_fill_their_grids(bytes: Seq<u8>)
    requires
        parsed(bytes) is Ok,
    ensures
        parsed(bytes)->Ok_0.well_formed(),
{
}

/// The two maps of a profile that parses have the same shape.
pub proof fn parsed_maps_share_a_shape(bytes: Seq<u8>)
    requires
        parsed(bytes) is Ok,
        parsed(bytes)->Ok_0.hue_sat_map_1 is Some,
        parsed(bytes)->Ok_0.hue_sat_map_2 is Some,
    ensures
        ({
            let a = parsed(bytes)->Ok_0.hue_sat_map_1->0;
            let b = parsed(bytes)->Ok_0.hue_sat_map_2->0;
            a.hue_divs == b.hue_divs && a.sat_divs == b.sat_divs && a.val_divs == b.val_divs
                && a.data.len() == b.data.len()
        }),
{
}

/// A profile that has any map at all has one to apply.
pub proof fn a_map_is_picked_when_there_is_one(dcp: DcpView)
    ensures
        dcp.picked() is Some <==> (dcp.hue_sat_map_1 is Some || dcp.hue_sat_map_2 is Some),
        dcp.picked() is Some ==> (dcp.picked() == dcp.hue_sat_map_1 || dcp.picked()
            == dcp.hue_sat_map_2),
{
}

/// The triple of every cell of a full map's grid lies inside its data.
pub proof fn cells_lie_inside_a_full_map(map: HueSatMapView, h: u32, s: u32, v: u32)
    requires
        map.full(),
        h < map.hue_divs,
        s < map.sat_divs,
        v < map.val_divs,
    ensures
        0 <= cell_index(map.sat_divs, map.val_divs, h, s, v),
        cell_index(map.sat_divs, map.val_divs, h, s, v) + 3 <= map.data.len(),
{
    let (hd, sd, vd) = (map.hue_divs as int, map.sat_divs as int, map.val_divs as int);
    assert(h * sd + s < hd * sd) by (nonlinear_arith)
        requires
            0 <= h < hd,
            0 <= s < sd,
    ;
    assert(0 <= h * sd + s) by (nonlinear_arith)
        requires
            0 <= h,
            0 <= s < sd,
    ;
    let row = h * sd + s;
    let rows = hd * sd;
    assert(0 <= row * vd + v < rows * vd) by (nonlinear_arith)
        requires
            0 <= row < rows,
            0 <= v < vd,
    ;
}

/// Different cells of a grid have different triples.
pub proof fn cells_are_told_apart(
    map: HueSatMapView,
    a: (u32, u32, u32),
    b: (u32, u32, u32),
)
    requires
        a.1 < map.sat_divs,
        a.2 < map.val_divs,
        b.1 < map.sat_divs,
        b.2 < map.val_divs,
        cell_index(map.sat_divs, map.val_divs, a.0, a.1, a.2) == cell_index(
            map.sat_divs,
            map.val_divs,
            b.0,
            b.1,
            b.2,
        ),
    ensures
        a == b,
{
    let (sd, vd) = (map.sat_divs as int, map.val_divs as int);
    let ra = a.0 * sd + a.1;
    let rb = b.0 * sd + b.1;
    let (a2, b2) = (a.2 as int, b.2 as int);
    let (a1, b1) = (a.1 as int, b.1 as int);
    let (a0, b0) = (a.0 as int, b.0 as int);
    assert(ra == rb && a2 == b2) by (nonlinear_arith)
        requires
            ra * vd + a2 == rb * vd + b2,
            0 <= a2 < vd,
            0 <= b2 < vd,
    ;
    assert(a0 == b0 && a1 == b1) by (nonlinear_arith)
        requires
            a0 * sd + a1 == b0 * sd + b1,
            0 <= a1 < sd,
            0 <= b1 < sd,
    ;
}

// ----- reading a file -----

impl Dcp {
    /// The map to apply where only one can be: the D65 one, looked for in slot 2 first, or else
    /// the first there is.
    pub fn pick_hue_sat_map(&self) -> (map: Option<&HueSatMap>)
        ensures
            match map {
                Some(map) => self@.picked() == Some(map@),
                None => self@.picked() is None,
            },
    {
        if self.calibration_illuminant_2 == Some(LIGHT_SOURCE_D65) {
            if let Some(map) = &self.hue_sat_map_2 {
                return Some(map);
            }
        }
        if self.calibration_illuminant_1 == Some(LIGHT_SOURCE_D65) {
            if let Some(map) = &self.hue_sat_map_1 {
                return Some(map);
            }
        }
        match &self.hue_sat_map_1 {
            Some(map) => Some(map),
            None => self.hue_sat_map_2.as_ref(),
        }
    }
}

impl HueSatMap {
    /// The triple at a grid cell, each float as its bits. Callers clamp the indices.
    pub fn sample(&self, h_idx: u32, s_idx: u32, v_idx: u32) -> (triple: (u32, u32, u32))
        requires
            h_idx * self.sat_divs + s_idx <= u32::MAX,
            (h_idx * self.sat_divs + s_idx) * self.val_divs + v_idx <= u32::MAX,
            cell_index(self.sat_divs, self.val_divs, h_idx, s_idx, v_idx) + 3 <= self.data.len(),
        ensures
            ({
                let at = cell_index(self.sat_divs, self.val_divs, h_idx, s_idx, v_idx);
                triple == (self.data[at], self.data[at + 1], self.data[at + 2])
            }),
    {
        proof {
            let row = h_idx * self.sat_divs + s_idx;
            assert(0 <= h_idx * self.sat_divs) by (nonlinear_arith);
            assert(0 <= row * self.val_divs) by (nonlinear_arith)
                requires
                    0 <= row,
            ;
        }
        let row: u32 = h_idx * self.sat_divs + s_idx;
        let at: usize = (row * self.val_divs + v_idx) as usize * 3;
        (self.data[at], self.data[at + 1], self.data[at + 2])
    }
}

impl ParseError {
    /// What the log says of the error.
    pub open spec fn message_text(self) -> Seq<char> {
        match self {
            ParseError::TooShort => "file too short to be a DCP"@,
            ParseError::BadMagic => "missing `IIRC` magic"@,
            ParseError::BadIfdOffset => "IFD offset points outside buffer"@,
            ParseError::BadEntryOffset { tag } => "entry data out of bounds for tag 0x"@ + hex4(
                tag,
            ),
            ParseError::BadHueSatMap => "hue/sat map dimensions or payload malformed"@,
            ParseError::ImplausibleEntryCount => "implausible IFD entry count"@,
            ParseError::BadToneCurve => "tone curve payload overflows"@,
        }
    }

    /// What the log says of the error.
    pub fn message(&self) -> (message: String)
        ensures
            message@ == self.message_text(),
    {
        match *self {
            ParseError::TooShort => "file too short to be a DCP".to_owned(),
            ParseError::BadMagic => "missing `IIRC` magic".to_owned(),
            ParseError::BadIfdOffset => "IFD offset points outside buffer".to_owned(),
            ParseError::BadEntryOffset { tag } => {
                let mut chars: Vec<char> = chars_of("entry data out of bounds for tag 0x");
                push_chars(&mut chars, &hex4_chars(tag));
                string_of(chars)
            },
            ParseError::BadHueSatMap => "hue/sat map dimensions or payload malformed".to_owned(),
            ParseError::ImplausibleEntryCount => "implausible IFD entry count".to_owned(),
            ParseError::BadToneCurve => "tone curve payload overflows".to_owned(),
        }
    }
}

/// What the entries read so far say.
struct Scan {
    unique_camera_model: Option<String>,
    profile_name: Option<String>,
    profile_copyright: Option<String>,
    profile_calibration_signature: Option<String>,
    calibration_illuminant_1: Option<u16>,
    calibration_illuminant_2: Option<u16>,
    hue_sat_dims: Option<(u32, u32, u32)>,
    hue_sat_data_1: Option<(u32, u32)>,
    hue_sat_data_2: Option<(u32, u32)>,
    hue_sat_map_encoding: u32,
    look_dims: Option<(u32, u32, u32)>,
    look_data: Option<(u32, u32)>,
    look_table_encoding: u32,
    tone_curve: Option<Vec<(u32, u32)>>,
}

impl View for Scan {
    type V = ScanView;

    closed spec fn view(&self) -> ScanView {
        ScanView {
            unique_camera_model: text_view(self.unique_camera_model),
            profile_name: text_view(self.profile_name),
            profile_copyright: text_view(self.profile_copyright),
            profile_calibration_signature: text_view(self.profile_calibration_signature),
            calibration_illuminant_1: self.calibration_illuminant_1,
            calibration_illuminant_2: self.calibration_illuminant_2,
            hue_sat_dims: self.hue_sat_dims,
            hue_sat_data_1: self.hue_sat_data_1,
            hue_sat_data_2: self.hue_sat_data_2,
            hue_sat_map_encoding: self.hue_sat_map_encoding,
            look_dims: self.look_dims,
            look_data: self.look_data,
            look_table_encoding: self.look_table_encoding,
            tone_curve: curve_view(self.tone_curve),
        }
    }
}

/// The bytes of `from..to` before the first NUL there.
fn cut_at_nul(bytes: &[u8], from: usize, to: usize) -> (cut: Vec<u8>)
    requires
        from <= to <= bytes.len(),
    ensures
        cut@ == bytes_until_nul(bytes@.subrange(from as int, to as int)),
{
    let ghost part = bytes@.subrange(from as int, to as int);
    let mut cut: Vec<u8> = Vec::new();
    let mut i: usize = from;
    while i < to
        invariant
            from <= i <= to <= bytes.len(),
            part == bytes@.subrange(from as int, to as int),
            cut@ == part.take(i - from),
            forall|j: int| 0 <= j < i - from ==> part[j] != 0,
        decreases to - i,
    {
        assert(part[i - from] == bytes[i as int]);
        if bytes[i] == 0 {
            proof {
                assert(part.contains(0u8));
                part.index_of_first_ensures(0u8);
                let first = part.index_of_first(0u8)->0;
                assert(first == i - from);
            }
            return cut;
        }
        cut.push(bytes[i]);
        assert(part.take(i + 1 - from) =~= part.take(i - from).push(bytes[i as int]));
        i = i + 1;
    }
    proof {
        assert(!part.contains(0u8));
        part.index_of_first_ensures(0u8);
        assert(part.take(i - from) =~= part);
    }
    cut
}

/// The text of entry `i`.
fn read_ascii(bytes: &[u8], at: usize, Ghost(i): Ghost<int>) -> (text: Result<
    Option<String>,
    ParseError,
>)
    requires
        at == entry_at(bytes@, i),
        at + 12 <= bytes.len(),
    ensures
        match text {
            Ok(text) => text_view(text) == entry_text(bytes@, i) && !(entry_len(bytes@, i) > 4
                && entry_value(bytes@, i) + entry_len(bytes@, i) > bytes.len()),
            Err(e) => e == (ParseError::BadEntryOffset { tag: 0 }) && entry_len(bytes@, i) > 4
                && entry_value(bytes@, i) + entry_len(bytes@, i) > bytes.len(),
        },
{
    let count: u32 = read_le_u32(bytes, at + 4);
    if count == 0 {
        return Ok(None);
    }
    let from: usize;
    let to: usize;
    if count <= 4 {
        from = at + 8;
        to = at + 8 + count as usize;
    } else {
        let off: u32 = read_le_u32(bytes, at + 8);
        if off as u64 + count as u64 > bytes.len() as u64 {
            return Err(ParseError::BadEntryOffset { tag: 0 });
        }
        from = off as usize;
        to = off as usize + count as usize;
    }
    let cut: Vec<u8> = cut_at_nul(bytes, from, to);
    let decoded: String = from_utf8_lossy(cut.as_slice());
    let chars: Vec<char> = trim(&chars_of(decoded.as_str()));
    Ok(Some(string_of(trim_nuls(&chars))))
}

/// `count` points of two floats each.
fn read_points(bytes: &[u8], off: usize, count: usize) -> (points: Vec<(u32, u32)>)
    requires
        off + count * 8 <= bytes.len(),
    ensures
        points@ == points_at(bytes@, off as int, count as int),
{
    let mut points: Vec<(u32, u32)> = Vec::new();
    let mut k: usize = 0;
    while k < count
        invariant
            k <= count,
            off + count * 8 <= bytes.len(),
            points@ == points_at(bytes@, off as int, k as int),
        decreases count - k,
    {
        let at: usize = off + k * 8;
        points.push((read_le_u32(bytes, at), read_le_u32(bytes, at + 4)));
        k = k + 1;
        assert(points@ =~= points_at(bytes@, off as int, k as int));
    }
    points
}

/// What a scan says once entry `i` is taken into it.
spec fn stepped(bytes: Seq<u8>, i: int, scan: ScanView) -> ScanView {
    let text = |tag: u16| is_entry(bytes, i, tag, TYPE_ASCII, Elements::Any);
    let short = |tag: u16| is_entry(bytes, i, tag, TYPE_SHORT, Elements::Exactly(1));
    let long = |tag: u16| is_entry(bytes, i, tag, TYPE_LONG, Elements::Exactly(1));
    let dims = |tag: u16| is_entry(bytes, i, tag, TYPE_LONG, Elements::Exactly(3));
    let floats = |tag: u16| is_entry(bytes, i, tag, TYPE_FLOAT, Elements::Any);
    ScanView {
        unique_camera_model: if text(TAG_UNIQUE_CAMERA_MODEL) {
            entry_text(bytes, i)
        } else {
            scan.unique_camera_model
        },
        profile_name: if text(TAG_PROFILE_NAME) {
            entry_text(bytes, i)
        } else {
            scan.profile_name
        },
        profile_copyright: if text(TAG_PROFILE_COPYRIGHT) {
            entry_text(bytes, i)
        } else {
            scan.profile_copyright
        },
        profile_calibration_signature: if text(TAG_PROFILE_CALIBRATION_SIGNATURE) {
            entry_text(bytes, i)
        } else {
            scan.profile_calibration_signature
        },
        calibration_illuminant_1: if short(TAG_CALIBRATION_ILLUMINANT_1) {
            Some(le_u16(bytes, entry_at(bytes, i) + 8))
        } else {
            scan.calibration_illuminant_1
        },
        calibration_illuminant_2: if short(TAG_CALIBRATION_ILLUMINANT_2) {
            Some(le_u16(bytes, entry_at(bytes, i) + 8))
        } else {
            scan.calibration_illuminant_2
        },
        hue_sat_dims: if dims(TAG_PROFILE_HUE_SAT_MAP_DIMS) {
            Some(dims_at(bytes, entry_value(bytes, i) as int))
        } else {
            scan.hue_sat_dims
        },
        hue_sat_data_1: if floats(TAG_PROFILE_HUE_SAT_MAP_DATA_1) {
            Some((entry_value(bytes, i), entry_len(bytes, i)))
        } else {
            scan.hue_sat_data_1
        },
        hue_sat_data_2: if floats(TAG_PROFILE_HUE_SAT_MAP_DATA_2) {
            Some((entry_value(bytes, i), entry_len(bytes, i)))
        } else {
            scan.hue_sat_data_2
        },
        hue_sat_map_encoding: if long(TAG_PROFILE_HUE_SAT_MAP_ENCODING) {
            entry_value(bytes, i)
        } else {
            scan.hue_sat_map_encoding
        },
        look_dims: if dims(TAG_PROFILE_LOOK_TABLE_DIMS) {
            Some(dims_at(bytes, entry_value(bytes, i) as int))
        } else {
            scan.look_dims
        },
        look_data: if floats(TAG_PROFILE_LOOK_TABLE_DATA) {
            Some((entry_value(bytes, i), entry_len(bytes, i)))
        } else {
            scan.look_data
        },
        look_table_encoding: if long(TAG_PROFILE_LOOK_TABLE_ENCODING) {
            entry_value(bytes, i)
        } else {
            scan.look_table_encoding
        },
        tone_curve: if is_entry(
            bytes,
            i,
            TAG_PROFILE_TONE_CURVE,
            TYPE_FLOAT,
            Elements::Points,
        ) {
            Some(points_at(bytes, entry_value(bytes, i) as int, entry_len(bytes, i) as int / 2))
        } else {
            scan.tone_curve
        },
    }
}

/// Scanning one entry more is one step more.
proof fn lemma_step(bytes: Seq<u8>, i: nat)
    ensures
        scanned(bytes, i + 1) == stepped(bytes, i as int, scanned(bytes, i)),
{
    assert(scanned(bytes, i + 1) =~= stepped(bytes, i as int, scanned(bytes, i)));
}

/// Takes entry `i` into the scan.
fn scan_entry(bytes: &[u8], at: usize, scan: &mut Scan, Ghost(i): Ghost<int>) -> (done: Result<
    (),
    ParseError,
>)
    requires
        0 <= i,
        at == entry_at(bytes@, i),
        at + 12 <= bytes.len(),
    ensures
        match done {
            Ok(_) => entry_error(bytes@, i) is None && final(scan)@ == stepped(
                bytes@,
                i,
                old(scan)@,
            ),
            Err(e) => entry_error(bytes@, i) == Some(e),
        },
{
    let tag: u16 = read_le_u16(bytes, at);
    let typ: u16 = read_le_u16(bytes, at + 2);
    let count: u32 = read_le_u32(bytes, at + 4);
    let value: u32 = read_le_u32(bytes, at + 8);
    if typ == TYPE_ASCII && (tag == TAG_UNIQUE_CAMERA_MODEL || tag == TAG_PROFILE_NAME || tag
        == TAG_PROFILE_COPYRIGHT || tag == TAG_PROFILE_CALIBRATION_SIGNATURE) {
        let text: Option<String> = match read_ascii(bytes, at, Ghost(i)) {
            Ok(text) => text,
            Err(e) => {
                return Err(e);
            },
        };
        if tag == TAG_UNIQUE_CAMERA_MODEL {
            scan.unique_camera_model = text;
        } else if tag == TAG_PROFILE_NAME {
            scan.profile_name = text;
        } else if tag == TAG_PROFILE_COPYRIGHT {
            scan.profile_copyright = text;
        } else {
            scan.profile_calibration_signature = text;
        }
    } else if typ == TYPE_SHORT && count == 1 {
        if tag == TAG_CALIBRATION_ILLUMINANT_1 {
            scan.calibration_illuminant_1 = Some(read_le_u16(bytes, at + 8));
        } else if tag == TAG_CALIBRATION_ILLUMINANT_2 {
            scan.calibration_illuminant_2 = Some(read_le_u16(bytes, at + 8));
        }
    } else if typ == TYPE_LONG && count == 1 {
        if tag == TAG_PROFILE_HUE_SAT_MAP_ENCODING {
            scan.hue_sat_map_encoding = value;
        } else if tag == TAG_PROFILE_LOOK_TABLE_ENCODING {
            scan.look_table_encoding = value;
        }
    } else if typ == TYPE_LONG && count == 3 && (tag == TAG_PROFILE_HUE_SAT_MAP_DIMS || tag
        == TAG_PROFILE_LOOK_TABLE_DIMS) {
        if value as u64 + 12 > bytes.len() as u64 {
            return Err(ParseError::BadEntryOffset { tag });
        }
        let off: usize = value as usize;
        let dims: (u32, u32, u32) = (
            read_le_u32(bytes, off),
            read_le_u32(bytes, off + 4),
            read_le_u32(bytes, off + 8),
        );
        if tag == TAG_PROFILE_HUE_SAT_MAP_DIMS {
            scan.hue_sat_dims = Some(dims);
        } else {
            scan.look_dims = Some(dims);
        }
    } else if typ == TYPE_FLOAT {
        if tag == TAG_PROFILE_HUE_SAT_MAP_DATA_1 {
            scan.hue_sat_data_1 = Some((value, count));
        } else if tag == TAG_PROFILE_HUE_SAT_MAP_DATA_2 {
            scan.hue_sat_data_2 = Some((value, count));
        } else if tag == TAG_PROFILE_LOOK_TABLE_DATA {
            scan.look_data = Some((value, count));
        } else if tag == TAG_PROFILE_TONE_CURVE && count >= 4 && count % 2 == 0 {
            let byte_len: usize = match (count as usize).checked_mul(4) {
                Some(byte_len) => byte_len,
                None => {
                    return Err(ParseError::BadToneCurve);
                },
            };
            if value as u64 + byte_len as u64 > bytes.len() as u64 {
                return Err(ParseError::BadEntryOffset { tag });
            }
            scan.tone_curve = Some(read_points(bytes, value as usize, count as usize / 2));
        }
    }
    Ok(())
}

/// A map of `dims` at `data`, where it can be read.
fn read_hue_sat_map(bytes: &[u8], dims: (u32, u32, u32), data: (u32, u32)) -> (map: Result<
    HueSatMap,
    ParseError,
>)
    ensures
        match map {
            Ok(map) => map_readable(bytes@, dims, data) && map@ == map_at(bytes@, dims, data),
            Err(e) => e == ParseError::BadHueSatMap && !map_readable(bytes@, dims, data),
        },
{
    let expected: usize = match count_floats(dims) {
        Some(expected) => expected,
        None => {
            return Err(ParseError::BadHueSatMap);
        },
    };
    let count: usize = data.1 as usize;
    if count != expected || data.0 as u64 + data.1 as u64 * 4 > bytes.len() as u64 {
        return Err(ParseError::BadHueSatMap);
    }
    let off: usize = data.0 as usize;
    let mut floats: Vec<u32> = Vec::new();
    let mut k: usize = 0;
    while k < count
        invariant
            k <= count,
            off + count * 4 <= bytes.len(),
            floats@ == Seq::new(k as nat, |j: int| le_u32(bytes@, off + j * 4)),
        decreases count - k,
    {
        floats.push(read_le_u32(bytes, off + k * 4));
        k = k + 1;
        assert(floats@ =~= Seq::new(k as nat, |j: int| le_u32(bytes@, off + j * 4)));
    }
    let map = HueSatMap { hue_divs: dims.0, sat_divs: dims.1, val_divs: dims.2, data: floats };
    assert(map@ =~= map_at(bytes@, dims, data));
    Ok(map)
}

/// How many floats a map of these dimensions holds.
pub(crate) fn count_floats(dims: (u32, u32, u32)) -> (count: Option<usize>)
    ensures
        match count {
            Some(count) => map_len(dims) == Some(count as int),
            None => map_len(dims) is None,
        },
{
    match (dims.0 as usize).checked_mul(dims.1 as usize) {
        None => None,
        Some(plane) => match plane.checked_mul(dims.2 as usize) {
            None => None,
            Some(cells) => cells.checked_mul(3),
        },
    }
}

/// A map, where the file has both its dimensions and its data.
fn read_map_field(
    bytes: &[u8],
    dims: Option<(u32, u32, u32)>,
    data: Option<(u32, u32)>,
) -> (map: Result<Option<HueSatMap>, ParseError>)
    ensures
        match map {
            Ok(map) => !map_broken(bytes@, dims, data) && map_view(map) == map_field(
                bytes@,
                dims,
                data,
            ),
            Err(e) => e == ParseError::BadHueSatMap && map_broken(bytes@, dims, data),
        },
{
    match dims {
        None => Ok(None),
        Some(dims) => match data {
            None => Ok(None),
            Some(data) => match read_hue_sat_map(bytes, dims, data) {
                Ok(map) => Ok(Some(map)),
                Err(e) => Err(e),
            },
        },
    }
}

/// Puts the maps together.
fn assemble(bytes: &[u8], scan: Scan) -> (result: Result<Dcp, ParseError>)
    ensures
        match result {
            Ok(dcp) => assembled(bytes@, scan@) == Ok::<DcpView, ParseError>(dcp@),
            Err(e) => assembled(bytes@, scan@) == Err::<DcpView, ParseError>(e),
        },
{
    if let Some(dims) = scan.hue_sat_dims {
        if count_floats(dims).is_none() {
            return Err(ParseError::BadHueSatMap);
        }
    }
    let hue_sat_map_1: Option<HueSatMap> = match read_map_field(
        bytes,
        scan.hue_sat_dims,
        scan.hue_sat_data_1,
    ) {
        Ok(map) => map,
        Err(e) => {
            return Err(e);
        },
    };
    let hue_sat_map_2: Option<HueSatMap> = match read_map_field(
        bytes,
        scan.hue_sat_dims,
        scan.hue_sat_data_2,
    ) {
        Ok(map) => map,
        Err(e) => {
            return Err(e);
        },
    };
    let look_table: Option<HueSatMap> = match read_map_field(
        bytes,
        scan.look_dims,
        scan.look_data,
    ) {
        Ok(map) => map,
        Err(e) => {
            return Err(e);
        },
    };
    Ok(
        Dcp {
            unique_camera_model: scan.unique_camera_model,
            profile_name: scan.profile_name,
            profile_copyright: scan.profile_copyright,
            profile_calibration_signature: scan.profile_calibration_signature,
            calibration_illuminant_1: scan.calibration_illuminant_1,
            calibration_illuminant_2: scan.calibration_illuminant_2,
            hue_sat_map_1,
            hue_sat_map_2,
            hue_sat_map_encoding: scan.hue_sat_map_encoding,
            look_table,
            look_table_encoding: scan.look_table_encoding,
            tone_curve: scan.tone_curve,
        },
    )
}

/// Parses a DCP file.
pub fn parse(bytes: &[u8]) -> (result: Result<Dcp, ParseError>)
    ensures
        parse_agrees(bytes@, result),
{
    if bytes.len() < 8 {
        return Err(ParseError::TooShort);
    }
    if bytes[0] != 0x49 || bytes[1] != 0x49 || bytes[2] != 0x52 || bytes[3] != 0x43 {
        return Err(ParseError::BadMagic);
    }
    let ifd: u32 = read_le_u32(bytes, 4);
    if ifd as u64 + 2 > bytes.len() as u64 {
        return Err(ParseError::BadIfdOffset);
    }
    let ifd: usize = ifd as usize;
    let count: usize = read_le_u16(bytes, ifd) as usize;
    if ifd as u64 + 2 + count as u64 * 12 > bytes.len() as u64 {
        return Err(ParseError::ImplausibleEntryCount);
    }
    let mut scan: Scan = Scan {
        unique_camera_model: None,
        profile_name: None,
        profile_copyright: None,
        profile_calibration_signature: None,
        calibration_illuminant_1: None,
        calibration_illuminant_2: None,
        hue_sat_dims: None,
        hue_sat_data_1: None,
        hue_sat_data_2: None,
        hue_sat_map_encoding: 0,
        look_dims: None,
        look_data: None,
        look_table_encoding: 0,
        tone_curve: None,
    };
    let mut i: usize = 0;
    while i < count
        invariant
            i <= count,
            bytes.len() >= 8,
            has_magic(bytes@),
            ifd == ifd_offset(bytes@),
            ifd + 2 <= bytes.len(),
            count == entry_count(bytes@),
            entry_at(bytes@, count as int) <= bytes.len(),
            first_error(bytes@, i as nat) is None,
            scan@ == scanned(bytes@, i as nat),
        decreases count - i,
    {
        match scan_entry(bytes, ifd + 2 + i * 12, &mut scan, Ghost(i as int)) {
            Ok(_) => {
                proof {
                    lemma_step(bytes@, i as nat);
                }
            },
            Err(e) => {
                proof {
                    lemma_first_error(bytes@, i as nat, count as nat);
                }
                return Err(e);
            },
        }
        i = i + 1;
    }
    assemble(bytes, scan)
}

/// A bad entry after good ones is the first bad one, however many follow.
proof fn lemma_first_error(bytes: Seq<u8>, i: nat, n: nat)
    requires
        i < n,
        first_error(bytes, i) is None,
        entry_error(bytes, i as int) is Some,
    ensures
        first_error(bytes, n) == entry_error(bytes, i as int),
    decreases n,
{
    if n > i + 1 {
        lemma_first_error(bytes, i, (n - 1) as nat);
    }
}

// ----- what a parsed profile holds, in terms of the file's bytes -----

/// Whether entry `j` of the directory has this tag, this type and such an element count.
pub open spec fn carries(
    bytes: Seq<u8>,
    j: int,
    tag: int,
    typ: int,
    counts: spec_fn(int) -> bool,
) -> bool {
    let at = le_u32(bytes, 4) + 2 + 12 * j;
    &&& le_u16(bytes, at) == tag
    &&& le_u16(bytes, at + 2) == typ
    &&& counts(le_u32(bytes, at + 4) as int)
}

/// Whether entry `i` is the last that does.
pub open spec fn is_newest(
    bytes: Seq<u8>,
    i: int,
    tag: int,
    typ: int,
    counts: spec_fn(int) -> bool,
) -> bool {
    let n = le_u16(bytes, le_u32(bytes, 4) as int) as int;
    &&& 0 <= i < n
    &&& carries(bytes, i, tag, typ, counts)
    &&& forall|j: int| i < j < n ==> !#[trigger] carries(bytes, j, tag, typ, counts)
}

/// Whether no entry does.
pub open spec fn is_absent(
    bytes: Seq<u8>,
    tag: int,
    typ: int,
    counts: spec_fn(int) -> bool,
) -> bool {
    let n = le_u16(bytes, le_u32(bytes, 4) as int) as int;
    forall|j: int| 0 <= j < n ==> !#[trigger] carries(bytes, j, tag, typ, counts)
}

/// Whatever the element count is.
pub open spec fn any_count() -> spec_fn(int) -> bool {
    |c: int| true
}

/// Exactly so many elements.
pub open spec fn count_is(wanted: int) -> spec_fn(int) -> bool {
    |c: int| c == wanted
}

/// At least two pairs, and pairs only.
pub open spec fn count_of_pairs() -> spec_fn(int) -> bool {
    |c: int| c >= 4 && c % 2 == 0
}

/// Whether a map is the one that the file holds under these two tags: the three numbers that the
/// dimensions' entry points at, and the floats that the data's entry points at.
pub open spec fn holds_map(
    bytes: Seq<u8>,
    map: Option<HueSatMapView>,
    dims_tag: int,
    data_tag: int,
) -> bool {
    let d = le_u32(bytes, 4) + 2;
    &&& is_absent(bytes, dims_tag, 4, count_is(3)) || is_absent(bytes, data_tag, 11, any_count())
        ==> map is None
    &&& forall|k: int, i: int|
        #![trigger carries(bytes, k, dims_tag, 4, count_is(3)), carries(bytes, i, data_tag, 11, any_count())]
        is_newest(bytes, k, dims_tag, 4, count_is(3)) && is_newest(
            bytes,
            i,
            data_tag,
            11,
            any_count(),
        ) ==> {
            let dims = le_u32(bytes, d + 12 * k + 8) as int;
            let data = le_u32(bytes, d + 12 * i + 8) as int;
            &&& map matches Some(map) && {
                &&& map.hue_divs == le_u32(bytes, dims)
                &&& map.sat_divs == le_u32(bytes, dims + 4)
                &&& map.val_divs == le_u32(bytes, dims + 8)
                &&& map.data.len() == le_u32(bytes, d + 12 * i + 4)
                &&& map.data.len() == map.hue_divs * map.sat_divs * map.val_divs * 3
                &&& forall|x: int|
                    0 <= x < map.data.len() ==> #[trigger] map.data[x] == le_u32(
                        bytes,
                        data + 4 * x,
                    )
            }
        }
}

/// Whether a number is the one that the file holds under a tag.
pub open spec fn holds_short(bytes: Seq<u8>, number: Option<u16>, tag: int) -> bool {
    &&& is_absent(bytes, tag, 3, count_is(1)) ==> number is None
    &&& forall|i: int| #[trigger]
        carries(bytes, i, tag, 3, count_is(1)) && is_newest(bytes, i, tag, 3, count_is(1))
            ==> number == Some(le_u16(bytes, le_u32(bytes, 4) + 2 + 12 * i + 8))
}

/// Whether a number is the one that the file holds under a tag, 0 where it holds none.
pub open spec fn holds_long(bytes: Seq<u8>, number: u32, tag: int) -> bool {
    &&& is_absent(bytes, tag, 4, count_is(1)) ==> number == 0
    &&& forall|i: int| #[trigger]
        carries(bytes, i, tag, 4, count_is(1)) && is_newest(bytes, i, tag, 4, count_is(1))
            ==> number == le_u32(bytes, le_u32(bytes, 4) + 2 + 12 * i + 8)
}

/// Whether a curve is the one that the file holds.
pub open spec fn holds_curve(bytes: Seq<u8>, curve: Option<Seq<(u32, u32)>>) -> bool {
    let d = le_u32(bytes, 4) + 2;
    &&& is_absent(bytes, 50940, 11, count_of_pairs()) ==> curve is None
    &&& forall|i: int| #[trigger]
        carries(bytes, i, 50940, 11, count_of_pairs()) && is_newest(
            bytes,
            i,
            50940,
            11,
            count_of_pairs(),
        ) ==> {
            let data = le_u32(bytes, d + 12 * i + 8) as int;
            &&& curve matches Some(curve) && {
                &&& curve.len() * 2 == le_u32(bytes, d + 12 * i + 4)
                &&& forall|x: int|
                    0 <= x < curve.len() ==> #[trigger] curve[x] == (
                        le_u32(bytes, data + 8 * x),
                        le_u32(bytes, data + 8 * x + 4),
                    )
            }
        }
}

/// Where the bytes of entry `i`'s text start: in the entry itself where there are four at most.
pub open spec fn text_start(bytes: Seq<u8>, i: int) -> int {
    let at = le_u32(bytes, 4) + 2 + 12 * i;
    if le_u32(bytes, at + 4) <= 4 {
        at + 8
    } else {
        le_u32(bytes, at + 8) as int
    }
}

/// Whether the text of entry `i` ends at a byte: at its first NUL, or where its bytes do.
pub open spec fn text_ends_at(bytes: Seq<u8>, i: int, end: int) -> bool {
    let count = le_u32(bytes, le_u32(bytes, 4) + 2 + 12 * i + 4) as int;
    let start = text_start(bytes, i);
    &&& count > 0
    &&& start <= end <= start + count
    &&& end == start + count || bytes[end] == 0
    &&& forall|j: int| start <= j < end ==> #[trigger] bytes[j] != 0
}

/// Whether a text is the one that the file holds under a tag: what stands before the first NUL of
/// its bytes, without the white space around it.
pub open spec fn holds_text(bytes: Seq<u8>, text: Option<Seq<char>>, tag: int) -> bool {
    &&& is_absent(bytes, tag, 2, any_count()) ==> text is None
    &&& forall|i: int| #[trigger]
        carries(bytes, i, tag, 2, any_count()) && is_newest(bytes, i, tag, 2, any_count())
            && le_u32(bytes, le_u32(bytes, 4) + 2 + 12 * i + 4) == 0 ==> text is None
    &&& forall|i: int, end: int| #[trigger]
        text_ends_at(bytes, i, end) && is_newest(bytes, i, tag, 2, any_count()) ==> text == Some(
            without_trailing_nuls(
                trimmed(utf8_lossy(bytes.subrange(text_start(bytes, i), end))),
            ),
        )
}

proof fn lemma_newest(
    bytes: Seq<u8>,
    n: nat,
    i: int,
    tag: u16,
    typ: u16,
    elements: Elements,
    counts: spec_fn(int) -> bool,
)
    requires
        forall|j: int| 0 <= j < n ==> #[trigger] carries(bytes, j, tag as int, typ as int, counts)
            == is_entry(bytes, j, tag, typ, elements),
        0 <= i < n,
        carries(bytes, i, tag as int, typ as int, counts),
        forall|j: int| i < j < n ==> !#[trigger] carries(bytes, j, tag as int, typ as int, counts),
    ensures
        last_entry(bytes, n, tag, typ, elements) == Some(i),
    decreases n,
{
    assert(carries(bytes, n - 1, tag as int, typ as int, counts) == is_entry(
        bytes,
        n - 1,
        tag,
        typ,
        elements,
    ));
    if i < n - 1 {
        lemma_newest(bytes, (n - 1) as nat, i, tag, typ, elements, counts);
    }
}

proof fn lemma_absent(
    bytes: Seq<u8>,
    n: nat,
    tag: u16,
    typ: u16,
    elements: Elements,
    counts: spec_fn(int) -> bool,
)
    requires
        forall|j: int| 0 <= j < n ==> #[trigger] carries(bytes, j, tag as int, typ as int, counts)
            == is_entry(bytes, j, tag, typ, elements),
        forall|j: int| 0 <= j < n ==> !#[trigger] carries(bytes, j, tag as int, typ as int, counts),
    ensures
        last_entry(bytes, n, tag, typ, elements) is None,
    decreases n,
{
    if n > 0 {
        assert(carries(bytes, n - 1, tag as int, typ as int, counts) == is_entry(
            bytes,
            n - 1,
            tag,
            typ,
            elements,
        ));
        lemma_absent(bytes, (n - 1) as nat, tag, typ, elements, counts);
    }
}

/// Which entry is read for a tag: the last that carries it in its shape.
proof fn lemma_last_entry(
    bytes: Seq<u8>,
    tag: u16,
    typ: u16,
    elements: Elements,
    counts: spec_fn(int) -> bool,
)
    requires
        counts == match elements {
            Elements::Any => any_count(),
            Elements::Exactly(c) => count_is(c as int),
            Elements::Points => count_of_pairs(),
        },
    ensures
        is_absent(bytes, tag as int, typ as int, counts) ==> last_entry(
            bytes,
            entry_count(bytes) as nat,
            tag,
            typ,
            elements,
        ) is None,
        forall|i: int| #[trigger]
            carries(bytes, i, tag as int, typ as int, counts) && is_newest(
                bytes,
                i,
                tag as int,
                typ as int,
                counts,
            ) ==> last_entry(bytes, entry_count(bytes) as nat, tag, typ, elements) == Some(i),
{
    let n = entry_count(bytes) as nat;
    assert forall|j: int| #[trigger]
        carries(bytes, j, tag as int, typ as int, counts) == is_entry(
            bytes,
            j,
            tag,
            typ,
            elements,
        ) by {
        assert(entry_at(bytes, j) == le_u32(bytes, 4) + 2 + 12 * j);
    }
    if is_absent(bytes, tag as int, typ as int, counts) {
        lemma_absent(bytes, n, tag, typ, elements, counts);
    }
    assert forall|i: int| #[trigger]
        carries(bytes, i, tag as int, typ as int, counts) && is_newest(
            bytes,
            i,
            tag as int,
            typ as int,
            counts,
        ) implies last_entry(bytes, n, tag, typ, elements) == Some(i) by {
        lemma_newest(bytes, n, i, tag, typ, elements, counts);
    }
}

proof fn lemma_holds_map(bytes: Seq<u8>, dims_tag: u16, data_tag: u16)
    requires
        ({
            let n = entry_count(bytes) as nat;
            let dims = dims_field(bytes, n, dims_tag);
            let data = data_field(bytes, n, data_tag);
            !map_broken(bytes, dims, data)
        }),
    ensures
        ({
            let n = entry_count(bytes) as nat;
            let dims = dims_field(bytes, n, dims_tag);
            let data = data_field(bytes, n, data_tag);
            holds_map(bytes, map_field(bytes, dims, data), dims_tag as int, data_tag as int)
        }),
{
    let n = entry_count(bytes) as nat;
    let dims = dims_field(bytes, n, dims_tag);
    let data = data_field(bytes, n, data_tag);
    lemma_last_entry(bytes, dims_tag, 4, Elements::Exactly(3), count_is(3));
    lemma_last_entry(bytes, data_tag, 11, Elements::Any, any_count());
    let map = map_field(bytes, dims, data);
    assert forall|k: int, i: int|
        #![trigger carries(bytes, k, dims_tag as int, 4, count_is(3)), carries(bytes, i, data_tag as int, 11, any_count())]
        is_newest(bytes, k, dims_tag as int, 4, count_is(3)) && is_newest(
            bytes,
            i,
            data_tag as int,
            11,
            any_count(),
        ) implies {
        let d = le_u32(bytes, 4) + 2;
        let from = le_u32(bytes, d + 12 * k + 8) as int;
        let to = le_u32(bytes, d + 12 * i + 8) as int;
        &&& map matches Some(map) && {
            &&& map.hue_divs == le_u32(bytes, from)
            &&& map.sat_divs == le_u32(bytes, from + 4)
            &&& map.val_divs == le_u32(bytes, from + 8)
            &&& map.data.len() == le_u32(bytes, d + 12 * i + 4)
            &&& map.data.len() == map.hue_divs * map.sat_divs * map.val_divs * 3
            &&& forall|x: int|
                0 <= x < map.data.len() ==> #[trigger] map.data[x] == le_u32(bytes, to + 4 * x)
        }
    } by {
        assert(entry_at(bytes, k) == le_u32(bytes, 4) + 2 + 12 * k);
        assert(entry_at(bytes, i) == le_u32(bytes, 4) + 2 + 12 * i);
    }
}

proof fn lemma_entry_text(bytes: Seq<u8>, n: nat, i: int, end: int)
    requires
        first_error(bytes, n) is None,
        n == entry_count(bytes),
        0 <= i < n,
        entry_at(bytes, n as int) <= bytes.len(),
        is_text_tag(entry_tag(bytes, i)),
        entry_type(bytes, i) == TYPE_ASCII,
        text_ends_at(bytes, i, end),
    ensures
        entry_text(bytes, i) == Some(
            without_trailing_nuls(trimmed(utf8_lossy(bytes.subrange(text_start(bytes, i), end)))),
        ),
{
    assert(entry_at(bytes, i) == le_u32(bytes, 4) + 2 + 12 * i);
    lemma_no_error(bytes, n, i);
    lemma_text_end(bytes, text_start(bytes, i), entry_len(bytes, i) as int, end);
}

proof fn lemma_holds_text(bytes: Seq<u8>, tag: u16)
    requires
        first_error(bytes, entry_count(bytes) as nat) is None,
        entry_at(bytes, entry_count(bytes)) <= bytes.len(),
        is_text_tag(tag),
    ensures
        holds_text(bytes, text_field(bytes, entry_count(bytes) as nat, tag), tag as int),
{
    let n = entry_count(bytes) as nat;
    let text = text_field(bytes, n, tag);
    lemma_last_entry(bytes, tag, 2, Elements::Any, any_count());
    assert forall|i: int| #[trigger]
        carries(bytes, i, tag as int, 2, any_count()) && is_newest(
            bytes,
            i,
            tag as int,
            2,
            any_count(),
        ) && le_u32(bytes, le_u32(bytes, 4) + 2 + 12 * i + 4) == 0 implies text is None by {
        assert(entry_at(bytes, i) == le_u32(bytes, 4) + 2 + 12 * i);
    }
    assert forall|i: int, end: int| #[trigger]
        text_ends_at(bytes, i, end) && is_newest(
            bytes,
            i,
            tag as int,
            2,
            any_count(),
        ) implies text == Some(
        without_trailing_nuls(trimmed(utf8_lossy(bytes.subrange(text_start(bytes, i), end)))),
    ) by {
        assert(carries(bytes, i, tag as int, 2, any_count()));
        assert(entry_at(bytes, i) == le_u32(bytes, 4) + 2 + 12 * i);
        lemma_entry_text(bytes, n, i, end);
    }
}

proof fn lemma_text_end(bytes: Seq<u8>, start: int, count: int, end: int)
    requires
        0 <= start <= end <= start + count <= bytes.len(),
        end == start + count || bytes[end] == 0,
        forall|j: int| start <= j < end ==> #[trigger] bytes[j] != 0,
    ensures
        bytes_until_nul(bytes.subrange(start, start + count)) == bytes.subrange(start, end),
{
    let payload = bytes.subrange(start, start + count);
    payload.index_of_first_ensures(0u8);
    assert forall|j: int| 0 <= j < end - start implies payload[j] != 0 by {
        assert(bytes[start + j] != 0);
    }
    if end < start + count {
        assert(payload[end - start] == 0);
        assert(payload.contains(0u8));
        assert(payload.index_of_first(0u8) == Some(end - start));
        assert(payload.take(end - start) =~= bytes.subrange(start, end));
    } else {
        assert(!payload.contains(0u8));
    }
}

/// No entry of a file that parses is bad.
proof fn lemma_no_error(bytes: Seq<u8>, n: nat, i: int)
    requires
        first_error(bytes, n) is None,
        0 <= i < n,
    ensures
        entry_error(bytes, i) is None,
    decreases n,
{
    if i < n - 1 {
        lemma_no_error(bytes, (n - 1) as nat, i);
    }
}

/// Each map of a profile holds the floats under its own tag, 50938, 50939 or 50982, in the shape
/// that its own dimensions' tag gives, 50937 or 50981.
pub proof fn each_map_is_read_from_its_own_tag(bytes: Seq<u8>)
    requires
        parsed(bytes) is Ok,
    ensures
        holds_map(bytes, parsed(bytes)->Ok_0.hue_sat_map_1, 50937, 50938),
        holds_map(bytes, parsed(bytes)->Ok_0.hue_sat_map_2, 50937, 50939),
        holds_map(bytes, parsed(bytes)->Ok_0.look_table, 50981, 50982),
{
    lemma_holds_map(bytes, 50937, 50938);
    lemma_holds_map(bytes, 50937, 50939);
    lemma_holds_map(bytes, 50981, 50982);
}

/// Each number and each curve of a profile is the one under its own tag.
pub proof fn each_number_is_read_from_its_own_tag(bytes: Seq<u8>)
    requires
        parsed(bytes) is Ok,
    ensures
        holds_short(bytes, parsed(bytes)->Ok_0.calibration_illuminant_1, 50778),
        holds_short(bytes, parsed(bytes)->Ok_0.calibration_illuminant_2, 50779),
        holds_long(bytes, parsed(bytes)->Ok_0.hue_sat_map_encoding, 51107),
        holds_long(bytes, parsed(bytes)->Ok_0.look_table_encoding, 51108),
        holds_curve(bytes, parsed(bytes)->Ok_0.tone_curve),
{
    lemma_last_entry(bytes, 50778, 3, Elements::Exactly(1), count_is(1));
    lemma_last_entry(bytes, 50779, 3, Elements::Exactly(1), count_is(1));
    lemma_last_entry(bytes, 51107, 4, Elements::Exactly(1), count_is(1));
    lemma_last_entry(bytes, 51108, 4, Elements::Exactly(1), count_is(1));
    lemma_last_entry(bytes, 50940, 11, Elements::Points, count_of_pairs());
    assert forall|i: int| #[trigger] entry_at(bytes, i) == le_u32(bytes, 4) + 2 + 12 * i by {}
    let dcp = parsed(bytes)->Ok_0;
    assert forall|i: int| #[trigger]
        carries(bytes, i, 50778, 3, count_is(1)) && is_newest(bytes, i, 50778, 3, count_is(1)) implies
        dcp.calibration_illuminant_1 == Some(le_u16(bytes, le_u32(bytes, 4) + 2 + 12 * i + 8)) by {
        assert(entry_at(bytes, i) + 8 == le_u32(bytes, 4) + 2 + 12 * i + 8);
    }
    assert forall|i: int| #[trigger]
        carries(bytes, i, 50779, 3, count_is(1)) && is_newest(bytes, i, 50779, 3, count_is(1)) implies
        dcp.calibration_illuminant_2 == Some(le_u16(bytes, le_u32(bytes, 4) + 2 + 12 * i + 8)) by {
        assert(entry_at(bytes, i) + 8 == le_u32(bytes, 4) + 2 + 12 * i + 8);
    }
    assert forall|i: int| #[trigger]
        carries(bytes, i, 51107, 4, count_is(1)) && is_newest(bytes, i, 51107, 4, count_is(1)) implies
        dcp.hue_sat_map_encoding == le_u32(bytes, le_u32(bytes, 4) + 2 + 12 * i + 8) by {
        assert(entry_at(bytes, i) + 8 == le_u32(bytes, 4) + 2 + 12 * i + 8);
    }
    assert forall|i: int| #[trigger]
        carries(bytes, i, 51108, 4, count_is(1)) && is_newest(bytes, i, 51108, 4, count_is(1)) implies
        dcp.look_table_encoding == le_u32(bytes, le_u32(bytes, 4) + 2 + 12 * i + 8) by {
        assert(entry_at(bytes, i) + 8 == le_u32(bytes, 4) + 2 + 12 * i + 8);
    }
}

/// Each text of a profile is the one under its own tag.
pub proof fn each_text_is_read_from_its_own_tag(bytes: Seq<u8>)
    requires
        parsed(bytes) is Ok,
    ensures
        holds_text(bytes, parsed(bytes)->Ok_0.unique_camera_model, 50708),
        holds_text(bytes, parsed(bytes)->Ok_0.profile_name, 50936),
        holds_text(bytes, parsed(bytes)->Ok_0.profile_copyright, 50942),
        holds_text(bytes, parsed(bytes)->Ok_0.profile_calibration_signature, 50932),
{
    lemma_holds_text(bytes, 50708);
    lemma_holds_text(bytes, 50936);
    lemma_holds_text(bytes, 50942);
    lemma_holds_text(bytes, 50932);
}

/// What's said of a parsed file is said of the profile that [`parse`] hands out, field by field.
pub proof fn parsing_hands_out_what_the_file_holds(
    bytes: &[u8],
    result: Result<Dcp, ParseError>,
)
    requires
        call_ensures(parse, (bytes,), result),
    ensures
        result is Ok <==> parsed(bytes@) is Ok,
        result matches Err(e) ==> parsed(bytes@) == Err::<DcpView, ParseError>(e),
        result matches Ok(dcp) ==> {
            let held = parsed(bytes@)->Ok_0;
            &&& is_text(dcp.unique_camera_model, held.unique_camera_model)
            &&& is_text(dcp.profile_name, held.profile_name)
            &&& is_text(dcp.profile_copyright, held.profile_copyright)
            &&& is_text(dcp.profile_calibration_signature, held.profile_calibration_signature)
            &&& dcp.calibration_illuminant_1 == held.calibration_illuminant_1
            &&& dcp.calibration_illuminant_2 == held.calibration_illuminant_2
            &&& is_map(dcp.hue_sat_map_1, held.hue_sat_map_1)
            &&& is_map(dcp.hue_sat_map_2, held.hue_sat_map_2)
            &&& dcp.hue_sat_map_encoding == held.hue_sat_map_encoding
            &&& is_map(dcp.look_table, held.look_table)
            &&& dcp.look_table_encoding == held.look_table_encoding
            &&& dcp.tone_curve is Some <==> held.tone_curve is Some
            &&& dcp.tone_curve matches Some(curve) ==> curve@ == held.tone_curve->0
        },
{
}

/// Whether an optional string is this text.
pub open spec fn is_text(string: Option<String>, text: Option<Seq<char>>) -> bool {
    &&& string is Some <==> text is Some
    &&& string matches Some(string) ==> string@ == text->0
}

/// Whether an optional map is this one, number by number.
pub open spec fn is_map(map: Option<HueSatMap>, view: Option<HueSatMapView>) -> bool {
    &&& map is Some <==> view is Some
    &&& map matches Some(map) ==> {
        &&& map.hue_divs == (view->0).hue_divs
        &&& map.sat_divs == (view->0).sat_divs
        &&& map.val_divs == (view->0).val_divs
        &&& map.data@ == (view->0).data
    }
}

/// Whether entry `i` of a file can be read: the bytes of a text, of three dimensions and of a tone
/// curve lie inside the file.
pub open spec fn is_sound_entry(bytes: Seq<u8>, i: int) -> bool {
    let at = le_u32(bytes, 4) + 2 + 12 * i;
    let tag = le_u16(bytes, at);
    let typ = le_u16(bytes, at + 2);
    let count = le_u32(bytes, at + 4) as int;
    let offset = le_u32(bytes, at + 8) as int;
    &&& (tag == 50708 || tag == 50936 || tag == 50942 || tag == 50932) && typ == 2 && count > 4
        ==> offset + count <= bytes.len()
    &&& (tag == 50937 || tag == 50981) && typ == 4 && count == 3 ==> offset + 12 <= bytes.len()
    &&& tag == 50940 && typ == 11 && count >= 4 && count % 2 == 0 ==> offset + 4 * count
        <= bytes.len() && 4 * count <= usize::MAX
}

/// A file is taken for a profile only where it opens with `IIRC`, its directory and every entry
/// lie inside it, and each map has as many floats as its dimensions say, inside the file. A file
/// that opens otherwise, or is cut short, is refused with its own error.
pub proof fn what_is_refused(bytes: Seq<u8>)
    ensures
        bytes.len() < 8 <==> parsed(bytes) == Err::<DcpView, ParseError>(ParseError::TooShort),
        bytes.len() >= 8 ==> {
            let opens = bytes[0] == 73 && bytes[1] == 73 && bytes[2] == 82 && bytes[3] == 67;
            let d = le_u32(bytes, 4) as int;
            let n = le_u16(bytes, d) as int;
            &&& !opens <==> parsed(bytes) == Err::<DcpView, ParseError>(ParseError::BadMagic)
            &&& opens && d + 2 > bytes.len() <==> parsed(bytes) == Err::<DcpView, ParseError>(
                ParseError::BadIfdOffset,
            )
            &&& opens && d + 2 <= bytes.len() && d + 2 + 12 * n > bytes.len() <==> parsed(bytes)
                == Err::<DcpView, ParseError>(ParseError::ImplausibleEntryCount)
            &&& opens && d + 2 + 12 * n <= bytes.len() && (exists|i: int|
                0 <= i < n && !#[trigger] is_sound_entry(bytes, i)) ==> parsed(bytes) is Err
            &&& opens && d + 2 + 12 * n <= bytes.len() && (forall|i: int|
                0 <= i < n ==> #[trigger] is_sound_entry(bytes, i)) ==> parsed(bytes) is Ok
                || parsed(bytes) == Err::<DcpView, ParseError>(ParseError::BadHueSatMap)
        },
{
    if bytes.len() >= 8 {
        let d = le_u32(bytes, 4) as int;
        let n = le_u16(bytes, d) as int;
        lemma_first_error_kind(bytes, n as nat);
        if exists|i: int| 0 <= i < n && !#[trigger] is_sound_entry(bytes, i) {
            let i = choose|i: int| 0 <= i < n && !#[trigger] is_sound_entry(bytes, i);
            lemma_sound(bytes, i);
            if first_error(bytes, n as nat) is None {
                lemma_no_error(bytes, n as nat, i);
            }
        }
        if forall|i: int| 0 <= i < n ==> #[trigger] is_sound_entry(bytes, i) {
            lemma_all_sound(bytes, n as nat);
        }
    }
}

proof fn lemma_sound(bytes: Seq<u8>, i: int)
    ensures
        is_sound_entry(bytes, i) <==> entry_error(bytes, i) is None,
{
    assert(entry_at(bytes, i) == le_u32(bytes, 4) + 2 + 12 * i);
}

proof fn lemma_first_error_kind(bytes: Seq<u8>, n: nat)
    ensures
        first_error(bytes, n) matches Some(e) ==> e is BadEntryOffset || e is BadToneCurve,
    decreases n,
{
    if n > 0 {
        lemma_first_error_kind(bytes, (n - 1) as nat);
    }
}

proof fn lemma_all_sound(bytes: Seq<u8>, n: nat)
    requires
        forall|i: int| 0 <= i < n ==> #[trigger] is_sound_entry(bytes, i),
    ensures
        first_error(bytes, n) is None,
    decreases n,
{
    if n > 0 {
        lemma_all_sound(bytes, (n - 1) as nat);
        assert(is_sound_entry(bytes, n - 1));
        lemma_sound(bytes, n - 1);
    }
}

/// Whether the floats of entry `i` are as many as the dimensions of entry `k` call for, and lie
/// inside the file.
pub open spec fn fits_its_dims(bytes: Seq<u8>, k: int, i: int) -> bool {
    let d = le_u32(bytes, 4) + 2;
    let dims = le_u32(bytes, d + 12 * k + 8) as int;
    let count = le_u32(bytes, d + 12 * i + 4) as int;
    let data = le_u32(bytes, d + 12 * i + 8) as int;
    &&& count == le_u32(bytes, dims) * le_u32(bytes, dims + 4) * le_u32(bytes, dims + 8) * 3
    &&& data + 4 * count <= bytes.len()
}

/// A map that's announced and can't be read is refused: where the count isn't three times the
/// product of the dimensions, or the floats lie outside the file.
pub proof fn unreadable_maps_are_refused(bytes: Seq<u8>, k: int, i: int)
    requires
        ({
            ||| is_newest(bytes, k, 50937, 4, count_is(3)) && is_newest(
                bytes,
                i,
                50938,
                11,
                any_count(),
            )
            ||| is_newest(bytes, k, 50937, 4, count_is(3)) && is_newest(
                bytes,
                i,
                50939,
                11,
                any_count(),
            )
            ||| is_newest(bytes, k, 50981, 4, count_is(3)) && is_newest(
                bytes,
                i,
                50982,
                11,
                any_count(),
            )
        }),
        !fits_its_dims(bytes, k, i),
    ensures
        parsed(bytes) is Err,
{
    lemma_last_entry(bytes, 50937, 4, Elements::Exactly(3), count_is(3));
    lemma_last_entry(bytes, 50981, 4, Elements::Exactly(3), count_is(3));
    lemma_last_entry(bytes, 50938, 11, Elements::Any, any_count());
    lemma_last_entry(bytes, 50939, 11, Elements::Any, any_count());
    lemma_last_entry(bytes, 50982, 11, Elements::Any, any_count());
    assert(entry_at(bytes, k) == le_u32(bytes, 4) + 2 + 12 * k);
    assert(entry_at(bytes, i) == le_u32(bytes, 4) + 2 + 12 * i);
}

/// The map for daylight is the one that's picked: the second where its light source is 21, else
/// the first where its is. Without either, the first there is.
pub proof fn daylight_is_picked(dcp: &Dcp, map: Option<&HueSatMap>)
    requires
        call_ensures(Dcp::pick_hue_sat_map, (dcp,), map),
    ensures
        map is None <==> dcp.hue_sat_map_1 is None && dcp.hue_sat_map_2 is None,
        dcp.calibration_illuminant_2 == Some(21u16) && dcp.hue_sat_map_2 is Some ==> is_map(
            dcp.hue_sat_map_2,
            Some(map->0@),
        ),
        dcp.calibration_illuminant_1 == Some(21u16) && dcp.calibration_illuminant_2 != Some(21u16)
            && dcp.hue_sat_map_1 is Some ==> is_map(dcp.hue_sat_map_1, Some(map->0@)),
        dcp.calibration_illuminant_1 != Some(21u16) && dcp.calibration_illuminant_2 != Some(21u16)
            && dcp.hue_sat_map_1 is Some ==> is_map(dcp.hue_sat_map_1, Some(map->0@)),
        dcp.hue_sat_map_1 is None && dcp.hue_sat_map_2 is Some ==> is_map(
            dcp.hue_sat_map_2,
            Some(map->0@),
        ),
        dcp.hue_sat_map_2 is None && dcp.hue_sat_map_1 is Some ==> is_map(
            dcp.hue_sat_map_1,
            Some(map->0@),
        ),
{
}

/// A cell's triple: the values of a saturation stand side by side, the saturations of a hue side
/// by side, and so do the hues.
pub proof fn cells_run_by_value_then_saturation_then_hue(
    map: &HueSatMap,
    h: u32,
    s: u32,
    v: u32,
    triple: (u32, u32, u32),
)
    requires
        call_ensures(HueSatMap::sample, (map, h, s, v), triple),
    ensures
        ({
            let at = 3 * (v + map.val_divs * (s + map.sat_divs * h));
            &&& triple.0 == map.data@[at]
            &&& triple.1 == map.data@[at + 1]
            &&& triple.2 == map.data@[at + 2]
        }),
{
    let (hd, sd, vd) = (h as int, map.sat_divs as int, map.val_divs as int);
    let row = hd * sd + s;
    assert(sd * hd == hd * sd) by (nonlinear_arith);
    assert(vd * row == row * vd) by (nonlinear_arith);
}

/// Each error is told in its own words, and an entry that points outside the file with its tag in
/// four hexadecimal digits.
pub proof fn errors_have_their_own_words(error: ParseError, message: String, digits: Vec<char>)
    requires
        call_ensures(ParseError::message, (&error,), message),
        error matches ParseError::BadEntryOffset { tag } ==> call_ensures(
            hex4_chars,
            (tag,),
            digits,
        ),
    ensures
        error is TooShort ==> message@ == "file too short to be a DCP"@,
        error is BadMagic ==> message@ == "missing `IIRC` magic"@,
        error is BadIfdOffset ==> message@ == "IFD offset points outside buffer"@,
        error is BadHueSatMap ==> message@ == "hue/sat map dimensions or payload malformed"@,
        error is ImplausibleEntryCount ==> message@ == "implausible IFD entry count"@,
        error is BadToneCurve ==> message@ == "tone curve payload overflows"@,
        error is BadEntryOffset ==> message@ == "entry data out of bounds for tag 0x"@ + digits@,
{
}

} // verus!
