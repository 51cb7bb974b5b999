//! The colour profile of the display in front of the user: what it's called, whether it can be
//! used, and when to read it again.
//!
//! The application asks the operating system for bytes, handles and path buffers. What they mean
//! and what to ask next is decided here.

use super::transform::{icc_parses, parses};
use crate::bytes::{be_u16, be_u32, read_be_u16, read_be_u32};
use crate::text::{
    chars_of, decode_utf16_lossy, from_utf8_lossy, push_text, string_of, trim_padding,
    utf16_lossy, utf8_lossy, without_padding,
};
use vstd::prelude::*;
use vstd::slice::slice_subrange;

verus! {

// ----- which display -----

/// One platform's handle for a monitor. Only ever compared with another from the same platform.
#[derive(Debug, Clone, Copy, PartialEq, Eq, Structural)]
pub struct MonitorId(pub u64);

/// Which display a profile was last read for, so that dragging a window doesn't read one for
/// every mouse move.
#[derive(Debug)]
pub struct MonitorTracker {
    current: Option<MonitorId>,
}

impl View for MonitorTracker {
    type V = Option<MonitorId>;

    closed spec fn view(&self) -> Option<MonitorId> {
        self.current
    }
}

impl MonitorTracker {
    /// No display was seen yet.
    pub fn new() -> (tracker: Self)
        ensures
            tracker@ is None,
    {
        MonitorTracker { current: None }
    }

    /// The window is on `monitor` now. Answers whether that's a display no profile was read for,
    /// and remembers it either way.
    pub fn moved_to(&mut self, monitor: MonitorId) -> (changed: bool)
        ensures
            changed == (old(self)@ != Some(monitor)),
            final(self)@ == Some(monitor),
    {
        let changed: bool = match self.current {
            Some(current) => current != monitor,
            None => true,
        };
        self.current = Some(monitor);
        changed
    }

    /// Forgets the display: handles and profiles may mean something else now.
    pub fn forget(&mut self)
        ensures
            final(self)@ is None,
    {
        self.current = None;
    }
}

impl Default for MonitorTracker {
    fn default() -> (tracker: Self)
        ensures
            tracker@ is None,
    {
        MonitorTracker::new()
    }
}

// ----- what a profile is called -----

/// The big-endian number at a byte offset, where its four bytes are there.
pub open spec fn number_at(bytes: Seq<u8>, at: int) -> Option<u32> {
    if at + 4 <= bytes.len() {
        Some(be_u32(bytes, at))
    } else {
        None
    }
}

/// Whether four bytes spell a signature.
pub open spec fn signature_at(bytes: Seq<u8>, at: int, signature: Seq<u8>) -> bool {
    bytes.subrange(at, at + 4) == signature
}

/// Where the tag table of an ICC profile starts.
pub const TAG_TABLE: usize = 128;

/// The size of an entry of the tag table.
pub const TAG_ENTRY: usize = 12;

/// Where entry `i` of the tag table starts.
pub open spec fn tag_entry_at(i: int) -> int {
    TAG_TABLE + 4 + i * TAG_ENTRY
}

/// Whether entry `i` carries the signature and its tag starts inside the profile.
pub open spec fn is_tag(icc: Seq<u8>, i: int, signature: Seq<u8>) -> bool {
    signature_at(icc, tag_entry_at(i), signature) && be_u32(icc, tag_entry_at(i) + 4) <= icc.len()
}

/// `offset + length`, or the end of the bytes where that comes first.
pub open spec fn clamped_end(bytes: Seq<u8>, offset: int, length: int) -> int {
    if offset + length <= bytes.len() {
        offset + length
    } else {
        bytes.len() as int
    }
}

/// The bytes of entry `i`'s tag, cut where the profile ends.
pub open spec fn tag_bytes(icc: Seq<u8>, i: int) -> Seq<u8> {
    let offset = be_u32(icc, tag_entry_at(i) + 4) as int;
    icc.subrange(offset, clamped_end(icc, offset, be_u32(icc, tag_entry_at(i) + 8) as int))
}

/// The first of the entries from `i` up to `count` that is such a tag.
pub open spec fn first_tag(icc: Seq<u8>, i: int, count: int, signature: Seq<u8>) -> Option<Seq<u8>>
    decreases count - i,
{
    if i >= count {
        None
    } else if is_tag(icc, i, signature) {
        Some(tag_bytes(icc, i))
    } else {
        first_tag(icc, i + 1, count, signature)
    }
}

/// The bytes of a tag. A profile whose tag table doesn't fit in it has none.
pub open spec fn tag_of(icc: Seq<u8>, signature: Seq<u8>) -> Option<Seq<u8>> {
    match number_at(icc, TAG_TABLE as int) {
        None => None,
        Some(count) => if tag_entry_at(count as int) > icc.len() {
            None
        } else {
            first_tag(icc, 0, count as int, signature)
        },
    }
}

/// `desc`.
pub open spec fn desc_signature() -> Seq<u8> {
    seq![0x64u8, 0x65u8, 0x73u8, 0x63u8]
}

/// `mluc`.
pub open spec fn mluc_signature() -> Seq<u8> {
    seq![0x6du8, 0x6cu8, 0x75u8, 0x63u8]
}

/// `enUS`.
pub open spec fn american_english() -> Seq<u8> {
    seq![0x65u8, 0x6eu8, 0x55u8, 0x53u8]
}

/// The name in an ICC v2 description: a byte count, then ASCII.
pub open spec fn ascii_name(tag: Seq<u8>) -> Option<Seq<char>> {
    match number_at(tag, 8) {
        None => None,
        Some(length) => Some(
            without_padding(
                utf8_lossy(tag.subrange(12, clamped_end(tag, 12, length as int))),
            ),
        ),
    }
}

/// The first of the records from `i` up to `count` that is in American English, or the first
/// record of all.
pub open spec fn english_record(tag: Seq<u8>, i: int, count: int, stride: int) -> int
    decreases count - i,
{
    if i >= count {
        16
    } else if signature_at(tag, 16 + i * stride, american_english()) {
        16 + i * stride
    } else {
        english_record(tag, i + 1, count, stride)
    }
}

/// Big-endian UTF-16 code units; a last odd byte is dropped.
pub open spec fn be_units(bytes: Seq<u8>) -> Seq<u16> {
    Seq::new(bytes.len() / 2, |i: int| be_u16(bytes, i * 2))
}

/// The name in an ICC v4 description: records of locale, byte length and offset, each pointing at
/// UTF-16.
pub open spec fn unicode_name(tag: Seq<u8>) -> Option<Seq<char>> {
    if number_at(tag, 12) is None {
        None
    } else {
        let count = be_u32(tag, 8) as int;
        let stride = be_u32(tag, 12) as int;
        if count == 0 || stride < 12 || 16 + count * stride > tag.len() {
            None
        } else {
            let record = english_record(tag, 0, count, stride);
            let length = be_u32(tag, record + 4) as int;
            let offset = be_u32(tag, record + 8) as int;
            if offset > tag.len() {
                None
            } else {
                Some(
                    without_padding(
                        utf16_lossy(
                            be_units(tag.subrange(offset, clamped_end(tag, offset, length))),
                        ),
                    ),
                )
            }
        }
    }
}

/// What a profile is called.
pub open spec fn icc_name(icc: Seq<u8>) -> Option<Seq<char>> {
    match tag_of(icc, desc_signature()) {
        None => None,
        Some(tag) => if tag.len() < 4 {
            None
        } else if tag.take(4) == desc_signature() {
            ascii_name(tag)
        } else if tag.take(4) == mluc_signature() {
            unicode_name(tag)
        } else {
            None
        },
    }
}

/// The text of an optional name.
pub open spec fn name_view(name: Option<String>) -> Option<Seq<char>> {
    match name {
        Some(name) => Some(name@),
        None => None,
    }
}

/// A big-endian `u32` at a byte offset, where its four bytes are there.
fn number(bytes: &[u8], at: usize) -> (value: Option<u32>)
    ensures
        value == number_at(bytes@, at as int),
{
    if at <= bytes.len() && bytes.len() - at >= 4 {
        Some(read_be_u32(bytes, at))
    } else {
        None
    }
}

/// Whether four bytes spell a signature.
pub(crate) fn spells(bytes: &[u8], at: usize, signature: &[u8; 4]) -> (yes: bool)
    requires
        at + 4 <= bytes.len(),
    ensures
        yes == signature_at(bytes@, at as int, signature@),
{
    let ghost four = bytes@.subrange(at as int, at + 4);
    assert(four.len() == 4 && four[0] == bytes[at as int] && four[1] == bytes[at + 1] && four[2]
        == bytes[at + 2] && four[3] == bytes[at + 3]);
    let yes: bool = bytes[at] == signature[0] && bytes[at + 1] == signature[1] && bytes[at + 2]
        == signature[2] && bytes[at + 3] == signature[3];
    assert(yes ==> four =~= signature@);
    yes
}

/// The bytes from `offset` on, `length` of them or as many as there are.
fn clamped(bytes: &[u8], offset: usize, length: u32) -> (part: &[u8])
    requires
        offset <= bytes.len(),
    ensures
        part@ == bytes@.subrange(
            offset as int,
            clamped_end(bytes@, offset as int, length as int),
        ),
{
    let end: usize = if bytes.len() - offset >= length as usize {
        offset + length as usize
    } else {
        bytes.len()
    };
    slice_subrange(bytes, offset, end)
}

/// The bytes of a tag.
fn find_tag<'a>(icc: &'a [u8], signature: &[u8; 4]) -> (tag: Option<&'a [u8]>)
    ensures
        match tag {
            Some(tag) => tag_of(icc@, signature@) == Some(tag@),
            None => tag_of(icc@, signature@) is None,
        },
{
    let count: u32 = match number(icc, TAG_TABLE) {
        Some(count) => count,
        None => {
            return None;
        },
    };
    if 132 + count as u64 * 12 > icc.len() as u64 {
        return None;
    }
    let count: usize = count as usize;
    let mut i: usize = 0;
    while i < count
        invariant
            i <= count,
            tag_entry_at(count as int) <= icc.len(),
            number_at(icc@, TAG_TABLE as int) == Some(count as u32),
            count <= u32::MAX,
            first_tag(icc@, 0, count as int, signature@) == first_tag(
                icc@,
                i as int,
                count as int,
                signature@,
            ),
        decreases count - i,
    {
        let base: usize = 132 + i * 12;
        if spells(icc, base, signature) {
            let offset: u32 = read_be_u32(icc, base + 4);
            let size: u32 = read_be_u32(icc, base + 8);
            if offset as usize <= icc.len() {
                return Some(clamped(icc, offset as usize, size));
            }
        }
        i = i + 1;
    }
    None
}

/// The name in an ICC v2 description.
fn ascii_description(tag: &[u8]) -> (name: Option<String>)
    ensures
        name_view(name) == ascii_name(tag@),
{
    let length: u32 = match number(tag, 8) {
        Some(length) => length,
        None => {
            return None;
        },
    };
    let text: String = from_utf8_lossy(clamped(tag, 12, length));
    Some(trimmed(text.as_str()))
}

/// Big-endian UTF-16 code units.
fn read_units(bytes: &[u8]) -> (units: Vec<u16>)
    ensures
        units@ == be_units(bytes@),
{
    let mut units: Vec<u16> = Vec::new();
    let count: usize = bytes.len() / 2;
    let mut i: usize = 0;
    while i < count
        invariant
            i <= count,
            count == bytes.len() / 2,
            units@ == Seq::new(i as nat, |k: int| be_u16(bytes@, k * 2)),
        decreases count - i,
    {
        units.push(read_be_u16(bytes, i * 2));
        i = i + 1;
        assert(units@ =~= Seq::new(i as nat, |k: int| be_u16(bytes@, k * 2)));
    }
    assert(units@ =~= be_units(bytes@));
    units
}

/// The name in an ICC v4 description.
fn unicode_description(tag: &[u8]) -> (name: Option<String>)
    ensures
        name_view(name) == unicode_name(tag@),
{
    let (count, stride): (u32, u32) = match (number(tag, 8), number(tag, 12)) {
        (Some(count), Some(stride)) => (count, stride),
        _ => {
            return None;
        },
    };
    assert(count * stride <= 0xffff_ffff * 0xffff_ffff) by (nonlinear_arith)
        requires
            count <= 0xffff_ffff,
            stride <= 0xffff_ffff,
    ;
    assert(0 <= count * stride) by (nonlinear_arith);
    if count == 0 || stride < 12 || 16 + count as u64 * stride as u64 > tag.len() as u64 {
        return None;
    }
    let record: usize = find_english(tag, count as usize, stride as usize);
    let length: u32 = read_be_u32(tag, record + 4);
    let offset: u32 = read_be_u32(tag, record + 8);
    if offset as usize > tag.len() {
        return None;
    }
    let units: Vec<u16> = read_units(clamped(tag, offset as usize, length));
    Some(string_of(trim_padding(&decode_utf16_lossy(&units))))
}

/// Where the record in American English starts, or the first record.
fn find_english(tag: &[u8], count: usize, stride: usize) -> (record: usize)
    requires
        0 < count,
        12 <= stride,
        16 + count * stride <= tag.len(),
    ensures
        record == english_record(tag@, 0, count as int, stride as int),
        record + 12 <= tag.len(),
{
    let signature: [u8; 4] = [0x65, 0x6e, 0x55, 0x53];
    assert(signature@ =~= american_english());
    let mut i: usize = 0;
    assert(stride <= count * stride) by (nonlinear_arith)
        requires
            1 <= count,
            0 <= stride,
    ;
    while i < count
        invariant
            i <= count,
            12 <= stride,
            16 + count * stride <= tag.len(),
            signature@ == american_english(),
            english_record(tag@, 0, count as int, stride as int) == english_record(
                tag@,
                i as int,
                count as int,
                stride as int,
            ),
        decreases count - i,
    {
        assert(i * stride + stride <= count * stride) by (nonlinear_arith)
            requires
                i + 1 <= count,
                0 <= stride,
        ;
        assert(0 <= i * stride) by (nonlinear_arith);
        let base: usize = 16 + i * stride;
        if spells(tag, base, &signature) {
            return base;
        }
        i = i + 1;
    }
    16
}

/// Drops the NULs that ICC pads strings with and the spaces that writers do.
fn trimmed(text: &str) -> (kept: String)
    ensures
        kept@ == without_padding(text@),
{
    string_of(trim_padding(&chars_of(text)))
}

/// What a profile is called, as in `Display P3`. `None` when it carries no readable name.
pub fn describe_icc(icc: &[u8]) -> (name: Option<String>)
    ensures
        name_view(name) == icc_name(icc@),
{
    let desc: [u8; 4] = [0x64, 0x65, 0x73, 0x63];
    let mluc: [u8; 4] = [0x6d, 0x6c, 0x75, 0x63];
    assert(desc@ =~= desc_signature());
    assert(mluc@ =~= mluc_signature());
    let tag: &[u8] = match find_tag(icc, &desc) {
        Some(tag) => tag,
        None => {
            return None;
        },
    };
    if tag.len() < 4 {
        return None;
    }
    assert(tag@.take(4) =~= tag@.subrange(0, 4));
    if spells(tag, 0, &desc) {
        ascii_description(tag)
    } else if spells(tag, 0, &mluc) {
        unicode_description(tag)
    } else {
        None
    }
}

/// A profile's name for a log line: ` (Display P3)`, or nothing at all.
pub fn describe_for_log(icc: &[u8]) -> (text: String)
    ensures
        text@ == (match icc_name(icc@) {
            Some(name) => " ("@ + name + ")"@,
            None => Seq::empty(),
        }),
{
    match describe_icc(icc) {
        Some(name) => {
            let mut chars: Vec<char> = chars_of(" (");
            push_text(&mut chars, name.as_str());
            push_text(&mut chars, ")");
            string_of(chars)
        },
        None => String::new(),
    }
}

// ----- whether a profile can be used -----

/// The bytes, where they are a profile that can be transformed to.
pub fn usable_profile(bytes: Vec<u8>) -> (usable: Option<Vec<u8>>)
    ensures
        usable == (if icc_parses(bytes@) {
            Some(bytes)
        } else {
            None
        }),
{
    if parses(bytes.as_slice()) {
        Some(bytes)
    } else {
        None
    }
}

// ----- what Windows answers -----

/// The units before the first NUL, all of them where there is none.
pub open spec fn units_until_nul(units: Seq<u16>) -> Seq<u16> {
    match units.index_of_first(0u16) {
        Some(i) => units.take(i),
        None => units,
    }
}

/// The largest file that is read as a profile, in bytes.
pub const MAX_PROFILE_BYTES: u64 = 8_388_608;

/// How many characters of a profile's path to ask for first.
pub const FIRST_TRY_CHARS: u32 = 260;

/// The longest path to believe a second attempt asking for.
pub const MAX_PATH_CHARS: u32 = 32_768;

/// The wide string in a buffer that Windows filled: the tail past the terminator is whatever was
/// there before.
pub fn until_nul(buffer: &[u16]) -> (text: &[u16])
    ensures
        text@ == units_until_nul(buffer@),
{
    let mut i: usize = 0;
    while i < buffer.len()
        invariant
            i <= buffer.len(),
            forall|j: int| 0 <= j < i ==> buffer[j] != 0,
        decreases buffer.len() - i,
    {
        if buffer[i] == 0 {
            proof {
                assert(buffer@[i as int] == 0);
                assert(buffer@.contains(0u16));
                buffer@.index_of_first_ensures(0u16);
                let first = buffer@.index_of_first(0u16)->0;
                assert(buffer@[first] == 0);
                assert(first == i);
                assert(buffer@.subrange(0, i as int) =~= buffer@.take(i as int));
            }
            return slice_subrange(buffer, 0, i);
        }
        i = i + 1;
    }
    proof {
        assert(!buffer@.contains(0u16));
        buffer@.index_of_first_ensures(0u16);
    }
    buffer
}

/// A copy of UTF-16 code units.
fn copy_units(units: &[u16]) -> (copy: Vec<u16>)
    ensures
        copy@ == units@,
{
    let mut copy: Vec<u16> = Vec::new();
    for i in 0..units.len()
        invariant
            copy@ == units@.take(i as int),
    {
        copy.push(units[i]);
    }
    assert(units@.take(units@.len() as int) =~= units@);
    copy
}

/// A monitor's device name with its terminator, ready to be handed back to Windows. `None` for a
/// blank one.
pub fn device_name(buffer: &[u16]) -> (name: Option<Vec<u16>>)
    ensures
        match name {
            Some(name) => units_until_nul(buffer@).len() > 0 && name@ == units_until_nul(
                buffer@,
            ).push(0),
            None => units_until_nul(buffer@).len() == 0,
        },
{
    let text: &[u16] = until_nul(buffer);
    if text.len() == 0 {
        return None;
    }
    let mut name: Vec<u16> = copy_units(text);
    name.push(0);
    Some(name)
}

/// The path in a filled buffer. `None` for a blank one.
pub fn path_from_buffer(buffer: &[u16]) -> (path: Option<Vec<u16>>)
    ensures
        match path {
            Some(path) => units_until_nul(buffer@).len() > 0 && path@ == units_until_nul(buffer@),
            None => units_until_nul(buffer@).len() == 0,
        },
{
    let text: &[u16] = until_nul(buffer);
    if text.len() == 0 {
        None
    } else {
        Some(copy_units(text))
    }
}

/// How many characters to ask for again, given how many the failed first attempt wanted. `None`
/// where that attempt failed for another reason.
pub fn second_try_chars(wanted: u32) -> (chars: Option<u32>)
    ensures
        chars == (if FIRST_TRY_CHARS < wanted <= MAX_PATH_CHARS {
            Some(wanted)
        } else {
            None
        }),
{
    if wanted <= FIRST_TRY_CHARS || wanted > MAX_PATH_CHARS {
        None
    } else {
        Some(wanted)
    }
}

/// Whether a file is small enough to be a profile.
pub fn is_profile_sized(size: u64) -> (yes: bool)
    ensures
        yes == (size <= MAX_PROFILE_BYTES),
{
    size <= MAX_PROFILE_BYTES
}

// ----- laws -----

/// A wide string holds no NUL.
pub proof fn a_wide_string_holds_no_nul(units: Seq<u16>)
    ensures
        !units_until_nul(units).contains(0),
{
    units.index_of_first_ensures(0u16);
    if units.contains(0) {
        let first = units.index_of_first(0u16)->0;
        assert forall|i: int| 0 <= i < first implies units.take(first)[i] != 0 by {
            assert(units[i] != 0);
        }
    }
}

/// What follows the terminator doesn't count.
pub proof fn nothing_past_the_terminator_counts(text: Seq<u16>, tail: Seq<u16>)
    requires
        !text.contains(0),
    ensures
        units_until_nul(text.push(0) + tail) == text,
        units_until_nul(text) == text,
{
    let units = text.push(0) + tail;
    assert(units[text.len() as int] == 0);
    assert(units.contains(0u16));
    units.index_of_first_ensures(0u16);
    let first = units.index_of_first(0u16)->0;
    if first < text.len() {
        assert(units[first] == text[first]);
        assert(text.contains(0u16));
    }
    assert(first == text.len());
    assert(units.take(first) =~= text);
    text.index_of_first_ensures(0u16);
}

/// The name a profile goes by doesn't end in a NUL or a space.
pub proof fn names_carry_no_padding(icc: Seq<u8>)
    ensures
        icc_name(icc) matches Some(name) ==> name.len() == 0 || (name.last() != '\0'
            && name.last() != ' '),
{
    match tag_of(icc, desc_signature()) {
        None => {},
        Some(tag) => {
            let ascii = utf8_lossy(
                tag.subrange(12, clamped_end(tag, 12, be_u32(tag, 8) as int)),
            );
            lemma_without_padding(ascii);
            let count = be_u32(tag, 8) as int;
            let stride = be_u32(tag, 12) as int;
            let record = english_record(tag, 0, count, stride);
            let length = be_u32(tag, record + 4) as int;
            let offset = be_u32(tag, record + 8) as int;
            lemma_without_padding(
                utf16_lossy(be_units(tag.subrange(offset, clamped_end(tag, offset, length)))),
            );
        },
    }
}

proof fn lemma_without_padding(s: Seq<char>)
    ensures
        without_padding(s).len() == 0 || (without_padding(s).last() != '\0' && without_padding(
            s,
        ).last() != ' '),
    decreases s.len(),
{
    let drop = |c: char| c == '\0' || c == ' ';
    if s.len() > 0 && drop(s.last()) {
        lemma_without_padding(s.drop_last());
    }
}

// ----- where a profile's name stands in its bytes -----

/// Whether the four bytes at an offset are these.
pub open spec fn four_at(bytes: Seq<u8>, at: int, a: u8, b: u8, c: u8, d: u8) -> bool {
    bytes[at] == a && bytes[at + 1] == b && bytes[at + 2] == c && bytes[at + 3] == d
}

/// The name of a profile stands in the first tag of its table that's signed `desc` and starts
/// inside the profile, as far as the profile goes.
pub proof fn the_name_stands_in_the_first_description(icc: Seq<u8>, i: int)
    requires
        icc.len() >= 132,
        132 + 12 * be_u32(icc, 128) <= icc.len(),
        0 <= i < be_u32(icc, 128),
        four_at(icc, 132 + 12 * i, 100, 101, 115, 99),
        be_u32(icc, 132 + 12 * i + 4) <= icc.len(),
        forall|j: int|
            0 <= j < i ==> !(four_at(icc, #[trigger] tag_entry_at(j), 100, 101, 115, 99) && be_u32(
                icc,
                132 + 12 * j + 4,
            ) <= icc.len()),
    ensures
        ({
            let start = be_u32(icc, 132 + 12 * i + 4) as int;
            let size = be_u32(icc, 132 + 12 * i + 8) as int;
            let end = if start + size <= icc.len() {
                start + size
            } else {
                icc.len() as int
            };
            tag_of(icc, desc_signature()) == Some(icc.subrange(start, end))
        }),
{
    let count = be_u32(icc, 128) as int;
    assert(tag_entry_at(count) == 132 + 12 * count);
    assert(tag_entry_at(i) == 132 + 12 * i);
    assert forall|j: int| 0 <= j < i implies !#[trigger] is_tag(icc, j, desc_signature()) by {
        assert(tag_entry_at(j) == 132 + 12 * j);
        lemma_four(icc, tag_entry_at(j));
    }
    lemma_four(icc, tag_entry_at(i));
    assert(is_tag(icc, i, desc_signature()));
    lemma_first_tag(icc, 0, i, count, desc_signature());
}

proof fn lemma_four(icc: Seq<u8>, at: int)
    requires
        0 <= at,
        at + 4 <= icc.len(),
    ensures
        signature_at(icc, at, desc_signature()) == four_at(icc, at, 100, 101, 115, 99),
{
    let four = icc.subrange(at, at + 4);
    assert(four[0] == icc[at] && four[1] == icc[at + 1] && four[2] == icc[at + 2] && four[3]
        == icc[at + 3]);
    if four_at(icc, at, 100, 101, 115, 99) {
        assert(four =~= desc_signature());
    }
}

proof fn lemma_first_tag(icc: Seq<u8>, from: int, i: int, count: int, signature: Seq<u8>)
    requires
        from <= i < count,
        is_tag(icc, i, signature),
        forall|j: int| from <= j < i ==> !#[trigger] is_tag(icc, j, signature),
    ensures
        first_tag(icc, from, count, signature) == Some(tag_bytes(icc, i)),
    decreases i - from,
{
    if from < i {
        assert(!is_tag(icc, from, signature));
        lemma_first_tag(icc, from + 1, i, count, signature);
    }
}

/// An ASCII description names the profile by the bytes after its count, as many as that says and
/// are there, without the padding at their end.
pub proof fn ascii_names_follow_their_count(icc: Seq<u8>, tag: Seq<u8>)
    requires
        tag_of(icc, desc_signature()) == Some(tag),
        tag.len() >= 12,
        four_at(tag, 0, 100, 101, 115, 99),
    ensures
        ({
            let count = be_u32(tag, 8) as int;
            let end = if 12 + count <= tag.len() {
                12 + count
            } else {
                tag.len() as int
            };
            icc_name(icc) == Some(without_padding(utf8_lossy(tag.subrange(12, end))))
        }),
{
    assert(tag.take(4) =~= desc_signature());
}

/// A description in several languages names the profile in American English where it has that,
/// and else in the first: the UTF-16 that the record points at, without the padding at its end.
pub proof fn american_english_is_preferred(icc: Seq<u8>, tag: Seq<u8>, k: int)
    requires
        tag_of(icc, desc_signature()) == Some(tag),
        tag.len() >= 16,
        four_at(tag, 0, 109, 108, 117, 99),
        be_u32(tag, 8) > 0,
        be_u32(tag, 12) >= 12,
        16 + be_u32(tag, 8) * be_u32(tag, 12) <= tag.len(),
        0 <= k < be_u32(tag, 8),
        ({
            ||| four_at(tag, 16 + k * be_u32(tag, 12), 101, 110, 85, 83) && forall|j: int|
                0 <= j < k ==> !four_at(
                    tag,
                    16 + #[trigger] (j * be_u32(tag, 12)),
                    101,
                    110,
                    85,
                    83,
                )
            ||| k == 0 && forall|j: int|
                0 <= j < be_u32(tag, 8) ==> !four_at(
                    tag,
                    16 + #[trigger] (j * be_u32(tag, 12)),
                    101,
                    110,
                    85,
                    83,
                )
        }),
        be_u32(tag, 16 + k * be_u32(tag, 12) + 8) <= tag.len(),
    ensures
        ({
            let record = 16 + k * be_u32(tag, 12);
            let length = be_u32(tag, record + 4) as int;
            let start = be_u32(tag, record + 8) as int;
            let end = if start + length <= tag.len() {
                start + length
            } else {
                tag.len() as int
            };
            icc_name(icc) == Some(
                without_padding(
                    utf16_lossy(
                        Seq::new(
                            ((end - start) / 2) as nat,
                            |u: int| (tag[start + 2 * u] * 256 + tag[start + 2 * u + 1]) as u16,
                        ),
                    ),
                ),
            )
        }),
{
    let stride = be_u32(tag, 12) as int;
    let count = be_u32(tag, 8) as int;
    assert(tag.take(4) =~= mluc_signature());
    assert(mluc_signature()[0] != desc_signature()[0]);
    assert(k * stride + 12 <= count * stride) by (nonlinear_arith)
        requires
            0 <= k < count,
            stride >= 12,
    ;
    assert(0 <= k * stride) by (nonlinear_arith)
        requires
            0 <= k,
            0 <= stride,
    ;
    let found = four_at(tag, 16 + k * stride, 101, 110, 85, 83);
    assert forall|j: int| 0 <= j < count implies #[trigger] signature_at(
        tag,
        16 + j * stride,
        american_english(),
    ) == four_at(tag, 16 + j * stride, 101, 110, 85, 83) by {
        assert(j * stride + 12 <= count * stride && 0 <= j * stride) by (nonlinear_arith)
            requires
                0 <= j < count,
                stride >= 12,
        ;
        let four = tag.subrange(16 + j * stride, 16 + j * stride + 4);
        let at = 16 + j * stride;
        assert(four[0] == tag[at] && four[1] == tag[at + 1] && four[2] == tag[at + 2] && four[3]
            == tag[at + 3]);
        if four_at(tag, at, 101, 110, 85, 83) {
            assert(four =~= american_english());
        }
    }
    if found && (forall|j: int|
        0 <= j < k ==> !four_at(tag, 16 + #[trigger] (j * stride), 101, 110, 85, 83)) {
        lemma_english_at(tag, 0, k, count, stride);
    } else {
        lemma_no_english(tag, 0, count, stride);
    }
    let record = 16 + k * stride;
    assert(english_record(tag, 0, count, stride) == record);
    let start = be_u32(tag, record + 8) as int;
    let end = clamped_end(tag, start, be_u32(tag, record + 4) as int);
    let text = tag.subrange(start, end);
    assert(be_units(text) =~= Seq::new(
        ((end - start) / 2) as nat,
        |u: int| (tag[start + 2 * u] * 256 + tag[start + 2 * u + 1]) as u16,
    ));
}

proof fn lemma_english_at(tag: Seq<u8>, from: int, k: int, count: int, stride: int)
    requires
        0 <= from <= k < count,
        signature_at(tag, 16 + k * stride, american_english()),
        forall|j: int|
            from <= j < k ==> !#[trigger] signature_at(tag, 16 + j * stride, american_english()),
    ensures
        english_record(tag, from, count, stride) == 16 + k * stride,
    decreases k - from,
{
    if from < k {
        assert(!signature_at(tag, 16 + from * stride, american_english()));
        lemma_english_at(tag, from + 1, k, count, stride);
    }
}

proof fn lemma_no_english(tag: Seq<u8>, from: int, count: int, stride: int)
    requires
        0 <= from,
        forall|j: int|
            from <= j < count ==> !#[trigger] signature_at(tag, 16 + j * stride, american_english()),
    ensures
        english_record(tag, from, count, stride) == 16,
    decreases count - from,
{
    if from < count {
        assert(!signature_at(tag, 16 + from * stride, american_english()));
        lemma_no_english(tag, from + 1, count, stride);
    }
}

/// A profile without a description has no name, and what a log says of a name is that, in
/// brackets.
pub proof fn logs_put_names_in_brackets(icc: &[u8], name: Option<String>, text: String)
    requires
        call_ensures(describe_icc, (icc,), name),
        call_ensures(describe_for_log, (icc,), text),
    ensures
        name is Some <==> icc_name(icc@) is Some,
        name matches Some(name) ==> name@ == icc_name(icc@)->0 && text@.len() == name@.len() + 3
            && text@[0] == ' ' && text@[1] == '(' && text@.last() == ')' && text@.subrange(
            2,
            text@.len() - 1,
        ) == name@,
        name is None ==> text@.len() == 0,
        icc@.len() < 132 ==> name is None,
{
    reveal_strlit(" (");
    reveal_strlit(")");
    if let Some(name) = name {
        assert(text@ == " ("@ + name@ + ")"@);
        assert(text@.subrange(2, text@.len() - 1) =~= name@);
    }
}

/// A wide text ends at its first NUL, and is none where it starts with one. Names of devices get
/// their NUL back.
pub proof fn wide_texts_end_at_their_first_nul(
    buffer: &[u16],
    device: Option<Vec<u16>>,
    path: Option<Vec<u16>>,
    end: int,
)
    requires
        call_ensures(device_name, (buffer,), device),
        call_ensures(path_from_buffer, (buffer,), path),
        0 <= end <= buffer@.len(),
        end == buffer@.len() || buffer@[end] == 0,
        forall|j: int| 0 <= j < end ==> #[trigger] buffer@[j] != 0,
    ensures
        end == 0 ==> device is None && path is None,
        end > 0 ==> path is Some && path->0@ == buffer@.take(end) && device is Some
            && device->0@ == buffer@.take(end).push(0),
{
    let units = units_until_nul(buffer@);
    if end < buffer@.len() {
        nothing_past_the_terminator_counts(buffer@.take(end), buffer@.skip(end + 1));
        assert(!buffer@.take(end).contains(0));
        assert(buffer@.take(end).push(0) + buffer@.skip(end + 1) =~= buffer@);
    } else {
        assert(!buffer@.contains(0));
        nothing_past_the_terminator_counts(buffer@, Seq::empty());
        assert(buffer@.take(end) =~= buffer@);
    }
    assert(units == buffer@.take(end));
}

/// A path is asked for again, at the length that was wanted, exactly where that's over the 260
/// characters of the first attempt and no more than 32,768. A file is read as a profile up to
/// eight mebibytes.
pub proof fn second_tries_are_for_longer_paths(
    wanted: u32,
    chars: Option<u32>,
    size: u64,
    sized: bool,
)
    requires
        call_ensures(second_try_chars, (wanted,), chars),
        call_ensures(is_profile_sized, (size,), sized),
    ensures
        chars is Some <==> 261 <= wanted <= 32_768,
        chars is Some ==> chars->0 == wanted,
        sized <==> size <= 8 * 1024 * 1024,
{
}

/// A window that moves to a display has a profile to read there exactly where it isn't on it yet,
/// or where the displays were forgotten since.
pub proof fn each_display_is_read_once(
    made: MonitorTracker,
    first: &mut MonitorTracker,
    a: MonitorId,
    new: bool,
    second: &mut MonitorTracker,
    b: MonitorId,
    moved: bool,
    third: &mut MonitorTracker,
    fourth: &mut MonitorTracker,
    again: bool,
)
    requires
        call_ensures(MonitorTracker::new, (), made),
        *first == made,
        call_ensures(MonitorTracker::moved_to, (first, a), new),
        *second == *final(first),
        call_ensures(MonitorTracker::moved_to, (second, b), moved),
        *third == *final(second),
        call_ensures(MonitorTracker::forget, (third,), ()),
        *fourth == *final(third),
        call_ensures(MonitorTracker::moved_to, (fourth, b), again),
    ensures
        new,
        moved <==> a != b,
        again,
{
}

/// A file is a profile exactly where it parses, and then it's handed on byte for byte.
pub proof fn usable_profiles_are_handed_on(bytes: Vec<u8>, usable: Option<Vec<u8>>)
    requires
        call_ensures(usable_profile, (bytes,), usable),
    ensures
        usable is Some <==> icc_parses(bytes@),
        usable is Some ==> usable->0@ == bytes@,
{
}

} // verus!
