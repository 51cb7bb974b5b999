//! The profiles that ship with the viewer.
//!
//! They travel as one zstd-compressed bundle, all files end to end, and an index: a line
//! `<name>\t<offset>\t<length>` for each file, pointing into the decompressed bundle. The
//! application holds both; what they mean is decided here.

use super::discovery::{dcp_view, names, normalize, normalized};
use super::parser::{parse, parsed, Dcp, DcpView};
use crate::text::{
    chars_of, decimal, decimals_spell_their_number, same_chars, string_of, sub_chars,
};
use vstd::prelude::*;
use vstd::utf8::{decode_utf8, valid_utf8};

verus! {

/// The most bytes that a bundle may decompress to.
pub const BUNDLE_CAPACITY: usize = 134_217_728;

/// A file in the bundle.
#[derive(Debug, Clone, PartialEq, Eq)]
pub struct IndexEntry {
    pub name: String,
    pub offset: usize,
    pub length: usize,
}

/// A file in the bundle, as mathematics.
pub struct EntryView {
    pub name: Seq<char>,
    pub offset: nat,
    pub length: nat,
}

impl View for IndexEntry {
    type V = EntryView;

    open spec fn view(&self) -> EntryView {
        EntryView { name: self.name@, offset: self.offset as nat, length: self.length as nat }
    }
}

/// Why no profile could be looked for.
#[derive(Debug, Clone, Copy, PartialEq, Eq)]
pub enum BundleError {
    /// The bundle doesn't decompress.
    Corrupt,
}

/// What stands before the first `sep`, and what stands after it where there is one.
pub open spec fn split_at_first(s: Seq<char>, sep: char) -> (Seq<char>, Option<Seq<char>>) {
    match s.index_of_first(sep) {
        Some(i) => (s.take(i), Some(s.skip(i + 1))),
        None => (s, None),
    }
}

/// Whether a text is made of decimal digits.
pub open spec fn all_digits(s: Seq<char>) -> bool {
    forall|i: int| 0 <= i < s.len() ==> '0' <= #[trigger] s[i] <= '9'
}

/// The number that decimal digits stand for.
pub open spec fn digits_value(s: Seq<char>) -> nat
    decreases s.len(),
{
    if s.len() == 0 {
        0
    } else {
        digits_value(s.drop_last()) * 10 + (s.last() as u32 - 48) as nat
    }
}

/// A text without a leading plus sign.
pub open spec fn without_plus(s: Seq<char>) -> Seq<char> {
    if s.len() > 0 && s[0] == '+' {
        s.skip(1)
    } else {
        s
    }
}

/// The number that a text spells, 0 where it spells none or none that the machine can hold.
pub open spec fn number(s: Seq<char>) -> nat {
    let d = without_plus(s);
    if d.len() > 0 && all_digits(d) && digits_value(d) <= usize::MAX {
        digits_value(d)
    } else {
        0
    }
}

/// The file that a line of the index names. A line without a name or with length 0 names none.
pub open spec fn line_entry(line: Seq<char>) -> Option<EntryView> {
    let (name, rest) = split_at_first(line, '\t');
    let (offset, length) = match rest {
        None => (0, 0),
        Some(rest) => {
            let (offset, rest) = split_at_first(rest, '\t');
            (
                number(offset),
                match rest {
                    None => 0,
                    Some(length) => number(length),
                },
            )
        },
    };
    if name.len() > 0 && length > 0 {
        Some(EntryView { name, offset, length })
    } else {
        None
    }
}

/// A line without the carriage return that ends it.
pub open spec fn without_cr(line: Seq<char>) -> Seq<char> {
    if line.len() > 0 && line.last() == '\r' {
        line.drop_last()
    } else {
        line
    }
}

/// One entry or none, as a sequence.
pub open spec fn as_seq(entry: Option<EntryView>) -> Seq<EntryView> {
    match entry {
        Some(entry) => seq![entry],
        None => Seq::empty(),
    }
}

/// The files that an index names, in order.
pub open spec fn index_entries(text: Seq<char>) -> Seq<EntryView>
    decreases text.len(),
{
    if text.len() == 0 {
        Seq::empty()
    } else {
        match text.index_of_first('\n') {
            None => as_seq(line_entry(text)),
            Some(i) => if 0 <= i < text.len() {
                as_seq(line_entry(without_cr(text.take(i)))) + index_entries(text.skip(i + 1))
            } else {
                Seq::empty()
            },
        }
    }
}

/// The text of an index. One that isn't UTF-8 counts as empty.
pub open spec fn index_text(index: Seq<u8>) -> Seq<char> {
    if valid_utf8(index) {
        decode_utf8(index)
    } else {
        Seq::empty()
    }
}

/// The profile that an entry of the index points at, where it lies in the bundle, parses, and
/// names the camera.
pub open spec fn match_at(blob: Seq<u8>, entry: EntryView, target: Seq<char>) -> Option<DcpView> {
    if entry.offset + entry.length <= blob.len() {
        match parsed(blob.subrange(entry.offset as int, (entry.offset + entry.length) as int)) {
            Ok(dcp) => if names(dcp.unique_camera_model, target) {
                Some(dcp)
            } else {
                None
            },
            Err(_) => None,
        }
    } else {
        None
    }
}

/// The first profile in the bundle that names the camera.
pub open spec fn first_bundled(
    blob: Seq<u8>,
    entries: Seq<EntryView>,
    target: Seq<char>,
) -> Option<DcpView>
    decreases entries.len(),
{
    if entries.len() == 0 {
        None
    } else {
        match match_at(blob, entries[0], target) {
            Some(dcp) => Some(dcp),
            None => first_bundled(blob, entries.skip(1), target),
        }
    }
}

/// The profile for a camera in a decompressed bundle. A blank name has none.
pub open spec fn bundled_profile(
    camera_id: Seq<char>,
    index: Seq<u8>,
    blob: Seq<u8>,
) -> Option<DcpView> {
    if normalized(camera_id).len() == 0 {
        None
    } else {
        first_bundled(blob, index_entries(index_text(index)), normalized(camera_id))
    }
}

/// What the frames of compressed data hold, `None` where they can't be decompressed.
pub uninterp spec fn zstd_content(data: Seq<u8>) -> Option<Seq<u8>>;

/// Whether compressed data holds something that's no longer than a bundle may be.
pub open spec fn is_bundle(data: Seq<u8>) -> bool {
    zstd_content(data) matches Some(content) && content.len() <= BUNDLE_CAPACITY
}

/// Whether this answers a search of the compressed bundle. A blank name is answered without
/// looking, and a bundle that's too long may be answered either way.
pub open spec fn answers(
    answer: Result<Option<DcpView>, BundleError>,
    camera_id: Seq<char>,
    index: Seq<u8>,
    bundle: Seq<u8>,
) -> bool {
    if normalized(camera_id).len() == 0 {
        answer == Ok::<Option<DcpView>, BundleError>(None)
    } else {
        match answer {
            Ok(found) => zstd_content(bundle) matches Some(blob) && found == bundled_profile(
                camera_id,
                index,
                blob,
            ),
            Err(e) => e == BundleError::Corrupt && !is_bundle(bundle),
        }
    }
}

/// `zstd::bulk::decompress`: what the frames hold, or `None` where it reports an error. It reports
/// none where that's no longer than the capacity. Whether it does where that's longer is left
/// unsaid: a frame that doesn't record its size is bounded by what the allocator gave, which may
/// be more than was asked for.
#[verifier::external_body]
fn decompress(data: &[u8], capacity: usize) -> (out: Option<Vec<u8>>)
    requires
        capacity <= isize::MAX,
    ensures
        match out {
            Some(out) => zstd_content(data@) == Some(out@),
            None => zstd_content(data@) matches Some(content) ==> content.len() > capacity,
        },
{
    zstd::bulk::decompress(data, capacity).ok()
}

/// `str::from_utf8`: the text of bytes that are UTF-8, `None` for others.
#[verifier::external_body]
fn utf8_text(bytes: &[u8]) -> (text: Option<String>)
    ensures
        match text {
            Some(text) => valid_utf8(bytes@) && text@ == decode_utf8(bytes@),
            None => !valid_utf8(bytes@),
        },
{
    core::str::from_utf8(bytes).ok().map(String::from)
}

/// Splits at the first `sep`.
fn split(chars: &Vec<char>, sep: char) -> (parts: (Vec<char>, Option<Vec<char>>))
    ensures
        parts.0@ == split_at_first(chars@, sep).0,
        match parts.1 {
            Some(rest) => split_at_first(chars@, sep).1 == Some(rest@),
            None => split_at_first(chars@, sep).1 is None,
        },
{
    let mut i: usize = 0;
    while i < chars.len()
        invariant
            i <= chars.len(),
            forall|j: int| 0 <= j < i ==> chars[j] != sep,
        decreases chars.len() - i,
    {
        if chars[i] == sep {
            proof {
                assert(chars@.contains(sep));
                chars@.index_of_first_ensures(sep);
                assert(chars@.index_of_first(sep) == Some(i as int));
            }
            let front: Vec<char> = sub_chars(chars, 0, i);
            let rest: Vec<char> = sub_chars(chars, i + 1, chars.len());
            assert(front@ =~= chars@.take(i as int));
            assert(rest@ =~= chars@.skip(i + 1));
            return (front, Some(rest));
        }
        i = i + 1;
    }
    proof {
        assert(!chars@.contains(sep));
        chars@.index_of_first_ensures(sep);
    }
    let all: Vec<char> = sub_chars(chars, 0, chars.len());
    assert(all@ =~= chars@);
    (all, None)
}

/// More digits make no smaller number.
proof fn lemma_prefix_is_no_larger(s: Seq<char>, i: int)
    requires
        all_digits(s),
        0 <= i <= s.len(),
    ensures
        digits_value(s.take(i)) <= digits_value(s),
    decreases s.len(),
{
    if i < s.len() {
        let front = s.drop_last();
        assert forall|j: int| 0 <= j < front.len() implies '0' <= #[trigger] front[j] <= '9' by {
            assert(front[j] == s[j]);
        }
        lemma_prefix_is_no_larger(front, i);
        assert(front.take(i) =~= s.take(i));
    } else {
        assert(s.take(i) =~= s);
    }
}

/// The number that a text spells.
fn read_number(chars: &Vec<char>) -> (value: usize)
    ensures
        value == number(chars@),
{
    let start: usize = if chars.len() > 0 && chars[0] == '+' {
        1
    } else {
        0
    };
    let ghost d = without_plus(chars@);
    assert(d =~= chars@.skip(start as int));
    if start == chars.len() {
        return 0;
    }
    let mut value: usize = 0;
    let mut i: usize = start;
    assert(d.take(0) =~= Seq::empty());
    while i < chars.len()
        invariant
            start <= i <= chars.len(),
            d == without_plus(chars@),
            d == chars@.skip(start as int),
            d.len() > 0,
            all_digits(d.take(i - start)),
            value == digits_value(d.take(i - start)),
        decreases chars.len() - i,
    {
        let c: char = chars[i];
        let ghost next = d.take(i + 1 - start);
        assert(next.drop_last() =~= d.take(i - start));
        assert(d[i - start] == c);
        if c < '0' || '9' < c {
            return 0;
        }
        assert(all_digits(next)) by {
            assert forall|j: int| 0 <= j < next.len() implies '0' <= #[trigger] next[j] <= '9' by {
                if j < i - start {
                    assert(next[j] == d.take(i - start)[j]);
                }
            }
        }
        proof {
            if all_digits(d) {
                lemma_prefix_is_no_larger(d, i + 1 - start);
            }
        }
        let ten: Option<usize> = value.checked_mul(10);
        if ten.is_none() {
            return 0;
        }
        let sum: Option<usize> = ten.unwrap().checked_add((c as u32 - 48) as usize);
        if sum.is_none() {
            return 0;
        }
        value = sum.unwrap();
        i = i + 1;
    }
    assert(d.take(i - start) =~= d);
    value
}

/// The file that a line of the index names.
fn parse_line(line: &Vec<char>) -> (entry: Option<IndexEntry>)
    ensures
        match entry {
            Some(entry) => line_entry(line@) == Some(entry@),
            None => line_entry(line@) is None,
        },
{
    let (name, rest) = split(line, '\t');
    let mut offset: usize = 0;
    let mut length: usize = 0;
    if let Some(rest) = rest {
        let (first, second) = split(&rest, '\t');
        offset = read_number(&first);
        if let Some(second) = second {
            length = read_number(&second);
        }
    }
    if name.len() > 0 && length > 0 {
        Some(IndexEntry { name: string_of(name), offset, length })
    } else {
        None
    }
}

/// The entries as mathematics.
pub open spec fn entry_views(entries: Seq<IndexEntry>) -> Seq<EntryView> {
    entries.map_values(|e: IndexEntry| e@)
}

/// The files that an index names.
pub fn parse_index(index: &[u8]) -> (entries: Vec<IndexEntry>)
    ensures
        entry_views(entries@) == index_entries(index_text(index@)),
{
    let mut entries: Vec<IndexEntry> = Vec::new();
    let text: String = match utf8_text(index) {
        Some(text) => text,
        None => {
            assert(entry_views(entries@) =~= index_entries(index_text(index@)));
            return entries;
        },
    };
    let mut rest: Vec<char> = chars_of(text.as_str());
    assert(entry_views(entries@) + index_entries(rest@) =~= index_entries(text@));
    while rest.len() > 0
        invariant
            text@ == index_text(index@),
            entry_views(entries@) + index_entries(rest@) == index_entries(text@),
        decreases rest.len(),
    {
        let ghost before = entry_views(entries@);
        let ghost whole = rest@;
        proof {
            whole.index_of_first_ensures('\n');
        }
        let (mut line, tail) = split(&rest, '\n');
        match tail {
            Some(tail) => {
                if line.len() > 0 && line[line.len() - 1] == '\r' {
                    let _ = line.pop();
                }
                assert(line@ =~= without_cr(split_at_first(whole, '\n').0));
                let ghost found = as_seq(line_entry(line@));
                if let Some(entry) = parse_line(&line) {
                    entries.push(entry);
                }
                assert(entry_views(entries@) =~= before + found);
                assert(before + (found + index_entries(tail@)) =~= (before + found)
                    + index_entries(tail@));
                rest = tail;
            },
            None => {
                let ghost found = as_seq(line_entry(line@));
                if let Some(entry) = parse_line(&line) {
                    entries.push(entry);
                }
                assert(entry_views(entries@) =~= before + found);
                rest = Vec::new();
                assert(before + found =~= entry_views(entries@) + index_entries(rest@));
            },
        }
    }
    assert(entry_views(entries@) + index_entries(rest@) =~= entry_views(entries@));
    entries
}

/// How many profiles the index names.
pub fn bundled_count(index: &[u8]) -> (count: usize)
    ensures
        count == index_entries(index_text(index@)).len(),
{
    parse_index(index).len()
}

/// A copy of the bytes `from..to`.
fn copy_bytes(bytes: &[u8], from: usize, to: usize) -> (part: Vec<u8>)
    requires
        from <= to <= bytes.len(),
    ensures
        part@ == bytes@.subrange(from as int, to as int),
{
    let mut part: Vec<u8> = Vec::new();
    for i in from..to
        invariant
            to <= bytes.len(),
            part@ == bytes@.subrange(from as int, i as int),
    {
        part.push(bytes[i]);
    }
    part
}

/// The profile that an entry of the index points at, where it lies in the bundle, parses, and
/// names the camera.
fn load_entry(blob: &[u8], entry: &IndexEntry, target: &Vec<char>) -> (found: Option<Dcp>)
    ensures
        dcp_view(found) == match_at(blob@, entry@, target@),
{
    let available: usize = blob.len();
    let end: usize = match entry.offset.checked_add(entry.length) {
        Some(end) => end,
        None => {
            return None;
        },
    };
    if end > available {
        return None;
    }
    let bytes: Vec<u8> = copy_bytes(blob, entry.offset, end);
    match parse(bytes.as_slice()) {
        Ok(dcp) => {
            let mine: bool = match &dcp.unique_camera_model {
                Some(model) => same_chars(&chars_of(normalize(model.as_str()).as_str()), target),
                None => false,
            };
            if mine {
                Some(dcp)
            } else {
                None
            }
        },
        Err(_) => None,
    }
}

/// The profile for a camera in a decompressed bundle.
pub fn find_in_bundle(camera_id: &str, index: &[u8], blob: &[u8]) -> (found: Option<Dcp>)
    ensures
        dcp_view(found) == bundled_profile(camera_id@, index@, blob@),
{
    let target: Vec<char> = chars_of(normalize(camera_id).as_str());
    if target.len() == 0 {
        return None;
    }
    let entries: Vec<IndexEntry> = parse_index(index);
    let ghost views = entry_views(entries@);
    let mut i: usize = 0;
    assert(views.skip(0) =~= views);
    while i < entries.len()
        invariant
            i <= entries.len(),
            target@ == normalized(camera_id@),
            target@.len() > 0,
            views == entry_views(entries@),
            views == index_entries(index_text(index@)),
            first_bundled(blob@, views, target@) == first_bundled(
                blob@,
                views.skip(i as int),
                target@,
            ),
        decreases entries.len() - i,
    {
        let entry: &IndexEntry = &entries[i];
        assert(views.skip(i as int)[0] == entry@);
        assert(views.skip(i as int).skip(1) =~= views.skip(i + 1));
        let found: Option<Dcp> = load_entry(blob, entry, &target);
        if found.is_some() {
            return found;
        }
        i = i + 1;
    }
    assert(views.skip(i as int) =~= Seq::empty());
    None
}

/// The bundle's files, end to end.
pub fn decompressed_blob(bundle: &[u8]) -> (blob: Result<Vec<u8>, BundleError>)
    ensures
        match blob {
            Ok(blob) => zstd_content(bundle@) == Some(blob@),
            Err(e) => e == BundleError::Corrupt && !is_bundle(bundle@),
        },
{
    match decompress(bundle, BUNDLE_CAPACITY) {
        Some(blob) => Ok(blob),
        None => Err(BundleError::Corrupt),
    }
}

/// The profile for a camera in the bundle, which is decompressed first. A blank name is answered
/// without looking.
pub fn find_bundled_dcp(camera_id: &str, index: &[u8], bundle: &[u8]) -> (found: Result<
    Option<Dcp>,
    BundleError,
>)
    ensures
        answers(
            match found {
                Ok(found) => Ok(dcp_view(found)),
                Err(e) => Err(e),
            },
            camera_id@,
            index@,
            bundle@,
        ),
{
    if chars_of(normalize(camera_id).as_str()).len() == 0 {
        return Ok(None);
    }
    match decompressed_blob(bundle) {
        Ok(blob) => Ok(find_in_bundle(camera_id, index, blob.as_slice())),
        Err(_) => Err(BundleError::Corrupt),
    }
}

/// What is found in the bundle is for the camera asked for.
pub proof fn a_bundled_profile_names_the_camera(
    camera_id: Seq<char>,
    index: Seq<u8>,
    blob: Seq<u8>,
)
    ensures
        bundled_profile(camera_id, index, blob) matches Some(dcp) ==> names(
            dcp.unique_camera_model,
            normalized(camera_id),
        ),
{
    lemma_found_names_the_camera(blob, index_entries(index_text(index)), normalized(camera_id));
}

proof fn lemma_found_names_the_camera(
    blob: Seq<u8>,
    entries: Seq<EntryView>,
    target: Seq<char>,
)
    ensures
        first_bundled(blob, entries, target) matches Some(dcp) ==> names(
            dcp.unique_camera_model,
            target,
        ),
    decreases entries.len(),
{
    if entries.len() > 0 {
        lemma_found_names_the_camera(blob, entries.skip(1), target);
    }
}

/// The bundle's answer is the profile of the first file in its index whose model normalizes to
/// the camera's name. Files that lie outside the bundle, don't parse or name another camera are
/// passed over.
pub proof fn the_first_bundled_file_for_the_camera_is_found(
    camera: &str,
    index: &[u8],
    blob: &[u8],
    entries: Vec<IndexEntry>,
    found: Option<Dcp>,
    i: int,
)
    requires
        call_ensures(find_in_bundle, (camera, index, blob), found),
        call_ensures(parse_index, (index,), entries),
        0 <= i < entries@.len(),
        normalized(camera@).len() > 0,
    ensures
        holds_model(blob@, entries@[i].offset as int, entries@[i].length as int, normalized(camera@))
            && (forall|j: int|
            0 <= j < i ==> !holds_model(
                blob@,
                (#[trigger] entries@[j]).offset as int,
                entries@[j].length as int,
                normalized(camera@),
            )) ==> found is Some && found->0@ == parsed(
            blob@.subrange(
                entries@[i].offset as int,
                entries@[i].offset as int + entries@[i].length as int,
            ),
        )->Ok_0,
        (forall|j: int|
            0 <= j < entries@.len() ==> !holds_model(
                blob@,
                (#[trigger] entries@[j]).offset as int,
                entries@[j].length as int,
                normalized(camera@),
            )) ==> found is None,
{
    let target = normalized(camera@);
    let views = entry_views(entries@);
    assert forall|j: int| 0 <= j < entries@.len() implies #[trigger] views[j] == entries@[j]@ by {}
    if holds_model(blob@, entries@[i].offset as int, entries@[i].length as int, target) && (forall|
        j: int,
    |
        0 <= j < i ==> !holds_model(
            blob@,
            (#[trigger] entries@[j]).offset as int,
            entries@[j].length as int,
            target,
        )) {
        assert forall|j: int| 0 <= j < i implies match_at(blob@, #[trigger] views[j], target)
            is None by {
            assert(views[j] == entries@[j]@);
        }
        lemma_first_bundled_is(blob@, views, target, i);
    }
    if forall|j: int|
        0 <= j < entries@.len() ==> !holds_model(
            blob@,
            (#[trigger] entries@[j]).offset as int,
            entries@[j].length as int,
            target,
        ) {
        assert forall|j: int| 0 <= j < views.len() implies match_at(blob@, #[trigger] views[j], target)
            is None by {
            assert(views[j] == entries@[j]@);
        }
        lemma_none_bundled(blob@, views, target);
    }
}

/// Whether a stretch of the bundle is a profile whose model normalizes to this name.
pub open spec fn holds_model(blob: Seq<u8>, offset: int, length: int, target: Seq<char>) -> bool {
    offset + length <= blob.len() && (parsed(blob.subrange(offset, offset + length)) matches Ok(dcp)
        && (dcp.unique_camera_model matches Some(model) && normalized(model) == target))
}

proof fn lemma_first_bundled_is(
    blob: Seq<u8>,
    entries: Seq<EntryView>,
    target: Seq<char>,
    i: int,
)
    requires
        0 <= i < entries.len(),
        match_at(blob, entries[i], target) is Some,
        forall|j: int| 0 <= j < i ==> match_at(blob, #[trigger] entries[j], target) is None,
    ensures
        first_bundled(blob, entries, target) == match_at(blob, entries[i], target),
    decreases entries.len(),
{
    if i > 0 {
        let rest = entries.skip(1);
        assert(match_at(blob, entries[0], target) is None);
        assert forall|j: int| 0 <= j < i - 1 implies match_at(blob, #[trigger] rest[j], target)
            is None by {
            assert(rest[j] == entries[j + 1]);
        }
        lemma_first_bundled_is(blob, rest, target, i - 1);
    }
}

proof fn lemma_none_bundled(blob: Seq<u8>, entries: Seq<EntryView>, target: Seq<char>)
    requires
        forall|j: int| 0 <= j < entries.len() ==> match_at(blob, #[trigger] entries[j], target)
            is None,
    ensures
        first_bundled(blob, entries, target) is None,
    decreases entries.len(),
{
    if entries.len() > 0 {
        let rest = entries.skip(1);
        assert(match_at(blob, entries[0], target) is None);
        assert forall|j: int| 0 <= j < rest.len() implies match_at(blob, #[trigger] rest[j], target)
            is None by {
            assert(rest[j] == entries[j + 1]);
        }
        lemma_none_bundled(blob, rest, target);
    }
}

/// An index that's written line by line reads back: a line of a name, an offset and a length,
/// tab-separated and in decimal, followed by more lines, gives that file and then theirs.
pub proof fn index_lines_read_back(name: Seq<char>, offset: nat, length: nat, rest: Seq<char>)
    requires
        name.len() > 0,
        !name.contains('\t'),
        !name.contains('\n'),
        offset <= usize::MAX,
        0 < length <= usize::MAX,
    ensures
        ({
            let line = name + seq!['\t'] + decimal(offset) + seq!['\t'] + decimal(length);
            let entries = index_entries(line + seq!['\n'] + rest);
            &&& entries.len() == 1 + index_entries(rest).len()
            &&& entries[0].name == name
            &&& entries[0].offset == offset
            &&& entries[0].length == length
            &&& entries.skip(1) == index_entries(rest)
        }),
{
    let o = decimal(offset);
    let l = decimal(length);
    lemma_number(offset);
    lemma_number(length);
    decimals_spell_their_number(offset);
    decimals_spell_their_number(length);
    let line = name + seq!['\t'] + o + seq!['\t'] + l;
    let text = line + seq!['\n'] + rest;
    assert forall|i: int| 0 <= i < line.len() implies #[trigger] line[i] != '\n' by {
        if i < name.len() {
            assert(line[i] == name[i]);
            assert(name.contains(name[i]));
        } else if i == name.len() {
        } else if i < name.len() + 1 + o.len() {
            assert(line[i] == o[i - name.len() - 1]);
        } else if i == name.len() + 1 + o.len() {
        } else {
            assert(line[i] == l[i - name.len() - o.len() - 2]);
        }
    }
    lemma_first_at(text, '\n', line.len() as int);
    assert(text.take(line.len() as int) =~= line);
    assert(text.skip(line.len() as int + 1) =~= rest);
    assert(line.last() == l.last());
    assert(without_cr(line) == line);
    assert forall|i: int| 0 <= i < name.len() implies #[trigger] line[i] != '\t' by {
        assert(line[i] == name[i]);
        assert(name.contains(name[i]));
    }
    lemma_first_at(line, '\t', name.len() as int);
    assert(line.take(name.len() as int) =~= name);
    let second = line.skip(name.len() as int + 1);
    assert(second =~= o + seq!['\t'] + l);
    assert forall|i: int| 0 <= i < o.len() implies #[trigger] second[i] != '\t' by {
        assert(second[i] == o[i]);
    }
    lemma_first_at(second, '\t', o.len() as int);
    assert(second.take(o.len() as int) =~= o);
    assert(second.skip(o.len() as int + 1) =~= l);
    let entry = EntryView { name, offset, length };
    assert(line_entry(line) == Some(entry));
    assert(index_entries(text) == seq![entry] + index_entries(rest));
    assert((seq![entry] + index_entries(rest)).skip(1) =~= index_entries(rest));
}

proof fn lemma_first_at(s: Seq<char>, c: char, i: int)
    requires
        0 <= i < s.len(),
        s[i] == c,
        forall|j: int| 0 <= j < i ==> #[trigger] s[j] != c,
    ensures
        s.index_of_first(c) == Some(i),
{
    s.index_of_first_ensures(c);
    assert(s.contains(c));
}

proof fn lemma_number(n: nat)
    requires
        n <= usize::MAX,
    ensures
        number(decimal(n)) == n,
{
    decimals_spell_their_number(n);
    let d = decimal(n);
    assert(without_plus(d) == d);
    lemma_digits_value(n);
}

proof fn lemma_digits_value(n: nat)
    ensures
        digits_value(decimal(n)) == n,
    decreases n,
{
    let s = decimal(n);
    if n < 10 {
        assert(s.drop_last() =~= Seq::empty());
        assert(digits_value(Seq::<char>::empty()) == 0);
    } else {
        lemma_digits_value(n / 10);
        assert(s.drop_last() =~= decimal(n / 10));
    }
}

/// What an index names is handed out as it stands there: as many files, each with its name, its
/// offset and its length.
pub proof fn the_index_is_handed_out_as_it_stands(
    index: &[u8],
    entries: Vec<IndexEntry>,
    count: usize,
)
    requires
        call_ensures(parse_index, (index,), entries),
        call_ensures(bundled_count, (index,), count),
    ensures
        count == entries@.len(),
        !valid_utf8(index@) ==> count == 0,
        valid_utf8(index@) ==> {
            let named = index_entries(decode_utf8(index@));
            &&& entries@.len() == named.len()
            &&& forall|i: int|
                0 <= i < entries@.len() ==> {
                    &&& (#[trigger] entries@[i]).name@ == named[i].name
                    &&& entries@[i].offset == named[i].offset
                    &&& entries@[i].length == named[i].length
                }
        },
{
    let views = entry_views(entries@);
    assert(views.len() == entries@.len());
    assert(index_entries(Seq::<char>::empty()).len() == 0);
    assert forall|i: int| 0 <= i < entries@.len() implies #[trigger] entries@[i]@ == views[i] by {}
}

/// A search of the bundle answers what a search of the files in it does. A bundle of up to 128
/// mebibytes is never taken for a corrupt one, and a blank name finds nothing in any.
pub proof fn bundles_answer_like_their_files(
    camera: &str,
    index: &[u8],
    bundle: &[u8],
    found: Result<Option<Dcp>, BundleError>,
    name: String,
    blob: &[u8],
    plain: Option<Dcp>,
)
    requires
        call_ensures(find_bundled_dcp, (camera, index, bundle), found),
        call_ensures(normalize, (camera,), name),
        call_ensures(find_in_bundle, (camera, index, blob), plain),
        zstd_content(bundle@) == Some(blob@),
    ensures
        name@.len() == 0 ==> found is Ok && found->Ok_0 is None,
        name@.len() > 0 && found is Ok ==> (found->Ok_0 is Some <==> plain is Some),
        name@.len() > 0 && found is Ok && plain is Some ==> found->Ok_0->0@ == plain->0@,
        blob@.len() <= 128 * 1024 * 1024 ==> found is Ok,
{
}

} // verus!
