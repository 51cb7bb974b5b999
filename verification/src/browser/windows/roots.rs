//! What the browse tree shows at its top level, and what each row is called.
//!
//! Windows has drive letters and a set of known folders, and Explorer's navigation pane leads
//! with the known folders. So does this one.

use crate::color::display_profile::{
    nothing_past_the_terminator_counts, path_from_buffer, units_until_nul,
};
use crate::paths::{path_key, same_path};
use crate::text::{
    char_of, chars_of, decode_utf16_lossy, push_chars, push_text, string_of, trim, trimmed,
    utf16_lossy,
};
use vstd::prelude::*;

verus! {

/// A row at the top of the folder tree.
#[derive(Debug, Clone, PartialEq, Eq)]
pub struct Root {
    /// What the row is called.
    pub name: String,
    /// The folder that it stands for.
    pub path: String,
}

impl View for Root {
    type V = (Seq<char>, Seq<char>);

    open spec fn view(&self) -> (Seq<char>, Seq<char>) {
        (self.name@, self.path@)
    }
}

/// Rows as names and paths.
pub open spec fn rows(roots: Seq<Root>) -> Seq<(Seq<char>, Seq<char>)> {
    roots.map_values(|root: Root| root@)
}

/// The known folders the tree leads with, in the order they appear. Pictures first, because this
/// is a photo viewer; Desktop and Downloads after it, because those are the other two places a
/// picture lands.
pub const KNOWN_FOLDER_LABELS: [&'static str; 3] = ["Pictures", "Desktop", "Downloads"];

/// What `GetDriveTypeW` said a letter is.
#[derive(Debug, Clone, Copy, PartialEq, Eq, Structural)]
pub enum DriveKind {
    /// A hard disk or SSD. `DRIVE_FIXED`.
    Fixed,
    /// A USB stick, an SD card, a floppy. `DRIVE_REMOVABLE`.
    Removable,
    /// A mapped network drive. `DRIVE_REMOTE`.
    Remote,
    /// An optical drive. `DRIVE_CDROM`.
    CdRom,
    /// A RAM disk. `DRIVE_RAMDISK`.
    RamDisk,
    /// `DRIVE_UNKNOWN`, `DRIVE_NO_ROOT_DIR`, or a value Windows adds later.
    Unknown,
}

impl DriveKind {
    /// The value of `GetDriveTypeW` that stands for a kind that Windows names.
    pub open spec fn win32(self) -> int {
        match self {
            DriveKind::Removable => 2,
            DriveKind::Fixed => 3,
            DriveKind::Remote => 4,
            DriveKind::CdRom => 5,
            DriveKind::RamDisk => 6,
            DriveKind::Unknown => -1,
        }
    }

    /// Reads a `GetDriveTypeW` return value. An unrecognised one is [`DriveKind::Unknown`],
    /// because a drive without a name is still a drive to list.
    pub fn from_win32(value: u32) -> (kind: Self)
        ensures
            2 <= value <= 6 ==> kind.win32() == value,
            !(2 <= value <= 6) ==> kind == DriveKind::Unknown,
    {
        match value {
            2 => DriveKind::Removable,
            3 => DriveKind::Fixed,
            4 => DriveKind::Remote,
            5 => DriveKind::CdRom,
            6 => DriveKind::RamDisk,
            _ => DriveKind::Unknown,
        }
    }

    /// What a drive without a volume label is called.
    pub open spec fn fallback(self) -> Seq<char> {
        match self {
            DriveKind::Fixed => "Local disk"@,
            DriveKind::Unknown => "Local disk"@,
            DriveKind::Removable => "Removable disk"@,
            DriveKind::Remote => "Network drive"@,
            DriveKind::CdRom => "CD drive"@,
            DriveKind::RamDisk => "RAM disk"@,
        }
    }

    /// What to call a drive that has no volume label of its own, in sentence case.
    pub fn fallback_label(self) -> (label: &'static str)
        ensures
            label@ == self.fallback(),
    {
        match self {
            DriveKind::Fixed => "Local disk",
            DriveKind::Unknown => "Local disk",
            DriveKind::Removable => "Removable disk",
            DriveKind::Remote => "Network drive",
            DriveKind::CdRom => "CD drive",
            DriveKind::RamDisk => "RAM disk",
        }
    }
}

/// What a drive is called: its volume label where that says anything, else its kind.
pub open spec fn drive_name(volume_label: Option<&str>, kind: DriveKind) -> Seq<char> {
    match volume_label {
        Some(label) => if trimmed(label@).len() > 0 {
            trimmed(label@)
        } else {
            kind.fallback()
        },
        None => kind.fallback(),
    }
}

/// A drive row's label: `Photos (D:)`, `Local disk (C:)`.
pub open spec fn drive_text(letter: char, volume_label: Option<&str>, kind: DriveKind) -> Seq<
    char,
> {
    drive_name(volume_label, kind) + seq![' ', '(', letter, ':', ')']
}

/// A drive row's label: the volume label when the drive has one, else the drive-type name, and
/// the letter in parentheses either way.
///
/// A blank or whitespace-only volume label counts as none: an unformatted stick reports an empty
/// string, and a row called " (E:)" reads as a bug.
pub fn drive_label(letter: char, volume_label: Option<&str>, kind: DriveKind) -> (label: String)
    ensures
        label@ == drive_text(letter, volume_label, kind),
{
    let mut out: Vec<char> = Vec::new();
    match volume_label {
        Some(label) => {
            let name: Vec<char> = trim(&chars_of(label));
            if name.len() > 0 {
                push_chars(&mut out, &name);
            } else {
                push_text(&mut out, kind.fallback_label());
            }
        },
        None => push_text(&mut out, kind.fallback_label()),
    }
    assert(out@ =~= drive_name(volume_label, kind));
    out.push(' ');
    out.push('(');
    out.push(letter);
    out.push(':');
    out.push(')');
    assert(out@ =~= drive_text(letter, volume_label, kind));
    string_of(out)
}

/// Whether a bitmask names a drive. Bit 0 is A.
pub open spec fn has_drive(mask: u32, bit: int) -> bool {
    mask & (1u32 << (bit as u32)) != 0
}

/// The letter of a drive.
pub open spec fn letter(bit: int) -> char {
    ((65 + bit) as u32) as char
}

/// The letters of the first `count` drives that a bitmask names.
pub open spec fn letters(mask: u32, count: int) -> Seq<char>
    decreases count,
{
    if count <= 0 {
        Seq::empty()
    } else if has_drive(mask, count - 1) {
        letters(mask, count - 1).push(letter(count - 1))
    } else {
        letters(mask, count - 1)
    }
}

/// The drive letters a `GetLogicalDrives` bitmask names, A first. Bit 0 is A, bit 25 is Z;
/// anything above that isn't a drive letter and is ignored.
pub fn drives_in_mask(mask: u32) -> (drives: Vec<char>)
    ensures
        drives@ == letters(mask, 26),
{
    let mut drives: Vec<char> = Vec::new();
    for bit in 0u32..26
        invariant
            drives@ == letters(mask, bit as int),
    {
        if mask & (1u32 << bit) != 0 {
            drives.push(char_of(65 + bit));
        }
    }
    drives
}

/// Where a drive letter roots.
pub open spec fn drive_root(letter: char) -> Seq<char> {
    seq![letter, ':', '\\']
}

/// Where a drive letter roots. Spelled `C:\`, never a bare `C:`: the bare form is relative to
/// that drive's current directory rather than to its root, so it would list the wrong folder.
pub fn drive_root_path(letter: char) -> (path: String)
    ensures
        path@ == drive_root(letter),
{
    let mut out: Vec<char> = Vec::new();
    out.push(letter);
    out.push(':');
    out.push('\\');
    assert(out@ =~= drive_root(letter));
    string_of(out)
}

/// Whether a row names a place that one of the others names already.
pub open spec fn names_again(
    earlier: Seq<(Seq<char>, Seq<char>)>,
    row: (Seq<char>, Seq<char>),
) -> bool {
    exists|i: int| 0 <= i < earlier.len() && path_key(#[trigger] earlier[i].1) == path_key(row.1)
}

/// Rows without those that name a place for the second time.
pub open spec fn collapsed(all: Seq<(Seq<char>, Seq<char>)>) -> Seq<(Seq<char>, Seq<char>)>
    decreases all.len(),
{
    if all.len() == 0 {
        Seq::empty()
    } else {
        let front = collapsed(all.drop_last());
        if names_again(front, all.last()) {
            front
        } else {
            front.push(all.last())
        }
    }
}

/// Whether a row's place is in the tree already.
fn already_there(roots: &Vec<Root>, path: &str) -> (yes: bool)
    ensures
        yes == (exists|i: int|
            0 <= i < roots.len() && path_key(#[trigger] rows(roots@)[i].1) == path_key(path@)),
{
    for i in 0..roots.len()
        invariant
            forall|j: int|
                0 <= j < i ==> path_key(#[trigger] rows(roots@)[j].1) != path_key(path@),
    {
        assert(rows(roots@)[i as int] == roots[i as int]@);
        if same_path(roots[i].path.as_str(), path) {
            assert(path_key(rows(roots@)[i as int].1) == path_key(path@));
            return true;
        }
    }
    false
}

/// Appends the rows that name a new place.
fn append_new(roots: &mut Vec<Root>, more: &Vec<Root>, Ghost(before): Ghost<Seq<Root>>)
    requires
        rows(old(roots)@) == collapsed(rows(before)),
    ensures
        rows(final(roots)@) == collapsed(rows(before + more@)),
{
    assert(before + more@.take(0) =~= before);
    for i in 0..more.len()
        invariant
            rows(roots@) == collapsed(rows(before + more@.take(i as int))),
    {
        let ghost all = rows(before + more@.take(i + 1));
        assert(all.drop_last() =~= rows(before + more@.take(i as int)));
        assert(all.last() == more[i as int]@);
        let ghost kept = roots@;
        if !already_there(roots, more[i].path.as_str()) {
            let row: Root = Root { name: more[i].name.clone(), path: more[i].path.clone() };
            assert(row@ == more[i as int]@);
            roots.push(row);
            assert(rows(roots@) =~= rows(kept).push(row@));
        }
    }
    assert(more@.take(more.len() as int) =~= more@);
}

/// Assembles the tree's top-level rows: the known folders in [`KNOWN_FOLDER_LABELS`] order, then
/// every drive in letter order.
///
/// Two rows naming the same folder are collapsed to the first, under Windows path rules: a
/// Desktop redirected onto a drive root, or two known folders redirected onto each other, would
/// otherwise appear twice and the tree would expand only one of them.
pub fn build_windows_roots(known_folders: Vec<Root>, drives: Vec<Root>) -> (roots: Vec<Root>)
    ensures
        rows(roots@) == collapsed(rows(known_folders@) + rows(drives@)),
{
    let mut roots: Vec<Root> = Vec::new();
    assert(rows(roots@) =~= collapsed(rows(Seq::<Root>::empty())));
    append_new(&mut roots, &known_folders, Ghost(Seq::empty()));
    append_new(&mut roots, &drives, Ghost(Seq::empty() + known_folders@));
    assert(rows(Seq::<Root>::empty() + known_folders@ + drives@) =~= rows(known_folders@) + rows(
        drives@,
    ));
    roots
}

/// Whether a directory entry with these `FILE_ATTRIBUTE_*` flags stays out of the tree.
///
/// Hidden and system alike, unconditionally. `FILE_ATTRIBUTE_HIDDEN` is `0x2` and
/// `FILE_ATTRIBUTE_SYSTEM` is `0x4`.
pub fn hidden_by_attributes(attributes: u32) -> (hidden: bool)
    ensures
        hidden == (attributes & 2 != 0 || attributes & 4 != 0),
{
    assert((attributes & 6 != 0) == (attributes & 2 != 0 || attributes & 4 != 0)) by (bit_vector);
    attributes & 6 != 0
}

// ----- the rows that Windows reports -----

/// The known folders that resolve, under their labels.
pub open spec fn known_rows(paths: Seq<Option<String>>, count: int) -> Seq<(Seq<char>, Seq<char>)>
    decreases count,
{
    if count <= 0 {
        Seq::empty()
    } else {
        let front = known_rows(paths, count - 1);
        match paths[count - 1] {
            Some(path) => front.push((KNOWN_FOLDER_LABELS[count - 1]@, path@)),
            None => front,
        }
    }
}

/// Pictures, Desktop, and Downloads, in that order, given where each of them is. A folder that
/// doesn't resolve is left out rather than shown as a row that expands to nothing.
pub fn known_folders(paths: [Option<String>; 3]) -> (roots: Vec<Root>)
    ensures
        rows(roots@) == known_rows(paths@, 3),
{
    let mut roots: Vec<Root> = Vec::new();
    assert(rows(roots@) =~= known_rows(paths@, 0));
    for i in 0usize..3
        invariant
            rows(roots@) == known_rows(paths@, i as int),
    {
        let ghost before = roots@;
        match &paths[i] {
            Some(path) => {
                let row: Root = Root {
                    name: KNOWN_FOLDER_LABELS[i].to_owned(),
                    path: path.clone(),
                };
                roots.push(row);
                assert(rows(roots@) =~= rows(before).push(row@));
            },
            None => {},
        }
    }
    roots
}

/// The label that a buffer of `GetVolumeInformationW` holds, where it says anything.
pub open spec fn label_in(buffer: Seq<u16>) -> Option<Seq<char>> {
    let label = utf16_lossy(units_until_nul(buffer));
    if trimmed(label).len() > 0 {
        Some(label)
    } else {
        None
    }
}

/// A volume's label, or `None` when it has none.
pub fn volume_label(buffer: &[u16]) -> (label: Option<String>)
    ensures
        match label {
            Some(label) => label_in(buffer@) == Some(label@),
            None => label_in(buffer@) is None,
        },
{
    let units: Vec<u16> = match path_from_buffer(buffer) {
        Some(units) => units,
        None => Vec::new(),
    };
    assert(units@ =~= units_until_nul(buffer@));
    let label: Vec<char> = decode_utf16_lossy(&units);
    if trim(&label).len() > 0 {
        Some(string_of(label))
    } else {
        None
    }
}

/// What Windows reports of one drive.
#[derive(Debug, Clone, PartialEq, Eq)]
pub struct Drive {
    /// Its letter.
    pub letter: char,
    /// What `GetDriveTypeW` said it is.
    pub kind: DriveKind,
    /// Its volume label, where it was asked for one and has one.
    pub label: Option<String>,
}

/// Whether a drive of this kind is asked for its volume label. A mapped drive whose server is
/// gone takes the network timeout to answer, so a remote drive never is.
pub fn asks_for_label(kind: DriveKind) -> (asked: bool)
    ensures
        asked == (kind != DriveKind::Remote),
{
    match kind {
        DriveKind::Remote => false,
        _ => true,
    }
}

/// The row of one drive.
pub open spec fn drive_row(drive: Drive) -> (Seq<char>, Seq<char>) {
    let name = match drive.label {
        Some(label) => if drive.kind != DriveKind::Remote && trimmed(label@).len() > 0 {
            trimmed(label@)
        } else {
            drive.kind.fallback()
        },
        None => drive.kind.fallback(),
    };
    (name + seq![' ', '(', drive.letter, ':', ')'], drive_root(drive.letter))
}

/// The rows of the drives, in the order Windows reports them.
pub fn drives(reported: &Vec<Drive>) -> (roots: Vec<Root>)
    ensures
        rows(roots@) == reported@.map_values(|drive: Drive| drive_row(drive)),
{
    let mut roots: Vec<Root> = Vec::new();
    let ghost all = reported@.map_values(|drive: Drive| drive_row(drive));
    assert(rows(roots@) =~= all.take(0));
    for i in 0..reported.len()
        invariant
            all == reported@.map_values(|drive: Drive| drive_row(drive)),
            rows(roots@) == all.take(i as int),
    {
        let ghost before = roots@;
        let drive: &Drive = &reported[i];
        let name: String = if asks_for_label(drive.kind) {
            match &drive.label {
                Some(label) => drive_label(drive.letter, Some(label.as_str()), drive.kind),
                None => drive_label(drive.letter, None, drive.kind),
            }
        } else {
            drive_label(drive.letter, None, drive.kind)
        };
        let row: Root = Root { name, path: drive_root_path(drive.letter) };
        assert(row@ == drive_row(*drive));
        roots.push(row);
        assert(rows(roots@) =~= rows(before).push(row@));
        assert(all.take(i + 1) =~= all.take(i as int).push(all[i as int]));
    }
    assert(all.take(reported.len() as int) =~= all);
    roots
}

/// The tree's top-level rows: the known folders, then every drive.
pub fn enumerate(known: [Option<String>; 3], reported: &Vec<Drive>) -> (roots: Vec<Root>)
    ensures
        rows(roots@) == collapsed(
            known_rows(known@, 3) + reported@.map_values(|drive: Drive| drive_row(drive)),
        ),
{
    build_windows_roots(known_folders(known), drives(reported))
}

// ----- laws -----

/// A drive's letter is in the list just where its bit is set, and letters go up.
pub proof fn letters_follow_the_mask(mask: u32, count: int)
    requires
        0 <= count <= 26,
    ensures
        letters(mask, count).len() <= count,
        forall|bit: int|
            0 <= bit < count ==> (letters(mask, count).contains(#[trigger] letter(bit)) <==> has_drive(
                mask,
                bit,
            )),
        forall|i: int, j: int|
            0 <= i < j < letters(mask, count).len() ==> letters(mask, count)[i] < letters(
                mask,
                count,
            )[j],
        forall|i: int|
            0 <= i < letters(mask, count).len() ==> 'A' <= #[trigger] letters(mask, count)[i]
                && (letters(mask, count)[i] as int) < 65 + count,
    decreases count,
{
    if count > 0 {
        letters_follow_the_mask(mask, count - 1);
        let front = letters(mask, count - 1);
        let all = letters(mask, count);
        assert(letter(count - 1) as int == 64 + count);
        assert(!front.contains(letter(count - 1)));
        if has_drive(mask, count - 1) {
            assert(all.last() == letter(count - 1));
            assert(all.contains(letter(count - 1))) by {
                assert(all[all.len() - 1] == letter(count - 1));
            }
            assert forall|bit: int| 0 <= bit < count - 1 implies (all.contains(
                #[trigger] letter(bit),
            ) <==> has_drive(mask, bit)) by {
                if front.contains(letter(bit)) {
                    let k = choose|k: int| 0 <= k < front.len() && front[k] == letter(bit);
                    assert(all[k] == letter(bit));
                }
                if all.contains(letter(bit)) {
                    let k = choose|k: int| 0 <= k < all.len() && all[k] == letter(bit);
                    assert(letter(bit) as int == 65 + bit);
                    assert(k < front.len());
                    assert(front[k] == letter(bit));
                }
            }
        }
    }
}

/// No two rows of the tree name the same place.
pub proof fn rows_are_distinct(all: Seq<(Seq<char>, Seq<char>)>)
    ensures
        forall|i: int, j: int|
            0 <= i < j < collapsed(all).len() ==> path_key(#[trigger] collapsed(all)[i].1)
                != path_key(#[trigger] collapsed(all)[j].1),
    decreases all.len(),
{
    if all.len() > 0 {
        let front = collapsed(all.drop_last());
        rows_are_distinct(all.drop_last());
        assert forall|i: int, j: int| 0 <= i < j < collapsed(all).len() implies path_key(
            #[trigger] collapsed(all)[i].1,
        ) != path_key(#[trigger] collapsed(all)[j].1) by {
            assert(collapsed(all)[i] == front[i]);
            if j < front.len() {
                assert(collapsed(all)[j] == front[j]);
            } else {
                assert(path_key(front[i].1) != path_key(all.last().1));
            }
        }
    }
}

/// Every place that was named is in the tree, under the name it was given first.
pub proof fn the_first_name_wins(all: Seq<(Seq<char>, Seq<char>)>, i: int)
    requires
        0 <= i < all.len(),
        !names_again(all.take(i), all[i]),
    ensures
        collapsed(all).contains(all[i]),
    decreases all.len(),
{
    let front = all.drop_last();
    if i < all.len() - 1 {
        assert(front.take(i) =~= all.take(i));
        the_first_name_wins(front, i);
        let kept = collapsed(front);
        let k = choose|k: int| 0 <= k < kept.len() && kept[k] == all[i];
        assert(collapsed(all)[k] == all[i]);
    } else {
        assert(all.take(i) =~= front);
        rows_come_from_the_input(front);
        let kept = collapsed(front);
        assert(!names_again(kept, all[i])) by {
            if names_again(kept, all[i]) {
                let k = choose|k: int|
                    0 <= k < kept.len() && path_key(#[trigger] kept[k].1) == path_key(all[i].1);
                let j = choose|j: int| 0 <= j < front.len() && front[j] == kept[k];
                assert(path_key(front[j].1) == path_key(all[i].1));
            }
        }
        assert(collapsed(all).last() == all[i]);
    }
}

/// The tree shows nothing that wasn't named.
pub proof fn rows_come_from_the_input(all: Seq<(Seq<char>, Seq<char>)>)
    ensures
        forall|k: int|
            0 <= k < collapsed(all).len() ==> exists|j: int|
                0 <= j < all.len() && all[j] == #[trigger] collapsed(all)[k],
    decreases all.len(),
{
    if all.len() > 0 {
        let front = all.drop_last();
        rows_come_from_the_input(front);
        assert forall|k: int| 0 <= k < collapsed(all).len() implies exists|j: int|
            0 <= j < all.len() && all[j] == #[trigger] collapsed(all)[k] by {
            if k < collapsed(front).len() {
                assert(collapsed(all)[k] == collapsed(front)[k]);
                let j = choose|j: int| 0 <= j < front.len() && front[j] == collapsed(front)[k];
                assert(all[j] == collapsed(all)[k]);
            } else {
                assert(all[all.len() - 1] == collapsed(all)[k]);
            }
        }
    }
}

/// The kinds of drive are numbered from two as Windows numbers them, and what it hasn't numbered
/// so is unknown.
pub proof fn drive_kinds_are_numbered(value: u32, kind: DriveKind)
    requires
        call_ensures(DriveKind::from_win32, (value,), kind),
    ensures
        kind == DriveKind::Removable <==> value == 2,
        kind == DriveKind::Fixed <==> value == 3,
        kind == DriveKind::Remote <==> value == 4,
        kind == DriveKind::CdRom <==> value == 5,
        kind == DriveKind::RamDisk <==> value == 6,
        kind == DriveKind::Unknown <==> value < 2 || value > 6,
{
}

/// Each kind of drive is called by its own words, and one that isn't known like a disk.
pub proof fn drive_kinds_have_their_words(kind: DriveKind, label: &'static str)
    requires
        call_ensures(DriveKind::fallback_label, (kind,), label),
    ensures
        kind == DriveKind::Fixed || kind == DriveKind::Unknown ==> label@ == "Local disk"@,
        kind == DriveKind::Removable ==> label@ == "Removable disk"@,
        kind == DriveKind::Remote ==> label@ == "Network drive"@,
        kind == DriveKind::CdRom ==> label@ == "CD drive"@,
        kind == DriveKind::RamDisk ==> label@ == "RAM disk"@,
{
}

/// A drive's label ends in its letter, in brackets with a colon. Before that stands the volume's
/// own label without the white space around it, and the kind of drive where that leaves nothing.
pub proof fn drive_labels_end_in_their_letter(
    letter: char,
    volume: Option<&str>,
    kind: DriveKind,
    label: String,
    words: &'static str,
)
    requires
        call_ensures(drive_label, (letter, volume, kind), label),
        call_ensures(DriveKind::fallback_label, (kind,), words),
    ensures
        label@.len() >= 5,
        label@[label@.len() - 5] == ' ',
        label@[label@.len() - 4] == '(',
        label@[label@.len() - 3] == letter,
        label@[label@.len() - 2] == ':',
        label@[label@.len() - 1] == ')',
        volume is None ==> label@.take(label@.len() - 5) == words@,
        volume matches Some(volume) ==> label@.take(label@.len() - 5) == (if trimmed(volume@).len()
            == 0 {
            words@
        } else {
            trimmed(volume@)
        }),
{
    assert(label@.take(label@.len() - 5) =~= drive_name(volume, kind));
}

/// A bit of the mask gives its letter, from A at the lowest to Z, in the order of the alphabet;
/// the bits above give none.
pub proof fn bits_stand_for_letters(mask: u32, drives: Vec<char>)
    requires
        call_ensures(drives_in_mask, (mask,), drives),
    ensures
        forall|c: char| #[trigger]
            drives@.contains(c) <==> 'A' <= c <= 'Z' && mask & (1u32 << ((c as u32 - 65) as u32))
                != 0,
        forall|i: int, j: int| 0 <= i < j < drives@.len() ==> drives@[i] < drives@[j],
{
    letters_follow_the_mask(mask, 26);
    assert forall|c: char| #[trigger] drives@.contains(c) <==> 'A' <= c <= 'Z' && mask & (1u32 << ((
    c as u32 - 65) as u32)) != 0 by {
        if 'A' <= c <= 'Z' {
            let bit = c as int - 65;
            assert(letter(bit) == c);
            assert(has_drive(mask, bit) == (mask & (1u32 << ((c as u32 - 65) as u32)) != 0));
        } else if drives@.contains(c) {
            let k = choose|k: int| 0 <= k < drives@.len() && drives@[k] == c;
            assert('A' <= drives@[k] && (drives@[k] as int) < 65 + 26);
        }
    }
}

/// A drive's root is its letter, a colon and one backslash.
pub proof fn drive_roots_are_absolute(letter: char, path: String)
    requires
        call_ensures(drive_root_path, (letter,), path),
    ensures
        path@.len() == 3,
        path@[0] == letter,
        path@[1] == ':',
        path@[2] == '\\',
{
}

/// An entry that's marked hidden or system stays out, and no other.
pub proof fn hidden_and_system_stay_out(attributes: u32, hidden: bool)
    requires
        call_ensures(hidden_by_attributes, (attributes,), hidden),
    ensures
        hidden <==> attributes / 2 % 2 == 1 || attributes / 4 % 2 == 1,
{
    assert((attributes & 2 != 0 || attributes & 4 != 0) == (attributes / 2 % 2 == 1 || attributes
        / 4 % 2 == 1)) by (bit_vector);
}

/// How many of the first few folders resolve.
pub open spec fn resolved(paths: Seq<Option<String>>, count: int) -> int
    decreases count,
{
    if count <= 0 {
        0
    } else {
        resolved(paths, count - 1) + if paths[count - 1] is Some {
            1int
        } else {
            0
        }
    }
}

/// The known folders that resolve stand in their order, each under its own name: Pictures,
/// Desktop, Downloads.
pub proof fn known_folders_have_their_names(paths: [Option<String>; 3], roots: Vec<Root>)
    requires
        call_ensures(known_folders, (paths,), roots),
    ensures
        roots@.len() == resolved(paths@, 3),
        paths@[0] is Some ==> roots@[0].name@ == "Pictures"@ && roots@[0].path@ == paths@[0]->0@,
        paths@[1] is Some ==> {
            let at = resolved(paths@, 1);
            roots@[at].name@ == "Desktop"@ && roots@[at].path@ == paths@[1]->0@
        },
        paths@[2] is Some ==> {
            let at = resolved(paths@, 2);
            roots@[at].name@ == "Downloads"@ && roots@[at].path@ == paths@[2]->0@
        },
{
    reveal_with_fuel(known_rows, 4);
    reveal_with_fuel(resolved, 4);
    let all = rows(roots@);
    assert(all.len() == roots@.len());
    assert forall|i: int| 0 <= i < roots@.len() implies all[i] == (
        (#[trigger] roots@[i]).name@,
        roots@[i].path@,
    ) by {}
    assert(KNOWN_FOLDER_LABELS[0]@ == "Pictures"@);
    assert(KNOWN_FOLDER_LABELS[1]@ == "Desktop"@);
    assert(KNOWN_FOLDER_LABELS[2]@ == "Downloads"@);
}

/// A volume's label ends at its first NUL, and is none where there's nothing visible before that.
pub proof fn volume_labels_end_at_their_first_nul(
    buffer: &[u16],
    label: Option<String>,
    end: int,
)
    requires
        call_ensures(volume_label, (buffer,), label),
        0 <= end <= buffer@.len(),
        end == buffer@.len() || buffer@[end] == 0,
        forall|j: int| 0 <= j < end ==> #[trigger] buffer@[j] != 0,
    ensures
        label is Some <==> trimmed(utf16_lossy(buffer@.take(end))).len() > 0,
        label matches Some(label) ==> label@ == utf16_lossy(buffer@.take(end)),
{
    if end < buffer@.len() {
        nothing_past_the_terminator_counts(buffer@.take(end), buffer@.skip(end + 1));
        assert(buffer@.take(end).push(0) + buffer@.skip(end + 1) =~= buffer@);
    } else {
        nothing_past_the_terminator_counts(buffer@, Seq::empty());
        assert(buffer@.take(end) =~= buffer@);
    }
}

/// Each drive has one row, at its own place, with its own letter and root. A network drive is
/// called by its kind, whatever its label.
pub proof fn drives_have_a_row_each(
    reported: &Vec<Drive>,
    roots: Vec<Root>,
    i: int,
    asked: Option<&str>,
    label: String,
)
    requires
        call_ensures(drives, (reported,), roots),
        0 <= i < reported@.len(),
        reported@[i].kind == DriveKind::Remote || reported@[i].label is None ==> asked is None,
        reported@[i].kind != DriveKind::Remote && reported@[i].label is Some ==> asked is Some
            && asked->0@ == reported@[i].label->0@,
        call_ensures(drive_label, (reported@[i].letter, asked, reported@[i].kind), label),
    ensures
        roots@.len() == reported@.len(),
        roots@[i].name@ == label@,
        roots@[i].path@ == seq![reported@[i].letter, ':', '\\'],
{
    let all = rows(roots@);
    assert(all.len() == roots@.len());
    assert(all[i] == drive_row(reported@[i]));
    assert(all[i] == roots@[i]@);
}

/// Every drive but a network one is asked for its label.
pub proof fn network_drives_are_not_asked(kind: DriveKind, asked: bool)
    requires
        call_ensures(asks_for_label, (kind,), asked),
    ensures
        asked <==> kind == DriveKind::Fixed || kind == DriveKind::Removable || kind
            == DriveKind::CdRom || kind == DriveKind::RamDisk || kind == DriveKind::Unknown,
{
}

/// Places stand in the tree in the order in which they were first named.
pub proof fn rows_keep_their_order(all: Seq<(Seq<char>, Seq<char>)>, i: int, j: int)
    requires
        0 <= i < j < all.len(),
        !names_again(all.take(i), all[i]),
        !names_again(all.take(j), all[j]),
    ensures
        exists|a: int, b: int|
            0 <= a < b < collapsed(all).len() && #[trigger] collapsed(all)[a] == all[i]
                && #[trigger] collapsed(all)[b] == all[j],
    decreases all.len(),
{
    let front = all.drop_last();
    if j < all.len() - 1 {
        assert(front.take(i) =~= all.take(i));
        assert(front.take(j) =~= all.take(j));
        rows_keep_their_order(front, i, j);
        let kept = collapsed(front);
        let (a, b) = choose|a: int, b: int|
            0 <= a < b < kept.len() && #[trigger] kept[a] == front[i] && #[trigger] kept[b]
                == front[j];
        assert(collapsed(all)[a] == all[i] && collapsed(all)[b] == all[j]);
    } else {
        assert(front.take(i) =~= all.take(i));
        the_first_name_wins(front, i);
        let kept = collapsed(front);
        let a = choose|a: int| 0 <= a < kept.len() && kept[a] == front[i];
        the_first_name_wins(all, j);
        assert(all.take(j) =~= front);
        rows_come_from_the_input(front);
        assert(!names_again(kept, all[j])) by {
            if names_again(kept, all[j]) {
                let k = choose|k: int|
                    0 <= k < kept.len() && path_key(#[trigger] kept[k].1) == path_key(all[j].1);
                let m = choose|m: int| 0 <= m < front.len() && front[m] == kept[k];
                assert(path_key(front[m].1) == path_key(all[j].1));
            }
        }
        assert(collapsed(all)[a] == all[i] && collapsed(all)[kept.len() as int] == all[j]);
    }
}

/// The tree leads with the known folders and goes on with the drives: a place that nothing before
/// it names has its row, in that order, and nothing else has one.
pub proof fn the_tree_shows_the_folders_and_drives(
    known: [Option<String>; 3],
    reported: &Vec<Drive>,
    roots: Vec<Root>,
    folders: Vec<Root>,
    disks: Vec<Root>,
    built: Vec<Root>,
)
    requires
        call_ensures(enumerate, (known, reported), roots),
        call_ensures(known_folders, (known,), folders),
        call_ensures(drives, (reported,), disks),
        call_ensures(build_windows_roots, (folders, disks), built),
    ensures
        rows(roots@) == rows(built@),
        rows(roots@) == collapsed(rows(folders@ + disks@)),
{
    assert(rows(folders@ + disks@) =~= rows(folders@) + rows(disks@));
}

} // verus!
