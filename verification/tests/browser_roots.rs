//! The rows at the top of the folder tree.

use prvw::browser::windows::roots::{
    build_windows_roots, drive_label, drive_root_path, drives_in_mask, hidden_by_attributes,
    DriveKind, Root, KNOWN_FOLDER_LABELS,
};

fn root(name: &str, path: &str) -> Root {
    Root {
        name: name.to_string(),
        path: path.to_string(),
    }
}

#[test]
fn a_labelled_drive_reads_like_explorer_without_its_title_case() {
    assert_eq!(
        drive_label('D', Some("Photos"), DriveKind::Fixed),
        "Photos (D:)"
    );
    assert_eq!(drive_label('C', None, DriveKind::Fixed), "Local disk (C:)");
    assert_eq!(
        drive_label('E', None, DriveKind::Removable),
        "Removable disk (E:)"
    );
    assert_eq!(
        drive_label('Z', None, DriveKind::Remote),
        "Network drive (Z:)"
    );
    assert_eq!(drive_label('F', None, DriveKind::CdRom), "CD drive (F:)");
}

/// An unformatted stick reports an empty volume label rather than none at all, and a row
/// called " (E:)" reads as a bug.
#[test]
fn a_blank_volume_label_falls_back_to_the_drive_type() {
    assert_eq!(
        drive_label('E', Some(""), DriveKind::Removable),
        "Removable disk (E:)"
    );
    assert_eq!(
        drive_label('E', Some("   "), DriveKind::Removable),
        "Removable disk (E:)"
    );
    // A label with padding keeps its own name, trimmed.
    assert_eq!(
        drive_label('E', Some("  Trip  "), DriveKind::Removable),
        "Trip (E:)"
    );
}

/// A drive type Windows adds after this was written must still produce a listable row.
#[test]
fn an_unrecognised_drive_type_is_still_a_drive() {
    assert_eq!(DriveKind::from_win32(0), DriveKind::Unknown);
    assert_eq!(DriveKind::from_win32(1), DriveKind::Unknown);
    assert_eq!(DriveKind::from_win32(99), DriveKind::Unknown);
    assert_eq!(
        drive_label('G', None, DriveKind::Unknown),
        "Local disk (G:)"
    );
    // The five Windows does name today.
    assert_eq!(DriveKind::from_win32(2), DriveKind::Removable);
    assert_eq!(DriveKind::from_win32(3), DriveKind::Fixed);
    assert_eq!(DriveKind::from_win32(4), DriveKind::Remote);
    assert_eq!(DriveKind::from_win32(5), DriveKind::CdRom);
    assert_eq!(DriveKind::from_win32(6), DriveKind::RamDisk);
}

#[test]
fn the_bitmask_names_letters_a_first() {
    assert_eq!(drives_in_mask(0), Vec::<char>::new());
    // Bit 0 is A, bit 2 is C, bit 25 is Z.
    assert_eq!(drives_in_mask(0b1), vec!['A']);
    assert_eq!(drives_in_mask(0b101), vec!['A', 'C']);
    assert_eq!(drives_in_mask(1 << 25), vec!['Z']);
    // A typical desktop: C and D.
    assert_eq!(drives_in_mask((1 << 2) | (1 << 3)), vec!['C', 'D']);
    // Bits above Z name no drive and are ignored rather than turning into `[`.
    assert_eq!(drives_in_mask(1 << 26), Vec::<char>::new());
    assert_eq!(drives_in_mask(u32::MAX).len(), 26);
}

/// `C:` is relative to that drive's current directory, so a row spelled that way would list
/// whatever the process happened to be sitting in.
#[test]
fn a_drive_row_is_rooted() {
    assert_eq!(drive_root_path('C'), r"C:\");
}

#[test]
fn known_folders_lead_and_drives_follow() {
    let roots = build_windows_roots(
        vec![
            root("Pictures", r"C:\Users\dave\Pictures"),
            root("Desktop", r"C:\Users\dave\Desktop"),
        ],
        vec![root("Local disk (C:)", r"C:\"), root("Photos (D:)", r"D:\")],
    );
    let names: Vec<&str> = roots.iter().map(|r| r.name.as_str()).collect();
    assert_eq!(
        names,
        vec!["Pictures", "Desktop", "Local disk (C:)", "Photos (D:)"]
    );
}

/// A redirected known folder can land on a drive root, or on another known folder. Two rows
/// for one path would expand independently and disagree.
#[test]
fn a_folder_named_twice_appears_once() {
    let roots = build_windows_roots(
        vec![
            root("Pictures", r"D:\"),
            // Desktop redirected onto Pictures, and spelled in a different case.
            root("Desktop", r"d:\"),
        ],
        vec![root("Photos (D:)", r"D:\")],
    );
    let names: Vec<&str> = roots.iter().map(|r| r.name.as_str()).collect();
    assert_eq!(names, vec!["Pictures"]);
}

/// Every known folder can fail to resolve (a stripped-down Windows install, a redirected
/// folder on a disconnected share). The tree then shows drives alone rather than nothing.
#[test]
fn no_known_folders_still_leaves_the_drives() {
    let roots = build_windows_roots(Vec::new(), vec![root("Local disk (C:)", r"C:\")]);
    assert_eq!(roots.len(), 1);
    assert_eq!(roots[0].path, r"C:\");
}

#[test]
fn hidden_and_system_entries_stay_out_of_the_tree() {
    const READONLY: u32 = 0x1;
    const HIDDEN: u32 = 0x2;
    const SYSTEM: u32 = 0x4;
    const DIRECTORY: u32 = 0x10;

    assert!(!hidden_by_attributes(DIRECTORY));
    assert!(!hidden_by_attributes(DIRECTORY | READONLY));
    assert!(hidden_by_attributes(DIRECTORY | HIDDEN));
    // `System Volume Information` and `$RECYCLE.BIN` are both hidden AND system.
    assert!(hidden_by_attributes(DIRECTORY | SYSTEM));
    assert!(hidden_by_attributes(DIRECTORY | HIDDEN | SYSTEM));
}

/// The labels are copy that the user reads.
#[test]
fn the_labels_follow_the_style_guide() {
    let kinds = [
        DriveKind::Fixed,
        DriveKind::Removable,
        DriveKind::Remote,
        DriveKind::CdRom,
        DriveKind::RamDisk,
        DriveKind::Unknown,
    ];
    let strings: Vec<String> = kinds
        .iter()
        .map(|kind| kind.fallback_label().to_string())
        .chain(KNOWN_FOLDER_LABELS.iter().map(|s| (*s).to_string()))
        .collect();
    for line in &strings {
        assert!(!line.contains('\u{2014}'), "em dash in {line:?}");
        // Sentence case: only the first word may start with a capital, unless the word is an
        // acronym spelled that way (CD, RAM).
        for word in line.split_whitespace().skip(1) {
            assert!(
                !word.chars().next().is_some_and(char::is_uppercase)
                    || word.chars().all(|c| !c.is_lowercase()),
                "{word:?} is capitalised mid-label in {line:?}"
            );
        }
    }
}
