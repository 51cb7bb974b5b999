//! Windows paths, text and byte order.

use prvw::bytes::{push_le_u16, push_le_u32, push_zeros, read_be_u16, read_be_u32, read_le_u16, read_le_u32};
use prvw::paths::{components_match, display, file_name, key, same_path, shell_path};
use prvw::text::{
    decode_utf16_lossy, encode_utf16, eq_ignoring_ascii_case, hex4_chars, with_separators,
};

#[test]
fn a_name_is_what_stands_after_the_last_separator() {
    assert_eq!(file_name(r"C:\pics\a.jpg").as_deref(), Some("a.jpg"));
    assert_eq!(file_name("C:/pics/trip/").as_deref(), Some("trip"));
    assert_eq!(file_name("a.jpg").as_deref(), Some("a.jpg"));
    for nameless in ["", r"C:\", "C:", r"..", r"C:\pics\.."] {
        assert_eq!(file_name(nameless), None, "{nameless}");
    }
}

/// One folder reaches the app in several spellings.
#[test]
fn case_slashes_and_the_verbatim_prefix_do_not_count() {
    assert!(same_path(r"C:\Pics", r"c:\pics"));
    assert!(same_path("C:/Pics/a.jpg", r"C:\pics\A.JPG"));
    assert!(same_path(r"\\?\C:\Pics", r"C:\Pics"));
    assert!(same_path(r"C:\Ön", r"c:\ön"));
    assert!(!same_path(r"C:\pics", r"D:\pics"));
    assert_eq!(key(r"\\?\C:\Pics/A"), r"c:\pics\a");
    assert_eq!(display(r"\\?\C:\Pics"), r"C:\Pics");
}

/// What can't be written without the prefix has no form for the shell.
#[test]
fn the_shell_takes_plain_paths() {
    assert_eq!(shell_path(r"C:\a.jpg").as_deref(), Some(r"C:\a.jpg"));
    assert_eq!(shell_path(r"\\?\C:\a.jpg").as_deref(), Some(r"C:\a.jpg"));
    assert_eq!(shell_path(r"\\?\C:\").as_deref(), Some(r"C:\"));
    assert_eq!(
        shell_path(r"\\server\share\a.jpg").as_deref(),
        Some(r"\\server\share\a.jpg")
    );
    for path in [
        r"\\?\C:\photos\NUL.jpg",
        r"\\?\C:\com1",
        r"\\?\C:\lpt9.txt\a.jpg",
        r"\\?\C:\trailing.",
        r"\\?\C:\trailing \a.jpg",
        r"\\?\C:\\a.jpg",
        r"\\?\Volume{0}\a.jpg",
    ] {
        assert_eq!(shell_path(path), None, "{path}");
    }
    assert!(shell_path(r"\\?\C:\com0\common\null.jpg").is_some());
}

/// A text survives the way into UTF-16 and back, and a lone surrogate doesn't stop it.
#[test]
fn utf16_goes_there_and_back() {
    let text = "på ön 🎈";
    let units = encode_utf16(text);
    assert_eq!(units, text.encode_utf16().collect::<Vec<u16>>());
    assert_eq!(decode_utf16_lossy(&units).iter().collect::<String>(), text);
    assert_eq!(
        decode_utf16_lossy(&vec![0x41, 0xd83c, 0x42, 0xdf88]),
        vec!['A', '\u{fffd}', 'B', '\u{fffd}']
    );
}

#[test]
fn numbers_are_grouped_in_threes() {
    assert_eq!(with_separators(0), "0");
    assert_eq!(with_separators(1_000), "1,000");
    assert_eq!(with_separators(u64::MAX), "18,446,744,073,709,551,615");
    assert_eq!(hex4_chars(0x0c1f).iter().collect::<String>(), "0c1f");
    assert!(eq_ignoring_ascii_case("ListBox", "LISTBOX"));
    assert!(!eq_ignoring_ascii_case("Ö", "ö"));
}

/// Reading gives back what was written, and the byte orders are each other's mirror.
#[test]
fn numbers_read_back() {
    let mut out = vec![9];
    push_le_u32(&mut out, 0x1234_5678);
    push_le_u16(&mut out, 0xabcd);
    push_zeros(&mut out, 2);
    assert_eq!(out, vec![9, 0x78, 0x56, 0x34, 0x12, 0xcd, 0xab, 0, 0]);
    assert_eq!(read_le_u32(&out, 1), 0x1234_5678);
    assert_eq!(read_le_u16(&out, 5), 0xabcd);
    assert_eq!(read_be_u32(&out, 1), 0x7856_3412);
    assert_eq!(read_be_u16(&out, 5), 0xcdab);
}

/// Paths are the same place where their components are, however those are separated.
#[test]
fn components_are_compared_one_by_one() {
    for (a, b) in [
        (r"C:\pics\a.jpg", "C:/pics//a.jpg"),
        (r"C:\pics\a.jpg", r"c:\pics\.\a.jpg"),
        (r"C:\pics", r"C:\pics\\"),
        (r"\\server\share\a", "//server/share//a"),
        (r"\\server\share", r"\\server\share\"),
        (r"\\?\C:\pics", r"\\?\c:\pics\"),
        (r"\\?\UNC\server\share\a", r"\\?\UNC\server\share\\a"),
        ("a/b", r"a\b"),
        ("", ""),
    ] {
        assert!(components_match(a, b), "{a} {b}");
        assert!(components_match(b, a), "{b} {a}");
    }
    for (a, b) in [
        (r"C:\pics\a.jpg", r"C:\pics\A.jpg"),
        (r"C:\pics", r"C:pics"),
        (r"C:\pics", r"D:\pics"),
        (r"C:\pics", r"\\?\C:\pics"),
        (r"\\?\C:\pics/a", r"\\?\C:\pics\a"),
        (r"\\?\C:\.\a", r"\\?\C:\a"),
        (r"\\server\share\a", r"\\Server\share\a"),
        (r"\\server\share", r"\server\share"),
        (r".\a", "a"),
        (r"a\..\b", "b"),
        (r"\a", "a"),
    ] {
        assert!(!components_match(a, b), "{a} {b}");
        assert!(!components_match(b, a), "{b} {a}");
    }
}
