//! What the status bar says.

use prvw::browser::windows::status::{fields, Status};

#[test]
fn a_folder_says_how_many_images_it_holds() {
    let count = |n| {
        fields(Status {
            image_count: n,
            ..Status::default()
        })
        .count
    };
    assert_eq!(count(0), "No images");
    assert_eq!(count(1), "1 image");
    assert_eq!(count(2), "2 images");
    assert_eq!(count(999), "999 images");
    // Thousands separators, per the style guide. A photo library really does reach these.
    assert_eq!(count(1_000), "1,000 images");
    assert_eq!(count(12_345), "12,345 images");
    assert_eq!(count(1_234_567), "1,234,567 images");
}

/// A count that climbs while the user reads it is worse than no count, so the scan says so
/// instead of guessing.
#[test]
fn a_folder_still_being_read_says_so_instead_of_counting() {
    let f = fields(Status {
        image_count: 3,
        loading: true,
        ..Status::default()
    });
    assert_eq!(f.count, "Loading…");
}

#[test]
fn the_selection_pane_is_the_file_name_alone() {
    let f = fields(Status {
        image_count: 4,
        selected: Some(r"C:\Users\dave\Pictures\Trip\DSC_0042.NEF"),
        dimensions: Some((6048, 4024)),
        loading: false,
    });
    assert_eq!(f.count, "4 images");
    assert_eq!(f.name, "DSC_0042.NEF");
    assert_eq!(f.size, "6,048 × 4,024");
}

/// The measurement runs on a worker, so every pane has to read sensibly before it lands —
/// and for a file whose header we can't read, it never will.
#[test]
fn an_unmeasured_selection_leaves_the_size_pane_empty() {
    let f = fields(Status {
        image_count: 4,
        selected: Some(r"C:\pics\a.jpg"),
        dimensions: None,
        loading: false,
    });
    assert_eq!(f.name, "a.jpg");
    assert_eq!(f.size, "");
}

#[test]
fn an_empty_folder_leaves_the_selection_panes_empty() {
    let f = fields(Status::default());
    assert_eq!(f.count, "No images");
    assert_eq!(f.name, "");
    assert_eq!(f.size, "");
}

/// The status bar is copy that the user reads.
#[test]
fn the_copy_follows_the_style_guide() {
    let samples = [
        fields(Status::default()),
        fields(Status {
            image_count: 1,
            ..Status::default()
        }),
        fields(Status {
            image_count: 4_200,
            selected: Some(r"C:\pics\a.jpg"),
            dimensions: Some((4032, 3024)),
            loading: false,
        }),
        fields(Status {
            loading: true,
            ..Status::default()
        }),
    ];
    for sample in &samples {
        for line in [&sample.count, &sample.name, &sample.size] {
            assert!(!line.contains('\u{2014}'), "em dash in {line:?}");
            let lowercase = line.to_lowercase();
            for banned in ["just ", "simply ", "simple ", "easy "] {
                assert!(!lowercase.contains(banned), "{banned:?} in {line:?}");
            }
            // Sentence case: nothing after the first word starts with a capital.
            for word in line.split_whitespace().skip(1) {
                assert!(
                    !word.chars().next().is_some_and(char::is_uppercase),
                    "{word:?} is capitalised mid-label in {line:?}"
                );
            }
        }
    }
}
