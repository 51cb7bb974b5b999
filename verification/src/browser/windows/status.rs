//! What the browse-mode status bar says.
//!
//! Three panes: how many images the selected folder holds, which one is selected, and how big it
//! is.

use crate::paths::{file_name, name_of};
use crate::text::{
    amount, commas_stand_at_every_fourth_place, decimal, decimals_spell_their_number, grouped,
    push_text, string_of, with_separators,
};
use vstd::prelude::*;

verus! {

/// What the status bar is being asked to describe.
#[derive(Debug, Clone, Copy)]
pub struct Status<'a> {
    /// How many images the selected folder holds.
    pub image_count: usize,
    /// The selected image's path, if the grid has one.
    pub selected: Option<&'a str>,
    /// The selected image's pixel size, once it has been measured. `None` while the measurement
    /// is in flight, and for a file whose header can't be read.
    pub dimensions: Option<(u32, u32)>,
    /// True while a folder listing or a tree scan the user is waiting on hasn't come back.
    pub loading: bool,
}

impl<'a> Default for Status<'a> {
    fn default() -> (status: Self)
        ensures
            status.image_count == 0,
            status.selected is None,
            status.dimensions is None,
            !status.loading,
    {
        Status { image_count: 0, selected: None, dimensions: None, loading: false }
    }
}

/// The three panes' text, left to right.
#[derive(Debug, Clone, PartialEq, Eq)]
pub struct Fields {
    /// How many images are here, or that it isn't known yet.
    pub count: String,
    /// The selected file's name. Empty when nothing is selected.
    pub name: String,
    /// The selected file's pixel size. Empty until it's known.
    pub size: String,
}

/// A number with a comma before every three digits.
pub open spec fn thousands_text(value: nat) -> Seq<char> {
    grouped(decimal(value))
}

/// "No images", "1 image", "1,234 images".
pub open spec fn count_text(count: nat) -> Seq<char> {
    if count == 0 {
        "No images"@
    } else if count == 1 {
        "1 image"@
    } else {
        thousands_text(count) + " images"@
    }
}

/// A pixel size: "6,048 × 4,024".
pub open spec fn size_text(dimensions: Option<(u32, u32)>) -> Seq<char> {
    match dimensions {
        Some((width, height)) => thousands_text(width as nat) + " × "@ + thousands_text(
            height as nat,
        ),
        None => Seq::empty(),
    }
}

/// The name of the selected file.
pub open spec fn selected_text(selected: Option<&str>) -> Seq<char> {
    match selected {
        Some(path) => match name_of(path@) {
            Some(name) => name,
            None => Seq::empty(),
        },
        None => Seq::empty(),
    }
}

/// Fills the three panes.
///
/// "Loading…" replaces the count rather than joining it, because a half-counted folder is worse
/// than no count: the number would climb while the user reads it.
pub fn fields(status: Status<'_>) -> (fields: Fields)
    ensures
        fields.count@ == if status.loading {
            "Loading…"@
        } else {
            count_text(status.image_count as nat)
        },
        fields.name@ == selected_text(status.selected),
        fields.size@ == size_text(status.dimensions),
{
    let count: String = if status.loading {
        "Loading…".to_owned()
    } else {
        image_count(status.image_count)
    };
    let name: String = match status.selected {
        Some(path) => match file_name(path) {
            Some(name) => name,
            None => String::new(),
        },
        None => String::new(),
    };
    let size: String = match status.dimensions {
        Some((width, height)) => {
            let mut out: Vec<char> = Vec::new();
            push_text(&mut out, thousands(width as u64).as_str());
            push_text(&mut out, " × ");
            push_text(&mut out, thousands(height as u64).as_str());
            assert(out@ =~= size_text(status.dimensions));
            string_of(out)
        },
        None => String::new(),
    };
    assert(status.selected is None ==> name@ =~= Seq::empty());
    assert(status.dimensions is None ==> size@ =~= Seq::empty());
    Fields { count, name, size }
}

/// "No images", "1 image", "1,234 images".
pub fn image_count(count: usize) -> (text: String)
    ensures
        text@ == count_text(count as nat),
{
    if count == 0 {
        "No images".to_owned()
    } else if count == 1 {
        "1 image".to_owned()
    } else {
        let mut out: Vec<char> = Vec::new();
        push_text(&mut out, thousands(count as u64).as_str());
        push_text(&mut out, " images");
        assert(out@ =~= count_text(count as nat));
        string_of(out)
    }
}

/// A number with thousands separators.
pub fn thousands(value: u64) -> (text: String)
    ensures
        text@ == thousands_text(value as nat),
{
    with_separators(value)
}

// ----- laws -----

/// The count reads as its number: none, one, or a number with its noun. While the user waits it
/// says so instead.
pub proof fn the_count_reads_as_its_number(status: Status<'_>, text: Fields)
    requires
        call_ensures(fields, (status,), text),
    ensures
        status.loading ==> text.count@ == "Loading…"@,
        !status.loading && status.image_count == 0 ==> text.count@ == "No images"@,
        !status.loading && status.image_count == 1 ==> text.count@ == "1 image"@,
        !status.loading && status.image_count > 1 ==> {
            let n = text.count@.len() - 7;
            &&& n > 0
            &&& text.count@.skip(n) == " images"@
            &&& amount(text.count@.take(n)) == status.image_count
            &&& forall|k: int|
                0 <= k < n && k % 4 == 3 ==> #[trigger] text.count@[n - 1 - k] == ','
        },
{
    if !status.loading && status.image_count > 1 {
        lemma_thousands(status.image_count as nat);
        let front = thousands_text(status.image_count as nat);
        reveal_strlit(" images");
        assert(text.count@.take(front.len() as int) =~= front);
        assert(text.count@.skip(front.len() as int) =~= " images"@);
        assert forall|k: int| 0 <= k < front.len() && k % 4 == 3 implies #[trigger] text.count@[
        front.len() - 1 - k] == ',' by {
            assert(front[front.len() - 1 - k] == ',');
        }
    }
}

proof fn lemma_thousands(n: nat)
    ensures
        amount(thousands_text(n)) == n,
        thousands_text(n).len() > 0,
        forall|k: int|
            0 <= k < thousands_text(n).len() && k % 4 == 3 ==> #[trigger] thousands_text(
                n,
            )[thousands_text(n).len() - 1 - k] == ',',
{
    decimals_spell_their_number(n);
    commas_stand_at_every_fourth_place(decimal(n));
}

/// The size reads as the width and then the height, with a cross between them, and stays empty
/// until it's known.
pub proof fn the_size_reads_as_width_by_height(status: Status<'_>, text: Fields) -> (split: int)
    requires
        call_ensures(fields, (status,), text),
    ensures
        status.dimensions is None ==> text.size@.len() == 0,
        status.dimensions matches Some((width, height)) ==> {
            &&& 0 < split
            &&& split + 3 < text.size@.len()
            &&& text.size@.subrange(split, split + 3) == " × "@
            &&& amount(text.size@.take(split)) == width
            &&& amount(text.size@.skip(split + 3)) == height
        },
        status.selected is None ==> text.name@.len() == 0,
        status.selected matches Some(path) ==> (name_of(path@) matches Some(name) ==> text.name@
            == name),
{
    reveal_strlit(" × ");
    match status.dimensions {
        Some((width, height)) => {
            lemma_thousands(width as nat);
            lemma_thousands(height as nat);
            let a = thousands_text(width as nat);
            let b = thousands_text(height as nat);
            assert(text.size@ == a + " × "@ + b);
            assert(text.size@.take(a.len() as int) =~= a);
            assert(text.size@.skip(a.len() as int + 3) =~= b);
            assert(text.size@.subrange(a.len() as int, a.len() as int + 3) =~= " × "@);
            a.len() as int
        },
        None => 0,
    }
}

/// The name is that at the end of the selected path, and empty without one.
pub proof fn the_name_is_the_files(
    path: &str,
    count: usize,
    dimensions: Option<(u32, u32)>,
    loading: bool,
    some: Fields,
    none: Fields,
    name: Option<String>,
)
    requires
        call_ensures(
            fields,
            (Status { image_count: count, selected: Some(path), dimensions, loading },),
            some,
        ),
        call_ensures(
            fields,
            (Status { image_count: count, selected: None, dimensions, loading },),
            none,
        ),
        call_ensures(file_name, (path,), name),
    ensures
        name is Some ==> some.name@ == name->0@,
        name is None ==> some.name@.len() == 0,
        none.name@.len() == 0,
        some.count@ == none.count@,
        some.size@ == none.size@,
{
}

/// A count that isn't waited on is told as it reads by itself, and a number reads as its digits
/// with a comma at every fourth place from the end.
pub proof fn counts_read_the_same_everywhere(
    status: Status<'_>,
    text: Fields,
    count: String,
    value: u64,
    number: String,
)
    requires
        call_ensures(fields, (status,), text),
        call_ensures(image_count, (status.image_count,), count),
        call_ensures(thousands, (value,), number),
    ensures
        !status.loading ==> text.count@ == count@,
        amount(number@) == value,
        forall|k: int|
            0 <= k < number@.len() && k % 4 == 3 ==> #[trigger] number@[number@.len() - 1 - k]
                == ',',
{
    decimals_spell_their_number(value as nat);
    commas_stand_at_every_fourth_place(decimal(value as nat));
}

} // verus!
