//! The images that the grid shows, and which one is selected.

use crate::paths::{path_key, same_path};
use vstd::prelude::*;

verus! {

/// A listed folder.
pub struct GridModel {
    /// Its images, in display order.
    images: Vec<String>,
    /// Which one is selected.
    selected: Option<usize>,
    /// Which listing this is.
    generation: u64,
}

/// A listed folder, as mathematics.
#[verifier::ext_equal]
pub struct GridView {
    pub images: Seq<String>,
    pub selected: Option<usize>,
    pub generation: u64,
}

impl View for GridModel {
    type V = GridView;

    closed spec fn view(&self) -> GridView {
        GridView {
            images: self.images@,
            selected: self.selected,
            generation: self.generation,
        }
    }
}

impl GridView {
    /// Whether the selection is one of the images.
    pub open spec fn wf(self) -> bool {
        self.selected matches Some(index) ==> index < self.images.len()
    }

    /// The selected image's path.
    pub open spec fn selected_path(self) -> Option<Seq<char>> {
        match self.selected {
            Some(index) => Some(self.images[index as int]@),
            None => None,
        }
    }

    /// The cell that a wish for one comes to: the last one where there aren't as many.
    pub open spec fn resolved(self, index: usize) -> Option<usize> {
        if self.images.len() == 0 {
            None
        } else if index < self.images.len() {
            Some(index)
        } else {
            Some((self.images.len() - 1) as usize)
        }
    }
}

/// The number of the listing after this one.
pub open spec fn next_generation(generation: u64) -> u64 {
    if generation == u64::MAX {
        0
    } else {
        (generation + 1) as u64
    }
}

/// Whether an image is the one that's wanted.
pub open spec fn is_wanted(images: Seq<String>, wanted: Seq<char>, index: int) -> bool {
    path_key(images[index]@) == path_key(wanted)
}

/// The first cell that shows the wanted image.
pub open spec fn first_wanted(images: Seq<String>, wanted: Seq<char>) -> Option<int>
    decreases images.len(),
{
    if images.len() == 0 {
        None
    } else {
        match first_wanted(images.drop_last(), wanted) {
            Some(index) => Some(index),
            None => if is_wanted(images, wanted, images.len() - 1) {
                Some(images.len() - 1)
            } else {
                None
            },
        }
    }
}

proof fn lemma_first_wanted(images: Seq<String>, wanted: Seq<char>)
    ensures
        first_wanted(images, wanted) matches Some(index) ==> 0 <= index < images.len()
            && is_wanted(images, wanted, index),
    decreases images.len(),
{
    if images.len() > 0 {
        lemma_first_wanted(images.drop_last(), wanted);
    }
}

/// The first cell that shows an image, under Windows path rules.
pub fn index_of(images: &Vec<String>, wanted: &str) -> (index: Option<usize>)
    ensures
        match index {
            Some(index) => {
                &&& index < images@.len()
                &&& first_wanted(images@, wanted@) == Some(index as int)
            },
            None => first_wanted(images@, wanted@) is None,
        },
{
    let mut found: Option<usize> = None;
    for i in 0..images.len()
        invariant
            match found {
                Some(index) => index < i && first_wanted(images@.take(i as int), wanted@) == Some(
                    index as int,
                ),
                None => first_wanted(images@.take(i as int), wanted@) is None,
            },
    {
        assert(images@.take(i + 1).drop_last() =~= images@.take(i as int));
        assert(images@.take(i + 1)[i as int] == images@[i as int]);
        if found.is_none() && same_path(images[i].as_str(), wanted) {
            found = Some(i);
        }
    }
    assert(images@.take(images.len() as int) =~= images@);
    found
}

impl GridModel {
    /// A folder that hasn't been listed.
    pub fn new() -> (model: Self)
        ensures
            model@.wf(),
            model@.images.len() == 0,
            model@.selected is None,
            model@.generation == 0,
    {
        GridModel { images: Vec::new(), selected: None, generation: 0 }
    }

    /// Takes a new listing, in display order. Nothing is selected yet.
    pub fn set_images(&mut self, images: Vec<String>)
        ensures
            final(self)@ == (GridView {
                images: images@,
                selected: None,
                generation: next_generation(old(self)@.generation),
            }),
            final(self)@.wf(),
    {
        self.images = images;
        self.selected = None;
        self.generation = if self.generation == u64::MAX {
            0
        } else {
            self.generation + 1
        };
    }

    /// Where the selection lands in a re-scan: on the same file where it's still there, else on
    /// the cell at the same place, as far as there is one.
    pub open spec fn rescanned(before: GridView, images: Seq<String>) -> GridView {
        let selected = match before.selected {
            None => None,
            Some(index) => match first_wanted(images, before.images[index as int]@) {
                Some(found) => Some(found as usize),
                None => GridView { images, ..before }.resolved(index),
            },
        };
        GridView { images, selected, generation: next_generation(before.generation) }
    }

    /// Takes a re-scan, and keeps the selection on the same file.
    pub fn apply_rescan(&mut self, images: Vec<String>)
        requires
            old(self)@.wf(),
        ensures
            final(self)@ == GridModel::rescanned(old(self)@, images@),
            final(self)@.wf(),
    {
        let selected: Option<usize> = match self.selected {
            None => None,
            Some(index) => {
                proof {
                    lemma_first_wanted(images@, self.images@[index as int]@);
                }
                match index_of(&images, self.images[index].as_str()) {
                    Some(found) => Some(found),
                    None => if images.len() == 0 {
                        None
                    } else if index < images.len() {
                        Some(index)
                    } else {
                        Some(images.len() - 1)
                    },
                }
            },
        };
        self.images = images;
        self.selected = selected;
        self.generation = if self.generation == u64::MAX {
            0
        } else {
            self.generation + 1
        };
    }

    /// Selects a cell, the last one where there aren't as many. `None` in an empty folder.
    pub fn set_selected(&mut self, index: usize) -> (resolved: Option<usize>)
        requires
            old(self)@.wf(),
        ensures
            resolved == old(self)@.resolved(index),
            final(self)@.wf(),
            resolved is Some ==> final(self)@ == (GridView { selected: resolved, ..old(self)@ }),
            resolved is None ==> final(self)@ == old(self)@,
    {
        if self.images.len() == 0 {
            return None;
        }
        let resolved: usize = if index < self.images.len() {
            index
        } else {
            self.images.len() - 1
        };
        self.selected = Some(resolved);
        Some(resolved)
    }

    /// Which listing this is.
    pub fn generation(&self) -> (generation: u64)
        ensures
            generation == self@.generation,
    {
        self.generation
    }

    /// How many images there are.
    pub fn len(&self) -> (len: usize)
        ensures
            len == self@.images.len(),
    {
        self.images.len()
    }

    /// Whether there are none.
    pub fn is_empty(&self) -> (empty: bool)
        ensures
            empty == (self@.images.len() == 0),
    {
        self.images.len() == 0
    }

    /// The images, in display order.
    pub fn images(&self) -> (images: &Vec<String>)
        ensures
            images@ == self@.images,
    {
        &self.images
    }

    /// An image's path.
    pub fn path(&self, index: usize) -> (path: Option<&String>)
        ensures
            path == if index < self@.images.len() {
                Some(&self@.images[index as int])
            } else {
                None
            },
    {
        if index < self.images.len() {
            Some(&self.images[index])
        } else {
            None
        }
    }

    /// Which cell is selected.
    pub fn selected(&self) -> (selected: Option<usize>)
        ensures
            selected == self@.selected,
    {
        self.selected
    }

    /// The selected image's path.
    pub fn selected_path(&self) -> (path: Option<&String>)
        requires
            self@.wf(),
        ensures
            match path {
                Some(path) => self@.selected_path() == Some(path@),
                None => self@.selected_path() is None,
            },
    {
        match self.selected {
            Some(index) => Some(&self.images[index]),
            None => None,
        }
    }
}

// ----- laws -----

/// A re-scan that still holds the selected file keeps the grid on it.
pub proof fn a_rescan_stays_on_the_file(before: GridView, images: Seq<String>)
    requires
        before.wf(),
        before.selected is Some,
        first_wanted(images, before.selected_path()->0) is Some,
        images.len() <= usize::MAX,
    ensures
        GridModel::rescanned(before, images).selected_path() is Some,
        path_key(GridModel::rescanned(before, images).selected_path()->0) == path_key(
            before.selected_path()->0,
        ),
{
    lemma_first_wanted(images, before.selected_path()->0);
}

/// What's found is the first cell that names the same place, and nothing is found where none
/// does.
pub proof fn the_first_cell_is_found(images: &Vec<String>, wanted: &str, index: Option<usize>)
    requires
        call_ensures(index_of, (images, wanted), index),
    ensures
        index matches Some(index) ==> index < images@.len() && path_key(images@[index as int]@)
            == path_key(wanted@) && forall|j: int|
            0 <= j < index ==> path_key(#[trigger] images@[j]@) != path_key(wanted@),
        index is None ==> forall|j: int|
            0 <= j < images@.len() ==> path_key(#[trigger] images@[j]@) != path_key(wanted@),
{
    lemma_first_wanted(images@, wanted@);
    lemma_nothing_earlier(images@, wanted@);
}

proof fn lemma_nothing_earlier(images: Seq<String>, wanted: Seq<char>)
    ensures
        first_wanted(images, wanted) matches Some(index) ==> forall|j: int|
            0 <= j < index ==> path_key(#[trigger] images[j]@) != path_key(wanted),
        first_wanted(images, wanted) is None ==> forall|j: int|
            0 <= j < images.len() ==> path_key(#[trigger] images[j]@) != path_key(wanted),
    decreases images.len(),
{
    if images.len() > 0 {
        let front = images.drop_last();
        lemma_nothing_earlier(front, wanted);
        lemma_first_wanted(front, wanted);
        assert forall|j: int| 0 <= j < front.len() implies #[trigger] images[j] == front[j] by {}
    }
}

/// A re-scan keeps the selection on the file that was selected, on its first cell. Where the file
/// is gone the selection stays at its place, or at the last cell where there are fewer; in an
/// empty folder, or with nothing selected before, nothing is selected.
pub proof fn rescans_keep_the_selection(
    model: &mut GridModel,
    images: Vec<String>,
    after: &GridModel,
    selected: Option<usize>,
    was: Option<usize>,
    first: Option<usize>,
)
    requires
        model@.wf(),
        call_ensures(GridModel::apply_rescan, (model, images), ()),
        *after == *final(model),
        call_ensures(GridModel::selected, (&*model,), was),
        call_ensures(GridModel::selected, (after,), selected),
        was matches Some(index) ==> exists|path: &str|
            path@ == model@.images[index as int]@ && #[trigger] call_ensures(
                index_of,
                (&images, path),
                first,
            ),
    ensures
        after@.images == images@,
        after@.generation != old(model)@.generation,
        was is None ==> selected is None,
        was is Some && first is Some ==> selected == first,
        was is Some && first is None && images@.len() == 0 ==> selected is None,
        was is Some && first is None && was->0 < images@.len() ==> selected == was,
        was is Some && first is None && 0 < images@.len() <= was->0 ==> selected == Some(
            (images@.len() - 1) as usize,
        ),
{
    if let Some(index) = was {
        lemma_first_wanted(images@, model@.images[index as int]@);
        let path = choose|path: &str|
            path@ == model@.images[index as int]@ && #[trigger] call_ensures(
                index_of,
                (&images, path),
                first,
            );
        assert(path@ == model@.images[index as int]@);
    }
}

/// A new listing shows its images in their order, under a new number, with nothing selected.
pub proof fn a_new_listing_starts_over(
    model: &mut GridModel,
    images: Vec<String>,
    after: &GridModel,
    was: u64,
    generation: u64,
    selected: Option<usize>,
    path: Option<&String>,
    shown: Option<&String>,
    index: usize,
    len: usize,
    empty: bool,
)
    requires
        call_ensures(GridModel::set_images, (model, images), ()),
        *after == *final(model),
        call_ensures(GridModel::generation, (&*model,), was),
        call_ensures(GridModel::generation, (after,), generation),
        call_ensures(GridModel::selected, (after,), selected),
        call_ensures(GridModel::selected_path, (after,), path),
        call_ensures(GridModel::path, (after, index), shown),
        call_ensures(GridModel::len, (after,), len),
        call_ensures(GridModel::is_empty, (after,), empty),
    ensures
        generation != was,
        was < 0xffff_ffff_ffff_ffff ==> generation == was + 1,
        selected is None && path is None,
        shown is Some <==> index < images@.len(),
        shown is Some ==> shown->0@ == images@[index as int]@,
        len == images@.len(),
        empty <==> len == 0,
{
}

/// Selecting a cell that's there selects it, and one past the end the last. An empty folder
/// selects nothing. The images stay either way.
pub proof fn selecting_takes_the_nearest_cell(
    model: &mut GridModel,
    index: usize,
    resolved: Option<usize>,
    after: &GridModel,
    selected: Option<usize>,
    path: Option<&String>,
)
    requires
        call_ensures(GridModel::set_selected, (model, index), resolved),
        *after == *final(model),
        call_ensures(GridModel::selected, (after,), selected),
        call_ensures(GridModel::selected_path, (after,), path),
        model@.images.len() <= usize::MAX,
    ensures
        after@.images == old(model)@.images,
        after@.generation == old(model)@.generation,
        old(model)@.images.len() == 0 ==> resolved is None && selected == old(model)@.selected,
        index < old(model)@.images.len() ==> resolved == Some(index) && selected == Some(index)
            && path is Some && path->0@ == old(model)@.images[index as int]@,
        0 < old(model)@.images.len() <= index ==> resolved == selected && path is Some && path->0@
            == old(model)@.images.last()@,
{
}

} // verus!
