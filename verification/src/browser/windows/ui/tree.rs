//! The folder tree: its rows, and the walk that reveals a folder in it.
//!
//! The tree never reads a directory itself. A row claims a child until a scan proves otherwise,
//! and a reveal expands one level, waits for that level's scan, and steps on.

use crate::browser::windows::roots::Root;
use crate::paths::{file_name, key, name_of, path_key};
use crate::text::{chars_of, same_chars};
use vstd::prelude::*;

verus! {

/// A row that's on the tree: the key of its path, and the handle of its item.
pub struct Row {
    pub key: String,
    pub item: isize,
}

/// The tree's own state.
pub struct Tree {
    /// The top-level rows: known folders, then drives.
    pub roots: Vec<Root>,
    /// Every path the tree has had a row for. A row carries its index here.
    pub paths: Vec<String>,
    /// The row for a path. The newest one counts.
    pub rows: Vec<Row>,
    /// The reveal walk in flight, if any.
    pub reveal: Option<Reveal>,
}

/// A reveal in progress: the folders from the root to the target, and how far along it is.
pub struct Reveal {
    pub chain: Vec<String>,
    pub position: usize,
}

/// What a reveal does next.
#[derive(Debug, Clone, Copy, PartialEq, Eq, Structural)]
pub enum RevealStep {
    /// There's no walk, or the row it needs isn't there yet.
    Wait,
    /// Expand this row, and say whether its children were loaded already.
    Expand(isize),
    /// Select this row: the walk is over.
    Select(isize),
}

/// The newest row for a path.
pub open spec fn item_for(rows: Seq<Row>, path: Seq<char>) -> Option<isize>
    decreases rows.len(),
{
    if rows.len() == 0 {
        None
    } else if rows.last().key@ == path_key(path) {
        Some(rows.last().item)
    } else {
        item_for(rows.drop_last(), path)
    }
}

/// What a child row is called: the name at the end of its path.
pub open spec fn label_of(path: Seq<char>) -> Seq<char> {
    match name_of(path) {
        Some(name) => name,
        None => Seq::empty(),
    }
}

/// What a child row is called.
pub fn child_label(path: &str) -> (label: String)
    ensures
        label@ == label_of(path@),
{
    match file_name(path) {
        Some(name) => name,
        None => {
            let label: String = String::new();
            assert(label@ =~= Seq::empty());
            label
        },
    }
}

/// The child count that a row claims once its children are known: a leaf loses its chevron.
pub fn claimed_children(children: usize) -> (count: i32)
    ensures
        count == if children > 0 {
            1int
        } else {
            0
        },
{
    if children > 0 {
        1
    } else {
        0
    }
}

impl Tree {
    /// Whether a walk is somewhere on its chain.
    pub open spec fn wf(self) -> bool {
        self.reveal matches Some(reveal) ==> reveal.position < reveal.chain.len()
    }

    /// A tree with these top-level rows, none of them inserted yet.
    pub fn new(roots: Vec<Root>) -> (tree: Self)
        ensures
            tree.wf(),
            tree.roots == roots,
            tree.paths@.len() == 0,
            tree.rows@.len() == 0,
            tree.reveal is None,
    {
        Tree { roots, paths: Vec::new(), rows: Vec::new(), reveal: None }
    }

    /// The index that the next row carries.
    pub fn next_index(&self) -> (index: usize)
        ensures
            index == self.paths@.len(),
    {
        self.paths.len()
    }

    /// A row has been inserted for a path, or hasn't: the item is 0 then, and the row's index
    /// goes to the next one.
    pub fn inserted(&mut self, path: &str, item: isize) -> (inserted: bool)
        ensures
            inserted == (item != 0),
            final(self).roots == old(self).roots,
            final(self).reveal == old(self).reveal,
            !inserted ==> final(self).paths@ == old(self).paths@ && final(self).rows@ == old(
                self,
            ).rows@,
            inserted ==> {
                &&& final(self).paths@.len() == old(self).paths@.len() + 1
                &&& final(self).paths@.drop_last() == old(self).paths@
                &&& final(self).paths@.last()@ == path@
                &&& final(self).rows@.len() == old(self).rows@.len() + 1
                &&& final(self).rows@.drop_last() == old(self).rows@
                &&& final(self).rows@.last().key@ == path_key(path@)
                &&& final(self).rows@.last().item == item
                &&& item_for(final(self).rows@, path@) == Some(item)
            },
    {
        if item == 0 {
            return false;
        }
        let ghost paths = self.paths@;
        let ghost rows = self.rows@;
        self.paths.push(path.to_owned());
        self.rows.push(Row { key: key(path), item });
        assert(self.paths@.drop_last() =~= paths);
        assert(self.rows@.drop_last() =~= rows);
        true
    }

    /// The path that a row stands for, by the index it carries.
    pub fn row_path(&self, index: usize) -> (path: Option<&String>)
        ensures
            path == if index < self.paths@.len() {
                Some(&self.paths@[index as int])
            } else {
                None
            },
    {
        if index < self.paths.len() {
            Some(&self.paths[index])
        } else {
            None
        }
    }

    /// The row for a path, however it's spelled.
    pub fn item_of(&self, path: &str) -> (item: Option<isize>)
        ensures
            item == item_for(self.rows@, path@),
    {
        let wanted: String = key(path);
        let wanted: Vec<char> = chars_of(wanted.as_str());
        let mut left: usize = self.rows.len();
        assert(self.rows@.take(left as int) =~= self.rows@);
        while left > 0
            invariant
                left <= self.rows.len(),
                wanted@ == path_key(path@),
                item_for(self.rows@, path@) == item_for(self.rows@.take(left as int), path@),
            decreases left,
        {
            assert(self.rows@.take(left as int).drop_last() =~= self.rows@.take(left - 1));
            left = left - 1;
            if same_chars(&chars_of(self.rows[left].key.as_str()), &wanted) {
                return Some(self.rows[left].item);
            }
        }
        None
    }

    /// The root paths, for the folder watch.
    pub fn root_paths(&self) -> (paths: Vec<String>)
        ensures
            paths@.len() == self.roots@.len(),
            forall|i: int| 0 <= i < paths@.len() ==> #[trigger] paths@[i]@ == self.roots@[i].path@,
    {
        let mut paths: Vec<String> = Vec::new();
        for i in 0..self.roots.len()
            invariant
                paths@.len() == i,
                forall|j: int| 0 <= j < i ==> #[trigger] paths@[j]@ == self.roots@[j].path@,
        {
            paths.push(self.roots[i].path.clone());
        }
        paths
    }

    /// Starts a walk along a chain of folders. An empty chain is no walk.
    pub fn start_reveal(&mut self, chain: Vec<String>)
        ensures
            final(self).wf(),
            final(self).roots == old(self).roots,
            final(self).paths == old(self).paths,
            final(self).rows == old(self).rows,
            chain@.len() == 0 ==> final(self).reveal is None,
            chain@.len() > 0 ==> final(self).reveal == Some(Reveal { chain, position: 0 }),
    {
        self.reveal = if chain.len() > 0 {
            Some(Reveal { chain, position: 0 })
        } else {
            None
        };
    }

    /// Whether a walk is still in flight.
    pub fn reveal_pending(&self) -> (pending: bool)
        ensures
            pending == self.reveal is Some,
    {
        self.reveal.is_some()
    }

    /// What the walk does next.
    pub open spec fn step(self) -> RevealStep {
        match self.reveal {
            None => RevealStep::Wait,
            Some(reveal) => match item_for(self.rows@, reveal.chain@[reveal.position as int]@) {
                None => RevealStep::Wait,
                Some(item) => if reveal.position + 1 == reveal.chain@.len() {
                    RevealStep::Select(item)
                } else {
                    RevealStep::Expand(item)
                },
            },
        }
    }

    /// Takes the walk's next step: it expands each ancestor in turn, and at the target it selects
    /// and ends.
    pub fn reveal_step(&mut self) -> (step: RevealStep)
        requires
            old(self).wf(),
        ensures
            step == old(self).step(),
            final(self).wf(),
            final(self).roots == old(self).roots,
            final(self).paths == old(self).paths,
            final(self).rows == old(self).rows,
            step is Select ==> final(self).reveal is None,
            !(step is Select) ==> final(self).reveal == old(self).reveal,
    {
        let step: RevealStep = match &self.reveal {
            None => RevealStep::Wait,
            Some(reveal) => match self.item_of(reveal.chain[reveal.position].as_str()) {
                None => RevealStep::Wait,
                Some(item) => if reveal.position + 1 == reveal.chain.len() {
                    RevealStep::Select(item)
                } else {
                    RevealStep::Expand(item)
                },
            },
        };
        if let RevealStep::Select(_) = step {
            self.reveal = None;
        }
        step
    }

    /// A row on the walk has been expanded. Where its children were loaded already the walk goes
    /// on at once; else their arrival resumes it. Says whether to go on.
    pub fn expanded(&mut self, loaded: bool) -> (go_on: bool)
        requires
            old(self).wf(),
            old(self).reveal matches Some(reveal) ==> reveal.position + 1 < reveal.chain@.len(),
        ensures
            go_on == loaded,
            final(self).wf(),
            final(self).roots == old(self).roots,
            final(self).paths == old(self).paths,
            final(self).rows == old(self).rows,
            !loaded ==> final(self).reveal == old(self).reveal,
            loaded ==> final(self).reveal == match old(self).reveal {
                Some(reveal) => Some(
                    Reveal { chain: reveal.chain, position: (reveal.position + 1) as usize },
                ),
                None => None,
            },
    {
        if loaded {
            if let Some(walk) = &mut self.reveal {
                walk.position = walk.position + 1;
            }
        }
        loaded
    }
}

// ----- laws -----

/// A walk only ever expands rows short of its target, so a step that was taken can be followed by
/// another.
pub proof fn walks_stay_on_their_chain(tree: Tree)
    requires
        tree.wf(),
        tree.step() is Expand,
    ensures
        tree.reveal matches Some(reveal) && reveal.position + 1 < reveal.chain@.len(),
{
}

/// A path finds its row however it's spelled.
pub proof fn rows_ignore_spelling(rows: Seq<Row>, a: Seq<char>, b: Seq<char>)
    requires
        path_key(a) == path_key(b),
    ensures
        item_for(rows, a) == item_for(rows, b),
    decreases rows.len(),
{
    if rows.len() > 0 {
        rows_ignore_spelling(rows.drop_last(), a, b);
    }
}

/// A row that was inserted is found by its path, however that's spelled, and carries the index
/// that was next. What other paths find stays.
pub proof fn inserted_rows_are_found(
    tree: &mut Tree,
    path: &str,
    item: isize,
    inserted: bool,
    next: usize,
    after: &Tree,
    spelled: &str,
    found: Option<isize>,
    carried: Option<&String>,
    other: &str,
    was: Option<isize>,
    is: Option<isize>,
)
    requires
        call_ensures(Tree::next_index, (&*tree,), next),
        call_ensures(Tree::inserted, (tree, path, item), inserted),
        *after == *final(tree),
        path_key(spelled@) == path_key(path@),
        call_ensures(Tree::item_of, (after, spelled), found),
        call_ensures(Tree::row_path, (after, next), carried),
        path_key(other@) != path_key(path@),
        call_ensures(Tree::item_of, (&*tree, other), was),
        call_ensures(Tree::item_of, (after, other), is),
    ensures
        inserted <==> item != 0,
        inserted ==> found == Some(item),
        inserted ==> carried is Some && carried->0@ == path@,
        was == is,
{
    rows_ignore_spelling(after.rows@, path@, spelled@);
    if inserted {
        assert(after.rows@.last().key@ != path_key(other@));
        assert(carried->0 == after.paths@[next as int]);
        assert(after.paths@.last() == after.paths@[next as int]);
    }
}

/// A new tree has a path for none of its rows, and its roots in their order.
pub proof fn a_new_tree_has_its_roots(
    roots: Vec<Root>,
    tree: Tree,
    path: &str,
    item: Option<isize>,
    pending: bool,
    paths: Vec<String>,
)
    requires
        call_ensures(Tree::new, (roots,), tree),
        call_ensures(Tree::item_of, (&tree, path), item),
        call_ensures(Tree::reveal_pending, (&tree,), pending),
        call_ensures(Tree::root_paths, (&tree,), paths),
    ensures
        item is None,
        !pending,
        paths@.len() == roots@.len(),
        forall|i: int| 0 <= i < roots@.len() ==> #[trigger] paths@[i]@ == roots@[i].path@,
{
}

/// A walk waits for the row of the folder it stands on. Before the last folder it expands that
/// row and stays in flight; at the last it selects the row and ends.
pub proof fn walks_expand_and_then_select(
    tree: &mut Tree,
    step: RevealStep,
    chain: Seq<String>,
    position: int,
    folder: &str,
    item: Option<isize>,
    pending: bool,
)
    requires
        tree.reveal matches Some(reveal) && reveal.chain@ == chain && reveal.position == position,
        0 <= position < chain.len(),
        folder@ == chain[position]@,
        call_ensures(Tree::item_of, (&*tree, folder), item),
        call_ensures(Tree::reveal_step, (tree,), step),
        call_ensures(Tree::reveal_pending, (&*final(tree),), pending),
    ensures
        item is None ==> step == RevealStep::Wait,
        item is Some && position < chain.len() - 1 ==> step == RevealStep::Expand(item->0),
        item is Some && position == chain.len() - 1 ==> step == RevealStep::Select(item->0),
        pending <==> !(step is Select),
{
}

/// A walk starts at the first folder of its chain, and moves one folder on each time that the
/// children of the one it expanded are there.
pub proof fn walks_go_one_folder_at_a_time(
    tree: &mut Tree,
    chain: Vec<String>,
    started: &mut Tree,
    loaded: bool,
    go_on: bool,
)
    requires
        call_ensures(Tree::start_reveal, (tree, chain), ()),
        *started == *final(tree),
        call_ensures(Tree::expanded, (started, loaded), go_on),
    ensures
        chain@.len() == 0 ==> final(tree).reveal is None,
        chain@.len() > 0 ==> final(tree).reveal is Some && final(tree).reveal->0.position == 0
            && final(tree).reveal->0.chain@ == chain@,
        go_on <==> loaded,
        chain@.len() > 1 ==> final(started).reveal is Some,
        chain@.len() > 1 ==> final(started).reveal->0.chain@ == chain@,
        chain@.len() > 1 && loaded ==> final(started).reveal->0.position == 1,
        chain@.len() > 1 && !loaded ==> final(started).reveal->0.position == 0,
{
}

/// A row claims a child exactly where it has some, and is called by the name at the end of its
/// path, or by nothing.
pub proof fn rows_claim_what_they_have(
    children: usize,
    count: i32,
    path: &str,
    name: Option<String>,
    label: String,
)
    requires
        call_ensures(claimed_children, (children,), count),
        call_ensures(child_label, (path,), label),
        call_ensures(file_name, (path,), name),
    ensures
        children == 0 ==> count == 0,
        children > 0 ==> count == 1,
        name is Some ==> label@ == name->0@,
        name is None ==> label@.len() == 0,
{
}

} // verus!
