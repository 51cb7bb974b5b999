//! Which folders' children are known.
//!
//! The tree never reads a directory itself: a scan does, and until it comes back the folder is in
//! flight. A folder is scanned once, and again only after it was invalidated.

use crate::paths::{key, path_key};
use crate::text::{chars_of, same_chars};
use vstd::prelude::*;

verus! {

/// How far a folder's scan has got. Times are in milliseconds.
pub enum Load {
    /// It has started, and hasn't come back.
    InFlight { since: u64 },
    /// It has come back with these folders.
    Loaded { children: Vec<String> },
}

/// What the cache holds of one folder.
struct Entry {
    key: String,
    load: Load,
}

/// The children of the folders that were scanned, and which scans are out.
pub struct ChildCache {
    entries: Vec<Entry>,
}

/// Entries by the key of their path.
spec fn by_key(entries: Seq<Entry>) -> Map<Seq<char>, Load>
    decreases entries.len(),
{
    if entries.len() == 0 {
        Map::empty()
    } else {
        by_key(entries.drop_last()).insert(entries.last().key@, entries.last().load)
    }
}

/// Whether no key stands twice.
spec fn distinct(entries: Seq<Entry>) -> bool {
    forall|i: int, j: int|
        0 <= i < j < entries.len() ==> #[trigger] entries[i].key@ != #[trigger] entries[j].key@
}

impl View for ChildCache {
    type V = Map<Seq<char>, Load>;

    closed spec fn view(&self) -> Map<Seq<char>, Load> {
        by_key(self.entries@)
    }
}

proof fn lemma_by_key(entries: Seq<Entry>, key: Seq<char>)
    ensures
        by_key(entries).contains_key(key) <==> exists|i: int|
            0 <= i < entries.len() && #[trigger] entries[i].key@ == key,
    decreases entries.len(),
{
    if entries.len() > 0 {
        let front = entries.drop_last();
        lemma_by_key(front, key);
        if by_key(front).contains_key(key) {
            let i = choose|i: int| 0 <= i < front.len() && #[trigger] front[i].key@ == key;
            assert(entries[i].key@ == key);
        }
        if entries.last().key@ == key {
            assert(entries[entries.len() - 1].key@ == key);
        }
        if exists|i: int| 0 <= i < entries.len() && #[trigger] entries[i].key@ == key {
            let i = choose|i: int| 0 <= i < entries.len() && #[trigger] entries[i].key@ == key;
            if i < front.len() {
                assert(front[i].key@ == key);
            }
        }
    }
}

proof fn lemma_entry(entries: Seq<Entry>, i: int)
    requires
        distinct(entries),
        0 <= i < entries.len(),
    ensures
        by_key(entries).contains_key(entries[i].key@),
        by_key(entries)[entries[i].key@] == entries[i].load,
    decreases entries.len(),
{
    let front = entries.drop_last();
    if i < front.len() {
        assert(distinct(front)) by {
            assert forall|a: int, b: int| 0 <= a < b < front.len() implies #[trigger] front[a].key@
                != #[trigger] front[b].key@ by {
                assert(entries[a].key@ != entries[b].key@);
            }
        }
        lemma_entry(front, i);
        assert(front[i] == entries[i]);
        assert(entries[i].key@ != entries[entries.len() - 1].key@);
    }
}

impl ChildCache {
    /// Whether no folder is held twice.
    pub closed spec fn wf(self) -> bool {
        distinct(self.entries@)
    }

    /// A cache that knows nothing.
    pub fn new() -> (cache: Self)
        ensures
            cache.wf(),
            cache@ == Map::<Seq<char>, Load>::empty(),
    {
        ChildCache { entries: Vec::new() }
    }

    /// Where a folder's entry is.
    fn position(&self, path: &str) -> (at: Option<usize>)
        requires
            self.wf(),
        ensures
            match at {
                Some(i) => {
                    &&& i < self.entries@.len()
                    &&& self.entries@[i as int].key@ == path_key(path@)
                    &&& self@.contains_key(path_key(path@))
                    &&& self@[path_key(path@)] == self.entries@[i as int].load
                },
                None => {
                    &&& !self@.contains_key(path_key(path@))
                    &&& forall|i: int|
                        0 <= i < self.entries@.len() ==> #[trigger] self.entries@[i].key@
                            != path_key(path@)
                },
            },
    {
        let wanted: String = key(path);
        let wanted: Vec<char> = chars_of(wanted.as_str());
        for i in 0..self.entries.len()
            invariant
                self.wf(),
                wanted@ == path_key(path@),
                forall|j: int| 0 <= j < i ==> #[trigger] self.entries@[j].key@ != path_key(path@),
        {
            if same_chars(&chars_of(self.entries[i].key.as_str()), &wanted) {
                proof {
                    lemma_entry(self.entries@, i as int);
                }
                return Some(i);
            }
        }
        proof {
            lemma_by_key(self.entries@, path_key(path@));
        }
        None
    }

    /// Starts a scan of a folder, unless one has already run or is running. Says whether to scan.
    pub fn begin_scan(&mut self, path: &str, now: u64) -> (scan: bool)
        requires
            old(self).wf(),
        ensures
            final(self).wf(),
            scan == !old(self)@.contains_key(path_key(path@)),
            scan ==> final(self)@ == old(self)@.insert(
                path_key(path@),
                Load::InFlight { since: now },
            ),
            !scan ==> final(self)@ == old(self)@,
    {
        match self.position(path) {
            Some(_) => false,
            None => {
                let ghost before = self.entries@;
                self.entries.push(Entry { key: key(path), load: Load::InFlight { since: now } });
                assert(self.entries@.drop_last() =~= before);
                true
            },
        }
    }

    /// Takes a folder's entry out.
    fn forget(&mut self, path: &str)
        requires
            old(self).wf(),
        ensures
            final(self).wf(),
            final(self)@ == old(self)@.remove(path_key(path@)),
            forall|i: int|
                0 <= i < final(self).entries@.len() ==> #[trigger] final(self).entries@[i].key@
                    != path_key(path@),
    {
        match self.position(path) {
            Some(i) => {
                let ghost before = self.entries@;
                let ghost wanted = path_key(path@);
                self.entries.remove(i);
                let ghost after = self.entries@;
                assert(after =~= before.remove(i as int));
                assert(distinct(after)) by {
                    assert forall|a: int, b: int|
                        0 <= a < b < after.len() implies #[trigger] after[a].key@
                        != #[trigger] after[b].key@ by {
                        let old_a = if a < i {
                            a
                        } else {
                            a + 1
                        };
                        let old_b = if b < i {
                            b
                        } else {
                            b + 1
                        };
                        assert(before[old_a].key@ != before[old_b].key@);
                    }
                }
                assert forall|j: int| 0 <= j < after.len() implies #[trigger] after[j].key@
                    != wanted by {
                    if j < i {
                        assert(before[j].key@ != before[i as int].key@);
                    } else {
                        assert(before[j + 1].key@ != before[i as int].key@);
                    }
                }
                assert(self@ =~= by_key(before).remove(wanted)) by {
                    assert forall|k: Seq<char>|
                        by_key(after).contains_key(k) <==> by_key(before).remove(
                            wanted,
                        ).contains_key(k) by {
                        lemma_by_key(before, k);
                        lemma_by_key(after, k);
                        if by_key(after).contains_key(k) {
                            let j = choose|j: int|
                                0 <= j < after.len() && #[trigger] after[j].key@ == k;
                            let at = if j < i {
                                j
                            } else {
                                j + 1
                            };
                            assert(before[at].key@ == k);
                        }
                        if by_key(before).contains_key(k) && k != wanted {
                            let j = choose|j: int|
                                0 <= j < before.len() && #[trigger] before[j].key@ == k;
                            let at = if j < i {
                                j
                            } else {
                                j - 1
                            };
                            assert(after[at].key@ == k);
                        }
                    }
                    assert forall|k: Seq<char>| by_key(after).contains_key(k) implies by_key(
                        after,
                    )[k] == by_key(before)[k] by {
                        lemma_by_key(after, k);
                        let j = choose|j: int| 0 <= j < after.len() && #[trigger] after[j].key@ == k;
                        let at = if j < i {
                            j
                        } else {
                            j + 1
                        };
                        lemma_entry(after, j);
                        lemma_entry(before, at);
                    }
                }
            },
            None => {
                assert(self@ =~= self@.remove(path_key(path@)));
            },
        }
    }

    /// A scan has come back.
    pub fn complete_scan(&mut self, path: &str, children: Vec<String>)
        requires
            old(self).wf(),
        ensures
            final(self).wf(),
            final(self)@ == old(self)@.insert(path_key(path@), Load::Loaded { children }),
    {
        let ghost start = self@;
        self.forget(path);
        let ghost before = self.entries@;
        self.entries.push(Entry { key: key(path), load: Load::Loaded { children } });
        assert(self.entries@.drop_last() =~= before);
        assert(self@ =~= start.insert(path_key(path@), Load::Loaded { children }));
    }

    /// A folder's children, where its scan has come back.
    pub fn loaded(&self, path: &str) -> (children: Option<&Vec<String>>)
        requires
            self.wf(),
        ensures
            match children {
                Some(children) => self@.contains_key(path_key(path@)) && self@[path_key(path@)]
                    == (Load::Loaded { children: *children }),
                None => !self@.contains_key(path_key(path@)) || self@[path_key(
                    path@,
                )] is InFlight,
            },
    {
        match self.position(path) {
            Some(i) => match &self.entries[i].load {
                Load::Loaded { children } => Some(children),
                Load::InFlight { since: _ } => None,
            },
            None => None,
        }
    }

    /// Forgets a folder, so that the next look scans it again.
    pub fn invalidate(&mut self, path: &str)
        requires
            old(self).wf(),
        ensures
            final(self).wf(),
            final(self)@ == old(self)@.remove(path_key(path@)),
    {
        self.forget(path);
    }

    /// Whether a folder's scan is out since this time.
    pub open spec fn out_since(self, path_key: Seq<char>, since: u64) -> bool {
        self@.contains_key(path_key) && self@[path_key] == (Load::InFlight { since })
    }

    /// Whether some scan is out since this time.
    pub open spec fn any_since(self, since: u64) -> bool {
        exists|path_key: Seq<char>| self.out_since(path_key, since)
    }

    /// Since when the oldest of the scans that are out has been out.
    pub fn earliest_in_flight(&self) -> (earliest: Option<u64>)
        requires
            self.wf(),
        ensures
            match earliest {
                Some(earliest) => self.any_since(earliest) && forall|since: u64| #[trigger]
                    self.any_since(since) ==> earliest <= since,
                None => forall|since: u64| !#[trigger] self.any_since(since),
            },
    {
        let mut earliest: Option<u64> = None;
        for i in 0..self.entries.len()
            invariant
                self.wf(),
                earliest matches Some(earliest) ==> self.any_since(earliest),
                forall|j: int|
                    0 <= j < i ==> (#[trigger] self.entries@[j].load matches Load::InFlight {
                        since,
                    } ==> earliest is Some && earliest->0 <= since),
        {
            if let Load::InFlight { since } = &self.entries[i].load {
                proof {
                    lemma_entry(self.entries@, i as int);
                    assert(self.out_since(self.entries@[i as int].key@, *since));
                }
                earliest = match earliest {
                    Some(earlier) => if earlier < *since {
                        Some(earlier)
                    } else {
                        Some(*since)
                    },
                    None => Some(*since),
                };
            }
        }
        assert forall|since: u64| #[trigger] self.any_since(since) implies earliest is Some
            && earliest->0 <= since by {
            let path_key = choose|path_key: Seq<char>| self.out_since(path_key, since);
            lemma_by_key(self.entries@, path_key);
            let j = choose|j: int|
                0 <= j < self.entries@.len() && #[trigger] self.entries@[j].key@ == path_key;
            lemma_entry(self.entries@, j);
            assert(self.entries@[j].load == (Load::InFlight { since }));
        }
        earliest
    }
}

/// Whether a scan has been out for so long that the user is waiting on it.
pub fn scan_overdue(earliest: Option<u64>, now: u64, patience: u64) -> (overdue: bool)
    ensures
        overdue == (earliest matches Some(since) && now - since >= patience),
{
    match earliest {
        Some(since) => now >= since && now - since >= patience,
        None => false,
    }
}

// ----- laws -----

/// A folder is scanned once: a second look at it, however its path is spelled, scans nothing, and
/// its children aren't known until the scan comes back.
pub proof fn a_folder_is_scanned_once(
    before: &mut ChildCache,
    path: &str,
    now: u64,
    scan: bool,
    after: &mut ChildCache,
    spelled: &str,
    later: u64,
    again: bool,
    children: Option<&Vec<String>>,
)
    requires
        call_ensures(ChildCache::begin_scan, (before, path, now), scan),
        *after == *final(before),
        path_key(spelled@) == path_key(path@),
        call_ensures(ChildCache::begin_scan, (after, spelled, later), again),
        call_ensures(ChildCache::loaded, (&*after, spelled), children),
    ensures
        !again,
        final(after)@ == old(after)@,
        scan ==> children is None,
        scan ==> old(after)@[path_key(path@)] == (Load::InFlight { since: now }),
{
}

/// What a scan comes back with is what the cache hands out of that folder, and what it holds of
/// the others stays.
pub proof fn a_scan_is_handed_out(
    before: &mut ChildCache,
    path: &str,
    children: Vec<String>,
    after: &ChildCache,
    spelled: &str,
    found: Option<&Vec<String>>,
    other: &str,
    was: Option<&Vec<String>>,
    is: Option<&Vec<String>>,
)
    requires
        call_ensures(ChildCache::complete_scan, (before, path, children), ()),
        *after == *final(before),
        path_key(spelled@) == path_key(path@),
        call_ensures(ChildCache::loaded, (after, spelled), found),
        path_key(other@) != path_key(path@),
        call_ensures(ChildCache::loaded, (&*before, other), was),
        call_ensures(ChildCache::loaded, (after, other), is),
    ensures
        found == Some(&children),
        was == is,
{
}

/// A folder that was invalidated is scanned again, and only that one.
pub proof fn an_invalidated_folder_is_scanned_again(
    before: &mut ChildCache,
    path: &str,
    after: &mut ChildCache,
    spelled: &str,
    now: u64,
    scan: bool,
    children: Option<&Vec<String>>,
    other: &str,
    was: Option<&Vec<String>>,
    is: Option<&Vec<String>>,
)
    requires
        call_ensures(ChildCache::invalidate, (before, path), ()),
        *after == *final(before),
        path_key(spelled@) == path_key(path@),
        call_ensures(ChildCache::loaded, (&*after, spelled), children),
        call_ensures(ChildCache::begin_scan, (after, spelled, now), scan),
        path_key(other@) != path_key(path@),
        call_ensures(ChildCache::loaded, (&*before, other), was),
        call_ensures(ChildCache::loaded, (&*after, other), is),
    ensures
        children is None,
        scan,
        was == is,
{
}

/// A scan that's out counts toward the oldest, and one that has come back doesn't.
pub proof fn the_oldest_scan_is_found(
    made: ChildCache,
    first: &mut ChildCache,
    one: &str,
    start: u64,
    one_scan: bool,
    second: &mut ChildCache,
    other: &str,
    later: u64,
    other_scan: bool,
    third: &mut ChildCache,
    children: Vec<String>,
    nothing: Option<u64>,
    both: Option<u64>,
    rest: Option<u64>,
)
    requires
        call_ensures(ChildCache::new, (), made),
        call_ensures(ChildCache::earliest_in_flight, (&made,), nothing),
        *first == made,
        call_ensures(ChildCache::begin_scan, (first, one, start), one_scan),
        *second == *final(first),
        call_ensures(ChildCache::begin_scan, (second, other, later), other_scan),
        path_key(one@) != path_key(other@),
        start <= later,
        call_ensures(ChildCache::earliest_in_flight, (&*final(second),), both),
        *third == *final(second),
        call_ensures(ChildCache::complete_scan, (third, one, children), ()),
        call_ensures(ChildCache::earliest_in_flight, (&*final(third),), rest),
    ensures
        nothing is None,
        one_scan && other_scan,
        both == Some(start),
        rest == Some(later),
{
    let a = path_key(one@);
    let b = path_key(other@);
    if let Some(since) = nothing {
        let k = choose|k: Seq<char>| made.out_since(k, since);
        assert(made@.contains_key(k));
    }
    let two = *final(second);
    assert(two.out_since(a, start));
    assert(two.any_since(start));
    if let Some(since) = both {
        let k = choose|k: Seq<char>| two.out_since(k, since);
        assert(k == a || k == b);
    }
    let last = *final(third);
    assert(last.out_since(b, later));
    assert(last.any_since(later));
    if let Some(since) = rest {
        let k = choose|k: Seq<char>| last.out_since(k, since);
        assert(k == b);
    }
}

/// The user is waiting from the moment on that the patience has run out, and not before; with no
/// scan out there's nothing to wait for.
pub proof fn patience_runs_out(earliest: Option<u64>, now: u64, patience: u64, overdue: bool)
    requires
        call_ensures(scan_overdue, (earliest, now, patience), overdue),
    ensures
        earliest is None ==> !overdue,
        earliest matches Some(since) ==> (overdue <==> since + patience <= now),
{
}

} // verus!
