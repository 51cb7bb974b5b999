//! A fixed pool of image list slots, recycled by hand.
//!
//! An image list has no way to remove an image without renumbering every image after it. So the
//! list is created at a fixed count, a slot is claimed when a thumbnail lands and returned when
//! it's evicted, and a slot keeps its number for the folder's life.

use std::collections::HashMap;
use vstd::prelude::*;
use vstd::std_specs::iter::IteratorSpec;

verus! {

broadcast use vstd::std_specs::hash::group_hash_axioms;

/// How many thumbnails the image list holds.
pub const SLOTS: usize = 512;

/// Which slot each thumbnail sits in, and which slots nothing is using.
pub struct SlotPool {
    /// Folder index to slot, for the thumbnails currently resident.
    held: HashMap<usize, i32>,
    /// Slots nothing is using. Claimed from the end, returned to the end.
    free: Vec<i32>,
}

/// What's held and what's free.
#[verifier::ext_equal]
pub struct Slots {
    pub held: Map<usize, i32>,
    pub free: Seq<i32>,
}

impl View for SlotPool {
    type V = Slots;

    closed spec fn view(&self) -> Slots {
        Slots { held: self.held@, free: self.free@ }
    }
}

impl Slots {
    /// Whether some thumbnail sits in a slot.
    pub open spec fn is_held(self, slot: i32) -> bool {
        exists|index: usize| self.holds(index, slot)
    }

    /// Whether this thumbnail sits in this slot.
    pub open spec fn holds(self, index: usize, slot: i32) -> bool {
        self.held.contains_key(index) && self.held[index] == slot
    }

    /// Every slot of the list is free once or held by one thumbnail, never both.
    pub open spec fn wf(self) -> bool {
        &&& forall|slot: i32|
            0 <= slot < SLOTS ==> (#[trigger] self.free.contains(slot) <==> !self.is_held(slot))
        &&& forall|index: usize| #[trigger]
            self.held.contains_key(index) ==> 0 <= self.held[index] < SLOTS
        &&& forall|i: int| 0 <= i < self.free.len() ==> 0 <= #[trigger] self.free[i] < SLOTS
        &&& self.free.no_duplicates()
        &&& forall|a: usize, b: usize|
            #![trigger self.held[a], self.held[b]]
            self.held.contains_key(a) && self.held.contains_key(b) && self.held[a] == self.held[b]
                ==> a == b
    }

    /// After a thumbnail has asked for a slot.
    pub open spec fn claimed(self, index: usize) -> Slots {
        if self.held.contains_key(index) || self.free.len() == 0 {
            self
        } else {
            Slots {
                held: self.held.insert(index, self.free.last()),
                free: self.free.drop_last(),
            }
        }
    }

    /// After a thumbnail has given its slot back.
    pub open spec fn without(self, index: usize) -> Slots {
        if self.held.contains_key(index) {
            Slots { held: self.held.remove(index), free: self.free.push(self.held[index]) }
        } else {
            self
        }
    }

    /// After several thumbnails have given their slots back, one after the other.
    pub open spec fn released(self, evicted: Seq<usize>) -> Slots
        decreases evicted.len(),
    {
        if evicted.len() == 0 {
            self
        } else {
            self.released(evicted.drop_last()).without(evicted.last())
        }
    }
}

proof fn lemma_claimed_keeps_wf(slots: Slots, index: usize)
    requires
        slots.wf(),
    ensures
        slots.claimed(index).wf(),
{
    let after = slots.claimed(index);
    if !slots.held.contains_key(index) && slots.free.len() > 0 {
        let taken = slots.free.last();
        assert(slots.free.contains(taken)) by {
            assert(slots.free[slots.free.len() - 1] == taken);
        }
        assert(!slots.is_held(taken));
        assert forall|slot: i32| 0 <= slot < SLOTS implies (#[trigger] after.free.contains(slot)
            <==> !after.is_held(slot)) by {
            assert(slots.free.contains(slot) <==> !slots.is_held(slot));
            if slot == taken {
                assert(after.holds(index, slot));
                if after.free.contains(slot) {
                    let i = choose|i: int| 0 <= i < after.free.len() && after.free[i] == slot;
                    assert(slots.free[i] == slots.free[slots.free.len() - 1]);
                    assert(false);
                }
            } else {
                if slots.free.contains(slot) {
                    let i = choose|i: int| 0 <= i < slots.free.len() && slots.free[i] == slot;
                    assert(after.free[i] == slot);
                }
                if after.free.contains(slot) {
                    let i = choose|i: int| 0 <= i < after.free.len() && after.free[i] == slot;
                    assert(slots.free[i] == slot);
                }
                if slots.is_held(slot) {
                    let k = choose|k: usize| slots.holds(k, slot);
                    assert(after.holds(k, slot));
                }
                if after.is_held(slot) {
                    let k = choose|k: usize| after.holds(k, slot);
                    assert(slots.holds(k, slot));
                }
            }
        }
        assert forall|a: usize, b: usize|
            #![trigger after.held[a], after.held[b]]
            after.held.contains_key(a) && after.held.contains_key(b) && after.held[a]
                == after.held[b] implies a == b by {
            if a == index && b != index {
                assert(slots.holds(b, taken));
            }
            if b == index && a != index {
                assert(slots.holds(a, taken));
            }
        }
    }
}

proof fn lemma_without_keeps_wf(slots: Slots, index: usize)
    requires
        slots.wf(),
    ensures
        slots.without(index).wf(),
{
    if slots.held.contains_key(index) {
        let after = slots.without(index);
        let back = slots.held[index];
        assert(slots.holds(index, back));
        assert(!slots.free.contains(back));
        assert forall|slot: i32| 0 <= slot < SLOTS implies (#[trigger] after.free.contains(slot)
            <==> !after.is_held(slot)) by {
            assert(slots.free.contains(slot) <==> !slots.is_held(slot));
            if slot == back {
                assert(after.free[slots.free.len() as int] == back);
                if after.is_held(slot) {
                    let k = choose|k: usize| after.holds(k, slot);
                    assert(slots.held[k] == slots.held[index]);
                    assert(false);
                }
            } else {
                if slots.free.contains(slot) {
                    let i = choose|i: int| 0 <= i < slots.free.len() && slots.free[i] == slot;
                    assert(after.free[i] == slot);
                }
                if after.free.contains(slot) {
                    let i = choose|i: int| 0 <= i < after.free.len() && after.free[i] == slot;
                    assert(slots.free[i] == slot);
                }
                if slots.is_held(slot) {
                    let k = choose|k: usize| slots.holds(k, slot);
                    assert(after.holds(k, slot));
                }
                if after.is_held(slot) {
                    let k = choose|k: usize| after.holds(k, slot);
                    assert(slots.holds(k, slot));
                }
            }
        }
        assert forall|i: int, j: int|
            0 <= i < after.free.len() && 0 <= j < after.free.len() && i != j implies after.free[i]
            != after.free[j] by {
            if i < slots.free.len() && j == slots.free.len() {
                assert(slots.free.contains(slots.free[i]));
            }
            if j < slots.free.len() && i == slots.free.len() {
                assert(slots.free.contains(slots.free[j]));
            }
        }
    }
}

proof fn lemma_released_keeps_wf(slots: Slots, evicted: Seq<usize>)
    requires
        slots.wf(),
    ensures
        slots.released(evicted).wf(),
    decreases evicted.len(),
{
    if evicted.len() > 0 {
        lemma_released_keeps_wf(slots, evicted.drop_last());
        lemma_without_keeps_wf(slots.released(evicted.drop_last()), evicted.last());
    }
}

proof fn lemma_released_holds(slots: Slots, evicted: Seq<usize>, index: usize)
    ensures
        slots.released(evicted).held.contains_key(index) <==> slots.held.contains_key(index)
            && !evicted.contains(index),
        slots.released(evicted).held.contains_key(index) ==> slots.released(evicted).held[index]
            == slots.held[index],
    decreases evicted.len(),
{
    if evicted.len() > 0 {
        let front = evicted.drop_last();
        lemma_released_holds(slots, front, index);
        if front.contains(index) {
            let i = choose|i: int| 0 <= i < front.len() && front[i] == index;
            assert(evicted[i] == index);
        }
        if evicted.contains(index) && index != evicted.last() {
            let i = choose|i: int| 0 <= i < evicted.len() && evicted[i] == index;
            assert(front[i] == index);
        }
        if index == evicted.last() {
            assert(evicted[evicted.len() - 1] == index);
        }
    }
}

/// Every slot free, the first one claimed first.
pub open spec fn all_free() -> Slots {
    Slots {
        held: Map::<usize, i32>::empty(),
        free: Seq::new(SLOTS as nat, |i: int| (SLOTS - 1 - i) as i32),
    }
}

impl SlotPool {
    /// A pool with every slot free.
    pub fn new() -> (pool: Self)
        ensures
            pool@.wf(),
            pool@ == all_free(),
    {
        let mut free: Vec<i32> = Vec::new();
        for i in 0usize..512
            invariant
                free@ == Seq::new(i as nat, |j: int| (SLOTS - 1 - j) as i32),
        {
            free.push(511 - i as i32);
            assert(free@ =~= Seq::new((i + 1) as nat, |j: int| (SLOTS - 1 - j) as i32));
        }
        let pool: SlotPool = SlotPool { held: HashMap::new(), free };
        assert(pool@.wf()) by {
            assert forall|slot: i32| 0 <= slot < SLOTS implies (#[trigger] pool@.free.contains(
                slot,
            ) <==> !pool@.is_held(slot)) by {
                assert(pool@.free[SLOTS - 1 - slot] == slot);
            }
        }
        pool
    }

    /// The slot that a thumbnail sits in.
    pub fn slot_of(&self, index: usize) -> (slot: Option<i32>)
        ensures
            match slot {
                Some(slot) => self@.holds(index, slot),
                None => !self@.held.contains_key(index),
            },
    {
        match self.held.get(&index) {
            Some(slot) => Some(*slot),
            None => None,
        }
    }

    /// Takes a free slot for a thumbnail, or `None` when every one is in use. A thumbnail that
    /// has one keeps it.
    pub fn claim(&mut self, index: usize) -> (slot: Option<i32>)
        requires
            old(self)@.wf(),
        ensures
            final(self)@ == old(self)@.claimed(index),
            final(self)@.wf(),
            slot is Some <==> old(self)@.held.contains_key(index) || old(self)@.free.len() > 0,
            slot matches Some(slot) ==> final(self)@.holds(index, slot),
    {
        proof {
            lemma_claimed_keeps_wf(self@, index);
        }
        if let Some(slot) = self.held.get(&index) {
            return Some(*slot);
        }
        match self.free.pop() {
            Some(slot) => {
                self.held.insert(index, slot);
                assert(self@ =~= old(self)@.claimed(index));
                Some(slot)
            },
            None => {
                assert(self@ =~= old(self)@.claimed(index));
                None
            },
        }
    }

    /// Gives back the slots of evicted thumbnails, so that later ones can use them.
    pub fn release(&mut self, evicted: &[usize])
        requires
            old(self)@.wf(),
        ensures
            final(self)@ == old(self)@.released(evicted@),
            final(self)@.wf(),
    {
        let ghost before = self@;
        proof {
            lemma_released_keeps_wf(before, evicted@);
        }
        for i in 0..evicted.len()
            invariant
                self@ == before.released(evicted@.take(i as int)),
        {
            let ghost now = self@;
            assert(evicted@.take(i + 1).drop_last() =~= evicted@.take(i as int));
            if let Some(slot) = self.held.remove(&evicted[i]) {
                self.free.push(slot);
            }
            assert(self@ =~= now.without(evicted[i as int]));
        }
        assert(evicted@.take(evicted.len() as int) =~= evicted@);
    }

    /// Gives back every slot, and says whose they were. The order is that of a hash map.
    pub fn release_all(&mut self) -> (indices: Vec<usize>)
        requires
            old(self)@.wf(),
        ensures
            final(self)@ == old(self)@.released(indices@),
            final(self)@.held == Map::<usize, i32>::empty(),
            final(self)@.wf(),
            indices@.no_duplicates(),
            indices@.to_set() == old(self)@.held.dom(),
    {
        let ghost before = self@;
        let mut indices: Vec<usize> = Vec::new();
        for index in keys: self.held.keys()
            invariant
                indices@ == keys.seq().unref().take(keys.index() as int),
        {
            indices.push(*index);
            assert(indices@ =~= keys.seq().unref().take(keys.index() + 1));
        }
        assert(indices@ =~= vstd::std_specs::hash::spec_keys_iter(&self.held).remaining().unref());
        self.release(indices.as_slice());
        assert forall|index: usize| !self@.held.contains_key(index) by {
            lemma_released_holds(before, indices@, index);
            assert(before.held.contains_key(index) <==> indices@.to_set().contains(index));
        }
        assert(self@.held =~= Map::<usize, i32>::empty());
        indices
    }
}

// ----- laws -----

/// Claiming and giving back never loses a slot and never hands one out twice.
pub proof fn slots_are_never_lost(slots: Slots, index: usize, evicted: Seq<usize>)
    requires
        slots.wf(),
    ensures
        slots.claimed(index).wf(),
        slots.released(evicted).wf(),
{
    lemma_claimed_keeps_wf(slots, index);
    lemma_released_keeps_wf(slots, evicted);
}

/// A thumbnail that gives its slot back right after it claimed one leaves the pool as it was.
pub proof fn giving_back_undoes_claiming(slots: Slots, index: usize)
    requires
        !slots.held.contains_key(index),
        slots.free.len() > 0,
    ensures
        slots.claimed(index).without(index) == slots,
{
    let after = slots.claimed(index).without(index);
    assert(after.held =~= slots.held);
    assert(after.free =~= slots.free);
}

/// Giving slots back takes them from the thumbnails that are named, and from no others.
pub proof fn only_the_evicted_give_back(slots: Slots, evicted: Seq<usize>, index: usize)
    ensures
        slots.released(evicted).held.contains_key(index) <==> slots.held.contains_key(index)
            && !evicted.contains(index),
        slots.released(evicted).held.contains_key(index) ==> slots.released(evicted).held[index]
            == slots.held[index],
{
    lemma_released_holds(slots, evicted, index);
}

/// The slots of a new pool are handed out from the first on.
pub proof fn the_first_slot_goes_first(
    made: SlotPool,
    first: &mut SlotPool,
    a: usize,
    one: Option<i32>,
    second: &mut SlotPool,
    b: usize,
    two: Option<i32>,
)
    requires
        call_ensures(SlotPool::new, (), made),
        *first == made,
        call_ensures(SlotPool::claim, (first, a), one),
        *second == *final(first),
        call_ensures(SlotPool::claim, (second, b), two),
        a != b,
    ensures
        one == Some(0i32),
        two == Some(1i32),
{
    assert(made@.free.last() == 0);
    let after = made@.claimed(a);
    assert(after.free.last() == 1);
}

/// A thumbnail that claims a slot sits in it from then on, alone. One that had a slot keeps that,
/// and so do all the others.
pub proof fn claiming_gives_a_slot_of_its_own(
    pool: &mut SlotPool,
    index: usize,
    slot: Option<i32>,
    after: &SlotPool,
    found: Option<i32>,
    was: Option<i32>,
    other: usize,
    others_was: Option<i32>,
    others: Option<i32>,
)
    requires
        pool@.wf(),
        call_ensures(SlotPool::claim, (pool, index), slot),
        *after == *final(pool),
        call_ensures(SlotPool::slot_of, (&*pool, index), was),
        call_ensures(SlotPool::slot_of, (after, index), found),
        other != index,
        call_ensures(SlotPool::slot_of, (&*pool, other), others_was),
        call_ensures(SlotPool::slot_of, (after, other), others),
    ensures
        found == slot,
        was is Some ==> slot == was,
        others == others_was,
        slot is Some ==> 0 <= slot->0 < 512 && others != slot,
{
    if slot is Some && others is Some && others == slot {
        assert(after@.held[index] == after@.held[other]);
    }
}

/// A claim is refused only where every one of the 512 slots is some other thumbnail's.
pub proof fn claims_are_refused_when_all_are_taken(
    pool: &mut SlotPool,
    index: usize,
    slot: Option<i32>,
    some: i32,
)
    requires
        pool@.wf(),
        call_ensures(SlotPool::claim, (pool, index), slot),
        slot is None,
        0 <= some < 512,
    ensures
        exists|holder: usize|
            holder != index && #[trigger] old(pool)@.held.contains_key(holder)
                && old(pool)@.held[holder] == some,
{
    assert(pool@.free.contains(some) <==> !pool@.is_held(some));
    let holder = choose|holder: usize| pool@.holds(holder, some);
    assert(pool@.held.contains_key(holder));
}

/// A thumbnail that gives its slot back has none, the others keep theirs, and the slot is the
/// next to be claimed.
pub proof fn released_slots_are_claimed_again(
    pool: &mut SlotPool,
    evicted: &[usize],
    index: usize,
    slot: Option<i32>,
    middle: &mut SlotPool,
    gone: Option<i32>,
    other: usize,
    others_was: Option<i32>,
    others: Option<i32>,
    next: usize,
    next_had: Option<i32>,
    next_slot: Option<i32>,
)
    requires
        evicted@ == seq![index],
        call_ensures(SlotPool::slot_of, (&*pool, index), slot),
        slot is Some,
        call_ensures(SlotPool::release, (pool, evicted), ()),
        *middle == *final(pool),
        call_ensures(SlotPool::slot_of, (&*middle, index), gone),
        other != index,
        call_ensures(SlotPool::slot_of, (&*pool, other), others_was),
        call_ensures(SlotPool::slot_of, (&*middle, other), others),
        call_ensures(SlotPool::slot_of, (&*middle, next), next_had),
        next_had is None,
        call_ensures(SlotPool::claim, (middle, next), next_slot),
    ensures
        gone is None,
        others == others_was,
        next_slot == slot,
{
    lemma_released_holds(pool@, evicted@, index);
    lemma_released_holds(pool@, evicted@, other);
    assert(evicted@[0] == index);
    assert(evicted@.drop_last() =~= Seq::<usize>::empty());
    assert(pool@.released(evicted@.drop_last()) == pool@);
    assert(middle@ == pool@.without(index));
    assert(middle@.free.last() == slot->0);
}

/// Giving every slot back names each thumbnail that had one, once, and leaves none.
pub proof fn all_slots_come_back(
    pool: &mut SlotPool,
    indices: Vec<usize>,
    after: &SlotPool,
    index: usize,
    was: Option<i32>,
    left: Option<i32>,
)
    requires
        call_ensures(SlotPool::release_all, (pool,), indices),
        *after == *final(pool),
        call_ensures(SlotPool::slot_of, (&*pool, index), was),
        call_ensures(SlotPool::slot_of, (after, index), left),
    ensures
        was is Some <==> indices@.contains(index),
        forall|i: int, j: int|
            0 <= i < j < indices@.len() ==> #[trigger] indices@[i] != #[trigger] indices@[j],
        left is None,
{
    assert(indices@.to_set().contains(index) <==> indices@.contains(index));
}

} // verus!
