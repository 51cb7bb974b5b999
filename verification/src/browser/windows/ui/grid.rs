//! The thumbnail grid: which slot a cell draws from, and what becomes of a thumbnail that lands.
//!
//! The list view is virtual: it holds a count rather than items, and asks for a cell's text and
//! image as it draws. What's generated next and what's evicted is decided elsewhere; this module
//! keeps the slots in step with it.

use super::shell::{wide, wide_units};
use super::slots::{all_free, SlotPool, Slots, SLOTS};
use crate::browser::windows::layout::{larger, scale, scaled, smaller, CELL_THUMBNAIL};
use crate::browser::windows::thumbnail::{compose_slot, slot, slot_bytes};
use crate::chrome::Theme;
use crate::paths::{components_match, file_name, name_of, same_components};
use vstd::prelude::*;

verus! {

/// comctl32's dark list background, `0x00BBGGRR`.
pub const DARK_LIST_BACKGROUND: u32 = 0x0019_1919;

/// `LVIF_STATE`: the item's state is what changed.
pub const LVIF_STATE: u32 = 0x0008;

/// `LVIS_SELECTED`.
pub const LVIS_SELECTED: u32 = 0x0002;

/// `LVIS_SELECTED` and `LVIS_FOCUSED`: a virtual list view needs both, or the arrow keys have no
/// anchor to move from.
pub const SELECTED_AND_FOCUSED: u32 = 0x0003;

/// The image index that leaves a cell blank.
pub const NO_IMAGE: i32 = -1;

/// A generated thumbnail: 8-bit RGBA, top row first.
pub struct Pixels {
    pub rgba: Vec<u8>,
    pub width: u32,
    pub height: u32,
}

/// What the generator sends back.
pub struct Delivery {
    /// Which cell it's for.
    pub index: usize,
    /// Which listing the request belonged to.
    pub folder_generation: u64,
    /// The pixels, or `None` where the generator failed.
    pub result: Option<Pixels>,
}

/// What to do with a delivery.
pub enum Accepted {
    /// Nothing to draw: tell the scheduler that this cell isn't in flight any more.
    Failed(usize),
    /// Write the canvas into the slot, and say how that went.
    Write { index: usize, slot: i32, canvas: Vec<u8> },
}

/// What a write came to.
#[derive(Debug, Clone, Copy, PartialEq, Eq, Structural)]
pub enum Written {
    /// The cell can be drawn. The cache is charged with this many bytes.
    Ready { index: usize, bytes: usize },
    /// The cell stays blank.
    Failed(usize),
    /// The cell stays blank, and whatever was in its slot before is gone.
    Unwritten(usize),
}

/// What a re-scan asks for.
pub struct Rescan {
    /// The cells whose thumbnails are gone.
    pub released: Vec<usize>,
    /// Whether what's being generated is stale.
    pub cancel: bool,
    /// Whether the selected image is now a different one.
    pub changed: bool,
}

/// Whether a delivery can still be drawn: it's for this listing, it has pixels, and there's a slot
/// for it.
pub open spec fn wants(pool: Slots, delivery: Delivery, generation: u64) -> bool {
    &&& delivery.folder_generation == generation
    &&& delivery.result is Some
    &&& pool.held.contains_key(delivery.index) || pool.free.len() > 0
}

/// What a delivery's pixels are composed into.
pub open spec fn canvas_of(delivery: Delivery, side: u32, background: (u8, u8, u8)) -> Seq<u8> {
    slot(
        delivery.result->0.rgba@,
        delivery.result->0.width as int,
        delivery.result->0.height as int,
        side as int,
        background,
    )
}

/// The pool after a delivery that was written, or wasn't.
pub open spec fn pool_after(
    pool: Slots,
    delivery: Delivery,
    generation: u64,
    written: Written,
) -> Slots {
    if !wants(pool, delivery, generation) {
        pool
    } else if written is Ready {
        pool.claimed(delivery.index)
    } else {
        pool.claimed(delivery.index).released(seq![delivery.index])
    }
}

/// The pool after the first `count` deliveries of a batch, given what became of each.
pub open spec fn pool_after_all(
    pool: Slots,
    batch: Seq<Delivery>,
    generation: u64,
    written: Seq<Written>,
    count: int,
) -> Slots
    decreases count,
{
    if count <= 0 {
        pool
    } else {
        pool_after(
            pool_after_all(pool, batch, generation, written, count - 1),
            batch[count - 1],
            generation,
            written[count - 1],
        )
    }
}

/// The grid's own state.
pub struct Grid {
    /// Which slot each thumbnail sits in.
    pub pool: SlotPool,
    /// One slot's side in device pixels, which is also what a thumbnail is generated at.
    pub slot_side: u32,
    /// True between asking for a folder listing and its arrival.
    pub listing: bool,
}

/// One slot's side at a DPI.
pub open spec fn side_at(dpi: u32) -> int {
    larger(scaled(CELL_THUMBNAIL, dpi) as int, 1)
}

/// One slot's side at a DPI, in device pixels.
pub fn slot_side(dpi: u32) -> (side: u32)
    ensures
        side == side_at(dpi),
{
    let side: i32 = scale(CELL_THUMBNAIL, dpi);
    if side < 1 {
        1
    } else {
        side as u32
    }
}

/// Whether the pixels of every slot can be counted.
pub open spec fn slots_fit(side: u32) -> bool {
    SLOTS * (side * side * 4) <= isize::MAX
}

/// The byte budget that holds every slot and no more.
pub fn cache_budget(side: u32) -> (bytes: usize)
    requires
        slots_fit(side),
    ensures
        bytes == SLOTS * (side * side * 4),
{
    assert(side * side >= 0) by (nonlinear_arith);
    SLOTS * slot_bytes(side)
}

impl Grid {
    /// Whether no slot is lost or handed out twice.
    pub open spec fn wf(self) -> bool {
        self.pool@.wf() && self.slot_side >= 1
    }

    /// A grid with nothing in it.
    pub fn new(dpi: u32) -> (grid: Self)
        ensures
            grid.wf(),
            grid.slot_side == side_at(dpi),
            grid.pool@ == all_free(),
            !grid.listing,
    {
        Grid { pool: SlotPool::new(), slot_side: slot_side(dpi), listing: false }
    }

    /// A folder's images have been asked for.
    pub fn list_started(&mut self)
        ensures
            final(self).listing,
            final(self).pool == old(self).pool,
            final(self).slot_side == old(self).slot_side,
    {
        self.listing = true;
    }

    /// A listing has arrived: every thumbnail of the folder it replaces goes. Says which cells
    /// they were for.
    pub fn folder_listed(&mut self) -> (released: Vec<usize>)
        requires
            old(self).wf(),
        ensures
            final(self).wf(),
            !final(self).listing,
            final(self).slot_side == old(self).slot_side,
            final(self).pool@ == old(self).pool@.released(released@),
            final(self).pool@.held == Map::<usize, i32>::empty(),
            released@.no_duplicates(),
            released@.to_set() == old(self).pool@.held.dom(),
    {
        self.listing = false;
        self.pool.release_all()
    }

    /// A live re-scan has arrived. Slots are keyed by folder index, and a re-scan renumbers them,
    /// so they all go. `before` and `after` are the selected image's path on either side of it,
    /// and `modified` says how many files changed their bytes.
    pub fn apply_rescan(&mut self, before: Option<&str>, after: Option<&str>, modified: usize) -> (
    rescan: Rescan)
        requires
            old(self).wf(),
        ensures
            final(self).wf(),
            final(self).listing == old(self).listing,
            final(self).slot_side == old(self).slot_side,
            final(self).pool@ == old(self).pool@.released(rescan.released@),
            final(self).pool@.held == Map::<usize, i32>::empty(),
            rescan.released@.no_duplicates(),
            rescan.released@.to_set() == old(self).pool@.held.dom(),
            rescan.cancel == (modified > 0),
            rescan.changed == !same_selection(
                match before {
                    Some(before) => Some(before@),
                    None => None,
                },
                match after {
                    Some(after) => Some(after@),
                    None => None,
                },
            ),
    {
        let released: Vec<usize> = self.pool.release_all();
        let changed: bool = match (before, after) {
            (None, None) => false,
            (Some(before), Some(after)) => !components_match(before, after),
            _ => true,
        };
        Rescan { released, cancel: modified > 0, changed }
    }


    /// Takes a delivery: one for a folder the user has left, one without pixels, and one that
    /// finds every slot in use all fail. The rest is composed into the slot that's claimed for
    /// it.
    pub fn accept(&mut self, delivery: &Delivery, generation: u64, background: (u8, u8, u8)) -> (
    accepted: Accepted)
        requires
            old(self).wf(),
            old(self).slot_side * old(self).slot_side * 4 <= isize::MAX,
        ensures
            final(self).wf(),
            final(self).slot_side == old(self).slot_side,
            final(self).listing == old(self).listing,
            match accepted {
                Accepted::Failed(index) => {
                    &&& !wants(old(self).pool@, *delivery, generation)
                    &&& index == delivery.index
                    &&& final(self).pool@ == old(self).pool@
                },
                Accepted::Write { index, slot: target, canvas } => {
                    &&& wants(old(self).pool@, *delivery, generation)
                    &&& index == delivery.index
                    &&& final(self).pool@ == old(self).pool@.claimed(index)
                    &&& final(self).pool@.holds(index, target)
                    &&& canvas@ == canvas_of(*delivery, old(self).slot_side, background)
                },
            },
    {
        let index: usize = delivery.index;
        if delivery.folder_generation != generation {
            return Accepted::Failed(index);
        }
        let pixels: &Pixels = match &delivery.result {
            Some(pixels) => pixels,
            None => {
                return Accepted::Failed(index);
            },
        };
        match self.pool.claim(index) {
            Some(target) => {
                let canvas: Vec<u8> = compose_slot(
                    pixels.rgba.as_slice(),
                    pixels.width,
                    pixels.height,
                    self.slot_side,
                    background,
                );
                Accepted::Write { index, slot: target, canvas }
            },
            None => Accepted::Failed(index),
        }
    }

    /// A canvas has been written, or hasn't: in that case its slot goes back.
    pub fn written(&mut self, index: usize, ok: bool) -> (written: Written)
        requires
            old(self).wf(),
            old(self).slot_side * old(self).slot_side * 4 <= usize::MAX,
        ensures
            final(self).wf(),
            final(self).slot_side == old(self).slot_side,
            final(self).listing == old(self).listing,
            ok ==> final(self).pool@ == old(self).pool@ && written == (Written::Ready {
                index,
                bytes: (old(self).slot_side * old(self).slot_side * 4) as usize,
            }),
            !ok ==> final(self).pool@ == old(self).pool@.released(seq![index]) && written
                == Written::Unwritten(index),
    {
        if ok {
            Written::Ready { index, bytes: slot_bytes(self.slot_side) }
        } else {
            let one: [usize; 1] = [index];
            self.pool.release(&one);
            assert(one@ =~= seq![index]);
            Written::Unwritten(index)
        }
    }

    /// Takes a whole batch: what's wanted is composed and handed to `write`, slot and canvas, and
    /// what `write` answers decides whether the cell is ready. Says what became of each delivery,
    /// in order.
    pub fn settle<F: Fn(i32, &Vec<u8>) -> bool>(
        &mut self,
        batch: &Vec<Delivery>,
        generation: u64,
        background: (u8, u8, u8),
        write: &F,
    ) -> (outcomes: Vec<Written>)
        requires
            old(self).wf(),
            old(self).slot_side * old(self).slot_side * 4 <= isize::MAX,
            forall|slot: i32, canvas: &Vec<u8>| #[trigger] write.requires((slot, canvas)),
        ensures
            final(self).wf(),
            final(self).slot_side == old(self).slot_side,
            final(self).listing == old(self).listing,
            outcomes@.len() == batch@.len(),
            final(self).pool@ == pool_after_all(
                old(self).pool@,
                batch@,
                generation,
                outcomes@,
                batch@.len() as int,
            ),
            forall|i: int|
                0 <= i < batch@.len() ==> settled(
                    pool_after_all(old(self).pool@, batch@, generation, outcomes@, i),
                    #[trigger] batch@[i],
                    generation,
                    old(self).slot_side,
                    background,
                    *write,
                    outcomes@[i],
                ),
    {
        let mut outcomes: Vec<Written> = Vec::new();
        let ghost pool = self.pool@;
        let ghost side = self.slot_side;
        for i in 0..batch.len()
            invariant
                self.wf(),
                self.slot_side == side,
                self.listing == old(self).listing,
                side * side * 4 <= isize::MAX,
                forall|slot: i32, canvas: &Vec<u8>| #[trigger] write.requires((slot, canvas)),
                outcomes@.len() == i,
                self.pool@ == pool_after_all(pool, batch@, generation, outcomes@, i as int),
                forall|j: int|
                    0 <= j < i ==> settled(
                        pool_after_all(pool, batch@, generation, outcomes@, j),
                        #[trigger] batch@[j],
                        generation,
                        side,
                        background,
                        *write,
                        outcomes@[j],
                    ),
        {
            let ghost now = self.pool@;
            let ghost before = outcomes@;
            let outcome: Written = match self.accept(&batch[i], generation, background) {
                Accepted::Failed(index) => Written::Failed(index),
                Accepted::Write { index, slot: target, canvas } => {
                    let ok: bool = write(target, &canvas);
                    self.written(index, ok)
                },
            };
            outcomes.push(outcome);
            proof {
                assert(settled(
                    now,
                    batch@[i as int],
                    generation,
                    side,
                    background,
                    *write,
                    outcome,
                ));
                assert forall|j: int| 0 <= j <= i implies pool_after_all(
                    pool,
                    batch@,
                    generation,
                    outcomes@,
                    j,
                ) == pool_after_all(pool, batch@, generation, before, j) by {
                    lemma_earlier_outcomes(pool, batch@, generation, before, outcome, j);
                }
            }
        }
        outcomes
    }

    /// Thumbnails have been evicted: their slots go back.
    pub fn evicted(&mut self, evicted: &[usize])
        requires
            old(self).wf(),
        ensures
            final(self).wf(),
            final(self).slot_side == old(self).slot_side,
            final(self).listing == old(self).listing,
            final(self).pool@ == old(self).pool@.released(evicted@),
    {
        self.pool.release(evicted);
    }

    /// Whether a cell is one of those that are ready, and still has its thumbnail.
    pub open spec fn redrawn(self, ready: Seq<usize>, index: usize) -> bool {
        ready.contains(index) && self.pool@.held.contains_key(index)
    }

    /// Whether a range runs from the first to the last cell to redraw.
    pub open spec fn bounds(self, ready: Seq<usize>, range: Option<(usize, usize)>) -> bool {
        match range {
            Some(range) => {
                &&& self.redrawn(ready, range.0)
                &&& self.redrawn(ready, range.1)
                &&& forall|index: usize| #[trigger]
                    self.redrawn(ready, index) ==> range.0 <= index <= range.1
            },
            None => forall|index: usize| !#[trigger] self.redrawn(ready, index),
        }
    }

    /// The first and the last cell to redraw: of those that became ready, those that weren't
    /// evicted again.
    pub fn redraw_range(&self, ready: &[usize]) -> (range: Option<(usize, usize)>)
        ensures
            self.bounds(ready@, range),
    {
        let mut range: Option<(usize, usize)> = None;
        for i in 0..ready.len()
            invariant
                self.bounds(ready@.take(i as int), range),
        {
            let index: usize = ready[i];
            let ghost front = ready@.take(i as int);
            let ghost now = ready@.take(i + 1);
            assert(now =~= front.push(index));
            assert(now[i as int] == index);
            assert forall|other: usize| now.contains(other) <==> front.contains(other) || other
                == index by {
                if front.contains(other) {
                    let k = choose|k: int| 0 <= k < front.len() && front[k] == other;
                    assert(now[k] == other);
                }
                if now.contains(other) && other != index {
                    let k = choose|k: int| 0 <= k < now.len() && now[k] == other;
                    assert(front[k] == other);
                }
            }
            assert forall|other: usize| #[trigger]
                self.redrawn(now, other) implies self.redrawn(front, other) || other == index by {}
            if self.pool.slot_of(index).is_some() {
                assert(self.redrawn(now, index));
                range = match range {
                    Some((first, last)) => {
                        assert(self.redrawn(now, first) && self.redrawn(now, last));
                        Some(
                            (
                                if index < first {
                                    index
                                } else {
                                    first
                                },
                                if index > last {
                                    index
                                } else {
                                    last
                                },
                            ),
                        )
                    },
                    None => Some((index, index)),
                };
            } else {
                assert(!self.redrawn(now, index));
                if let Some((first, last)) = range {
                    assert(self.redrawn(now, first) && self.redrawn(now, last));
                }
            }
        }
        assert(ready@.take(ready.len() as int) =~= ready@);
        range
    }

    /// Which image a cell draws. [`NO_IMAGE`] leaves it blank until its thumbnail lands.
    pub fn cell_image(&self, index: usize) -> (image: i32)
        ensures
            self.pool@.held.contains_key(index) ==> image == self.pool@.held[index],
            !self.pool@.held.contains_key(index) ==> image == NO_IMAGE,
    {
        match self.pool.slot_of(index) {
            Some(slot) => slot,
            None => NO_IMAGE,
        }
    }

    /// The slot side that a new DPI asks for, where it isn't the one in use.
    pub fn new_side(&self, dpi: u32) -> (side: Option<u32>)
        ensures
            match side {
                Some(side) => side == side_at(dpi) && side != self.slot_side,
                None => self.slot_side == side_at(dpi),
            },
    {
        let side: u32 = slot_side(dpi);
        if side == self.slot_side {
            None
        } else {
            Some(side)
        }
    }

    /// The image list has been rebuilt: every slot is free again.
    pub fn rebuilt(&mut self, side: u32)
        requires
            side >= 1,
        ensures
            final(self).wf(),
            final(self).slot_side == side,
            final(self).listing == old(self).listing,
            final(self).pool@ == all_free(),
    {
        self.pool = SlotPool::new();
        self.slot_side = side;
    }
}

/// What may become of a delivery: one that isn't wanted fails, and of one that is, `write` was
/// handed its slot and its canvas, and its answer counts.
pub open spec fn settled<F: Fn(i32, &Vec<u8>) -> bool>(
    pool: Slots,
    delivery: Delivery,
    generation: u64,
    side: u32,
    background: (u8, u8, u8),
    write: F,
    outcome: Written,
) -> bool {
    if wants(pool, delivery, generation) {
        &&& outcome == Written::Unwritten(delivery.index) || outcome == (Written::Ready {
            index: delivery.index,
            bytes: (side * side * 4) as usize,
        })
        &&& exists|canvas: Vec<u8>|
            #![trigger canvas@]
            canvas@ == canvas_of(delivery, side, background) && write.ensures(
                (pool.claimed(delivery.index).held[delivery.index], &canvas),
                outcome is Ready,
            )
    } else {
        outcome == Written::Failed(delivery.index)
    }
}

proof fn lemma_earlier_outcomes(
    pool: Slots,
    batch: Seq<Delivery>,
    generation: u64,
    written: Seq<Written>,
    more: Written,
    count: int,
)
    requires
        0 <= count <= written.len(),
    ensures
        pool_after_all(pool, batch, generation, written.push(more), count) == pool_after_all(
            pool,
            batch,
            generation,
            written,
            count,
        ),
    decreases count,
{
    if count > 0 {
        lemma_earlier_outcomes(pool, batch, generation, written, more, count - 1);
    }
}

/// Whether the selection is the same before and after: both none, or both of the same components.
pub open spec fn same_selection(before: Option<Seq<char>>, after: Option<Seq<char>>) -> bool {
    match (before, after) {
        (None, None) => true,
        (Some(before), Some(after)) => same_components(before, after),
        _ => false,
    }
}

/// A cell's label: the image's file name, NUL-terminated.
pub open spec fn label_units(path: Option<Seq<char>>) -> Seq<u16> {
    wide_units(
        match path {
            Some(path) => match name_of(path) {
                Some(name) => name,
                None => Seq::empty(),
            },
            None => Seq::empty(),
        },
    )
}

/// A cell's label: the image's file name, NUL-terminated, and nothing for a cell without one.
pub fn cell_label(path: Option<&str>) -> (units: Vec<u16>)
    ensures
        units@ == label_units(
            match path {
                Some(path) => Some(path@),
                None => None,
            },
        ),
{
    let name: String = match path {
        Some(path) => match file_name(path) {
            Some(name) => name,
            None => String::new(),
        },
        None => String::new(),
    };
    assert(path is None || name_of(path->0@) is None ==> name@ =~= Seq::empty());
    wide(name.as_str())
}

/// The cells that a cache hint names, `to` included, as far as there are that many.
pub fn hinted_range(from: usize, to: usize, len: usize) -> (range: (usize, usize))
    ensures
        range.1 == larger(
            smaller(from as int, len as int),
            smaller(to + 1, len as int),
        ),
        range.0 == smaller(from as int, len as int),
        range.0 <= range.1 <= len,
{
    let start: usize = if from < len {
        from
    } else {
        len
    };
    let end: usize = if to < len {
        to + 1
    } else {
        len
    };
    (
        start,
        if end < start {
            start
        } else {
            end
        },
    )
}

/// The cell that `LVN_ITEMCHANGED` says was selected: one whose state changed to selected.
pub fn selection_event(changed: u32, new_state: u32, old_state: u32, item: i32) -> (index: Option<
    usize,
>)
    ensures
        match index {
            Some(index) => index == item && changed == LVIF_STATE && new_state & LVIS_SELECTED != 0
                && old_state & LVIS_SELECTED == 0,
            None => item < 0 || changed != LVIF_STATE || new_state & LVIS_SELECTED == 0 || old_state
                & LVIS_SELECTED != 0,
        },
{
    if changed == LVIF_STATE && new_state & LVIS_SELECTED != 0 && old_state & LVIS_SELECTED == 0
        && item >= 0 {
        Some(item as usize)
    } else {
        None
    }
}

/// The colour a thumbnail is letterboxed against: the list view's own background. `window` is
/// the system's window colour, `0x00BBGGRR`.
pub fn pane_background(theme: Theme, window: u32) -> (rgb: (u8, u8, u8))
    ensures
        ({
            let value = if theme == Theme::Dark {
                DARK_LIST_BACKGROUND
            } else {
                window
            };
            &&& rgb.0 == value % 0x100
            &&& rgb.1 == value / 0x100 % 0x100
            &&& rgb.2 == value / 0x1_0000 % 0x100
        }),
{
    let value: u32 = match theme {
        Theme::Dark => DARK_LIST_BACKGROUND,
        Theme::Light => window,
    };
    ((value % 0x100) as u8, (value / 0x100 % 0x100) as u8, (value / 0x1_0000 % 0x100) as u8)
}

/// A cell's width and height in one number, height in the upper half, as `LVM_SETICONSPACING`
/// takes them.
pub fn icon_spacing(width: u16, height: u16) -> (packed: u32)
    ensures
        packed % 0x1_0000 == width,
        packed / 0x1_0000 == height,
{
    height as u32 * 0x1_0000 + width as u32
}

// ----- laws -----

/// A thumbnail whose write fails leaves the pool as it was before it landed.
pub proof fn a_failed_write_leaves_no_trace(pool: Slots, index: usize)
    requires
        !pool.held.contains_key(index),
        pool.free.len() > 0,
    ensures
        pool.claimed(index).released(seq![index]) == pool,
{
    let claimed = pool.claimed(index);
    assert(seq![index].drop_last() =~= Seq::<usize>::empty());
    assert(claimed.released(seq![index].drop_last()) == claimed);
    super::slots::giving_back_undoes_claiming(pool, index);
}

/// The byte budget holds as many slots as there are, so a thumbnail that the cache has room for
/// finds a slot.
pub proof fn the_budget_is_every_slot(side: int, held: int)
    requires
        side >= 1,
        held * (side * side * 4) < SLOTS * (side * side * 4),
    ensures
        held < SLOTS,
{
    assert(held < SLOTS) by (nonlinear_arith)
        requires
            side >= 1,
            held * (side * side * 4) < SLOTS * (side * side * 4),
    ;
}

/// A slot is 128 logical pixels wide, and one pixel at least. The budget pays for four bytes of
/// each pixel of 512 of them.
pub proof fn slots_have_their_size(dpi: u32, side: u32, pixels: i32, of: u32, bytes: usize)
    requires
        call_ensures(slot_side, (dpi,), side),
        call_ensures(scale, (128, dpi), pixels),
        call_ensures(cache_budget, (of,), bytes),
    ensures
        pixels >= 1 ==> side == pixels,
        pixels < 1 ==> side == 1,
        bytes == 512 * (4 * (of * of)),
{
}

/// A delivery is drawn exactly where it's for this listing, has pixels, and has a slot or finds
/// one free. What's drawn is its own pixels, in the slot that its cell has from then on.
pub proof fn deliveries_are_drawn_in_their_own_slot(
    grid: &mut Grid,
    delivery: &Delivery,
    generation: u64,
    background: (u8, u8, u8),
    accepted: Accepted,
    after: &Grid,
    image: i32,
    composed: Vec<u8>,
)
    requires
        call_ensures(Grid::accept, (grid, delivery, generation, background), accepted),
        *after == *final(grid),
        call_ensures(Grid::cell_image, (after, delivery.index), image),
        delivery.result is Some ==> exists|rgba: &[u8]|
            rgba@ == delivery.result->0.rgba@ && #[trigger] call_ensures(
                compose_slot,
                (
                    rgba,
                    delivery.result->0.width,
                    delivery.result->0.height,
                    grid.slot_side,
                    background,
                ),
                composed,
            ),
    ensures
        accepted is Write <==> delivery.folder_generation == generation && delivery.result is Some
            && (old(grid).pool@.held.contains_key(delivery.index) || old(grid).pool@.free.len() > 0),
        accepted is Failed ==> accepted->Failed_0 == delivery.index,
        accepted is Failed ==> after.pool@ == old(grid).pool@,
        accepted is Write ==> accepted->index == delivery.index,
        accepted is Write ==> accepted->slot == image,
        accepted is Write ==> accepted->canvas@ == composed@,
{
    if delivery.result is Some {
        let rgba = choose|rgba: &[u8]|
            rgba@ == delivery.result->0.rgba@ && #[trigger] call_ensures(
                compose_slot,
                (
                    rgba,
                    delivery.result->0.width,
                    delivery.result->0.height,
                    grid.slot_side,
                    background,
                ),
                composed,
            );
        assert(rgba@ == delivery.result->0.rgba@);
    }
}

/// A cell whose canvas was written is ready, and costs four bytes a pixel. One whose canvas wasn't
/// is blank again, and no other cell changes.
pub proof fn what_is_not_written_is_blank(
    grid: &mut Grid,
    index: usize,
    ok: bool,
    written: Written,
    after: &Grid,
    image: i32,
    other: usize,
    others_was: i32,
    others: i32,
)
    requires
        call_ensures(Grid::written, (grid, index, ok), written),
        grid.slot_side * grid.slot_side * 4 <= usize::MAX,
        *after == *final(grid),
        call_ensures(Grid::cell_image, (after, index), image),
        other != index,
        call_ensures(Grid::cell_image, (&*grid, other), others_was),
        call_ensures(Grid::cell_image, (after, other), others),
    ensures
        ok ==> written is Ready && written->index == index && written->bytes == 4 * (old(
            grid,
        ).slot_side * old(grid).slot_side),
        !ok ==> written == Written::Unwritten(index) && image == -1,
        others == others_was,
{
    let side = grid.slot_side;
    assert(0 <= side * side) by (nonlinear_arith);
    if !ok {
        super::slots::only_the_evicted_give_back(grid.pool@, seq![index], index);
        super::slots::only_the_evicted_give_back(grid.pool@, seq![index], other);
        assert(seq![index].contains(index)) by {
            assert(seq![index][0] == index);
        }
    }
}

/// Each delivery of a batch gets one outcome, at its own place and for its own cell. One for
/// another listing fails, and so does one without pixels; the cells that are ready cost four bytes
/// a pixel.
pub proof fn every_delivery_has_its_outcome<F: Fn(i32, &Vec<u8>) -> bool>(
    grid: &mut Grid,
    batch: &Vec<Delivery>,
    generation: u64,
    background: (u8, u8, u8),
    write: &F,
    outcomes: Vec<Written>,
    i: int,
)
    requires
        call_ensures(Grid::settle::<F>, (grid, batch, generation, background, write), outcomes),
        grid.slot_side * grid.slot_side * 4 <= isize::MAX,
        0 <= i < batch@.len(),
    ensures
        outcomes@.len() == batch@.len(),
        batch@[i].folder_generation != generation ==> outcomes@[i] == Written::Failed(
            batch@[i].index,
        ),
        batch@[i].result is None ==> outcomes@[i] == Written::Failed(batch@[i].index),
        outcomes@[i] matches Written::Ready { index, bytes } ==> index == batch@[i].index && bytes
            == 4 * (old(grid).slot_side * old(grid).slot_side),
        outcomes@[i] matches Written::Failed(index) ==> index == batch@[i].index,
        outcomes@[i] matches Written::Unwritten(index) ==> index == batch@[i].index,
{
    let side = grid.slot_side;
    assert(0 <= side * side) by (nonlinear_arith);
    let pool = pool_after_all(grid.pool@, batch@, generation, outcomes@, i);
    assert(settled(pool, batch@[i], generation, side, background, *write, outcomes@[i]));
}

/// Evicted cells are blank, and the others draw what they drew.
pub proof fn evicted_cells_are_blank(
    grid: &mut Grid,
    evicted: &[usize],
    after: &Grid,
    index: usize,
    was: i32,
    image: i32,
)
    requires
        call_ensures(Grid::evicted, (grid, evicted), ()),
        *after == *final(grid),
        call_ensures(Grid::cell_image, (&*grid, index), was),
        call_ensures(Grid::cell_image, (after, index), image),
    ensures
        evicted@.contains(index) ==> image == -1,
        !evicted@.contains(index) ==> image == was,
{
    super::slots::only_the_evicted_give_back(grid.pool@, evicted@, index);
}

/// What's redrawn runs from the first to the last of the cells that are ready and have a
/// thumbnail. With no such cell nothing is redrawn.
pub proof fn redrawing_covers_what_is_ready(
    grid: &Grid,
    ready: &[usize],
    range: Option<(usize, usize)>,
    i: int,
    image: i32,
)
    requires
        grid.wf(),
        call_ensures(Grid::redraw_range, (grid, ready), range),
        0 <= i < ready@.len(),
        call_ensures(Grid::cell_image, (grid, ready@[i]), image),
    ensures
        image != -1 ==> range is Some && (range->0).0 <= ready@[i] <= (range->0).1,
        range is Some ==> ready@.contains((range->0).0) && ready@.contains((range->0).1),
        range is Some ==> grid.pool@.held.contains_key((range->0).0) && grid.pool@.held.contains_key(
            (range->0).1,
        ),
{
    if image != -1 {
        assert(grid.redrawn(ready@, ready@[i]));
    }
}

/// An image list is rebuilt at another DPI exactly where a slot's side is another there, and then
/// every cell is blank.
pub proof fn rebuilding_blanks_every_cell(
    grid: &mut Grid,
    dpi: u32,
    new: Option<u32>,
    side: u32,
    after: &Grid,
    index: usize,
    image: i32,
)
    requires
        call_ensures(Grid::new_side, (&*grid, dpi), new),
        call_ensures(slot_side, (dpi,), side),
        call_ensures(Grid::rebuilt, (grid, side), ()),
        *after == *final(grid),
        call_ensures(Grid::cell_image, (after, index), image),
    ensures
        side == old(grid).slot_side ==> new is None,
        side != old(grid).slot_side ==> new == Some(side),
        after.slot_side == side,
        after.listing == old(grid).listing,
        image == -1,
{
}

/// A listing that arrives blanks every cell and ends the wait for it, and names the cells that had
/// a thumbnail.
pub proof fn a_listing_blanks_every_cell(
    grid: &mut Grid,
    waiting: &mut Grid,
    released: Vec<usize>,
    after: &Grid,
    index: usize,
    image: i32,
)
    requires
        call_ensures(Grid::list_started, (grid,), ()),
        *waiting == *final(grid),
        call_ensures(Grid::folder_listed, (waiting,), released),
        *after == *final(waiting),
        call_ensures(Grid::cell_image, (after, index), image),
    ensures
        final(grid).listing,
        !after.listing,
        image == -1,
        released@.contains(index) <==> old(grid).pool@.held.contains_key(index),
        after.slot_side == old(grid).slot_side,
{
    assert(released@.to_set().contains(index) <==> released@.contains(index));
}

/// A re-scan blanks every cell, calls off what's being generated exactly where a file changed, and
/// says whether the selection is on another file: it is where one side has none, or where the two
/// paths don't match.
pub proof fn a_rescan_blanks_every_cell(
    grid: &mut Grid,
    before: Option<&str>,
    after: Option<&str>,
    modified: usize,
    rescan: Rescan,
    later: &Grid,
    index: usize,
    image: i32,
    matching: bool,
)
    requires
        call_ensures(Grid::apply_rescan, (grid, before, after, modified), rescan),
        *later == *final(grid),
        call_ensures(Grid::cell_image, (later, index), image),
        before is Some && after is Some ==> call_ensures(
            components_match,
            (before->0, after->0),
            matching,
        ),
    ensures
        image == -1,
        rescan.released@.contains(index) <==> old(grid).pool@.held.contains_key(index),
        rescan.cancel <==> modified >= 1,
        before is None && after is None ==> !rescan.changed,
        before is Some && after is None ==> rescan.changed,
        before is None && after is Some ==> rescan.changed,
        before is Some && after is Some ==> (rescan.changed <==> !matching),
{
    assert(rescan.released@.to_set().contains(index) <==> rescan.released@.contains(index));
}

/// A cell's label is the name at the end of its path as a wide text, and nothing but the NUL
/// without one.
pub proof fn cells_are_called_by_their_name(
    path: &str,
    label: Vec<u16>,
    name: Option<String>,
    units: Vec<u16>,
    blank: Vec<u16>,
)
    requires
        call_ensures(cell_label, (Some(path),), label),
        call_ensures(cell_label, (None::<&str>,), blank),
        call_ensures(file_name, (path,), name),
        name is Some ==> exists|text: &str|
            text@ == name->0@ && #[trigger] call_ensures(wide, (text,), units),
    ensures
        name is Some ==> label@ == units@,
        name is None ==> label@.len() == 1 && label@[0] == 0,
        blank@.len() == 1 && blank@[0] == 0,
{
    let none = wide_units(Seq::empty());
    assert(none.len() == 1 && none[0] == 0);
    if name is Some {
        let text = choose|text: &str|
            text@ == name->0@ && #[trigger] call_ensures(wide, (text,), units);
        assert(text@ == name->0@);
    }
}

/// A hint covers its cells from the first to the last, both included, as far as there are cells.
pub proof fn hints_include_their_last_cell(
    from: usize,
    to: usize,
    len: usize,
    range: (usize, usize),
    index: usize,
)
    requires
        call_ensures(hinted_range, (from, to, len), range),
    ensures
        range.0 <= range.1 <= len,
        range.0 <= index < range.1 <==> from <= index <= to && index < len,
{
}

/// A cell counts as selected exactly where its state alone changed, to selected from not.
pub proof fn selections_are_changes_to_selected(
    changed: u32,
    new: u32,
    before: u32,
    item: i32,
    index: Option<usize>,
)
    requires
        call_ensures(selection_event, (changed, new, before, item), index),
    ensures
        index is Some <==> changed == 8 && new / 2 % 2 == 1 && before / 2 % 2 == 0 && item >= 0,
        index is Some ==> index->0 == item,
{
    assert((new & 2 != 0) == (new / 2 % 2 == 1)) by (bit_vector);
    assert((before & 2 == 0) == (before / 2 % 2 == 0)) by (bit_vector);
}

/// The pane's background is comctl32's grey in the dark theme, and else the window's colour, whose
/// lowest byte is red and whose third is blue.
pub proof fn backgrounds_are_the_windows(theme: Theme, window: u32, rgb: (u8, u8, u8))
    requires
        call_ensures(pane_background, (theme, window), rgb),
    ensures
        theme is Dark ==> rgb.0 == 0x19 && rgb.1 == 0x19 && rgb.2 == 0x19,
        theme is Light && window < 0x100_0000 ==> rgb.2 * 65_536 + rgb.1 * 256 + rgb.0 == window,
{
}

/// The spacing holds the height in its upper half and the width in its lower.
pub proof fn spacing_holds_both(width: u16, height: u16, packed: u32)
    requires
        call_ensures(icon_spacing, (width, height), packed),
    ensures
        packed == 65_536 * height + width,
{
}

} // verus!
