//! What the Win32 layer of browse mode decides.
//!
//! The Win32 layer creates windows, hands their messages and the workers' deliveries to
//! [`BrowseUi`], and performs what comes back. Nothing here touches a window, a thread or a file.

pub mod grid;
pub mod shell;
pub mod slots;
pub mod tree;

use self::grid::{
    label_units, pool_after_all, same_selection, settled, side_at, Delivery, Grid, Rescan, Written,
};
use self::shell::{
    at_least_96, metrics_at, part_edges, status_parts, Selection, Shell, ID_GRID, ID_TREE,
};
use self::slots::all_free;
use self::tree::{child_label, claimed_children, item_for, label_of, RevealStep, Tree};
use crate::browser::grid_model::{first_wanted, index_of, GridModel, GridView};
use crate::browser::tree_model::{scan_overdue, ChildCache, Load};
use crate::browser::windows::layout::{
    clamped_tree_width, layout, panes_fit, room_fits, scaled, Layout, TREE_PANE_DEFAULT,
};
use crate::browser::windows::roots::Root;
use crate::browser::windows::status::Fields;
use crate::chrome::Theme;
use crate::paths::path_key;
use vstd::prelude::*;

verus! {

/// The two panes.
#[derive(Debug, Clone, Copy, PartialEq, Eq, Structural)]
pub enum PaneSide {
    Tree,
    Grid,
}

/// Where everything goes.
pub struct Placement {
    /// Where the panes go.
    pub panes: Layout,
    /// Where the status bar's parts end.
    pub parts: [i32; 3],
}

/// What a new DPI asks for.
#[derive(Debug, Clone, Copy, PartialEq, Eq, Structural)]
pub struct Rescaled {
    /// The DPI, for the font.
    pub dpi: u32,
    /// The side of the slots to rebuild the image list with, where it changes.
    pub slot_side: Option<u32>,
}

/// What a selection asks for.
pub struct Selected {
    /// What to tell the list view.
    pub selection: Selection,
    /// The image to measure for the status bar.
    pub measure: String,
}

/// What a new listing asks for.
pub struct Listed {
    /// The cells whose thumbnails are gone.
    pub released: Vec<usize>,
    /// How many cells the list view has.
    pub count: usize,
    /// The cell to start on.
    pub select: Option<Selected>,
}

/// What a re-scan asks for.
pub struct Rescanned {
    /// What becomes of the thumbnails, and whether the selected image is another one.
    pub rescan: Rescan,
    /// How many cells the list view has.
    pub count: usize,
    /// The cell to select again.
    pub select: Option<Selected>,
}

/// One row to put under another.
pub struct ChildRow {
    /// What it's called.
    pub label: String,
    /// The folder it stands for.
    pub path: String,
}

/// What a finished scan asks for.
pub struct ChildRows {
    /// The row whose children are replaced.
    pub parent: isize,
    /// The children.
    pub rows: Vec<ChildRow>,
    /// The child count that the row claims from now on.
    pub claimed: i32,
}

/// A thumbnail to generate.
pub struct ThumbnailRequest {
    /// The image.
    pub path: String,
    /// Which listing it's for.
    pub folder_generation: u64,
    /// How long its longest edge is to be, in device pixels.
    pub side: u32,
}

/// One step of a reveal.
#[derive(Debug, Clone, Copy, PartialEq, Eq, Structural)]
pub struct RevealMove {
    /// What to do.
    pub step: RevealStep,
    /// Whether to ask for the next step right away.
    pub go_on: bool,
}

/// Everything browse mode knows.
pub struct BrowseUi {
    /// The container.
    pub shell: Shell,
    /// The grid's slots.
    pub grid: Grid,
    /// The listed folder.
    pub model: GridModel,
    /// The tree's rows.
    pub tree: Tree,
    /// Which folders' children are known.
    pub children: ChildCache,
}

/// The cell that a new listing starts on: that of the image we came from, else the first.
pub open spec fn start_cell(images: Seq<String>, preselect: Option<&str>) -> int {
    match preselect {
        Some(wanted) => match first_wanted(images, wanted@) {
            Some(index) => index,
            None => 0,
        },
        None => 0,
    }
}

/// What selecting a cell asks for.
pub open spec fn asks(select: Option<Selected>, model: GridView, scroll: bool) -> bool {
    match select {
        Some(selected) => {
            &&& model.selected == Some(selected.selection.item)
            &&& selected.selection.state == grid::SELECTED_AND_FOCUSED
            &&& selected.selection.scroll == scroll
            &&& model.selected_path() == Some(selected.measure@)
        },
        None => true,
    }
}

impl BrowseUi {
    /// Whether every part is well formed.
    pub open spec fn wf(self) -> bool {
        self.grid.wf() && self.model@.wf() && self.tree.wf() && self.children.wf()
    }

    /// A browser with nothing in it but its top-level rows.
    pub fn new(theme: Theme, monitor_dpi: u32, status_bar_height: i32, roots: Vec<Root>) -> (ui:
        Self)
        ensures
            ui.wf(),
            ui.shell.theme == theme,
            ui.shell.dpi == at_least_96(monitor_dpi),
            ui.shell.tree_width == scaled(TREE_PANE_DEFAULT, ui.shell.dpi),
            metrics_at(ui.shell.dpi, status_bar_height, ui.shell.metrics),
            ui.shell.metrics.wf(),
            ui.shell.drag is None,
            ui.shell.selected_dimensions is None,
            ui.grid.slot_side == side_at(ui.shell.dpi),
            ui.grid.pool@ == all_free(),
            !ui.grid.listing,
            ui.model@.images.len() == 0,
            ui.model@.selected is None,
            ui.model@.generation == 0,
            ui.tree.roots == roots,
            ui.tree.paths@.len() == 0,
            ui.tree.rows@.len() == 0,
            ui.tree.reveal is None,
            ui.children@ == Map::<Seq<char>, Load>::empty(),
    {
        let shell: Shell = Shell::new(theme, monitor_dpi, status_bar_height);
        BrowseUi {
            shell,
            grid: Grid::new(shell.dpi),
            model: GridModel::new(),
            tree: Tree::new(roots),
            children: ChildCache::new(),
        }
    }

    /// Whether everything but the container stays.
    pub open spec fn same_but_shell(self, other: Self) -> bool {
        &&& self.grid == other.grid
        &&& self.model == other.model
        &&& self.tree == other.tree
        &&& self.children == other.children
    }

    /// Lays the panes out in a client area of this size. The status bar has been measured again.
    pub fn relayout(&mut self, client_width: i32, client_height: i32, status_bar_height: i32) -> (
    placement: Placement)
        requires
            room_fits(client_width, old(self).shell.metrics),
            panes_fit(
                client_width,
                client_height,
                clamped_tree_width(
                    old(self).shell.tree_width as int,
                    client_width as int,
                    old(self).shell.metrics,
                ) as i32,
                old(self).shell.measured(status_bar_height),
            ),
        ensures
            final(self).same_but_shell(*old(self)),
            final(self).shell == (Shell {
                metrics: old(self).shell.measured(status_bar_height),
                tree_width: clamped_tree_width(
                    old(self).shell.tree_width as int,
                    client_width as int,
                    old(self).shell.metrics,
                ) as i32,
                ..old(self).shell
            }),
            call_ensures(
                layout,
                (
                    client_width,
                    client_height,
                    final(self).shell.tree_width,
                    final(self).shell.metrics,
                ),
                placement.panes,
            ),
            forall|i: int|
                0 <= i < 3 ==> #[trigger] placement.parts[i] == part_edges(
                    placement.panes.status_bar.width as int,
                    old(self).shell.dpi,
                )[i],
    {
        let panes: Layout = self.shell.apply_layout(client_width, client_height, status_bar_height);
        let parts: [i32; 3] = status_parts(panes.status_bar.width, self.shell.dpi);
        Placement { panes, parts }
    }

    /// Follows the monitor to a new DPI. Where the image list has to be rebuilt, `slots_rebuilt`
    /// follows once it was.
    pub fn rescale(&mut self, monitor_dpi: u32, status_bar_height: i32) -> (rescaled: Option<
        Rescaled,
    >)
        requires
            old(self).shell.dpi <= i32::MAX,
            i32::MIN <= old(self).shell.tree_width * 96 <= i32::MAX,
        ensures
            final(self).same_but_shell(*old(self)),
            rescaled is Some <==> at_least_96(monitor_dpi) != old(self).shell.dpi,
            rescaled is None ==> final(self).shell == old(self).shell,
            rescaled matches Some(rescaled) ==> {
                &&& rescaled.dpi == at_least_96(monitor_dpi)
                &&& final(self).shell.rescaled_from(
                    old(self).shell,
                    rescaled.dpi,
                    status_bar_height,
                )
                &&& rescaled.slot_side == if side_at(rescaled.dpi) == old(self).grid.slot_side {
                    None
                } else {
                    Some(side_at(rescaled.dpi) as u32)
                }
            },
    {
        match self.shell.rescale(monitor_dpi, status_bar_height) {
            Some(dpi) => Some(Rescaled { dpi, slot_side: self.grid.new_side(dpi) }),
            None => None,
        }
    }

    /// The image list has been rebuilt with slots of this side: every thumbnail is gone.
    pub fn slots_rebuilt(&mut self, side: u32)
        requires
            old(self).wf(),
            side >= 1,
        ensures
            final(self).wf(),
            final(self).grid.slot_side == side,
            final(self).grid.listing == old(self).grid.listing,
            final(self).grid.pool@ == all_free(),
            final(self).shell == old(self).shell,
            final(self).model == old(self).model,
            final(self).tree == old(self).tree,
            final(self).children == old(self).children,
    {
        self.grid.rebuilt(side);
    }

    /// The control that the keyboard goes to.
    pub fn apply_focus(&self, pane: PaneSide) -> (control: i32)
        ensures
            control == match pane {
                PaneSide::Tree => ID_TREE,
                PaneSide::Grid => ID_GRID,
            },
    {
        match pane {
            PaneSide::Tree => ID_TREE,
            PaneSide::Grid => ID_GRID,
        }
    }

    // ----- the grid -----

    /// The path the grid is sitting on, if any.
    pub fn selected_path(&self) -> (path: Option<&String>)
        requires
            self.wf(),
        ensures
            match path {
                Some(path) => self.model@.selected_path() == Some(path@),
                None => self.model@.selected is None,
            },
    {
        self.model.selected_path()
    }

    /// The grid's selected index, if any.
    pub fn selected_index(&self) -> (index: Option<usize>)
        ensures
            index == self.model@.selected,
    {
        self.model.selected()
    }

    /// Every image the grid lists, in display order.
    pub fn images(&self) -> (images: &Vec<String>)
        ensures
            images@ == self.model@.images,
    {
        self.model.images()
    }

    /// How many images the grid lists.
    pub fn image_count(&self) -> (count: usize)
        ensures
            count == self.model@.images.len(),
    {
        self.model.len()
    }

    /// True when the listed folder has no images, which is what makes the grid non-focusable.
    pub fn grid_is_empty(&self) -> (empty: bool)
        ensures
            empty == (self.model@.images.len() == 0),
    {
        self.model.is_empty()
    }

    /// Selects a cell, the way a click would. The old measurement goes at once.
    pub fn select_index(&mut self, index: usize, scroll: bool) -> (select: Option<Selected>)
        requires
            old(self).wf(),
        ensures
            final(self).wf(),
            final(self).grid == old(self).grid,
            final(self).tree == old(self).tree,
            final(self).children == old(self).children,
            select is Some <==> old(self).model@.images.len() > 0,
            select is None ==> final(self).model@ == old(self).model@ && final(self).shell == old(
                self,
            ).shell,
            select is Some ==> {
                &&& final(self).model@ == (GridView {
                    selected: old(self).model@.resolved(index),
                    ..old(self).model@
                })
                &&& final(self).shell == (Shell { selected_dimensions: None, ..old(self).shell })
                &&& asks(select, final(self).model@, scroll)
            },
    {
        let resolved: Option<usize> = self.model.set_selected(index);
        match self.shell.select(resolved, scroll) {
            Some(selection) => match self.model.selected_path() {
                Some(path) => Some(Selected { selection, measure: path.clone() }),
                None => None,
            },
            None => None,
        }
    }

    /// A folder's images have been asked for.
    pub fn list_folder(&mut self)
        requires
            old(self).wf(),
        ensures
            final(self).wf(),
            final(self).grid.listing,
            final(self).grid.pool == old(self).grid.pool,
            final(self).grid.slot_side == old(self).grid.slot_side,
            final(self).shell == old(self).shell,
            final(self).model == old(self).model,
            final(self).tree == old(self).tree,
            final(self).children == old(self).children,
    {
        self.grid.list_started();
    }

    /// A listing has arrived, in display order: it replaces the images, drops every thumbnail of
    /// the folder we came from, and preselects either the image we came from or the first one.
    pub fn folder_listed(&mut self, images: Vec<String>, preselect: Option<&str>) -> (listed: Listed)
        requires
            old(self).wf(),
        ensures
            final(self).wf(),
            final(self).tree == old(self).tree,
            final(self).children == old(self).children,
            !final(self).grid.listing,
            final(self).grid.slot_side == old(self).grid.slot_side,
            final(self).grid.pool@ == old(self).grid.pool@.released(listed.released@),
            final(self).grid.pool@.held == Map::<usize, i32>::empty(),
            listed.released@.no_duplicates(),
            listed.released@.to_set() == old(self).grid.pool@.held.dom(),
            listed.count == images@.len(),
            listed.select is Some <==> images@.len() > 0,
            asks(listed.select, final(self).model@, true),
            final(self).model@ == (GridView {
                images: images@,
                selected: if images@.len() > 0 {
                    Some(start_cell(images@, preselect) as usize)
                } else {
                    None
                },
                generation: crate::browser::grid_model::next_generation(
                    old(self).model@.generation,
                ),
            }),
            final(self).shell == if images@.len() > 0 {
                (Shell { selected_dimensions: None, ..old(self).shell })
            } else {
                old(self).shell
            },
    {
        let released: Vec<usize> = self.grid.folder_listed();
        let start: usize = match preselect {
            Some(wanted) => match index_of(&images, wanted) {
                Some(index) => index,
                None => 0,
            },
            None => 0,
        };
        let count: usize = images.len();
        self.model.set_images(images);
        let select: Option<Selected> = self.select_index(start, true);
        Listed { released, count, select }
    }

    /// A live re-scan has arrived, in display order. The grid stays on the same file rather than
    /// on the same index. `modified` says how many files changed their bytes.
    pub fn apply_rescan(&mut self, images: Vec<String>, modified: usize) -> (rescanned: Rescanned)
        requires
            old(self).wf(),
        ensures
            final(self).wf(),
            final(self).tree == old(self).tree,
            final(self).children == old(self).children,
            final(self).grid.listing == old(self).grid.listing,
            final(self).grid.slot_side == old(self).grid.slot_side,
            final(self).grid.pool@ == old(self).grid.pool@.released(rescanned.rescan.released@),
            final(self).grid.pool@.held == Map::<usize, i32>::empty(),
            rescanned.rescan.released@.no_duplicates(),
            rescanned.rescan.released@.to_set() == old(self).grid.pool@.held.dom(),
            rescanned.rescan.cancel == (modified > 0),
            rescanned.rescan.changed == !same_selection(
                old(self).model@.selected_path(),
                GridModel::rescanned(old(self).model@, images@).selected_path(),
            ),
            rescanned.count == images@.len(),
            final(self).model@ == GridModel::rescanned(old(self).model@, images@),
            rescanned.select is Some <==> final(self).model@.selected is Some,
            asks(rescanned.select, final(self).model@, false),
            final(self).shell == if final(self).model@.selected is Some {
                (Shell { selected_dimensions: None, ..old(self).shell })
            } else {
                old(self).shell
            },
    {
        let count: usize = images.len();
        let before: Option<String> = match self.model.selected_path() {
            Some(path) => Some(path.clone()),
            None => None,
        };
        self.model.apply_rescan(images);
        let after: Option<String> = match self.model.selected_path() {
            Some(path) => Some(path.clone()),
            None => None,
        };
        let rescan: Rescan = self.grid.apply_rescan(
            borrowed(&before),
            borrowed(&after),
            modified,
        );
        let select: Option<Selected> = match self.model.selected() {
            Some(index) => self.select_index(index, false),
            None => None,
        };
        Rescanned { rescan, count, select }
    }

    /// What to generate for a cell. A cell without an image has nothing to generate.
    pub fn thumbnail_request(&self, index: usize) -> (request: Option<ThumbnailRequest>)
        ensures
            match request {
                Some(request) => {
                    &&& index < self.model@.images.len()
                    &&& request.path@ == self.model@.images[index as int]@
                    &&& request.folder_generation == self.model@.generation
                    &&& request.side == self.grid.slot_side
                },
                None => index >= self.model@.images.len(),
            },
    {
        match self.model.path(index) {
            Some(path) => Some(
                ThumbnailRequest {
                    path: path.clone(),
                    folder_generation: self.model.generation(),
                    side: self.grid.slot_side,
                },
            ),
            None => None,
        }
    }

    /// Applies the thumbnails that have arrived: drops the stale ones, composes the rest and hands
    /// each to `write`, slot and canvas. Says what became of each, in order.
    pub fn thumbnails_available<F: Fn(i32, &Vec<u8>) -> bool>(
        &mut self,
        batch: &Vec<Delivery>,
        background: (u8, u8, u8),
        write: &F,
    ) -> (outcomes: Vec<Written>)
        requires
            old(self).wf(),
            old(self).grid.slot_side * old(self).grid.slot_side * 4 <= isize::MAX,
            forall|slot: i32, canvas: &Vec<u8>| #[trigger] write.requires((slot, canvas)),
        ensures
            final(self).wf(),
            final(self).shell == old(self).shell,
            final(self).model == old(self).model,
            final(self).tree == old(self).tree,
            final(self).children == old(self).children,
            final(self).grid.slot_side == old(self).grid.slot_side,
            final(self).grid.listing == old(self).grid.listing,
            outcomes@.len() == batch@.len(),
            final(self).grid.pool@ == pool_after_all(
                old(self).grid.pool@,
                batch@,
                old(self).model@.generation,
                outcomes@,
                batch@.len() as int,
            ),
            forall|i: int|
                0 <= i < batch@.len() ==> settled(
                    pool_after_all(
                        old(self).grid.pool@,
                        batch@,
                        old(self).model@.generation,
                        outcomes@,
                        i,
                    ),
                    #[trigger] batch@[i],
                    old(self).model@.generation,
                    old(self).grid.slot_side,
                    background,
                    *write,
                    outcomes@[i],
                ),
    {
        self.grid.settle(batch, self.model.generation(), background, write)
    }

    /// The cache has made room: the evicted thumbnails' slots go back. Says which cells to redraw,
    /// of those that became ready.
    pub fn evicted(&mut self, evicted: &[usize], ready: &[usize]) -> (redraw: Option<
        (usize, usize),
    >)
        requires
            old(self).wf(),
        ensures
            final(self).wf(),
            final(self).shell == old(self).shell,
            final(self).model == old(self).model,
            final(self).tree == old(self).tree,
            final(self).children == old(self).children,
            final(self).grid.slot_side == old(self).grid.slot_side,
            final(self).grid.listing == old(self).grid.listing,
            final(self).grid.pool@ == old(self).grid.pool@.released(evicted@),
            final(self).grid.bounds(ready@, redraw),
    {
        self.grid.evicted(evicted);
        self.grid.redraw_range(ready)
    }

    /// A cell's label and the image it draws.
    pub fn cell(&self, index: usize) -> (cell: (Vec<u16>, i32))
        ensures
            index < self.model@.images.len() ==> cell.0@ == label_units(
                Some(self.model@.images[index as int]@),
            ),
            index >= self.model@.images.len() ==> cell.0@ == label_units(None),
            self.grid.pool@.held.contains_key(index) ==> cell.1 == self.grid.pool@.held[index],
            !self.grid.pool@.held.contains_key(index) ==> cell.1 == grid::NO_IMAGE,
    {
        let label: Vec<u16> = match self.model.path(index) {
            Some(path) => grid::cell_label(Some(path.as_str())),
            None => grid::cell_label(None),
        };
        (label, self.grid.cell_image(index))
    }

    // ----- the status bar -----

    /// What the status bar should say. `patience` is how long a scan may take before the user is
    /// told.
    pub fn status_fields(&self, now: u64, patience: u64) -> (text: Fields)
        requires
            self.wf(),
        ensures
            text.count@ == if self.grid.listing || self.scan_pending(now, patience) {
                "Loading…"@
            } else {
                crate::browser::windows::status::count_text(self.model@.images.len())
            },
            text.name@ == match self.model@.selected_path() {
                Some(path) => label_of(path),
                None => Seq::empty(),
            },
            text.size@ == crate::browser::windows::status::size_text(
                self.shell.selected_dimensions,
            ),
    {
        let earliest: Option<u64> = self.children.earliest_in_flight();
        let scanning: bool = scan_overdue(earliest, now, patience);
        proof {
            if let Some(earliest) = earliest {
                if self.scan_pending(now, patience) {
                    let since = choose|since: u64| #[trigger]
                        self.children.any_since(since) && now - since >= patience;
                    assert(earliest <= since);
                }
            }
        }
        match self.model.selected_path() {
            Some(path) => self.shell.status_fields(
                self.model.len(),
                Some(path.as_str()),
                scanning,
                self.grid.listing,
            ),
            None => self.shell.status_fields(self.model.len(), None, scanning, self.grid.listing),
        }
    }

    /// Whether a scan has been out for so long that the user is waiting on it.
    pub open spec fn scan_pending(self, now: u64, patience: u64) -> bool {
        exists|since: u64| #[trigger] self.children.any_since(since) && now - since >= patience
    }

    /// A header read has finished. One for a file that's no longer selected is dropped. Says
    /// whether it counted.
    pub fn selection_measured(&mut self, path: &str, dimensions: Option<(u32, u32)>) -> (matched:
        bool)
        requires
            old(self).wf(),
        ensures
            final(self).wf(),
            final(self).same_but_shell(*old(self)),
            matched == (old(self).model@.selected_path() matches Some(selected) && path_key(
                selected,
            ) == path_key(path@)),
            matched ==> final(self).shell == (Shell {
                selected_dimensions: dimensions,
                ..old(self).shell
            }),
            !matched ==> final(self).shell == old(self).shell,
    {
        let selected: Option<String> = match self.model.selected_path() {
            Some(path) => Some(path.clone()),
            None => None,
        };
        self.shell.selection_measured(borrowed(&selected), path, dimensions)
    }

    // ----- the tree -----

    /// A row is being expanded: the folder to scan, unless it has been or is being scanned.
    pub fn request_children(&mut self, index: usize, now: u64) -> (scan: Option<String>)
        requires
            old(self).wf(),
        ensures
            final(self).wf(),
            final(self).shell == old(self).shell,
            final(self).grid == old(self).grid,
            final(self).model == old(self).model,
            final(self).tree == old(self).tree,
            match scan {
                Some(path) => {
                    &&& index < old(self).tree.paths@.len()
                    &&& path@ == old(self).tree.paths@[index as int]@
                    &&& !old(self).children@.contains_key(path_key(path@))
                    &&& final(self).children@ == old(self).children@.insert(
                        path_key(path@),
                        Load::InFlight { since: now },
                    )
                },
                None => {
                    &&& final(self).children@ == old(self).children@
                    &&& index < old(self).tree.paths@.len() ==> old(self).children@.contains_key(
                        path_key(old(self).tree.paths@[index as int]@),
                    )
                },
            },
    {
        let path: String = match self.tree.row_path(index) {
            Some(path) => path.clone(),
            None => {
                return None;
            },
        };
        if self.children.begin_scan(path.as_str(), now) {
            Some(path)
        } else {
            None
        }
    }

    /// A scan has come back. Its folder's row gets these children, where it has a row.
    pub fn tree_children_loaded(&mut self, path: &str, children: Vec<String>) -> (rows: Option<
        ChildRows,
    >)
        requires
            old(self).wf(),
        ensures
            final(self).wf(),
            final(self).shell == old(self).shell,
            final(self).grid == old(self).grid,
            final(self).model == old(self).model,
            final(self).tree == old(self).tree,
            final(self).children@ == old(self).children@.insert(
                path_key(path@),
                Load::Loaded { children },
            ),
            match rows {
                Some(rows) => {
                    &&& item_for(old(self).tree.rows@, path@) == Some(rows.parent)
                    &&& rows.claimed == if children@.len() > 0 {
                        1int
                    } else {
                        0
                    }
                    &&& rows.rows@.len() == children@.len()
                    &&& forall|i: int|
                        0 <= i < children@.len() ==> {
                            &&& (#[trigger] rows.rows@[i]).path@ == children@[i]@
                            &&& rows.rows@[i].label@ == label_of(children@[i]@)
                        }
                },
                None => item_for(old(self).tree.rows@, path@) is None,
            },
    {
        let mut rows: Vec<ChildRow> = Vec::new();
        for i in 0..children.len()
            invariant
                rows@.len() == i,
                forall|j: int|
                    0 <= j < i ==> {
                        &&& (#[trigger] rows@[j]).path@ == children@[j]@
                        &&& rows@[j].label@ == label_of(children@[j]@)
                    },
        {
            rows.push(
                ChildRow {
                    label: child_label(children[i].as_str()),
                    path: children[i].clone(),
                },
            );
        }
        let claimed: i32 = claimed_children(children.len());
        self.children.complete_scan(path, children);
        match self.tree.item_of(path) {
            Some(parent) => Some(ChildRows { parent, rows, claimed }),
            None => None,
        }
    }

    /// The tree's root paths, for the folder watch.
    pub fn tree_root_paths(&self) -> (paths: Vec<String>)
        ensures
            paths@.len() == self.tree.roots@.len(),
            forall|i: int|
                0 <= i < paths@.len() ==> #[trigger] paths@[i]@ == self.tree.roots@[i].path@,
    {
        self.tree.root_paths()
    }

    /// A watched folder changed on disk: what's known of its children goes, and it's to be scanned
    /// again.
    pub fn reload_tree_node(&mut self, folder: &str)
        requires
            old(self).wf(),
        ensures
            final(self).wf(),
            final(self).shell == old(self).shell,
            final(self).grid == old(self).grid,
            final(self).model == old(self).model,
            final(self).tree == old(self).tree,
            final(self).children@ == old(self).children@.remove(path_key(folder@)),
    {
        self.children.invalidate(folder);
    }

    /// Starts expanding the tree along a chain of folders, from a root down to the one to reveal.
    pub fn reveal_folder_in_tree(&mut self, chain: Vec<String>)
        requires
            old(self).wf(),
        ensures
            final(self).wf(),
            final(self).shell == old(self).shell,
            final(self).grid == old(self).grid,
            final(self).model == old(self).model,
            final(self).children == old(self).children,
            final(self).tree.roots == old(self).tree.roots,
            final(self).tree.paths == old(self).tree.paths,
            final(self).tree.rows == old(self).tree.rows,
            final(self).tree.reveal == if chain@.len() > 0 {
                Some(tree::Reveal { chain, position: 0 })
            } else {
                None
            },
    {
        self.tree.start_reveal(chain);
    }

    /// True while a reveal walk is still in flight.
    pub fn reveal_pending(&self) -> (pending: bool)
        ensures
            pending == self.tree.reveal is Some,
    {
        self.tree.reveal_pending()
    }

    /// Whether the children of the folder that the walk stands on have been loaded.
    pub open spec fn walk_is_loaded(self) -> bool {
        self.tree.reveal matches Some(walk) && {
            let folder = path_key(walk.chain@[walk.position as int]@);
            self.children@.contains_key(folder) && self.children@[folder] is Loaded
        }
    }

    /// Takes the walk one step further: it expands each ancestor in turn, goes on where that one's
    /// children are there, and waits for them where they aren't. At the target it selects and
    /// ends.
    pub fn advance_reveal(&mut self) -> (step: RevealMove)
        requires
            old(self).wf(),
        ensures
            final(self).wf(),
            final(self).shell == old(self).shell,
            final(self).grid == old(self).grid,
            final(self).model == old(self).model,
            final(self).children == old(self).children,
            final(self).tree.roots == old(self).tree.roots,
            final(self).tree.paths == old(self).tree.paths,
            final(self).tree.rows == old(self).tree.rows,
            step.step == old(self).tree.step(),
            step.go_on == (step.step is Expand && old(self).walk_is_loaded()),
            final(self).tree.reveal == if step.step is Select {
                None
            } else if step.go_on {
                Some(
                    tree::Reveal {
                        chain: old(self).tree.reveal->0.chain,
                        position: (old(self).tree.reveal->0.position + 1) as usize,
                    },
                )
            } else {
                old(self).tree.reveal
            },
    {
        let loaded: bool = match &self.tree.reveal {
            Some(walk) => self.children.loaded(walk.chain[walk.position].as_str()).is_some(),
            None => false,
        };
        let step: RevealStep = self.tree.reveal_step();
        let go_on: bool = match step {
            RevealStep::Expand(_) => self.tree.expanded(loaded),
            _ => false,
        };
        RevealMove { step, go_on }
    }
}

/// A text that's borrowed where there is one.
fn borrowed(text: &Option<String>) -> (borrowed: Option<&str>)
    ensures
        match borrowed {
            Some(borrowed) => text matches Some(text) && borrowed@ == text@,
            None => text is None,
        },
{
    match text {
        Some(text) => Some(text.as_str()),
        None => None,
    }
}

// ----- laws -----

/// A new browser lists nothing, has its top-level rows, and lays out by its monitor's DPI.
pub proof fn a_new_browser_is_empty(
    theme: Theme,
    dpi: u32,
    height: i32,
    roots: Vec<Root>,
    ui: BrowseUi,
    shell: Shell,
    side: u32,
    index: Option<usize>,
    count: usize,
    empty: bool,
    pending: bool,
    paths: Vec<String>,
)
    requires
        call_ensures(BrowseUi::new, (theme, dpi, height, roots), ui),
        call_ensures(Shell::new, (theme, dpi, height), shell),
        call_ensures(grid::slot_side, (shell.dpi,), side),
        call_ensures(BrowseUi::selected_index, (&ui,), index),
        call_ensures(BrowseUi::image_count, (&ui,), count),
        call_ensures(BrowseUi::grid_is_empty, (&ui,), empty),
        call_ensures(BrowseUi::reveal_pending, (&ui,), pending),
        call_ensures(BrowseUi::tree_root_paths, (&ui,), paths),
    ensures
        ui.shell == shell,
        ui.grid.slot_side == side,
        !ui.grid.listing,
        index is None && count == 0 && empty && !pending,
        paths@.len() == roots@.len(),
        forall|i: int| 0 <= i < roots@.len() ==> #[trigger] paths@[i]@ == roots@[i].path@,
{
}

/// The keyboard goes to the control of the pane that's meant.
pub proof fn focus_goes_to_the_pane(ui: &BrowseUi, pane: PaneSide, control: i32)
    requires
        call_ensures(BrowseUi::apply_focus, (ui, pane), control),
    ensures
        pane is Tree ==> control == 1001,
        pane is Grid ==> control == 1002,
{
}

/// Laying out again lays the container out, and the parts of the status bar by the width it got.
pub proof fn the_parts_fit_the_status_bar(
    ui: &mut BrowseUi,
    width: i32,
    height: i32,
    bar: i32,
    placement: Placement,
    parts: [i32; 3],
    tree_width: i32,
)
    requires
        call_ensures(BrowseUi::relayout, (ui, width, height, bar), placement),
        call_ensures(status_parts, (placement.panes.status_bar.width, ui.shell.dpi), parts),
        call_ensures(
            crate::browser::windows::layout::clamp_tree_width,
            (ui.shell.tree_width, width, ui.shell.metrics),
            tree_width,
        ),
    ensures
        placement.parts[0] == parts[0],
        placement.parts[1] == parts[1],
        placement.parts[2] == parts[2],
        final(ui).shell.tree_width == tree_width,
        final(ui).shell.metrics.status_bar == bar,
        call_ensures(
            layout,
            (width, height, tree_width, final(ui).shell.metrics),
            placement.panes,
        ),
        final(ui).model == old(ui).model,
{
    assert(placement.parts[0] == part_edges(
        placement.panes.status_bar.width as int,
        ui.shell.dpi,
    )[0]);
    assert(placement.parts[1] == part_edges(
        placement.panes.status_bar.width as int,
        ui.shell.dpi,
    )[1]);
    assert(placement.parts[2] == part_edges(
        placement.panes.status_bar.width as int,
        ui.shell.dpi,
    )[2]);
}

/// Another DPI asks for slots of another side exactly where the side at that DPI is another, and
/// changes none of the cells by itself.
pub proof fn rescaling_asks_for_new_slots(
    ui: &mut BrowseUi,
    monitor_dpi: u32,
    bar: i32,
    rescaled: Option<Rescaled>,
    side: u32,
)
    requires
        call_ensures(BrowseUi::rescale, (ui, monitor_dpi, bar), rescaled),
        rescaled is Some ==> call_ensures(grid::slot_side, (rescaled->0.dpi,), side),
    ensures
        rescaled is Some ==> rescaled->0.dpi == if monitor_dpi < 96 {
            96
        } else {
            monitor_dpi
        },
        rescaled is Some ==> final(ui).shell.dpi == rescaled->0.dpi,
        rescaled is Some && side == old(ui).grid.slot_side ==> rescaled->0.slot_side is None,
        rescaled is Some && side != old(ui).grid.slot_side ==> rescaled->0.slot_side == Some(side),
        rescaled is None ==> final(ui).shell == old(ui).shell,
        final(ui).grid == old(ui).grid,
{
}

/// Selecting a cell puts the grid on it, the last one where there are fewer, and asks for that
/// image to be measured. The size of the image before is forgotten at once.
pub proof fn selecting_asks_for_the_measure(
    ui: &mut BrowseUi,
    index: usize,
    scroll: bool,
    select: Option<Selected>,
    after: &BrowseUi,
    selected: Option<usize>,
    path: Option<&String>,
    count: usize,
)
    requires
        call_ensures(BrowseUi::select_index, (ui, index, scroll), select),
        *after == *final(ui),
        call_ensures(BrowseUi::selected_index, (after,), selected),
        call_ensures(BrowseUi::selected_path, (after,), path),
        call_ensures(BrowseUi::image_count, (&*ui,), count),
    ensures
        select is Some <==> count > 0,
        index < count ==> selected == Some(index),
        0 < count <= index ==> selected is Some && selected->0 + 1 == count,
        select is Some ==> Some(select->0.selection.item) == selected,
        select is Some ==> select->0.selection.state == 3 && select->0.selection.scroll == scroll,
        select is Some ==> path is Some && select->0.measure@ == path->0@,
        select is Some ==> path->0@ == old(ui).model@.images[selected->0 as int]@,
        select is Some ==> after.shell.selected_dimensions is None,
        after.model@.images == old(ui).model@.images,
{
}

/// A listing that arrives shows its images, ends the wait, blanks the cells, and starts on the
/// first cell of the image we came from, else on the first of all.
pub proof fn a_listing_starts_on_its_image(
    ui: &mut BrowseUi,
    images: Vec<String>,
    preselect: Option<&str>,
    listed: Listed,
    after: &BrowseUi,
    found: Option<usize>,
    selected: Option<usize>,
    path: Option<&String>,
    cell: (Vec<u16>, i32),
    index: usize,
)
    requires
        call_ensures(BrowseUi::folder_listed, (ui, images, preselect), listed),
        *after == *final(ui),
        preselect is Some ==> call_ensures(index_of, (&images, preselect->0), found),
        preselect is None ==> found is None,
        call_ensures(BrowseUi::selected_index, (after,), selected),
        call_ensures(BrowseUi::selected_path, (after,), path),
        call_ensures(BrowseUi::cell, (after, index), cell),
    ensures
        after.model@.images == images@,
        listed.count == images@.len(),
        !after.grid.listing,
        cell.1 == -1,
        listed.released@.contains(index) <==> old(ui).grid.pool@.held.contains_key(index),
        images@.len() == 0 ==> selected is None && listed.select is None,
        images@.len() > 0 && found is Some ==> selected == found,
        images@.len() > 0 && found is None ==> selected == Some(0usize),
        images@.len() > 0 ==> listed.select is Some && listed.select->0.selection.scroll
            && path is Some && listed.select->0.measure@ == path->0@,
        after.model@.generation != old(ui).model@.generation,
{
    assert(listed.released@.to_set().contains(index) <==> listed.released@.contains(index));
}

/// A re-scan shows its images, blanks the cells, and stays where the model says; whoever was
/// selected is selected again without a scroll.
pub proof fn a_rescan_selects_again(
    ui: &mut BrowseUi,
    images: Vec<String>,
    modified: usize,
    rescanned: Rescanned,
    model: &mut GridModel,
    after: &BrowseUi,
    selected: Option<usize>,
    cell: (Vec<u16>, i32),
    index: usize,
)
    requires
        call_ensures(BrowseUi::apply_rescan, (ui, images, modified), rescanned),
        *after == *final(ui),
        *model == ui.model,
        call_ensures(GridModel::apply_rescan, (model, images), ()),
        call_ensures(BrowseUi::selected_index, (after,), selected),
        call_ensures(BrowseUi::cell, (after, index), cell),
    ensures
        after.model@ == final(model)@,
        rescanned.count == images@.len(),
        cell.1 == -1,
        rescanned.rescan.cancel <==> modified > 0,
        rescanned.select is Some <==> selected is Some,
        rescanned.select is Some ==> rescanned.select->0.selection.item == selected->0
            && !rescanned.select->0.selection.scroll,
        after.grid.listing == old(ui).grid.listing,
{
}

/// A thumbnail is asked for exactly of the cells that have an image: that image, at the size of a
/// slot, for this listing.
pub proof fn requests_are_for_the_cells_image(
    ui: &BrowseUi,
    index: usize,
    request: Option<ThumbnailRequest>,
)
    requires
        call_ensures(BrowseUi::thumbnail_request, (ui, index), request),
    ensures
        request is Some <==> index < ui.model@.images.len(),
        request is Some ==> request->0.path@ == ui.model@.images[index as int]@,
        request is Some ==> request->0.folder_generation == ui.model@.generation,
        request is Some ==> request->0.side == ui.grid.slot_side,
{
}

/// A cell is called by its image's name and draws its own slot, or nothing.
pub proof fn cells_show_their_image(
    ui: &BrowseUi,
    index: usize,
    cell: (Vec<u16>, i32),
    image: i32,
    path: &str,
    label: Vec<u16>,
)
    requires
        call_ensures(BrowseUi::cell, (ui, index), cell),
        call_ensures(Grid::cell_image, (&ui.grid, index), image),
        index < ui.model@.images.len(),
        path@ == ui.model@.images[index as int]@,
        call_ensures(grid::cell_label, (Some(path),), label),
    ensures
        cell.0@ == label@,
        cell.1 == image,
{
}

/// The cells that the cache made room with are blank, and of the ready cells those that still
/// draw are redrawn.
pub proof fn making_room_blanks_cells(
    ui: &mut BrowseUi,
    evicted: &[usize],
    ready: &[usize],
    redraw: Option<(usize, usize)>,
    after: &BrowseUi,
    index: usize,
    was: (Vec<u16>, i32),
    cell: (Vec<u16>, i32),
)
    requires
        call_ensures(BrowseUi::evicted, (ui, evicted, ready), redraw),
        *after == *final(ui),
        call_ensures(BrowseUi::cell, (&*ui, index), was),
        call_ensures(BrowseUi::cell, (after, index), cell),
    ensures
        evicted@.contains(index) ==> cell.1 == -1,
        !evicted@.contains(index) ==> cell.1 == was.1,
        ready@.contains(index) && old(ui).grid.pool@.held.contains_key(index)
            && !evicted@.contains(index) ==> redraw is Some && (redraw->0).0 <= index
            <= (redraw->0).1,
{
    slots::only_the_evicted_give_back(ui.grid.pool@, evicted@, index);
    if ready@.contains(index) && ui.grid.pool@.held.contains_key(index) && !evicted@.contains(
        index,
    ) {
        assert(after.grid.redrawn(ready@, index));
    }
}

/// The status bar says what the container's would, of the selected image and of what's waited on:
/// a listing, or a scan that has been out for longer than the patience.
pub proof fn the_status_bar_tells_of_the_browser(
    ui: &BrowseUi,
    now: u64,
    patience: u64,
    text: Fields,
    overdue: bool,
    path: Option<&str>,
    same: Fields,
    count: usize,
)
    requires
        call_ensures(BrowseUi::status_fields, (ui, now, patience), text),
        overdue <==> exists|since: u64| #[trigger]
            ui.children.any_since(since) && since + patience <= now,
        path is Some <==> ui.model@.selected is Some,
        path is Some ==> path->0@ == ui.model@.images[ui.model@.selected->0 as int]@,
        count == ui.model@.images.len(),
        call_ensures(Shell::status_fields, (&ui.shell, count, path, overdue, ui.grid.listing), same),
    ensures
        text.count@ == same.count@,
        text.name@ == same.name@,
        text.size@ == same.size@,
{
    if overdue {
        let since = choose|since: u64| #[trigger]
            ui.children.any_since(since) && since + patience <= now;
        assert(ui.children.any_since(since) && now - since >= patience);
        assert(ui.scan_pending(now, patience));
    }
    if ui.scan_pending(now, patience) {
        let since = choose|since: u64| #[trigger]
            ui.children.any_since(since) && now - since >= patience;
        assert(ui.children.any_since(since) && since + patience <= now);
    }
}

/// A size that was read counts exactly where it's the selected image's, however its path is
/// spelled.
pub proof fn late_sizes_are_dropped(
    ui: &mut BrowseUi,
    path: &str,
    dimensions: Option<(u32, u32)>,
    matched: bool,
    selected: Option<&String>,
)
    requires
        call_ensures(BrowseUi::selected_path, (&*ui,), selected),
        call_ensures(BrowseUi::selection_measured, (ui, path, dimensions), matched),
    ensures
        matched <==> selected is Some && path_key(selected->0@) == path_key(path@),
        matched ==> final(ui).shell.selected_dimensions == dimensions,
        !matched ==> final(ui).shell == old(ui).shell,
        final(ui).model == old(ui).model,
{
}

/// Expanding a row asks for a scan of its folder once, until the folder is reloaded.
pub proof fn a_row_is_scanned_once(
    ui: &mut BrowseUi,
    index: usize,
    now: u64,
    scan: Option<String>,
    again: &mut BrowseUi,
    later: u64,
    second: Option<String>,
    stale: &mut BrowseUi,
    folder: &str,
    fresh: &mut BrowseUi,
    third: Option<String>,
)
    requires
        call_ensures(BrowseUi::request_children, (ui, index, now), scan),
        *again == *final(ui),
        call_ensures(BrowseUi::request_children, (again, index, later), second),
        *stale == *final(again),
        index < ui.tree.paths@.len(),
        path_key(folder@) == path_key(ui.tree.paths@[index as int]@),
        call_ensures(BrowseUi::reload_tree_node, (stale, folder), ()),
        *fresh == *final(stale),
        call_ensures(BrowseUi::request_children, (fresh, index, later), third),
    ensures
        scan is Some ==> scan->0@ == old(ui).tree.paths@[index as int]@,
        second is None,
        third is Some,
        third->0@ == old(ui).tree.paths@[index as int]@,
        final(ui).tree == old(ui).tree,
{
}

/// The children that a scan comes back with stand under their folder's row, in their order, each
/// by its own name.
pub proof fn children_stand_under_their_row(
    ui: &mut BrowseUi,
    path: &str,
    children: Vec<String>,
    rows: Option<ChildRows>,
    item: Option<isize>,
    claimed: i32,
    count: usize,
    i: int,
    child: &str,
    label: String,
)
    requires
        call_ensures(Tree::item_of, (&ui.tree, path), item),
        call_ensures(BrowseUi::tree_children_loaded, (ui, path, children), rows),
        count == children@.len(),
        call_ensures(claimed_children, (count,), claimed),
        0 <= i < children@.len(),
        child@ == children@[i]@,
        call_ensures(child_label, (child,), label),
    ensures
        rows is Some <==> item is Some,
        rows is Some ==> rows->0.parent == item->0,
        rows is Some ==> rows->0.claimed == claimed,
        rows is Some ==> rows->0.rows@.len() == children@.len(),
        rows is Some ==> rows->0.rows@[i].path@ == children@[i]@,
        rows is Some ==> rows->0.rows@[i].label@ == label@,
{
}

/// A walk starts at the first folder of its chain. A step waits where that folder has no row; it
/// expands the row of a folder that isn't the last, and goes on at once exactly where that one's
/// children are there; at the last it selects, and the walk is over.
pub proof fn a_reveal_walks_down_its_chain(
    ui: &mut BrowseUi,
    chain: Vec<String>,
    walking: &mut BrowseUi,
    step: RevealMove,
    folder: &str,
    item: Option<isize>,
    loaded: Option<&Vec<String>>,
    pending: bool,
)
    requires
        call_ensures(BrowseUi::reveal_folder_in_tree, (ui, chain), ()),
        chain@.len() > 0,
        *walking == *final(ui),
        folder@ == chain@[0]@,
        call_ensures(Tree::item_of, (&walking.tree, folder), item),
        call_ensures(ChildCache::loaded, (&walking.children, folder), loaded),
        call_ensures(BrowseUi::advance_reveal, (walking,), step),
        call_ensures(BrowseUi::reveal_pending, (&*final(walking),), pending),
    ensures
        item is None ==> step.step == RevealStep::Wait && !step.go_on && pending,
        item is Some && chain@.len() == 1 ==> step.step == RevealStep::Select(item->0)
            && !step.go_on && !pending,
        item is Some && chain@.len() > 1 ==> step.step == RevealStep::Expand(item->0) && pending,
        item is Some && chain@.len() > 1 ==> (step.go_on <==> loaded is Some),
        item is Some && chain@.len() > 1 && step.go_on
            ==> final(walking).tree.reveal->0.position == 1,
        item is Some && chain@.len() > 1 && !step.go_on
            ==> final(walking).tree.reveal->0.position == 0,
{
}

} // verus!
