//! What the browse screen's messages come to.

use prvw::browser::grid_model::{index_of, GridModel};
use prvw::browser::tree_model::{scan_overdue, ChildCache};
use prvw::browser::windows::keys::vk;
use prvw::browser::windows::roots::{
    asks_for_label, drives, enumerate, known_folders, volume_label, Drive, DriveKind, Root,
};
use prvw::browser::windows::selection_meta::SelectionMeasurer;
use prvw::browser::windows::ui::grid::{
    cache_budget, cell_label, hinted_range, icon_spacing, pane_background,
    selection_event, slot_side, Accepted, Delivery, Grid, Pixels, Written, LVIF_STATE,
    LVIS_SELECTED, NO_IMAGE, SELECTED_AND_FOCUSED,
};
use prvw::browser::windows::ui::slots::{SlotPool, SLOTS};
use prvw::browser::windows::ui::tree::{
    child_label, claimed_children, RevealStep, Tree,
};
use prvw::browser::windows::ui::shell::{
    container_event, high_word, low_word, pane_key, status_parts, wide, ContainerEvent, PaneKey,
    Selection, Shell, SplitterAction, ID_GRID, ID_TREE, WM_DESTROY, WM_ERASEBKGND, WM_LBUTTONDOWN,
    WM_LBUTTONUP, WM_MOUSEMOVE, WM_NOTIFY, WM_SETCURSOR, WM_SIZE,
};
use prvw::browser::windows::ui::{BrowseUi, PaneSide, RevealMove};
use prvw::chrome::Theme;
use prvw::commands::AppCommand;

// ----- slots -----

/// Every slot is handed out once, a thumbnail keeps the one it has, and none is lost.
#[test]
fn slots_are_handed_out_once() {
    let mut pool = SlotPool::new();
    let mut seen = vec![false; SLOTS];
    for index in 0..SLOTS {
        let slot = pool.claim(index * 3).expect("a free slot");
        assert!(!seen[slot as usize], "slot {slot} twice");
        seen[slot as usize] = true;
    }
    assert_eq!(pool.claim(99_999), None);
    assert_eq!(pool.claim(3), pool.slot_of(3));

    let freed = pool.slot_of(6).expect("held");
    pool.release(&[6, 7]);
    assert_eq!(pool.slot_of(6), None);
    assert_eq!(pool.claim(99_999), Some(freed));

    let mut indices = pool.release_all();
    indices.sort_unstable();
    assert_eq!(indices.len(), SLOTS);
    assert_eq!(indices[0], 0);
    assert_eq!(pool.slot_of(0), None);
    assert!(pool.claim(0).is_some());
}

// ----- the grid -----

fn delivery(index: usize, generation: u64) -> Delivery {
    Delivery {
        index,
        folder_generation: generation,
        result: Some(Pixels {
            rgba: vec![10, 20, 30, 255],
            width: 1,
            height: 1,
        }),
    }
}

#[test]
fn a_thumbnail_is_composed_into_its_slot() {
    let mut grid = Grid::new(96);
    assert_eq!(grid.slot_side, 128);
    match grid.accept(&delivery(4, 7), 7, (1, 2, 3)) {
        Accepted::Write {
            index,
            slot,
            canvas,
        } => {
            assert_eq!((index, slot), (4, 0));
            assert_eq!(canvas.len(), 128 * 128 * 4);
            // The background is in BGR order, and the one pixel sits in the middle.
            assert_eq!(&canvas[0..4], &[3, 2, 1, 255]);
            let middle = (63 * 128 + 63) * 4;
            assert_eq!(&canvas[middle..middle + 4], &[30, 20, 10, 255]);
        }
        Accepted::Failed(_) => panic!("it fits"),
    }
    assert_eq!(grid.cell_image(4), 0);
    assert_eq!(
        grid.written(4, true),
        Written::Ready {
            index: 4,
            bytes: 128 * 128 * 4
        }
    );
    assert_eq!(grid.cell_image(4), 0);
}

/// A folder the user has left, a generator that failed, and a write that failed.
#[test]
fn a_thumbnail_that_fails_leaves_its_cell_blank() {
    let mut grid = Grid::new(96);
    assert!(matches!(
        grid.accept(&delivery(4, 6), 7, (0, 0, 0)),
        Accepted::Failed(4)
    ));
    let failed = Delivery {
        index: 5,
        folder_generation: 7,
        result: None,
    };
    assert!(matches!(
        grid.accept(&failed, 7, (0, 0, 0)),
        Accepted::Failed(5)
    ));
    assert!(matches!(
        grid.accept(&delivery(4, 7), 7, (0, 0, 0)),
        Accepted::Write { .. }
    ));
    assert_eq!(grid.written(4, false), Written::Unwritten(4));
    assert_eq!(grid.cell_image(4), NO_IMAGE);
    // With every slot taken there's no room for one more.
    for index in 0..SLOTS {
        grid.pool.claim(index);
    }
    assert!(matches!(
        grid.accept(&delivery(SLOTS, 7), 7, (0, 0, 0)),
        Accepted::Failed(SLOTS)
    ));
}

#[test]
fn a_new_listing_drops_every_thumbnail() {
    let mut grid = Grid::new(96);
    grid.list_started();
    assert!(grid.listing);
    grid.pool.claim(3);
    grid.pool.claim(5);
    let mut released = grid.folder_listed();
    released.sort_unstable();
    assert_eq!(released, vec![3, 5]);
    assert!(!grid.listing);
    assert_eq!(grid.cell_image(3), NO_IMAGE);

    grid.pool.claim(1);
    let rescan = grid.apply_rescan(Some("a.jpg"), Some("b.jpg"), 2);
    assert_eq!(rescan.released, vec![1]);
    assert!(rescan.cancel && rescan.changed);
    let rescan = grid.apply_rescan(Some("a.jpg"), Some("a.jpg"), 0);
    assert!(rescan.released.is_empty() && !rescan.cancel && !rescan.changed);
    assert!(grid.apply_rescan(Some("a.jpg"), None, 0).changed);
    let same = grid.apply_rescan(Some(r"C:\p\a.jpg"), Some("c:/p//a.jpg"), 0);
    assert!(!same.changed);
    let other = grid.apply_rescan(Some(r"C:\p\a.jpg"), Some(r"C:\p\A.jpg"), 0);
    assert!(other.changed);
}

/// Only what's still resident is redrawn.
#[test]
fn the_redraw_spans_what_is_resident() {
    let mut grid = Grid::new(96);
    for index in [9, 4, 6] {
        grid.pool.claim(index);
    }
    assert_eq!(grid.redraw_range(&[9, 4, 6, 1]), Some((4, 9)));
    grid.evicted(&[4]);
    assert_eq!(grid.redraw_range(&[9, 4, 6, 1]), Some((6, 9)));
    assert_eq!(grid.redraw_range(&[1, 2]), None);
}

#[test]
fn a_new_dpi_rebuilds_the_slots() {
    let mut grid = Grid::new(96);
    grid.pool.claim(1);
    assert_eq!(grid.new_side(96), None);
    assert_eq!(grid.new_side(192), Some(256));
    grid.rebuilt(256);
    assert_eq!(grid.slot_side, 256);
    assert_eq!(grid.cell_image(1), NO_IMAGE);
    assert_eq!(slot_side(144), 192);
    assert_eq!(cache_budget(128), 512 * 128 * 128 * 4);
}

/// A write that fails gives its slot to the next thumbnail in the batch.
#[test]
fn a_batch_is_settled_in_order() {
    let mut grid = Grid::new(96);
    for index in 100..100 + SLOTS - 1 {
        grid.pool.claim(index);
    }
    let batch = vec![delivery(1, 7), delivery(2, 6), delivery(3, 7), delivery(4, 7)];
    // One slot is left, and the first write into it fails.
    let calls = std::cell::Cell::new(0);
    let write = |_slot: i32, canvas: &Vec<u8>| {
        assert_eq!(canvas.len(), 128 * 128 * 4);
        calls.set(calls.get() + 1);
        calls.get() > 1
    };
    let outcomes = grid.settle(&batch, 7, (0, 0, 0), &write);
    let bytes = 128 * 128 * 4;
    assert_eq!(
        outcomes,
        vec![
            Written::Unwritten(1),
            Written::Failed(2),
            Written::Ready { index: 3, bytes },
            Written::Failed(4),
        ]
    );
    assert_eq!(calls.get(), 2);
}

#[test]
fn cells_are_described_to_the_list_view() {
    assert_eq!(cell_label(Some(r"C:\p\a.jpg")), wide("a.jpg"));
    assert_eq!(cell_label(None), vec![0]);
    assert_eq!(hinted_range(2, 5, 10), (2, 6));
    assert_eq!(hinted_range(2, usize::MAX, 10), (2, 10));
    assert_eq!(hinted_range(20, 30, 10), (10, 10));
    let (width, height) = (160u16, 162u16);
    assert_eq!(icon_spacing(width, height), (162 << 16) | 160);
    assert_eq!(pane_background(Theme::Dark, 0x00ff_ffff), (0x19, 0x19, 0x19));
    assert_eq!(pane_background(Theme::Light, 0x0011_2233), (0x33, 0x22, 0x11));
    assert_eq!(selection_event(LVIF_STATE, LVIS_SELECTED | 1, 1, 4), Some(4));
    assert_eq!(selection_event(LVIF_STATE, LVIS_SELECTED, LVIS_SELECTED, 4), None);
    assert_eq!(selection_event(LVIF_STATE, 0, LVIS_SELECTED, 4), None);
    assert_eq!(selection_event(1, LVIS_SELECTED, 0, 4), None);
    assert_eq!(selection_event(LVIF_STATE, LVIS_SELECTED, 0, -1), None);
}

// ----- the container -----

#[test]
fn messages_are_told_apart() {
    let size = (900u32 << 16) | 1440;
    assert_eq!(
        container_event(WM_SIZE, size),
        ContainerEvent::Resized {
            width: 1440,
            height: 900
        }
    );
    // A pointer left of the window is negative.
    assert_eq!(
        container_event(WM_MOUSEMOVE, 0x0001_ffff),
        ContainerEvent::PointerMoved { x: -1 }
    );
    assert_eq!(
        container_event(WM_LBUTTONDOWN, 243),
        ContainerEvent::ButtonDown { x: 243 }
    );
    assert_eq!(container_event(WM_LBUTTONUP, 0), ContainerEvent::ButtonUp);
    assert_eq!(container_event(WM_SETCURSOR, 0), ContainerEvent::Cursor);
    assert_eq!(container_event(WM_NOTIFY, 0), ContainerEvent::Notify);
    assert_eq!(
        container_event(WM_ERASEBKGND, 0),
        ContainerEvent::EraseBackground
    );
    assert_eq!(container_event(0x0138, 0), ContainerEvent::ColorStatic);
    assert_eq!(container_event(WM_DESTROY, 0), ContainerEvent::Destroyed);
    assert_eq!(container_event(0x0400, 0), ContainerEvent::Other);
    assert_eq!((low_word(0x8000_7fff), high_word(0x8000_7fff)), (32767, -32768));
}

#[test]
fn backspace_is_the_trees_alone() {
    assert!(matches!(pane_key(ID_TREE, vk::BACK), PaneKey::SelectParent));
    assert!(matches!(pane_key(ID_GRID, vk::BACK), PaneKey::Control));
    assert!(matches!(
        pane_key(ID_GRID, vk::TAB),
        PaneKey::Command(AppCommand::ToggleBrowseFocus)
    ));
    assert!(matches!(pane_key(ID_TREE, vk::DOWN), PaneKey::Control));
}

#[test]
fn the_name_pane_takes_what_is_left() {
    assert_eq!(status_parts(1000, 96), [130, 870, -1]);
    assert_eq!(status_parts(1000, 192), [260, 740, -1]);
    // Too narrow for all three: the name pane vanishes rather than running backwards.
    assert_eq!(status_parts(100, 96), [130, 130, -1]);
}

/// A whole drag: the splitter follows the pointer, and stops at both minimums.
#[test]
fn a_drag_moves_the_splitter() {
    let mut shell = Shell::new(Theme::Light, 96, 22);
    assert_eq!(shell.tree_width, 240);
    assert_eq!(shell.cursor_asked(Some(243)), SplitterAction::ShowCursor);
    assert_eq!(shell.cursor_asked(Some(246)), SplitterAction::Pass);
    assert_eq!(shell.cursor_asked(None), SplitterAction::Pass);
    assert_eq!(
        shell.pointer_moved(300, Some((1440, 900)), 22),
        SplitterAction::Pass
    );
    assert_eq!(shell.button_up(), SplitterAction::Pass);

    assert_eq!(shell.button_down(243), SplitterAction::Capture);
    assert_eq!(shell.cursor_asked(None), SplitterAction::ShowCursor);
    match shell.pointer_moved(403, Some((1440, 900)), 22) {
        SplitterAction::Place(panes) => {
            assert_eq!(panes.tree.width, 400);
            assert_eq!(panes.grid.x, 406);
            assert_eq!(panes.status_bar.y, 878);
        }
        other => panic!("{other:?}"),
    }
    assert_eq!(
        shell.pointer_moved(500, None, 22),
        SplitterAction::Handled
    );
    assert_eq!(shell.tree_width, 400);
    shell.pointer_moved(20, Some((1440, 900)), 22);
    assert_eq!(shell.tree_width, 120);
    assert_eq!(shell.button_up(), SplitterAction::Release);
    assert_eq!(shell.drag, None);
}

#[test]
fn a_resize_keeps_the_tree_inside() {
    let mut shell = Shell::new(Theme::Light, 96, 22);
    let panes = shell.apply_layout(300, 400, 30);
    assert_eq!(shell.tree_width, 94);
    assert_eq!(panes.status_bar.height, 30);
    assert_eq!(panes.grid.width, 200);
}

/// The tree keeps its logical width when the monitor's DPI changes.
#[test]
fn a_new_monitor_rescales_the_tree() {
    let mut shell = Shell::new(Theme::Dark, 0, 22);
    assert_eq!(shell.dpi, 96);
    assert_eq!(shell.rescale(96, 22), None);
    assert_eq!(shell.rescale(144, 33), Some(144));
    assert_eq!(shell.tree_width, 360);
    assert_eq!(shell.metrics.status_bar, 33);
    assert_eq!(shell.metrics.splitter, 9);
    assert_eq!(shell.rescale(0, 22), Some(96));
    assert_eq!(shell.tree_width, 240);
}

/// A size that arrives late is dropped, and a new selection clears the old one.
#[test]
fn a_late_measurement_is_dropped() {
    let mut shell = Shell::new(Theme::Light, 96, 22);
    assert_eq!(
        shell.select(Some(3), true),
        Some(Selection {
            item: 3,
            state: SELECTED_AND_FOCUSED,
            scroll: true
        })
    );
    assert!(shell.selection_measured(Some(r"C:\a.jpg"), r"c:\A.jpg", Some((4, 3))));
    assert_eq!(shell.selected_dimensions, Some((4, 3)));
    assert!(!shell.selection_measured(Some(r"C:\b.jpg"), r"C:\a.jpg", Some((9, 9))));
    assert!(!shell.selection_measured(None, r"C:\a.jpg", None));
    assert_eq!(shell.selected_dimensions, Some((4, 3)));
    assert_eq!(shell.select(None, true), None);
    assert_eq!(shell.selected_dimensions, Some((4, 3)));
    shell.select(Some(1), false);
    assert_eq!(shell.selected_dimensions, None);

    let text = shell.status_fields(2, Some(r"C:\a.jpg"), false, false);
    assert_eq!(
        (text.count.as_str(), text.name.as_str(), text.size.as_str()),
        ("2 images", "a.jpg", "")
    );
    assert_eq!(shell.status_fields(2, None, true, false).count, "Loading…");
    assert_eq!(shell.status_fields(2, None, false, true).count, "Loading…");
}

#[test]
fn only_the_newest_request_is_measured() {
    let mut measurer = SelectionMeasurer::new();
    assert_eq!(measurer.take_newest(), None);
    measurer.measure("a".to_string());
    measurer.measure("b".to_string());
    assert_eq!(measurer.take_newest().as_deref(), Some("b"));
    assert_eq!(measurer.take_newest(), None);
}

// ----- the models -----

fn images(paths: &[&str]) -> Vec<String> {
    paths.iter().map(|path| path.to_string()).collect()
}

#[test]
fn a_rescan_keeps_the_file() {
    let mut model = GridModel::new();
    assert_eq!(model.set_selected(0), None);
    model.set_images(images(&["a", "b", "c"]));
    assert_eq!(model.generation(), 1);
    assert_eq!(model.selected(), None);
    assert_eq!(model.set_selected(9), Some(2));
    // The file moved.
    model.apply_rescan(images(&["C", "a"]));
    assert_eq!(model.selected(), Some(0));
    assert_eq!(model.selected_path().map(String::as_str), Some("C"));
    // It's gone: the cell at its place, as far as there is one.
    model.apply_rescan(images(&["x", "y"]));
    assert_eq!(model.selected(), Some(0));
    model.set_selected(1);
    model.apply_rescan(images(&["z"]));
    assert_eq!(model.selected(), Some(0));
    model.apply_rescan(Vec::new());
    assert_eq!(model.selected(), None);
    assert!(model.is_empty() && model.len() == 0 && model.images().is_empty());
    assert_eq!(model.path(0), None);
    assert_eq!(index_of(&images(&["a", "B", "b"]), "b"), Some(1));
}

#[test]
fn a_folder_is_scanned_until_it_is_invalidated() {
    let mut cache = ChildCache::new();
    assert_eq!(cache.earliest_in_flight(), None);
    assert!(cache.begin_scan(r"D:\Trip", 50));
    assert!(!cache.begin_scan(r"d:\trip", 60));
    assert!(cache.begin_scan(r"D:\Home", 40));
    assert_eq!(cache.earliest_in_flight(), Some(40));
    cache.complete_scan(r"D:\Home", images(&[r"D:\Home\a"]));
    assert_eq!(cache.earliest_in_flight(), Some(50));
    assert!(!cache.begin_scan(r"D:\Home", 70));
    assert_eq!(cache.loaded(r"D:\HOME").map(Vec::len), Some(1));
    assert!(cache.loaded(r"D:\Trip").is_none());
    cache.invalidate(r"D:\home");
    assert!(cache.loaded(r"D:\Home").is_none());
    assert!(cache.begin_scan(r"D:\Home", 80));
    assert!(scan_overdue(Some(50), 150, 100));
    assert!(!scan_overdue(Some(50), 149, 100));
    assert!(!scan_overdue(Some(50), 10, 100));
    assert!(!scan_overdue(None, 150, 0));
}

fn browser() -> BrowseUi {
    BrowseUi::new(Theme::Light, 96, 22, vec![root("Photos (D:)", r"D:\")])
}

#[test]
fn a_listing_starts_on_the_image_we_came_from() {
    let mut ui = browser();
    assert!(ui.grid_is_empty());
    ui.list_folder();
    assert_eq!(ui.status_fields(0, 0).count, "Loading…");
    let folder = [r"D:\p\a.jpg", r"D:\p\b.jpg"];
    let listed = ui.folder_listed(images(&folder), Some(r"d:\P\B.JPG"));
    assert_eq!(listed.count, 2);
    let select = listed.select.expect("a cell to start on");
    assert_eq!(select.selection.item, 1);
    assert!(select.selection.scroll);
    assert_eq!(select.measure, r"D:\p\b.jpg");
    assert_eq!(ui.selected_index(), Some(1));
    assert_eq!(ui.selected_path().map(String::as_str), Some(r"D:\p\b.jpg"));
    assert!(ui.selection_measured(r"D:\p\b.jpg", Some((6048, 4024))));
    let text = ui.status_fields(0, 0);
    assert_eq!(
        (text.count.as_str(), text.name.as_str(), text.size.as_str()),
        ("2 images", "b.jpg", "6,048 × 4,024")
    );

    let elsewhere = ui.folder_listed(images(&folder), Some(r"D:\q\b.jpg"));
    assert_eq!(elsewhere.select.map(|s| s.selection.item), Some(0));
    assert_eq!(ui.status_fields(0, 0).size, "");
    assert!(ui.folder_listed(Vec::new(), None).select.is_none());
    assert_eq!(ui.image_count(), 0);
    assert!(ui.select_index(0, false).is_none());
}

#[test]
fn a_live_rescan_says_whether_the_image_changed() {
    let mut ui = browser();
    ui.folder_listed(images(&["a", "b"]), None);
    ui.grid.pool.claim(1);
    let moved = ui.apply_rescan(images(&["0", "a", "b"]), 0);
    assert_eq!(moved.rescan.released, vec![1]);
    assert!(!moved.rescan.changed && !moved.rescan.cancel);
    assert_eq!(moved.count, 3);
    let select = moved.select.expect("still selected");
    assert_eq!((select.selection.item, select.selection.scroll), (1, false));
    let gone = ui.apply_rescan(images(&["0", "b"]), 1);
    assert!(gone.rescan.changed && gone.rescan.cancel);
    assert_eq!(ui.images(), &images(&["0", "b"]));
}

#[test]
fn thumbnails_go_from_request_to_redraw() {
    let mut ui = browser();
    ui.folder_listed(images(&[r"D:\a.jpg", r"D:\b.jpg"]), None);
    let request = ui.thumbnail_request(1).expect("there's an image");
    assert_eq!(
        (request.path.as_str(), request.folder_generation, request.side),
        (r"D:\b.jpg", 1, 128)
    );
    assert!(ui.thumbnail_request(2).is_none());
    let batch = vec![delivery(1, 1), delivery(0, 1)];
    let outcomes = ui.thumbnails_available(&batch, (0, 0, 0), &|_: i32, _: &Vec<u8>| true);
    assert!(outcomes.iter().all(|o| matches!(o, Written::Ready { .. })));
    assert_eq!(ui.cell(1), (wide("b.jpg"), 0));
    assert_eq!(ui.cell(7), (vec![0], NO_IMAGE));
    assert_eq!(ui.evicted(&[1], &[1, 0]), Some((0, 0)));
    assert_eq!(ui.cell(1).1, NO_IMAGE);

    let rescaled = ui.rescale(192, 44).expect("another DPI");
    assert_eq!((rescaled.dpi, rescaled.slot_side), (192, Some(256)));
    ui.slots_rebuilt(256);
    assert_eq!(ui.cell(0).1, NO_IMAGE);
    assert_eq!(ui.rescale(192, 44), None);
    let placement = ui.relayout(2880, 1800, 44);
    assert_eq!(placement.panes.tree.width, 480);
    assert_eq!(placement.parts, [260, 2620, -1]);
    assert_eq!(ui.apply_focus(PaneSide::Tree), ID_TREE);
    assert_eq!(ui.apply_focus(PaneSide::Grid), ID_GRID);
}

/// Entering browse mode from an image: the tree opens down to its folder.
#[test]
fn the_tree_opens_down_to_a_folder() {
    let mut ui = browser();
    assert_eq!(ui.tree_root_paths(), vec![r"D:\".to_string()]);
    ui.tree.inserted(r"D:\", 1);
    ui.reveal_folder_in_tree(chain(&[r"D:\", r"D:\Trip"]));
    assert!(ui.reveal_pending());
    let wait = RevealMove {
        step: RevealStep::Expand(1),
        go_on: false,
    };
    assert_eq!(ui.advance_reveal(), wait);
    // Expanding asks for a scan, once.
    assert_eq!(ui.request_children(0, 10).as_deref(), Some(r"D:\"));
    assert_eq!(ui.request_children(0, 11), None);
    assert_eq!(ui.request_children(5, 11), None);
    assert_eq!(ui.status_fields(500, 300).count, "Loading…");
    assert_eq!(ui.status_fields(100, 300).count, "No images");

    let rows = ui
        .tree_children_loaded(r"D:\", chain(&[r"D:\Home", r"D:\Trip"]))
        .expect("the root has a row");
    assert_eq!((rows.parent, rows.claimed), (1, 1));
    assert_eq!(rows.rows[1].label, "Trip");
    for (i, row) in rows.rows.iter().enumerate() {
        ui.tree.inserted(&row.path, 10 + i as isize);
    }
    let go = RevealMove {
        step: RevealStep::Expand(1),
        go_on: true,
    };
    assert_eq!(ui.advance_reveal(), go);
    let done = RevealMove {
        step: RevealStep::Select(11),
        go_on: false,
    };
    assert_eq!(ui.advance_reveal(), done);
    assert!(!ui.reveal_pending());

    let leaf = ui.tree_children_loaded(r"D:\Home", Vec::new()).expect("it has a row");
    assert_eq!((leaf.parent, leaf.claimed), (10, 0));
    assert!(ui.tree_children_loaded(r"E:\", Vec::new()).is_none());
    ui.reload_tree_node(r"D:\");
    assert_eq!(ui.request_children(0, 20).as_deref(), Some(r"D:\"));
}

// ----- the tree -----

fn root(name: &str, path: &str) -> Root {
    Root {
        name: name.to_string(),
        path: path.to_string(),
    }
}

fn chain(paths: &[&str]) -> Vec<String> {
    paths.iter().map(|path| path.to_string()).collect()
}

#[test]
fn rows_are_found_however_they_are_spelled() {
    let mut tree = Tree::new(vec![root("Photos (D:)", r"D:\")]);
    assert_eq!(tree.root_paths(), vec![r"D:\".to_string()]);
    assert_eq!(tree.next_index(), 0);
    assert!(tree.inserted(r"D:\Trip", 11));
    assert!(!tree.inserted(r"D:\Lost", 0));
    assert!(tree.inserted(r"D:\Home", 12));
    assert_eq!(tree.next_index(), 2);
    assert_eq!(tree.item_of(r"d:\trip"), Some(11));
    assert_eq!(tree.item_of(r"\\?\D:\Home"), Some(12));
    assert_eq!(tree.item_of(r"D:\Lost"), None);
    assert_eq!(tree.row_path(1).map(String::as_str), Some(r"D:\Home"));
    assert_eq!(tree.row_path(2), None);
    // A re-scan inserts the row again, and the new one counts.
    assert!(tree.inserted(r"D:\Trip", 21));
    assert_eq!(tree.item_of(r"D:\Trip"), Some(21));
    assert_eq!(child_label(r"D:\Trip\Day 1"), "Day 1");
    assert_eq!(child_label(r"D:\"), "");
    assert_eq!((claimed_children(3), claimed_children(0)), (1, 0));
}

/// A walk expands each ancestor, waits where a scan is out, and selects the target.
#[test]
fn a_reveal_walks_down_to_its_folder() {
    let mut tree = Tree::new(Vec::new());
    tree.inserted(r"D:\", 1);
    tree.start_reveal(chain(&[r"D:\", r"D:\Trip", r"D:\Trip\Day 1"]));
    assert!(tree.reveal_pending());
    assert_eq!(tree.reveal_step(), RevealStep::Expand(1));
    assert!(!tree.expanded(false));
    // The scan lands, and the delivery resumes the walk.
    tree.inserted(r"D:\Trip", 2);
    assert_eq!(tree.reveal_step(), RevealStep::Expand(1));
    assert!(tree.expanded(true));
    assert_eq!(tree.reveal_step(), RevealStep::Expand(2));
    assert!(tree.expanded(true));
    assert_eq!(tree.reveal_step(), RevealStep::Wait);
    tree.inserted(r"D:\Trip\Day 1", 3);
    assert_eq!(tree.reveal_step(), RevealStep::Select(3));
    assert!(!tree.reveal_pending());
    assert_eq!(tree.reveal_step(), RevealStep::Wait);
    tree.start_reveal(Vec::new());
    assert!(!tree.reveal_pending());
}

// ----- the rows that Windows reports -----

#[test]
fn reported_drives_and_folders_become_rows() {
    let known = known_folders([Some(r"C:\Users\dave\Pictures".to_string()), None, None]);
    assert_eq!(known.len(), 1);
    assert_eq!(known[0].name, "Pictures");

    let reported = vec![
        Drive {
            letter: 'C',
            kind: DriveKind::Fixed,
            label: None,
        },
        Drive {
            letter: 'Z',
            kind: DriveKind::Remote,
            label: Some("Stale".to_string()),
        },
    ];
    let rows = drives(&reported);
    assert_eq!(rows[0].name, "Local disk (C:)");
    assert_eq!(rows[1].name, "Network drive (Z:)");
    assert_eq!(rows[1].path, r"Z:\");
    assert!(!asks_for_label(DriveKind::Remote));
    assert!(asks_for_label(DriveKind::CdRom));

    let all = enumerate([None, None, Some(r"c:\".to_string())], &reported);
    let names: Vec<&str> = all.iter().map(|row| row.name.as_str()).collect();
    assert_eq!(names, vec!["Downloads", "Network drive (Z:)"]);
}

#[test]
fn a_volume_label_ends_at_its_terminator() {
    let mut buffer = wide("Trip");
    buffer.extend_from_slice(&[0x41, 0x42]);
    assert_eq!(volume_label(&buffer).as_deref(), Some("Trip"));
    assert_eq!(volume_label(&[0, 0x41]), None);
    assert_eq!(volume_label(&wide("   ")), None);
}
