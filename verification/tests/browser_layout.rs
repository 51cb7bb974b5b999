//! Where the browse panes go.

use prvw::browser::windows::layout::{
    clamp_tree_width, layout, scale, tree_width_for_drag, Metrics, Rect, TREE_PANE_DEFAULT,
};

/// A 1440 × 900 window at 100 %, with a 22-pixel status bar.
fn metrics() -> Metrics {
    Metrics::for_dpi(96, 22)
}

#[test]
fn logical_pixels_scale_the_way_muldiv_does() {
    assert_eq!(scale(240, 96), 240);
    assert_eq!(scale(240, 144), 360); // 150 %
    assert_eq!(scale(240, 192), 480); // 200 %
    // Rounds to nearest rather than truncating: 6 logical at 125 % is 7.5.
    assert_eq!(scale(6, 120), 8);
    // `GetDpiForWindow` answers 0 when it can't tell, which means 100 %.
    assert_eq!(scale(10, 0), 10);
}

#[test]
fn the_four_panes_tile_the_client_area_with_no_gap_and_no_overlap() {
    let m = metrics();
    let l = layout(1440, 900, 240, m);

    assert_eq!(
        l.tree,
        Rect {
            x: 0,
            y: 0,
            width: 240,
            height: 878
        }
    );
    assert_eq!(l.splitter.x, 240);
    assert_eq!(l.splitter.width, 6);
    assert_eq!(l.grid.x, 246);
    assert_eq!(l.grid.right(), 1440);
    assert_eq!(
        l.status_bar,
        Rect {
            x: 0,
            y: 878,
            width: 1440,
            height: 22
        }
    );

    // Nothing overlaps, and the three content panes span the full width.
    for (a, b) in [
        (l.tree, l.splitter),
        (l.splitter, l.grid),
        (l.tree, l.grid),
        (l.grid, l.status_bar),
        (l.tree, l.status_bar),
    ] {
        assert!(!a.overlaps(&b), "{a:?} overlaps {b:?}");
    }
    assert_eq!(l.tree.width + l.splitter.width + l.grid.width, 1440);
    assert_eq!(l.grid.bottom(), l.status_bar.y);
    assert_eq!(l.status_bar.bottom(), 900);
}

/// Every DPI the panes have to tile at. A rounding error here shows up as a one-pixel stripe
/// of window background between two controls.
#[test]
fn the_panes_tile_at_every_scale_factor() {
    for dpi in [96, 120, 144, 168, 192, 240] {
        let m = Metrics::for_dpi(dpi, scale(22, dpi));
        let width = scale(1200, dpi);
        let height = scale(800, dpi);
        let tree = clamp_tree_width(scale(TREE_PANE_DEFAULT, dpi), width, m);
        let l = layout(width, height, tree, m);
        assert_eq!(
            l.tree.width + l.splitter.width + l.grid.width,
            width,
            "at {dpi} DPI"
        );
        assert_eq!(
            l.grid.bottom() + l.status_bar.height,
            height,
            "at {dpi} DPI"
        );
        assert!(!l.tree.overlaps(&l.grid), "at {dpi} DPI");
    }
}

#[test]
fn a_drag_keeps_the_splitter_under_the_pointer() {
    let m = metrics();
    // Grabbed 3 pixels into the splitter, dragged to x = 403: the tree ends at 400.
    assert_eq!(tree_width_for_drag(403, 3, 1440, m), 400);
    // Dragged left past the tree's minimum: it stops there rather than vanishing.
    assert_eq!(tree_width_for_drag(20, 3, 1440, m), 120);
    // Dragged right past the grid's minimum: it stops leaving the grid its 200.
    assert_eq!(tree_width_for_drag(1439, 3, 1440, m), 1440 - 6 - 200);
}

/// Dragging the window narrower than both minimums must not produce a negative pane, which
/// `SetWindowPos` can't express and which would make the grid disappear rather than shrink.
#[test]
fn a_window_too_narrow_for_both_minimums_still_lays_out() {
    let m = metrics();
    for width in [0, 1, 50, 200, 206, 320] {
        let tree = clamp_tree_width(240, width, m);
        assert!(tree >= 0, "tree {tree} at width {width}");
        let l = layout(width, 400, tree, m);
        for rect in [l.tree, l.splitter, l.grid, l.status_bar] {
            assert!(
                rect.width >= 0 && rect.height >= 0,
                "{rect:?} at width {width}"
            );
        }
        assert_eq!(l.tree.width + l.splitter.width + l.grid.width, width);
    }
    // The grid keeps its minimum for as long as there is room for it, and the tree pays.
    assert_eq!(clamp_tree_width(240, 300, m), 94);
    assert_eq!(clamp_tree_width(240, 100, m), 0);
}

/// A window shorter than the status bar is a degenerate case a resize animation can pass
/// through, and a negative content height would make every pane invisible until the next
/// layout.
#[test]
fn a_window_shorter_than_the_status_bar_still_lays_out() {
    let m = metrics();
    let l = layout(800, 10, 240, m);
    assert_eq!(l.status_bar.height, 10);
    assert_eq!(l.tree.height, 0);
    assert_eq!(l.grid.height, 0);
    assert_eq!(l.status_bar.y, 0);
}

/// The default is a compromise, so pin it: on the narrowest laptop Prvw supports the grid
/// still gets more room than the tree.
#[test]
fn the_default_tree_width_leaves_the_grid_the_larger_half() {
    let m = metrics();
    let tree = clamp_tree_width(TREE_PANE_DEFAULT, 1024, m);
    let l = layout(1024, 700, tree, m);
    assert_eq!(tree, TREE_PANE_DEFAULT);
    assert!(l.grid.width > l.tree.width);
}
