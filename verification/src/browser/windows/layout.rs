//! Where the browse panes go, in device pixels at the monitor's own DPI.
//!
//! The shape is Explorer's: a folder tree on the left, a splitter, a thumbnail grid filling the
//! rest, and a status bar across the bottom.

use vstd::prelude::*;

verus! {

/// A box in device pixels, top-left origin: the coordinate space `SetWindowPos` takes.
#[derive(Debug, Clone, Copy, PartialEq, Eq, Structural)]
pub struct Rect {
    pub x: i32,
    pub y: i32,
    pub width: i32,
    pub height: i32,
}

impl Rect {
    /// The first column past the box.
    pub open spec fn right_edge(self) -> int {
        self.x + self.width
    }

    /// The first row past the box.
    pub open spec fn bottom_edge(self) -> int {
        self.y + self.height
    }

    /// Whether a pixel lies in the box.
    pub open spec fn holds(self, x: int, y: int) -> bool {
        self.x <= x < self.right_edge() && self.y <= y < self.bottom_edge()
    }

    /// The first column past the box.
    pub fn right(&self) -> (edge: i32)
        requires
            i32::MIN <= self.right_edge() <= i32::MAX,
        ensures
            edge == self.right_edge(),
    {
        self.x + self.width
    }

    /// The first row past the box.
    pub fn bottom(&self) -> (edge: i32)
        requires
            i32::MIN <= self.bottom_edge() <= i32::MAX,
        ensures
            edge == self.bottom_edge(),
    {
        self.y + self.height
    }

    /// Whether each box starts before the other ends, both ways.
    pub open spec fn crosses(self, other: Rect) -> bool {
        &&& self.x < other.right_edge()
        &&& other.x < self.right_edge()
        &&& self.y < other.bottom_edge()
        &&& other.y < self.bottom_edge()
    }

    /// True when the two boxes share any pixel.
    pub fn overlaps(&self, other: &Rect) -> (yes: bool)
        requires
            i32::MIN <= self.right_edge() <= i32::MAX,
            i32::MIN <= self.bottom_edge() <= i32::MAX,
            i32::MIN <= other.right_edge() <= i32::MAX,
            i32::MIN <= other.bottom_edge() <= i32::MAX,
        ensures
            yes == self.crosses(*other),
    {
        self.x < other.right() && other.x < self.right() && self.y < other.bottom() && other.y
            < self.bottom()
    }
}

/// The larger of two numbers.
pub open spec fn larger(a: int, b: int) -> int {
    if a < b {
        b
    } else {
        a
    }
}

/// The smaller of two numbers.
pub open spec fn smaller(a: int, b: int) -> int {
    if a < b {
        a
    } else {
        b
    }
}

/// The DPI that's meant: `GetDpiForWindow` answers 0 when it can't tell, which means 96.
pub open spec fn effective_dpi(dpi: u32) -> int {
    if dpi == 0 {
        96
    } else {
        dpi as int
    }
}

/// `value * dpi / 96`, rounded to the nearest whole number, halves away from zero.
pub open spec fn nearest(value: int, dpi: int) -> int {
    if value >= 0 {
        (value * dpi + 48) / 96
    } else {
        -((-value * dpi + 48) / 96)
    }
}

/// Logical pixels in device pixels. A number that doesn't fit is the largest that does.
pub open spec fn scaled(value: i32, dpi: u32) -> i32 {
    let exact = nearest(value as int, effective_dpi(dpi));
    if i32::MIN <= exact <= i32::MAX {
        exact as i32
    } else {
        i32::MAX
    }
}

/// Logical pixels to device pixels, the way `MulDiv` does it: multiply, divide, round to
/// nearest.
pub fn scale(value: i32, dpi: u32) -> (pixels: i32)
    ensures
        pixels == scaled(value, dpi),
{
    let dpi: i64 = if dpi == 0 {
        96
    } else {
        dpi as i64
    };
    let magnitude: i64 = if value >= 0 {
        value as i64
    } else {
        -(value as i64)
    };
    assert(0 <= magnitude * dpi <= 0x8000_0000 * 0xffff_ffff) by (nonlinear_arith)
        requires
            0 <= magnitude <= 0x8000_0000,
            0 <= dpi <= 0xffff_ffff,
    ;
    let rounded: i64 = (magnitude * dpi + 48) / 96;
    let signed: i64 = if value >= 0 {
        rounded
    } else {
        -rounded
    };
    if signed >= -0x8000_0000 && signed <= 0x7fff_ffff {
        signed as i32
    } else {
        i32::MAX
    }
}

/// The tree pane's width on first entry, in logical pixels.
pub const TREE_PANE_DEFAULT: i32 = 240;

/// How narrow the tree pane may be dragged before it stops.
pub const TREE_PANE_MIN: i32 = 120;

/// How narrow the grid pane may be squeezed. One thumbnail column plus its scrollbar.
pub const GRID_PANE_MIN: i32 = 200;

/// The splitter's thickness in logical pixels.
pub const SPLITTER_WIDTH: i32 = 6;

/// One grid cell's width in logical pixels, thumbnail plus the padding around it.
pub const CELL_WIDTH: i32 = 160;

/// The thumbnail inside a cell, in logical pixels.
pub const CELL_THUMBNAIL: i32 = 128;

/// Room under the thumbnail for one line of filename, in logical pixels.
pub const CELL_LABEL_HEIGHT: i32 = 34;

/// The browse container's measurements at one monitor's DPI, in device pixels.
#[derive(Debug, Clone, Copy, PartialEq, Eq, Structural)]
pub struct Metrics {
    /// The splitter's thickness.
    pub splitter: i32,
    /// The narrowest the tree pane may be.
    pub min_tree: i32,
    /// The narrowest the grid pane may be.
    pub min_grid: i32,
    /// The status bar's height, as the control itself reported it.
    pub status_bar: i32,
}

impl Metrics {
    /// Whether no measurement is negative.
    pub open spec fn wf(self) -> bool {
        self.splitter >= 0 && self.min_tree >= 0 && self.min_grid >= 0 && self.status_bar >= 0
    }

    /// The measurements at `dpi`, given the height the status bar reported.
    pub fn for_dpi(dpi: u32, status_bar_height: i32) -> (metrics: Self)
        ensures
            metrics.splitter == scaled(SPLITTER_WIDTH, dpi),
            metrics.min_tree == scaled(TREE_PANE_MIN, dpi),
            metrics.min_grid == scaled(GRID_PANE_MIN, dpi),
            metrics.status_bar == larger(status_bar_height as int, 0),
            metrics.wf(),
    {
        Metrics {
            splitter: scale(SPLITTER_WIDTH, dpi),
            min_tree: scale(TREE_PANE_MIN, dpi),
            min_grid: scale(GRID_PANE_MIN, dpi),
            status_bar: if status_bar_height < 0 {
                0
            } else {
                status_bar_height
            },
        }
    }
}

/// Where each child window goes inside the browse container's client area.
#[derive(Debug, Clone, Copy, PartialEq, Eq, Structural)]
pub struct Layout {
    pub tree: Rect,
    pub splitter: Rect,
    pub grid: Rect,
    pub status_bar: Rect,
}

/// How wide the tree may get so that the grid keeps its minimum.
pub open spec fn widest_tree(client_width: int, metrics: Metrics) -> int {
    larger(client_width - metrics.splitter - metrics.min_grid, 0)
}

/// A number held between two others.
pub open spec fn held_between(value: int, low: int, high: int) -> int {
    if value < low {
        low
    } else if value > high {
        high
    } else {
        value
    }
}

/// The tree width to use. The grid's minimum wins over the tree's.
pub open spec fn clamped_tree_width(desired: int, client_width: int, metrics: Metrics) -> int {
    let widest = widest_tree(client_width, metrics);
    if widest <= metrics.min_tree {
        widest
    } else {
        held_between(desired, metrics.min_tree as int, widest)
    }
}

/// Whether the room for the tree can be computed in 32 bits.
pub open spec fn room_fits(client_width: i32, metrics: Metrics) -> bool {
    &&& i32::MIN <= client_width - metrics.splitter <= i32::MAX
    &&& i32::MIN <= client_width - metrics.splitter - metrics.min_grid <= i32::MAX
}

/// The tree width to actually use, given what the user has dragged it to and how much room there
/// is. Both minimums are honoured while the window is wide enough to hold them; once it isn't,
/// the grid's minimum wins and the tree gives up whatever is left, down to nothing.
pub fn clamp_tree_width(desired: i32, client_width: i32, metrics: Metrics) -> (width: i32)
    requires
        room_fits(client_width, metrics),
    ensures
        width == clamped_tree_width(desired as int, client_width as int, metrics),
{
    let room: i32 = client_width - metrics.splitter - metrics.min_grid;
    let widest: i32 = if room < 0 {
        0
    } else {
        room
    };
    if widest <= metrics.min_tree {
        return widest;
    }
    if desired < metrics.min_tree {
        metrics.min_tree
    } else if desired > widest {
        widest
    } else {
        desired
    }
}

/// The status bar's height: what it reported, and never more than the whole window.
pub open spec fn status_height(client_height: i32, metrics: Metrics) -> int {
    smaller(metrics.status_bar as int, larger(client_height as int, 0))
}

/// The tree's width inside the client area.
pub open spec fn tree_share(client_width: i32, tree_width: i32) -> int {
    held_between(tree_width as int, 0, larger(client_width as int, 0))
}

/// The splitter's width inside what the tree leaves.
pub open spec fn splitter_share(client_width: i32, tree_width: i32, metrics: Metrics) -> int {
    smaller(
        metrics.splitter as int,
        larger(client_width as int, 0) - tree_share(client_width, tree_width),
    )
}

/// Whether the panes' sizes can be computed in 32 bits.
pub open spec fn panes_fit(
    client_width: i32,
    client_height: i32,
    tree_width: i32,
    metrics: Metrics,
) -> bool {
    &&& larger(client_height as int, 0) - status_height(client_height, metrics) <= i32::MAX
    &&& larger(client_width as int, 0) - tree_share(client_width, tree_width) - splitter_share(
        client_width,
        tree_width,
        metrics,
    ) <= i32::MAX
}

/// Lays the four children out in a `client_width` × `client_height` container. `tree_width` is
/// taken as given: the caller has already put it through [`clamp_tree_width`], which is also
/// what a splitter drag calls.
pub fn layout(client_width: i32, client_height: i32, tree_width: i32, metrics: Metrics) -> (panes:
    Layout)
    requires
        panes_fit(client_width, client_height, tree_width, metrics),
    ensures
        ({
            let width = larger(client_width as int, 0);
            let content = larger(client_height as int, 0) - status_height(client_height, metrics);
            let tree = tree_share(client_width, tree_width);
            let splitter = splitter_share(client_width, tree_width, metrics);
            &&& panes.tree.x == 0
            &&& panes.tree.y == 0
            &&& panes.tree.width == tree
            &&& panes.tree.height == content
            &&& panes.splitter.x == tree
            &&& panes.splitter.y == 0
            &&& panes.splitter.width == splitter
            &&& panes.splitter.height == content
            &&& panes.grid.x == tree + splitter
            &&& panes.grid.y == 0
            &&& panes.grid.width == width - tree - splitter
            &&& panes.grid.height == content
            &&& panes.status_bar.x == 0
            &&& panes.status_bar.y == content
            &&& panes.status_bar.width == width
            &&& panes.status_bar.height == status_height(client_height, metrics)
        }),
{
    let width: i32 = if client_width < 0 {
        0
    } else {
        client_width
    };
    let height: i32 = if client_height < 0 {
        0
    } else {
        client_height
    };
    let status_height: i32 = if metrics.status_bar < height {
        metrics.status_bar
    } else {
        height
    };
    let content_height: i32 = height - status_height;
    let tree: i32 = if tree_width < 0 {
        0
    } else if tree_width > width {
        width
    } else {
        tree_width
    };
    let splitter: i32 = if metrics.splitter < width - tree {
        metrics.splitter
    } else {
        width - tree
    };
    Layout {
        tree: Rect { x: 0, y: 0, width: tree, height: content_height },
        splitter: Rect { x: tree, y: 0, width: splitter, height: content_height },
        grid: Rect {
            x: tree + splitter,
            y: 0,
            width: width - tree - splitter,
            height: content_height,
        },
        status_bar: Rect { x: 0, y: content_height, width, height: status_height },
    }
}

/// The tree width a splitter drag lands on. `pointer_x` is the pointer's position in the
/// container's client coordinates and `grab_offset` is how far into the splitter the drag
/// started, so the splitter stays under the same pixel of the pointer for the whole drag.
pub fn tree_width_for_drag(
    pointer_x: i32,
    grab_offset: i32,
    client_width: i32,
    metrics: Metrics,
) -> (width: i32)
    requires
        i32::MIN <= pointer_x - grab_offset <= i32::MAX,
        room_fits(client_width, metrics),
    ensures
        width == clamped_tree_width(pointer_x - grab_offset, client_width as int, metrics),
{
    clamp_tree_width(pointer_x - grab_offset, client_width, metrics)
}

// ----- laws -----

/// At 96 DPI a logical pixel is a device pixel, and so it is where the DPI isn't known.
pub proof fn ninety_six_dpi_changes_nothing(value: i32)
    ensures
        scaled(value, 96) == value,
        scaled(value, 0) == value,
{
}

/// Scaling keeps the order of lengths.
pub proof fn scaling_keeps_order(a: i32, b: i32, dpi: u32)
    requires
        0 <= a <= b,
    ensures
        0 <= scaled(a, dpi) <= scaled(b, dpi),
{
    let d = effective_dpi(dpi);
    assert(0 <= a * d <= b * d) by (nonlinear_arith)
        requires
            0 <= a <= b,
            d >= 0,
    ;
}

/// A scaled length is off by half a pixel at most.
pub proof fn scaling_rounds_to_nearest(value: int, dpi: int)
    requires
        dpi >= 0,
    ensures
        -48 <= nearest(value, dpi) * 96 - value * dpi <= 48,
{
    if value < 0 {
        assert(-value * dpi == -(value * dpi)) by (nonlinear_arith);
    }
}

/// Two boxes overlap just where some pixel lies in both.
pub proof fn overlapping_is_sharing_a_pixel(a: Rect, b: Rect)
    requires
        a.width >= 0,
        a.height >= 0,
        b.width >= 0,
        b.height >= 0,
    ensures
        a.crosses(b) && a.width > 0 && a.height > 0 && b.width > 0 && b.height > 0 ==> exists|
            x: int,
            y: int,
        |
            a.holds(x, y) && #[trigger] b.holds(x, y),
        (exists|x: int, y: int| a.holds(x, y) && #[trigger] b.holds(x, y)) ==> a.crosses(b),
{
    let x = larger(a.x as int, b.x as int);
    let y = larger(a.y as int, b.y as int);
    if a.crosses(b) && a.width > 0 && a.height > 0 && b.width > 0 && b.height > 0 {
        assert(a.holds(x, y) && b.holds(x, y));
    }
}

/// What `layout` returns.
pub open spec fn laid_out(
    client_width: i32,
    client_height: i32,
    tree_width: i32,
    metrics: Metrics,
    panes: Layout,
) -> bool {
    call_ensures(layout, (client_width, client_height, tree_width, metrics), panes)
}

/// The four panes tile the client area at any size and any tree width: nothing overlaps, nothing
/// is left over, and no pane has a negative size.
pub proof fn the_panes_tile(
    client_width: i32,
    client_height: i32,
    tree_width: i32,
    metrics: Metrics,
    panes: Layout,
)
    requires
        metrics.wf(),
        laid_out(client_width, client_height, tree_width, metrics, panes),
    ensures
        panes.tree.right_edge() == panes.splitter.x,
        panes.splitter.right_edge() == panes.grid.x,
        panes.grid.right_edge() == larger(client_width as int, 0),
        panes.tree.bottom_edge() == panes.status_bar.y,
        panes.splitter.bottom_edge() == panes.status_bar.y,
        panes.grid.bottom_edge() == panes.status_bar.y,
        panes.status_bar.right_edge() == larger(client_width as int, 0),
        panes.status_bar.bottom_edge() == larger(client_height as int, 0),
        panes.tree.width >= 0 && panes.tree.height >= 0,
        panes.splitter.width >= 0 && panes.splitter.height >= 0,
        panes.grid.width >= 0 && panes.grid.height >= 0,
        panes.status_bar.width >= 0 && panes.status_bar.height >= 0,
        !panes.tree.crosses(panes.splitter),
        !panes.tree.crosses(panes.grid),
        !panes.splitter.crosses(panes.grid),
        !panes.tree.crosses(panes.status_bar),
        !panes.splitter.crosses(panes.status_bar),
        !panes.grid.crosses(panes.status_bar),
{
}

/// A window of any size can be laid out once the measurements aren't negative.
pub proof fn every_window_lays_out(
    client_width: i32,
    client_height: i32,
    tree_width: i32,
    metrics: Metrics,
)
    requires
        metrics.wf(),
    ensures
        panes_fit(client_width, client_height, tree_width, metrics),
{
}

/// The tree is never negative, the grid keeps its minimum for as long as there's room for it and
/// the splitter, and the tree keeps its own for as long as there's room for all three.
pub proof fn minimums_are_honoured(desired: int, client_width: int, metrics: Metrics)
    requires
        metrics.wf(),
    ensures
        ({
            let tree = clamped_tree_width(desired, client_width, metrics);
            &&& tree >= 0
            &&& client_width >= metrics.splitter + metrics.min_grid ==> client_width - tree
                - metrics.splitter >= metrics.min_grid
            &&& client_width >= metrics.splitter + metrics.min_grid + metrics.min_tree ==> tree
                >= metrics.min_tree
        }),
{
}

/// A width that was clamped stays when it's clamped again.
pub proof fn clamping_is_idempotent(desired: int, client_width: int, metrics: Metrics)
    ensures
        clamped_tree_width(
            clamped_tree_width(desired, client_width, metrics),
            client_width,
            metrics,
        ) == clamped_tree_width(desired, client_width, metrics),
{
}

/// A drag keeps the splitter under the pointer wherever both minimums allow it.
pub proof fn a_drag_follows_the_pointer(
    pointer_x: int,
    grab_offset: int,
    client_width: int,
    metrics: Metrics,
)
    requires
        metrics.min_tree <= pointer_x - grab_offset <= widest_tree(client_width, metrics),
    ensures
        clamped_tree_width(pointer_x - grab_offset, client_width, metrics) + grab_offset
            == pointer_x,
{
}

/// A scaled length is within half a device pixel of what the DPI asks for, halves going away from
/// zero, wherever that fits.
pub proof fn lengths_follow_the_dpi(value: i32, dpi: u32, pixels: i32)
    requires
        call_ensures(scale, (value, dpi), pixels),
        dpi > 0,
        -0x8000_0000 * 96 < value * dpi < 0x7fff_ffff * 96,
    ensures
        value >= 0 ==> -48 < pixels * 96 - value * dpi <= 48,
        value < 0 ==> -48 <= pixels * 96 - value * dpi < 48,
{
    let d = dpi as int;
    let v = value as int;
    if v >= 0 {
        assert(0 <= v * d) by (nonlinear_arith)
            requires
                v >= 0,
                d >= 0,
        ;
    } else {
        assert(-v * d == -(v * d)) by (nonlinear_arith);
        assert(v * d <= 0) by (nonlinear_arith)
            requires
                v < 0,
                d >= 0,
        ;
    }
}

/// What's too long for the screen's coordinates is as long as they go.
pub proof fn lengths_stop_at_the_largest(value: i32, dpi: u32, pixels: i32)
    requires
        call_ensures(scale, (value, dpi), pixels),
        value * dpi >= 0x7fff_ffff * 96,
    ensures
        pixels == 0x7fff_ffff,
{
    let d = dpi as int;
    let v = value as int;
    if v < 0 || d == 0 {
        assert(v * d <= 0) by (nonlinear_arith)
            requires
                v < 0 && d >= 0 || d == 0,
        ;
    }
}

/// The splitter is 6 logical pixels thick, the tree at least 120 wide and the grid at least 200,
/// each on its own; the status bar is as high as it says, and never less than nothing.
pub proof fn measurements_are_of_their_own_pane(
    dpi: u32,
    height: i32,
    metrics: Metrics,
    splitter: i32,
    tree: i32,
    grid: i32,
)
    requires
        call_ensures(Metrics::for_dpi, (dpi, height), metrics),
        call_ensures(scale, (6, dpi), splitter),
        call_ensures(scale, (120, dpi), tree),
        call_ensures(scale, (200, dpi), grid),
    ensures
        metrics.splitter == splitter,
        metrics.min_tree == tree,
        metrics.min_grid == grid,
        height >= 0 ==> metrics.status_bar == height,
        height < 0 ==> metrics.status_bar == 0,
{
}

/// Two boxes overlap exactly where each starts before the other ends, both ways.
pub proof fn boxes_end_where_their_size_takes_them(
    a: Rect,
    b: Rect,
    right: i32,
    bottom: i32,
    overlap: bool,
)
    requires
        call_ensures(Rect::right, (&a,), right),
        call_ensures(Rect::bottom, (&a,), bottom),
        call_ensures(Rect::overlaps, (&a, &b), overlap),
    ensures
        right - a.x == a.width,
        bottom - a.y == a.height,
        overlap <==> a.x < b.x + b.width && b.x < a.x + a.width && a.y < b.y + b.height && b.y < a.y
            + a.height,
{
}

/// Where the client area has room, the tree is as wide as was asked for, the splitter as thick
/// and the status bar as high as they measure, and the grid takes what's left.
pub proof fn panes_have_their_sizes(
    client_width: i32,
    client_height: i32,
    tree_width: i32,
    metrics: Metrics,
    panes: Layout,
)
    requires
        call_ensures(layout, (client_width, client_height, tree_width, metrics), panes),
        metrics.wf(),
        tree_width >= 0,
        tree_width + metrics.splitter <= client_width,
        metrics.status_bar <= client_height,
    ensures
        panes.tree.x == 0 && panes.tree.y == 0,
        panes.tree.width == tree_width,
        panes.splitter.x == tree_width && panes.splitter.y == 0,
        panes.splitter.width == metrics.splitter,
        panes.grid.x == tree_width + metrics.splitter && panes.grid.y == 0,
        panes.grid.width == client_width - tree_width - metrics.splitter,
        panes.tree.height == client_height - metrics.status_bar,
        panes.splitter.height == client_height - metrics.status_bar,
        panes.grid.height == client_height - metrics.status_bar,
        panes.status_bar.x == 0 && panes.status_bar.width == client_width,
        panes.status_bar.y == client_height - metrics.status_bar,
        panes.status_bar.height == metrics.status_bar,
{
}

/// Where the client area has too little room, the tree has the first claim on the width, then the
/// splitter, and the status bar on the height.
pub proof fn panes_share_too_little_room(
    client_width: i32,
    client_height: i32,
    tree_width: i32,
    metrics: Metrics,
    panes: Layout,
)
    requires
        call_ensures(layout, (client_width, client_height, tree_width, metrics), panes),
        metrics.wf(),
    ensures
        tree_width >= client_width > 0 ==> panes.tree.width == client_width && panes.splitter.width
            == 0 && panes.grid.width == 0,
        0 <= tree_width <= client_width < tree_width + metrics.splitter ==> panes.tree.width
            == tree_width && panes.splitter.width == client_width - tree_width && panes.grid.width
            == 0,
        tree_width < 0 || client_width <= 0 ==> panes.tree.width == 0,
        0 < client_height < metrics.status_bar ==> panes.status_bar.height == client_height
            && panes.tree.height == 0 && panes.grid.height == 0,
        client_height <= 0 ==> panes.status_bar.height == 0,
{
}

/// The tree is as wide as was asked for between its own minimum and what the splitter and the
/// grid's minimum leave; past either end it's at that end. Where there's no room for both
/// minimums it has what the grid leaves, or nothing.
pub proof fn tree_widths_stay_between_the_minimums(
    desired: i32,
    client_width: i32,
    metrics: Metrics,
    width: i32,
)
    requires
        call_ensures(clamp_tree_width, (desired, client_width, metrics), width),
        metrics.wf(),
    ensures
        ({
            let room = client_width - metrics.splitter - metrics.min_grid;
            &&& metrics.min_tree <= desired <= room ==> width == desired
            &&& desired < metrics.min_tree <= room ==> width == metrics.min_tree
            &&& desired > room >= metrics.min_tree ==> width == room
            &&& 0 <= room < metrics.min_tree ==> width == room
            &&& room < 0 ==> width == 0
        }),
{
}

/// A drag asks for the width that puts the grabbed pixel of the splitter under the pointer.
pub proof fn a_drag_asks_for_the_pointers_width(
    pointer_x: i32,
    grab_offset: i32,
    client_width: i32,
    metrics: Metrics,
    dragged: i32,
    desired: i32,
    width: i32,
)
    requires
        call_ensures(
            tree_width_for_drag,
            (pointer_x, grab_offset, client_width, metrics),
            dragged,
        ),
        call_ensures(clamp_tree_width, (desired, client_width, metrics), width),
        desired + grab_offset == pointer_x,
    ensures
        dragged == width,
{
}

} // verus!
