//! The container window: it holds the tree, the grid and the status bar, and draws the splitter
//! between the panes itself.
//!
//! This module keeps what the container knows, and says what each of its messages comes to.

use super::grid;
use crate::browser::windows::keys::{browse_keydown_command, vk};
use crate::browser::windows::layout::{
    clamp_tree_width, clamped_tree_width, larger, layout, panes_fit, room_fits,
    scale, scaled, tree_width_for_drag, Layout, Metrics, TREE_PANE_DEFAULT,
};
use crate::browser::windows::status::{
    count_text, fields, selected_text, size_text, Fields, Status,
};
use crate::chrome::Theme;
use crate::commands::AppCommand;
use crate::paths::{path_key, same_path};
use crate::text::{encode_utf16, utf16};
use vstd::prelude::*;

verus! {

/// Child-window ids, so that a notification says which control it came from.
pub const ID_TREE: i32 = 1001;

pub const ID_GRID: i32 = 1002;

pub const ID_STATUS: i32 = 1003;

/// How wide the count and size panes are, in logical pixels. The name pane takes the rest,
/// because a file name is the one field with no bound on its length.
pub const STATUS_COUNT_WIDTH: i32 = 130;

pub const STATUS_SIZE_WIDTH: i32 = 130;

/// `WM_DESTROY`.
pub const WM_DESTROY: u32 = 0x0002;

/// `WM_SIZE`.
pub const WM_SIZE: u32 = 0x0005;

/// `WM_ERASEBKGND`.
pub const WM_ERASEBKGND: u32 = 0x0014;

/// `WM_SETCURSOR`.
pub const WM_SETCURSOR: u32 = 0x0020;

/// `WM_NOTIFY`.
pub const WM_NOTIFY: u32 = 0x004e;

/// `WM_CTLCOLORSTATIC`.
pub const WM_CTLCOLORSTATIC: u32 = 0x0138;

/// `WM_MOUSEMOVE`.
pub const WM_MOUSEMOVE: u32 = 0x0200;

/// `WM_LBUTTONDOWN`.
pub const WM_LBUTTONDOWN: u32 = 0x0201;

/// `WM_LBUTTONUP`.
pub const WM_LBUTTONUP: u32 = 0x0202;

/// A text as NUL-terminated UTF-16.
pub open spec fn wide_units(text: Seq<char>) -> Seq<u16> {
    utf16(text).push(0)
}

/// A text as a NUL-terminated UTF-16 buffer, for the Win32 `W` calls.
pub fn wide(text: &str) -> (units: Vec<u16>)
    ensures
        units@ == wide_units(text@),
{
    let mut units: Vec<u16> = encode_utf16(text);
    units.push(0);
    units
}

/// A 16-bit number as the signed one that its bits stand for.
pub open spec fn signed(word: int) -> int {
    if word < 0x8000 {
        word
    } else {
        word - 0x1_0000
    }
}

/// The signed number in the low half of a message's `lparam`.
pub fn low_word(lparam: u32) -> (value: i32)
    ensures
        value == signed(lparam as int % 0x1_0000),
{
    let word: i32 = (lparam % 0x1_0000) as i32;
    if word < 0x8000 {
        word
    } else {
        word - 0x1_0000
    }
}

/// The signed number in the high half of a message's `lparam`.
pub fn high_word(lparam: u32) -> (value: i32)
    ensures
        value == signed(lparam as int / 0x1_0000),
{
    let word: i32 = (lparam / 0x1_0000) as i32;
    if word < 0x8000 {
        word
    } else {
        word - 0x1_0000
    }
}

/// What a message of the container's asks for.
#[derive(Debug, Clone, Copy, PartialEq, Eq, Structural)]
pub enum ContainerEvent {
    /// Pass the size on to the status bar, then lay out again.
    Resized { width: i32, height: i32 },
    /// Paint the gap that the splitter lives in.
    EraseBackground,
    /// Colour the status bar's panes.
    ColorStatic,
    /// A control has something to say.
    Notify,
    /// The pointer is over the splitter, or wants to know.
    Cursor,
    /// The pointer moved.
    PointerMoved { x: i32 },
    /// The button went down.
    ButtonDown { x: i32 },
    /// The button came up.
    ButtonUp,
    /// The window goes, and everything with it.
    Destroyed,
    /// Someone else's.
    Other,
}

/// What a message stands for.
pub open spec fn event_of(message: u32, lparam: u32) -> ContainerEvent {
    let low = signed(lparam as int % 0x1_0000) as i32;
    let high = signed(lparam as int / 0x1_0000) as i32;
    if message == WM_SIZE {
        ContainerEvent::Resized { width: low, height: high }
    } else if message == WM_ERASEBKGND {
        ContainerEvent::EraseBackground
    } else if message == WM_CTLCOLORSTATIC {
        ContainerEvent::ColorStatic
    } else if message == WM_NOTIFY {
        ContainerEvent::Notify
    } else if message == WM_SETCURSOR {
        ContainerEvent::Cursor
    } else if message == WM_MOUSEMOVE {
        ContainerEvent::PointerMoved { x: low }
    } else if message == WM_LBUTTONDOWN {
        ContainerEvent::ButtonDown { x: low }
    } else if message == WM_LBUTTONUP {
        ContainerEvent::ButtonUp
    } else if message == WM_DESTROY {
        ContainerEvent::Destroyed
    } else {
        ContainerEvent::Other
    }
}

/// What a message of the container's asks for. `lparam` is the lower 32 bits of the message's.
pub fn container_event(message: u32, lparam: u32) -> (event: ContainerEvent)
    ensures
        event == event_of(message, lparam),
{
    match message {
        0x0005 => ContainerEvent::Resized { width: low_word(lparam), height: high_word(lparam) },
        0x0014 => ContainerEvent::EraseBackground,
        0x0138 => ContainerEvent::ColorStatic,
        0x004e => ContainerEvent::Notify,
        0x0020 => ContainerEvent::Cursor,
        0x0200 => ContainerEvent::PointerMoved { x: low_word(lparam) },
        0x0201 => ContainerEvent::ButtonDown { x: low_word(lparam) },
        0x0202 => ContainerEvent::ButtonUp,
        0x0002 => ContainerEvent::Destroyed,
        _ => ContainerEvent::Other,
    }
}

/// What a key in a pane comes to.
pub enum PaneKey {
    /// Select the parent folder: Explorer's Backspace.
    SelectParent,
    /// Route this command.
    Command(AppCommand),
    /// The control's own business.
    Control,
}

/// What a key in a pane comes to. Backspace is the tree's; three keys are commands; everything
/// else reaches the control.
pub fn pane_key(pane: i32, virtual_key: u32) -> (key: PaneKey)
    ensures
        key is SelectParent <==> pane == ID_TREE && virtual_key == vk::BACK,
        key is Command <==> virtual_key == vk::TAB || virtual_key == vk::ESCAPE || virtual_key
            == vk::RETURN,
        virtual_key == vk::TAB ==> key == PaneKey::Command(AppCommand::ToggleBrowseFocus),
        virtual_key == vk::ESCAPE ==> key == PaneKey::Command(AppCommand::EnterImageMode),
        virtual_key == vk::RETURN ==> key == PaneKey::Command(AppCommand::BrowseOpenSelected),
{
    if pane == ID_TREE && virtual_key == vk::BACK {
        return PaneKey::SelectParent;
    }
    match browse_keydown_command(virtual_key) {
        Some(command) => PaneKey::Command(command),
        None => PaneKey::Control,
    }
}

/// Where the status bar's panes end.
pub open spec fn part_edges(width: int, dpi: u32) -> Seq<int> {
    let count = scaled(STATUS_COUNT_WIDTH, dpi) as int;
    seq![count, larger(width - scaled(STATUS_SIZE_WIDTH, dpi), count), -1]
}

/// Where the status bar's three panes end. The count and size panes are fixed; the name pane
/// takes what's left, and the last one runs to the edge.
pub fn status_parts(width: i32, dpi: u32) -> (edges: [i32; 3])
    requires
        i32::MIN <= width - scaled(STATUS_SIZE_WIDTH, dpi),
    ensures
        edges[0] == part_edges(width as int, dpi)[0],
        edges[1] == part_edges(width as int, dpi)[1],
        edges[2] == part_edges(width as int, dpi)[2],
{
    let size_width: i32 = scale(STATUS_SIZE_WIDTH, dpi);
    let count_width: i32 = scale(STATUS_COUNT_WIDTH, dpi);
    let end: i32 = width - size_width;
    [
        count_width,
        if end < count_width {
            count_width
        } else {
            end
        },
        -1,
    ]
}

/// What the container knows.
#[derive(Debug, Clone, Copy, PartialEq, Eq)]
pub struct Shell {
    /// Which way the controls are painting.
    pub theme: Theme,
    /// The monitor's DPI.
    pub dpi: u32,
    /// The tree pane's width in device pixels, as the user last dragged it.
    pub tree_width: i32,
    /// Splitter, minimum-pane, and status-bar measurements at `dpi`.
    pub metrics: Metrics,
    /// How far into the splitter a drag started, while one is in progress.
    pub drag: Option<i32>,
    /// The selected image's measured size, once a header read lands for it.
    pub selected_dimensions: Option<(u32, u32)>,
}

/// What to do about a pointer message.
#[derive(Debug, Clone, Copy, PartialEq, Eq, Structural)]
pub enum SplitterAction {
    /// The message wasn't the splitter's.
    Pass,
    /// Show the cursor that resizes from side to side.
    ShowCursor,
    /// Take the pointer until the button comes up.
    Capture,
    /// Put the panes here, and repaint the gap.
    Place(Layout),
    /// Nothing more to do.
    Handled,
    /// Let go of the pointer.
    Release,
}

/// What to send to the list view for a selection.
#[derive(Debug, Clone, Copy, PartialEq, Eq, Structural)]
pub struct Selection {
    /// The cell to select.
    pub item: usize,
    /// The state bits to set.
    pub state: u32,
    /// Whether to scroll it into view.
    pub scroll: bool,
}

/// A DPI that's at least 96.
pub open spec fn at_least_96(dpi: u32) -> u32 {
    if dpi < 96 {
        96
    } else {
        dpi
    }
}

/// A pixel width at one DPI in logical pixels, cut towards zero.
pub open spec fn logical(width: int, dpi: int) -> int {
    if width >= 0 {
        width * 96 / dpi
    } else {
        -(-width * 96 / dpi)
    }
}

/// The measurements at a DPI.
pub open spec fn metrics_at(dpi: u32, status_bar_height: i32, metrics: Metrics) -> bool {
    &&& metrics.splitter == scaled(crate::browser::windows::layout::SPLITTER_WIDTH, dpi)
    &&& metrics.min_tree == scaled(crate::browser::windows::layout::TREE_PANE_MIN, dpi)
    &&& metrics.min_grid == scaled(crate::browser::windows::layout::GRID_PANE_MIN, dpi)
    &&& metrics.status_bar == larger(status_bar_height as int, 0)
}

impl Shell {
    /// A container on a monitor of this DPI, whose status bar is this high.
    pub fn new(theme: Theme, monitor_dpi: u32, status_bar_height: i32) -> (shell: Self)
        ensures
            shell.theme == theme,
            shell.dpi == at_least_96(monitor_dpi),
            shell.tree_width == scaled(TREE_PANE_DEFAULT, shell.dpi),
            metrics_at(shell.dpi, status_bar_height, shell.metrics),
            shell.metrics.wf(),
            shell.drag is None,
            shell.selected_dimensions is None,
    {
        let dpi: u32 = if monitor_dpi < 96 {
            96
        } else {
            monitor_dpi
        };
        Shell {
            theme,
            dpi,
            tree_width: scale(TREE_PANE_DEFAULT, dpi),
            metrics: Metrics::for_dpi(dpi, status_bar_height),
            drag: None,
            selected_dimensions: None,
        }
    }

    /// The measurements with a status bar of this height.
    pub open spec fn measured(self, status_bar_height: i32) -> Metrics {
        Metrics { status_bar: status_bar_height, ..self.metrics }
    }

    /// Where the panes go in a client area of this size, once the status bar has been measured
    /// again.
    pub fn apply_layout(&mut self, client_width: i32, client_height: i32, status_bar_height: i32) -> (
    panes: Layout)
        requires
            room_fits(client_width, old(self).metrics),
            panes_fit(
                client_width,
                client_height,
                clamped_tree_width(
                    old(self).tree_width as int,
                    client_width as int,
                    old(self).metrics,
                ) as i32,
                old(self).measured(status_bar_height),
            ),
        ensures
            final(self).metrics == old(self).measured(status_bar_height),
            final(self).tree_width == clamped_tree_width(
                old(self).tree_width as int,
                client_width as int,
                old(self).metrics,
            ),
            call_ensures(
                layout,
                (client_width, client_height, final(self).tree_width, final(self).metrics),
                panes,
            ),
            final(self).theme == old(self).theme,
            final(self).dpi == old(self).dpi,
            final(self).drag == old(self).drag,
            final(self).selected_dimensions == old(self).selected_dimensions,
    {
        self.metrics.status_bar = status_bar_height;
        self.tree_width = clamp_tree_width(self.tree_width, client_width, self.metrics);
        layout(client_width, client_height, self.tree_width, self.metrics)
    }

    /// Whether this is that container at a new DPI: measured again, and with a tree of the same
    /// logical width.
    pub open spec fn rescaled_from(self, before: Shell, dpi: u32, status_bar_height: i32) -> bool {
        &&& self.dpi == dpi
        &&& self.tree_width == scaled(
            logical(before.tree_width as int, larger(before.dpi as int, 1)) as i32,
            dpi,
        )
        &&& metrics_at(dpi, status_bar_height, self.metrics)
        &&& self.metrics.wf()
        &&& self.theme == before.theme
        &&& self.drag == before.drag
        &&& self.selected_dimensions == before.selected_dimensions
    }

    /// Follows the monitor to a new DPI. Says which, where it's a new one.
    pub fn rescale(&mut self, monitor_dpi: u32, status_bar_height: i32) -> (dpi: Option<u32>)
        requires
            old(self).dpi <= i32::MAX,
            i32::MIN <= old(self).tree_width * 96 <= i32::MAX,
        ensures
            dpi is Some <==> at_least_96(monitor_dpi) != old(self).dpi,
            dpi is None ==> *final(self) == *old(self),
            dpi matches Some(dpi) ==> dpi == at_least_96(monitor_dpi) && final(self).rescaled_from(
                *old(self),
                dpi,
                status_bar_height,
            ),
    {
        let dpi: u32 = if monitor_dpi < 96 {
            96
        } else {
            monitor_dpi
        };
        if dpi == self.dpi {
            return None;
        }
        let divisor: u32 = if self.dpi < 1 {
            1
        } else {
            self.dpi
        };
        let width: i64 = self.tree_width as i64;
        let magnitude: i64 = if width < 0 {
            -width
        } else {
            width
        };
        let cut: i64 = magnitude * 96 / divisor as i64;
        assert(0 <= cut <= magnitude * 96) by (nonlinear_arith)
            requires
                magnitude >= 0,
                divisor >= 1,
                cut == magnitude * 96 / divisor as int,
        ;
        let logical_width: i32 = if width < 0 {
            (-cut) as i32
        } else {
            cut as i32
        };
        self.dpi = dpi;
        self.metrics = Metrics::for_dpi(dpi, status_bar_height);
        self.tree_width = scale(logical_width, dpi);
        Some(dpi)
    }

    /// Whether a column lies in the gap between the two panes.
    pub open spec fn over_splitter(self, x: int) -> bool {
        self.tree_width <= x < self.tree_width + self.metrics.splitter
    }

    /// Whether the pointer is in the gap between the two panes.
    pub fn cursor_over_splitter(&self, x: i32) -> (over: bool)
        ensures
            over == self.over_splitter(x as int),
    {
        x >= self.tree_width && (x as i64) < self.tree_width as i64 + self.metrics.splitter as i64
    }

    /// The cursor is being asked for. `pointer_x` is where the pointer is, where that's known.
    pub fn cursor_asked(&self, pointer_x: Option<i32>) -> (action: SplitterAction)
        ensures
            action == if self.drag is Some || (pointer_x matches Some(x) && self.over_splitter(
                x as int,
            )) {
                SplitterAction::ShowCursor
            } else {
                SplitterAction::Pass
            },
    {
        if self.drag.is_some() {
            return SplitterAction::ShowCursor;
        }
        match pointer_x {
            Some(x) => if self.cursor_over_splitter(x) {
                SplitterAction::ShowCursor
            } else {
                SplitterAction::Pass
            },
            None => SplitterAction::Pass,
        }
    }

    /// The button went down in the gap, which is the only part of the container that the panes
    /// leave uncovered: a drag starts.
    pub fn button_down(&mut self, x: i32) -> (action: SplitterAction)
        requires
            i32::MIN <= x - old(self).tree_width <= i32::MAX,
        ensures
            action == SplitterAction::Capture,
            *final(self) == (Shell {
                drag: Some((x - old(self).tree_width) as i32),
                ..*old(self)
            }),
    {
        self.drag = Some(x - self.tree_width);
        SplitterAction::Capture
    }

    /// What a pointer move during a drag makes of the tree's width.
    pub open spec fn dragged_width(self, x: int, client_width: int) -> int {
        clamped_tree_width(x - self.drag->0, client_width, self.metrics)
    }

    /// The pointer moved. `client` is the container's size, where that's known, and
    /// `status_bar_height` is what the status bar measures. A drag follows the pointer.
    pub fn pointer_moved(&mut self, x: i32, client: Option<(i32, i32)>, status_bar_height: i32) -> (
    action: SplitterAction)
        requires
            old(self).drag is Some && client is Some ==> {
                &&& i32::MIN <= x - old(self).drag->0 <= i32::MAX
                &&& room_fits((client->0).0, old(self).metrics)
                &&& panes_fit(
                    (client->0).0,
                    (client->0).1,
                    old(self).dragged_width(x as int, (client->0).0 as int) as i32,
                    old(self).measured(status_bar_height),
                )
            },
        ensures
            old(self).drag is None ==> action == SplitterAction::Pass && *final(self) == *old(self),
            old(self).drag is Some && client is None ==> action == SplitterAction::Handled
                && *final(self) == *old(self),
            old(self).drag is Some && client is Some ==> {
                &&& *final(self) == (Shell {
                    tree_width: old(self).dragged_width(x as int, (client->0).0 as int) as i32,
                    metrics: old(self).measured(status_bar_height),
                    ..*old(self)
                })
                &&& action matches SplitterAction::Place(panes) && call_ensures(
                    layout,
                    ((client->0).0, (client->0).1, final(self).tree_width, final(self).metrics),
                    panes,
                )
            },
    {
        match (self.drag, client) {
            (None, _) => SplitterAction::Pass,
            (Some(_), None) => SplitterAction::Handled,
            (Some(grab), Some((width, height))) => {
                let ghost before = *self;
                self.tree_width = tree_width_for_drag(x, grab, width, self.metrics);
                proof {
                    crate::browser::windows::layout::clamping_is_idempotent(
                        x - grab,
                        width as int,
                        before.metrics,
                    );
                }
                SplitterAction::Place(self.apply_layout(width, height, status_bar_height))
            },
        }
    }

    /// The button came up: a drag ends.
    pub fn button_up(&mut self) -> (action: SplitterAction)
        ensures
            action == if old(self).drag is Some {
                SplitterAction::Release
            } else {
                SplitterAction::Pass
            },
            *final(self) == (Shell { drag: None, ..*old(self) }),
    {
        if self.drag.is_some() {
            self.drag = None;
            SplitterAction::Release
        } else {
            SplitterAction::Pass
        }
    }

    /// What the status bar should say. `scanning` and `listing` say what the user is waiting on.
    pub fn status_fields(
        &self,
        image_count: usize,
        selected: Option<&str>,
        scanning: bool,
        listing: bool,
    ) -> (text: Fields)
        ensures
            text.count@ == if scanning || listing {
                "Loading…"@
            } else {
                count_text(image_count as nat)
            },
            text.name@ == selected_text(selected),
            text.size@ == size_text(self.selected_dimensions),
    {
        fields(
            Status {
                image_count,
                selected,
                dimensions: self.selected_dimensions,
                loading: scanning || listing,
            },
        )
    }

    /// A cell is being selected. `resolved` is the cell that the model took, where it took one.
    /// The old measurement goes, so that the size pane is empty rather than showing the previous
    /// file's size beside the new file's name.
    pub fn select(&mut self, resolved: Option<usize>, scroll: bool) -> (selection: Option<
        Selection,
    >)
        ensures
            selection == match resolved {
                Some(item) => Some(
                    Selection { item, state: grid::SELECTED_AND_FOCUSED, scroll },
                ),
                None => None,
            },
            resolved is None ==> *final(self) == *old(self),
            resolved is Some ==> *final(self) == (Shell {
                selected_dimensions: None,
                ..*old(self)
            }),
    {
        match resolved {
            Some(item) => {
                self.selected_dimensions = None;
                Some(Selection { item, state: grid::SELECTED_AND_FOCUSED, scroll })
            },
            None => None,
        }
    }

    /// A header read has finished. One for a file that's no longer selected is dropped: a late
    /// answer would show the wrong size beside the right name. Says whether it counted.
    pub fn selection_measured(
        &mut self,
        selected: Option<&str>,
        path: &str,
        dimensions: Option<(u32, u32)>,
    ) -> (matched: bool)
        ensures
            matched == (selected matches Some(selected) && path_key(selected@) == path_key(path@)),
            matched ==> *final(self) == (Shell { selected_dimensions: dimensions, ..*old(self) }),
            !matched ==> *final(self) == *old(self),
    {
        let matched: bool = match selected {
            Some(selected) => same_path(selected, path),
            None => false,
        };
        if matched {
            self.selected_dimensions = dimensions;
        }
        matched
    }
}

// ----- laws -----

/// A drag that starts and moves back to where it started leaves a tree that fits where it was.
pub proof fn a_drag_starts_where_it_is(shell: Shell, x: int, client_width: int)
    requires
        clamped_tree_width(shell.tree_width as int, client_width, shell.metrics)
            == shell.tree_width,
        i32::MIN <= x - shell.tree_width <= i32::MAX,
    ensures
        (Shell { drag: Some((x - shell.tree_width) as i32), ..shell }).dragged_width(
            x,
            client_width,
        ) == shell.tree_width,
{
}

/// The name pane never starts before the count pane ends, at any width.
pub proof fn status_panes_are_in_order(width: int, dpi: u32)
    ensures
        part_edges(width, dpi)[0] <= part_edges(width, dpi)[1],
        part_edges(width, dpi)[2] == -1,
{
}

/// A wide text is the text's UTF-16 and a NUL after it.
pub proof fn wide_texts_end_in_a_nul(text: &str, units: Vec<u16>, encoded: Vec<u16>)
    requires
        call_ensures(wide, (text,), units),
        call_ensures(encode_utf16, (text,), encoded),
    ensures
        units@.len() == encoded@.len() + 1,
        units@.last() == 0,
        units@.take(encoded@.len() as int) == encoded@,
{
    assert(units@.take(encoded@.len() as int) =~= encoded@);
}

/// The halves of a message's number are signed, and put together they are the number again, but
/// for whole turns.
pub proof fn halves_make_the_number(lparam: u32, low: i32, high: i32)
    requires
        call_ensures(low_word, (lparam,), low),
        call_ensures(high_word, (lparam,), high),
    ensures
        -32_768 <= low <= 32_767,
        -32_768 <= high <= 32_767,
        low >= 0 && high >= 0 ==> high * 65_536 + low == lparam,
        low < 0 && high >= 0 ==> high * 65_536 + low + 65_536 == lparam,
        low >= 0 && high < 0 ==> high * 65_536 + low + 4_294_967_296 == lparam,
        low < 0 && high < 0 ==> high * 65_536 + low + 65_536 + 4_294_967_296 == lparam,
{
}

/// Each message of the container's comes to its own event, with what the halves of its number
/// say: the width in the low one, the height in the high one, and a pointer's column in the low
/// one.
pub proof fn messages_come_to_their_events(
    message: u32,
    lparam: u32,
    event: ContainerEvent,
    low: i32,
    high: i32,
)
    requires
        call_ensures(container_event, (message, lparam), event),
        call_ensures(low_word, (lparam,), low),
        call_ensures(high_word, (lparam,), high),
    ensures
        message == 0x05 <==> event is Resized,
        message == 0x05 ==> event == (ContainerEvent::Resized { width: low, height: high }),
        message == 0x14 <==> event is EraseBackground,
        message == 0x138 <==> event is ColorStatic,
        message == 0x4e <==> event is Notify,
        message == 0x20 <==> event is Cursor,
        message == 0x200 <==> event is PointerMoved,
        message == 0x200 ==> event == (ContainerEvent::PointerMoved { x: low }),
        message == 0x201 <==> event is ButtonDown,
        message == 0x201 ==> event == (ContainerEvent::ButtonDown { x: low }),
        message == 0x202 <==> event is ButtonUp,
        message == 0x02 <==> event is Destroyed,
{
}

/// Backspace selects the parent in the tree alone; Tab, Return and Escape are commands in either
/// pane; the rest is the control's.
pub proof fn keys_in_a_pane(pane: i32, code: u32, key: PaneKey)
    requires
        call_ensures(pane_key, (pane, code), key),
    ensures
        code == 8 && pane == 1001 ==> key is SelectParent,
        code == 8 && pane != 1001 ==> key is Control,
        code == 9 ==> key == PaneKey::Command(AppCommand::ToggleBrowseFocus),
        code == 13 ==> key == PaneKey::Command(AppCommand::BrowseOpenSelected),
        code == 27 ==> key == PaneKey::Command(AppCommand::EnterImageMode),
        code != 8 && code != 9 && code != 13 && code != 27 ==> key is Control,
{
}

/// The count's pane is 130 logical pixels wide and so is the size's, at the other end; the name
/// has what's between, down to nothing. The last pane runs to the edge.
pub proof fn status_panes_have_their_width(width: i32, dpi: u32, edges: [i32; 3], pane: i32)
    requires
        call_ensures(status_parts, (width, dpi), edges),
        call_ensures(scale, (130, dpi), pane),
    ensures
        edges[0] == pane,
        width >= 2 * pane ==> edges[1] == width - pane,
        width < 2 * pane ==> edges[1] == pane,
        edges[2] == -1,
{
}

/// A new container takes its monitor's DPI, or 96 where that's less, and a tree of 240 logical
/// pixels; no drag is on, and nothing is measured.
pub proof fn new_containers_follow_their_monitor(
    theme: Theme,
    monitor_dpi: u32,
    height: i32,
    shell: Shell,
    metrics: Metrics,
    width: i32,
)
    requires
        call_ensures(Shell::new, (theme, monitor_dpi, height), shell),
        call_ensures(Metrics::for_dpi, (shell.dpi, height), metrics),
        call_ensures(scale, (240, shell.dpi), width),
    ensures
        monitor_dpi >= 96 ==> shell.dpi == monitor_dpi,
        monitor_dpi < 96 ==> shell.dpi == 96,
        shell.theme == theme,
        shell.metrics == metrics,
        shell.tree_width == width,
        shell.drag is None,
        shell.selected_dimensions is None,
{
}

/// A container that comes to another DPI is measured anew, and its tree keeps its logical width,
/// which is cut to a whole number. At the same DPI, or below 96 from 96, nothing changes.
pub proof fn containers_follow_the_dpi(
    shell: &mut Shell,
    monitor_dpi: u32,
    height: i32,
    dpi: Option<u32>,
    metrics: Metrics,
    logical: i32,
    width: i32,
)
    requires
        call_ensures(Shell::rescale, (shell, monitor_dpi, height), dpi),
        shell.dpi >= 96,
        shell.tree_width >= 0,
        0 <= shell.tree_width * 96 - logical * shell.dpi < shell.dpi,
        call_ensures(Metrics::for_dpi, (final(shell).dpi, height), metrics),
        call_ensures(scale, (logical, final(shell).dpi), width),
    ensures
        monitor_dpi == old(shell).dpi ==> dpi is None,
        monitor_dpi < 96 && old(shell).dpi == 96 ==> dpi is None,
        dpi is None ==> *final(shell) == *old(shell),
        monitor_dpi >= 96 && monitor_dpi != old(shell).dpi ==> dpi == Some(monitor_dpi),
        monitor_dpi < 96 && old(shell).dpi > 96 ==> dpi == Some(96u32),
        dpi is Some ==> final(shell).dpi == dpi->0,
        dpi is Some ==> final(shell).tree_width == width,
        dpi is Some ==> final(shell).metrics == metrics,
        final(shell).theme == old(shell).theme,
        final(shell).drag == old(shell).drag,
        final(shell).selected_dimensions == old(shell).selected_dimensions,
{
    let d = shell.dpi as int;
    let w = shell.tree_width * 96;
    vstd::arithmetic::div_mod::lemma_fundamental_div_mod_converse(
        w,
        d,
        logical as int,
        w - logical * d,
    );
    assert(w == d * logical + (w - logical * d)) by (nonlinear_arith);
}

/// A layout measures the status bar again and holds the tree to the room there is, then places
/// the panes by that.
pub proof fn layouts_use_the_new_measurements(
    shell: &mut Shell,
    client_width: i32,
    client_height: i32,
    height: i32,
    panes: Layout,
    width: i32,
)
    requires
        call_ensures(Shell::apply_layout, (shell, client_width, client_height, height), panes),
        call_ensures(clamp_tree_width, (shell.tree_width, client_width, shell.metrics), width),
    ensures
        final(shell).metrics.status_bar == height,
        final(shell).metrics.splitter == old(shell).metrics.splitter,
        final(shell).metrics.min_tree == old(shell).metrics.min_tree,
        final(shell).metrics.min_grid == old(shell).metrics.min_grid,
        final(shell).tree_width == width,
        call_ensures(
            layout,
            (client_width, client_height, width, final(shell).metrics),
            panes,
        ),
        final(shell).drag == old(shell).drag,
{
}

/// The pointer is over the splitter from the column where the tree ends, for as many columns as
/// the splitter is thick. There, and all through a drag, the cursor is the one that resizes.
pub proof fn the_splitter_follows_the_tree(
    shell: &Shell,
    x: i32,
    over: bool,
    asked: SplitterAction,
    unknown: SplitterAction,
)
    requires
        call_ensures(Shell::cursor_over_splitter, (shell, x), over),
        call_ensures(Shell::cursor_asked, (shell, Some(x)), asked),
        call_ensures(Shell::cursor_asked, (shell, None::<i32>), unknown),
    ensures
        over <==> 0 <= x - shell.tree_width < shell.metrics.splitter,
        asked == SplitterAction::ShowCursor <==> over || shell.drag is Some,
        asked != SplitterAction::ShowCursor ==> asked == SplitterAction::Pass,
        unknown == SplitterAction::ShowCursor <==> shell.drag is Some,
        unknown != SplitterAction::ShowCursor ==> unknown == SplitterAction::Pass,
{
}

/// A drag moves the tree by as much as the pointer moved since the button went down, within the
/// minimums, and lets go of it when the button comes up.
pub proof fn drags_move_the_tree_with_the_pointer(
    shell: &mut Shell,
    start: i32,
    down: SplitterAction,
    held: &mut Shell,
    x: i32,
    client: (i32, i32),
    height: i32,
    moved: SplitterAction,
    last: &mut Shell,
    up: SplitterAction,
    desired: i32,
    width: i32,
)
    requires
        i32::MIN <= start - shell.tree_width <= i32::MAX,
        call_ensures(Shell::button_down, (shell, start), down),
        *held == *final(shell),
        call_ensures(Shell::pointer_moved, (held, x, Some(client), height), moved),
        *last == *final(held),
        call_ensures(Shell::button_up, (last,), up),
        desired - shell.tree_width == x - start,
        call_ensures(clamp_tree_width, (desired, client.0, shell.metrics), width),
    ensures
        down == SplitterAction::Capture,
        final(shell).tree_width == old(shell).tree_width,
        final(held).tree_width == width,
        final(held).metrics.status_bar == height,
        moved is Place,
        call_ensures(layout, (client.0, client.1, width, final(held).metrics), moved->Place_0),
        up == SplitterAction::Release,
        final(last).drag is None,
        final(last).tree_width == width,
{
}

/// Without a drag, moving the pointer and letting go change nothing and aren't the splitter's.
pub proof fn without_a_drag_nothing_moves(
    shell: &mut Shell,
    x: i32,
    client: Option<(i32, i32)>,
    height: i32,
    moved: SplitterAction,
    other: &mut Shell,
    up: SplitterAction,
)
    requires
        shell.drag is None,
        call_ensures(Shell::pointer_moved, (shell, x, client, height), moved),
        *other == *final(shell),
        call_ensures(Shell::button_up, (other,), up),
    ensures
        moved == SplitterAction::Pass,
        *final(shell) == *old(shell),
        up == SplitterAction::Pass,
        *final(other) == *old(shell),
{
}

/// The status bar says that it's loading where the user waits on a scan or a listing, and else how
/// many images there are; the name and the size are those of the selection.
pub proof fn the_status_bar_follows_the_selection(
    shell: &Shell,
    count: usize,
    selected: Option<&str>,
    scanning: bool,
    listing: bool,
    text: Fields,
    same: Fields,
)
    requires
        call_ensures(Shell::status_fields, (shell, count, selected, scanning, listing), text),
        call_ensures(
            fields,
            (
                Status {
                    image_count: count,
                    selected,
                    dimensions: shell.selected_dimensions,
                    loading: scanning || listing,
                },
            ),
            same,
        ),
    ensures
        text.count@ == same.count@,
        text.name@ == same.name@,
        text.size@ == same.size@,
{
}

/// A selection forgets the size of the image before, and a size that was read counts exactly where
/// it's the selected image's.
pub proof fn sizes_belong_to_the_selection(
    shell: &mut Shell,
    item: usize,
    scroll: bool,
    selection: Option<Selection>,
    waiting: &mut Shell,
    selected: Option<&str>,
    path: &str,
    dimensions: Option<(u32, u32)>,
    matched: bool,
)
    requires
        call_ensures(Shell::select, (shell, Some(item), scroll), selection),
        *waiting == *final(shell),
        call_ensures(Shell::selection_measured, (waiting, selected, path, dimensions), matched),
    ensures
        selection is Some,
        selection->0.item == item,
        selection->0.state == 3,
        selection->0.scroll <==> scroll,
        final(shell).selected_dimensions is None,
        matched <==> selected is Some && path_key(selected->0@) == path_key(path@),
        matched ==> final(waiting).selected_dimensions == dimensions,
        !matched ==> final(waiting).selected_dimensions is None,
        final(waiting).tree_width == old(shell).tree_width,
        final(waiting).dpi == old(shell).dpi,
{
}

} // verus!
