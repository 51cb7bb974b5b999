//! `AppCommand`: the unified command vocabulary that drives the app.
//!
//! Keyboard, mouse, menu, and remote control all map their inputs to these commands.
//!
//! Paths are text, and floating-point payloads travel as their bit patterns. A command that
//! answers carries the number of the channel that the answer goes to.

use crate::parity::{CommandKey, CommandParity, Coverage};
use vstd::prelude::*;

verus! {

/// What the images of a folder are sorted by.
#[derive(Clone, Copy, Debug, PartialEq, Eq, Structural)]
pub enum SortBy {
    Name,
    Date,
    FileType,
}

/// Commands that drive all app behavior.
#[allow(inconsistent_fields)]
pub enum AppCommand {
    // ── Navigation ───────────────────────────────────────────────────
    /// Navigate forward (true) or backward (false), immediately.
    Navigate(bool),
    /// User-initiated navigation (arrow keys, mouse wheel). A burst of these collapses to a
    /// single jump.
    NavigateDebounced(bool),
    /// Absolute jump to the first image.
    GoToFirst,
    /// Absolute jump to the last image.
    GoToLast,
    /// Open a specific file.
    OpenFile(String),
    /// Put the native file picker up.
    ShowOpenDialog,
    // ── View ─────────────────────────────────────────────────────────
    /// Zoom in one step.
    ZoomIn,
    /// Zoom out one step.
    ZoomOut,
    /// Set absolute zoom level, a 32-bit float's bits.
    SetZoom(u32),
    /// Reset zoom to fit the image in the window.
    FitToWindow,
    /// Set zoom to 1:1 pixel mapping.
    ActualSize,
    /// Toggle between fit-to-window and actual size.
    ToggleFit,
    /// Toggle fullscreen mode.
    ToggleFullscreen,
    /// Set fullscreen on or off explicitly.
    SetFullscreen(bool),
    /// Set auto-fit window mode.
    SetAutoFitWindow(bool),
    /// Set enlarge-small-images mode.
    SetEnlargeSmallImages(bool),
    /// Set ICC color management (source to sRGB when color match display is off).
    SetIccColorManagement(bool),
    /// Set color match display mode (source to display profile).
    SetColorMatchDisplay(bool),
    /// Set rendering intent to relative colorimetric (false = perceptual).
    SetRelativeColorimetric(bool),
    /// Set scroll-to-zoom mode (true = scroll zooms, false = scroll navigates).
    SetScrollToZoom(bool),
    /// Set preload-neighbors mode.
    SetPreloadNeighbors(bool),
    /// Set title bar mode (true = reserve a strip at the top, false = image fills window).
    SetTitleBar(bool),
    /// Toggle the histogram overlay.
    ToggleHistogram,
    /// Toggle the EXIF info overlay.
    ToggleExifInfo,
    /// Toggle loop navigation.
    ToggleLoopNavigation,
    /// Re-sort the directory list.
    SetSortBy(SortBy),
    /// Update the cached cursor position, 64-bit floats' bits.
    SetCursorPosition { x: u64, y: u64 },
    // ── Browse mode ──────────────────────────────────────────────────
    /// Swap between the image viewer and the native browse screen.
    ToggleBrowseMode,
    /// Leave browse mode for the image viewer unconditionally.
    EnterImageMode,
    /// Flip browse-mode keyboard focus between the tree and grid panes.
    ToggleBrowseFocus,
    /// A folder was selected in the browse-mode tree.
    BrowseSelectFolder(String),
    /// A background scan of `path`'s child directories finished.
    BrowseTreeChildrenLoaded { path: String, children: Vec<String> },
    /// A tree node was expanded: start watching its folder for subdirectory changes.
    BrowseTreeFolderExpanded(String),
    /// A tree node was collapsed: stop watching its folder.
    BrowseTreeFolderCollapsed(String),
    /// A background folder listing finished.
    BrowseFolderListed { folder: String, images: Vec<String> },
    /// One or more grid thumbnails are queued.
    BrowseThumbnailsAvailable,
    /// The grid selection changed to an index.
    BrowseGridSelected(usize),
    /// Select a grid item programmatically, the way a native click would.
    BrowseQaSelectGrid(usize),
    /// A background header read finished for a browse-mode grid selection.
    BrowseSelectionMeasured { path: String, dimensions: Option<(u32, u32)> },
    /// Open the grid's selected image in image mode.
    BrowseOpenSelected,
    // ── Slideshow ────────────────────────────────────────────────────
    /// Start the slideshow if stopped, stop it if running.
    ToggleSlideshow,
    /// Set the time per image in seconds.
    SetSlideshowSeconds(u32),
    /// Enable or disable the crossfade transition.
    SetSlideshowCrossfade(bool),
    /// Enable or disable slideshow looping past the last image.
    SetSlideshowLoop(bool),
    /// Shorten the time per image by one second.
    IncreaseSlideshowSpeed,
    /// Lengthen the time per image by one second.
    DecreaseSlideshowSpeed,
    // ── RAW pipeline ─────────────────────────────────────────────────
    /// Replace the RAW pipeline flags wholesale, one bit per stage.
    SetRawPipelineFlags(u64),
    /// Replace the custom DCP directory. `None` clears the override.
    SetCustomDcpDir(Option<String>),
    // ── File watching ────────────────────────────────────────────────
    /// A watched folder changed on disk.
    FolderChanged { folder: String, modified: Vec<String> },
    /// A background re-scan of the active folder finished.
    ActiveFolderRescanned { folder: String, images: Vec<String> },
    /// The set of folders that are actually watched changed.
    WatchedFoldersChanged { folders: Vec<String> },
    // ── Color management ─────────────────────────────────────────────
    /// The display the window is on may now want a different ICC profile.
    DisplayChanged,
    /// Files were dropped on the window.
    OpenDropped(Vec<String>),
    // ── Clipboard and print ──────────────────────────────────────────
    /// Copy the current image to the system clipboard.
    CopyImage,
    /// Print the current image via the system print dialog.
    Print,
    // ── App ──────────────────────────────────────────────────────────
    /// Show the About window.
    ShowAbout,
    /// Show the Settings window.
    ShowSettings,
    /// Switch to a specific Settings section by name.
    ShowSettingsSection(String),
    /// Close the Settings window.
    CloseSettings,
    /// Exit the application.
    Exit,
    // ── Window ───────────────────────────────────────────────────────
    /// Reposition and/or resize the window. All fields optional.
    SetWindowGeometry {
        x: Option<i32>,
        y: Option<i32>,
        width: Option<u32>,
        height: Option<u32>,
    },
    // ── Remote control ───────────────────────────────────────────────
    /// Scroll-wheel zoom at a specific cursor position, 32-bit floats' bits.
    ScrollZoom { delta: u32, cursor_x: u32, cursor_y: u32 },
    /// Re-display the current image.
    Refresh,
    /// Simulate a key press. Key name follows web conventions: "ArrowLeft", "Escape", "f".
    SendKey(String),
    /// Capture a screenshot. The channel receives PNG bytes.
    TakeScreenshot(u64),
    /// Get the operating system's own handle for the main viewer window.
    GetNativeWindowId(u64),
    /// Dump the main window's view and layer tree.
    WindowDiagnostics(u64),
    /// Perform the native window zoom.
    ZoomWindow,
    /// Click the zoom button itself.
    ClickZoomButton,
    /// Synchronization barrier: confirms that all prior commands were processed.
    Sync(u64),
    /// No-op signal sent by the preloader to wake the event loop.
    PreloaderProgress,
    /// One or more preview completions are waiting for the main thread.
    PreviewsAvailable,
}

impl AppCommand {
    /// The user-facing action that a command performs, where it performs one.
    pub open spec fn action(self) -> Option<CommandKey> {
        match self {
            AppCommand::Navigate(_) => Some(CommandKey::NextPreviousImage),
            AppCommand::NavigateDebounced(_) => Some(CommandKey::NextPreviousImage),
            AppCommand::GoToFirst => Some(CommandKey::GoToFirst),
            AppCommand::GoToLast => Some(CommandKey::GoToLast),
            AppCommand::OpenFile(_) => Some(CommandKey::OpenFile),
            AppCommand::ShowOpenDialog => Some(CommandKey::OpenFile),
            AppCommand::OpenDropped(_) => Some(CommandKey::DropToOpen),
            AppCommand::ToggleLoopNavigation => Some(CommandKey::LoopNavigation),
            AppCommand::SetSortBy(_) => Some(CommandKey::SortBy),
            AppCommand::Refresh => Some(CommandKey::Refresh),
            AppCommand::ZoomIn => Some(CommandKey::ZoomIn),
            AppCommand::ZoomOut => Some(CommandKey::ZoomOut),
            AppCommand::SetZoom(_) => Some(CommandKey::SetZoom),
            AppCommand::FitToWindow => Some(CommandKey::FitToWindow),
            AppCommand::ActualSize => Some(CommandKey::ActualSize),
            AppCommand::ToggleFit => Some(CommandKey::ToggleFit),
            AppCommand::ToggleFullscreen => Some(CommandKey::Fullscreen),
            AppCommand::SetFullscreen(_) => Some(CommandKey::Fullscreen),
            AppCommand::SetAutoFitWindow(_) => Some(CommandKey::AutoFitWindow),
            AppCommand::SetEnlargeSmallImages(_) => Some(CommandKey::EnlargeSmallImages),
            AppCommand::SetIccColorManagement(_) => Some(CommandKey::IccColorManagement),
            AppCommand::SetColorMatchDisplay(_) => Some(CommandKey::ColorMatchDisplay),
            AppCommand::SetRelativeColorimetric(_) => Some(CommandKey::RelativeColorimetric),
            AppCommand::SetScrollToZoom(_) => Some(CommandKey::ScrollToZoom),
            AppCommand::SetPreloadNeighbors(_) => Some(CommandKey::PreloadNeighbors),
            AppCommand::SetTitleBar(_) => Some(CommandKey::TitleBar),
            AppCommand::ToggleHistogram => Some(CommandKey::Histogram),
            AppCommand::ToggleExifInfo => Some(CommandKey::ExifInfo),
            AppCommand::ToggleBrowseMode => Some(CommandKey::BrowseMode),
            AppCommand::EnterImageMode => Some(CommandKey::BrowseMode),
            AppCommand::ToggleBrowseFocus => Some(CommandKey::BrowseFocus),
            AppCommand::BrowseOpenSelected => Some(CommandKey::BrowseOpenSelected),
            AppCommand::ToggleSlideshow => Some(CommandKey::Slideshow),
            AppCommand::SetSlideshowSeconds(_) => Some(CommandKey::SlideshowSeconds),
            AppCommand::SetSlideshowCrossfade(_) => Some(CommandKey::SlideshowCrossfade),
            AppCommand::SetSlideshowLoop(_) => Some(CommandKey::SlideshowLoop),
            AppCommand::IncreaseSlideshowSpeed => Some(CommandKey::SlideshowSpeed),
            AppCommand::DecreaseSlideshowSpeed => Some(CommandKey::SlideshowSpeed),
            AppCommand::SetRawPipelineFlags(_) => Some(CommandKey::RawPipelineFlags),
            AppCommand::SetCustomDcpDir(_) => Some(CommandKey::CustomDcpDir),
            AppCommand::CopyImage => Some(CommandKey::CopyImage),
            AppCommand::Print => Some(CommandKey::Print),
            AppCommand::ShowAbout => Some(CommandKey::About),
            AppCommand::ShowSettings => Some(CommandKey::Settings),
            AppCommand::ShowSettingsSection(_) => Some(CommandKey::Settings),
            AppCommand::CloseSettings => Some(CommandKey::Settings),
            AppCommand::Exit => Some(CommandKey::Exit),
            _ => None,
        }
    }

    /// What this command means to the registry of actions.
    ///
    /// Exhaustive with no `_` arm: a new command has to declare itself a user-facing
    /// [`CommandKey`] or plumbing before it compiles.
    pub fn parity_key(&self) -> (parity: CommandParity)
        ensures
            parity == match self.action() {
                Some(key) => CommandParity::Action(key),
                None => CommandParity::Internal,
            },
    {
        match self {
            // ── Navigation ───────────────────────────────────────────
            AppCommand::Navigate(_) | AppCommand::NavigateDebounced(_) => CommandParity::Action(
                CommandKey::NextPreviousImage,
            ),
            AppCommand::GoToFirst => CommandParity::Action(CommandKey::GoToFirst),
            AppCommand::GoToLast => CommandParity::Action(CommandKey::GoToLast),
            AppCommand::OpenFile(_) | AppCommand::ShowOpenDialog => CommandParity::Action(
                CommandKey::OpenFile,
            ),
            AppCommand::OpenDropped(_) => CommandParity::Action(CommandKey::DropToOpen),
            AppCommand::ToggleLoopNavigation => CommandParity::Action(CommandKey::LoopNavigation),
            AppCommand::SetSortBy(_) => CommandParity::Action(CommandKey::SortBy),
            AppCommand::Refresh => CommandParity::Action(CommandKey::Refresh),
            // ── View ─────────────────────────────────────────────────
            AppCommand::ZoomIn => CommandParity::Action(CommandKey::ZoomIn),
            AppCommand::ZoomOut => CommandParity::Action(CommandKey::ZoomOut),
            AppCommand::SetZoom(_) => CommandParity::Action(CommandKey::SetZoom),
            AppCommand::FitToWindow => CommandParity::Action(CommandKey::FitToWindow),
            AppCommand::ActualSize => CommandParity::Action(CommandKey::ActualSize),
            AppCommand::ToggleFit => CommandParity::Action(CommandKey::ToggleFit),
            AppCommand::ToggleFullscreen
            | AppCommand::SetFullscreen(_) => CommandParity::Action(CommandKey::Fullscreen),
            AppCommand::SetAutoFitWindow(_) => CommandParity::Action(CommandKey::AutoFitWindow),
            AppCommand::SetEnlargeSmallImages(_) => CommandParity::Action(
                CommandKey::EnlargeSmallImages,
            ),
            AppCommand::SetIccColorManagement(_) => CommandParity::Action(
                CommandKey::IccColorManagement,
            ),
            AppCommand::SetColorMatchDisplay(_) => CommandParity::Action(
                CommandKey::ColorMatchDisplay,
            ),
            AppCommand::SetRelativeColorimetric(_) => CommandParity::Action(
                CommandKey::RelativeColorimetric,
            ),
            AppCommand::SetScrollToZoom(_) => CommandParity::Action(CommandKey::ScrollToZoom),
            AppCommand::SetPreloadNeighbors(_) => CommandParity::Action(
                CommandKey::PreloadNeighbors,
            ),
            AppCommand::SetTitleBar(_) => CommandParity::Action(CommandKey::TitleBar),
            AppCommand::ToggleHistogram => CommandParity::Action(CommandKey::Histogram),
            AppCommand::ToggleExifInfo => CommandParity::Action(CommandKey::ExifInfo),
            // ── Browse mode ──────────────────────────────────────────
            AppCommand::ToggleBrowseMode | AppCommand::EnterImageMode => CommandParity::Action(
                CommandKey::BrowseMode,
            ),
            AppCommand::ToggleBrowseFocus => CommandParity::Action(CommandKey::BrowseFocus),
            AppCommand::BrowseOpenSelected => CommandParity::Action(
                CommandKey::BrowseOpenSelected,
            ),
            // ── Slideshow ────────────────────────────────────────────
            AppCommand::ToggleSlideshow => CommandParity::Action(CommandKey::Slideshow),
            AppCommand::SetSlideshowSeconds(_) => CommandParity::Action(
                CommandKey::SlideshowSeconds,
            ),
            AppCommand::SetSlideshowCrossfade(_) => CommandParity::Action(
                CommandKey::SlideshowCrossfade,
            ),
            AppCommand::SetSlideshowLoop(_) => CommandParity::Action(CommandKey::SlideshowLoop),
            AppCommand::IncreaseSlideshowSpeed
            | AppCommand::DecreaseSlideshowSpeed => CommandParity::Action(
                CommandKey::SlideshowSpeed,
            ),
            // ── RAW ──────────────────────────────────────────────────
            AppCommand::SetRawPipelineFlags(_) => CommandParity::Action(
                CommandKey::RawPipelineFlags,
            ),
            AppCommand::SetCustomDcpDir(_) => CommandParity::Action(CommandKey::CustomDcpDir),
            // ── App ──────────────────────────────────────────────────
            AppCommand::CopyImage => CommandParity::Action(CommandKey::CopyImage),
            AppCommand::Print => CommandParity::Action(CommandKey::Print),
            AppCommand::ShowAbout => CommandParity::Action(CommandKey::About),
            AppCommand::ShowSettings
            | AppCommand::ShowSettingsSection(_)
            | AppCommand::CloseSettings => CommandParity::Action(CommandKey::Settings),
            AppCommand::Exit => CommandParity::Action(CommandKey::Exit),
            // ── Plumbing: worker results, OS notifications, driving hooks ──
            AppCommand::SetCursorPosition { .. }
            | AppCommand::FolderChanged { .. }
            | AppCommand::ActiveFolderRescanned { .. }
            | AppCommand::WatchedFoldersChanged { .. }
            | AppCommand::SetWindowGeometry { .. }
            | AppCommand::ScrollZoom { .. }
            | AppCommand::SendKey(_)
            | AppCommand::TakeScreenshot(_)
            | AppCommand::Sync(_)
            | AppCommand::PreloaderProgress
            | AppCommand::DisplayChanged
            | AppCommand::PreviewsAvailable
            | AppCommand::BrowseSelectFolder(_)
            | AppCommand::BrowseTreeChildrenLoaded { .. }
            | AppCommand::BrowseTreeFolderExpanded(_)
            | AppCommand::BrowseTreeFolderCollapsed(_)
            | AppCommand::BrowseFolderListed { .. }
            | AppCommand::BrowseThumbnailsAvailable
            | AppCommand::BrowseGridSelected(_)
            | AppCommand::BrowseQaSelectGrid(_)
            | AppCommand::BrowseSelectionMeasured { .. }
            | AppCommand::GetNativeWindowId(_)
            | AppCommand::WindowDiagnostics(_)
            | AppCommand::ZoomWindow
            | AppCommand::ClickZoomButton => CommandParity::Internal,
        }
    }

    /// The action behind this command, when the running platform hasn't built it. Whoever
    /// executes commands drops such a command and logs the name rather than running something
    /// that would half-work.
    ///
    /// `registry` says how far the running platform has got. An action that it doesn't name
    /// isn't missing; one that it names twice counts by its first entry.
    pub fn unimplemented_here(&self, registry: &[(CommandKey, Coverage)]) -> (missing: Option<
        CommandKey,
    >)
        ensures
            missing == match self.action() {
                Some(key) => if coverage(registry@, key) == Some(Coverage::Missing) {
                    Some(key)
                } else {
                    None
                },
                None => None,
            },
    {
        match self.parity_key() {
            CommandParity::Action(key) => {
                match coverage_of(registry, key) {
                    Some(Coverage::Missing) => Some(key),
                    _ => None,
                }
            },
            CommandParity::Internal => None,
        }
    }
}

/// How far a platform has got with an action, by the first entry that names it.
pub open spec fn coverage(registry: Seq<(CommandKey, Coverage)>, key: CommandKey) -> Option<
    Coverage,
>
    decreases registry.len(),
{
    if registry.len() == 0 {
        None
    } else if registry[0].0 == key {
        Some(registry[0].1)
    } else {
        coverage(registry.skip(1), key)
    }
}

/// How far a platform has got with an action, by the first entry that names it.
pub fn coverage_of(registry: &[(CommandKey, Coverage)], key: CommandKey) -> (found: Option<
    Coverage,
>)
    ensures
        found == coverage(registry@, key),
{
    assert(registry@.skip(0) =~= registry@);
    for i in 0..registry.len()
        invariant
            coverage(registry@, key) == coverage(registry@.skip(i as int), key),
    {
        assert(registry@.skip(i as int)[0] == registry[i as int]);
        assert(registry@.skip(i as int).skip(1) =~= registry@.skip(i + 1));
        if registry[i].0 == key {
            return Some(registry[i].1);
        }
    }
    None
}

// ----- laws -----

/// A command that performs an action.
pub open spec fn command_for(key: CommandKey) -> AppCommand {
    match key {
        CommandKey::NextPreviousImage => AppCommand::Navigate(true),
        CommandKey::GoToFirst => AppCommand::GoToFirst,
        CommandKey::GoToLast => AppCommand::GoToLast,
        CommandKey::OpenFile => AppCommand::ShowOpenDialog,
        CommandKey::DropToOpen => AppCommand::OpenDropped(arbitrary()),
        CommandKey::LoopNavigation => AppCommand::ToggleLoopNavigation,
        CommandKey::SortBy => AppCommand::SetSortBy(SortBy::Name),
        CommandKey::Refresh => AppCommand::Refresh,
        CommandKey::ZoomIn => AppCommand::ZoomIn,
        CommandKey::ZoomOut => AppCommand::ZoomOut,
        CommandKey::SetZoom => AppCommand::SetZoom(0),
        CommandKey::FitToWindow => AppCommand::FitToWindow,
        CommandKey::ActualSize => AppCommand::ActualSize,
        CommandKey::ToggleFit => AppCommand::ToggleFit,
        CommandKey::Fullscreen => AppCommand::ToggleFullscreen,
        CommandKey::AutoFitWindow => AppCommand::SetAutoFitWindow(true),
        CommandKey::EnlargeSmallImages => AppCommand::SetEnlargeSmallImages(true),
        CommandKey::IccColorManagement => AppCommand::SetIccColorManagement(true),
        CommandKey::ColorMatchDisplay => AppCommand::SetColorMatchDisplay(true),
        CommandKey::RelativeColorimetric => AppCommand::SetRelativeColorimetric(true),
        CommandKey::ScrollToZoom => AppCommand::SetScrollToZoom(true),
        CommandKey::PreloadNeighbors => AppCommand::SetPreloadNeighbors(true),
        CommandKey::TitleBar => AppCommand::SetTitleBar(true),
        CommandKey::Histogram => AppCommand::ToggleHistogram,
        CommandKey::ExifInfo => AppCommand::ToggleExifInfo,
        CommandKey::BrowseMode => AppCommand::ToggleBrowseMode,
        CommandKey::BrowseFocus => AppCommand::ToggleBrowseFocus,
        CommandKey::BrowseOpenSelected => AppCommand::BrowseOpenSelected,
        CommandKey::Slideshow => AppCommand::ToggleSlideshow,
        CommandKey::SlideshowSeconds => AppCommand::SetSlideshowSeconds(0),
        CommandKey::SlideshowCrossfade => AppCommand::SetSlideshowCrossfade(true),
        CommandKey::SlideshowLoop => AppCommand::SetSlideshowLoop(true),
        CommandKey::SlideshowSpeed => AppCommand::IncreaseSlideshowSpeed,
        CommandKey::RawPipelineFlags => AppCommand::SetRawPipelineFlags(0),
        CommandKey::CustomDcpDir => AppCommand::SetCustomDcpDir(None),
        CommandKey::CopyImage => AppCommand::CopyImage,
        CommandKey::Print => AppCommand::Print,
        CommandKey::About => AppCommand::ShowAbout,
        CommandKey::Settings => AppCommand::ShowSettings,
        CommandKey::Exit => AppCommand::Exit,
    }
}

/// Every action can be commanded.
pub proof fn every_action_has_a_command(key: CommandKey)
    ensures
        command_for(key).action() == Some(key),
{
}

/// Each action is performed by its own commands and no others.
pub proof fn actions_have_their_own_commands(command: &AppCommand, parity: CommandParity)
    requires
        call_ensures(AppCommand::parity_key, (command,), parity),
    ensures
        parity == CommandParity::Action(CommandKey::NextPreviousImage) <==> command is Navigate
            || command is NavigateDebounced,
        parity == CommandParity::Action(CommandKey::GoToFirst) <==> command is GoToFirst,
        parity == CommandParity::Action(CommandKey::GoToLast) <==> command is GoToLast,
        parity == CommandParity::Action(CommandKey::OpenFile) <==> command is OpenFile
            || command is ShowOpenDialog,
        parity == CommandParity::Action(CommandKey::DropToOpen) <==> command is OpenDropped,
        parity == CommandParity::Action(CommandKey::LoopNavigation)
            <==> command is ToggleLoopNavigation,
        parity == CommandParity::Action(CommandKey::SortBy) <==> command is SetSortBy,
        parity == CommandParity::Action(CommandKey::Refresh) <==> command is Refresh,
        parity == CommandParity::Action(CommandKey::ZoomIn) <==> command is ZoomIn,
        parity == CommandParity::Action(CommandKey::ZoomOut) <==> command is ZoomOut,
        parity == CommandParity::Action(CommandKey::SetZoom) <==> command is SetZoom,
        parity == CommandParity::Action(CommandKey::FitToWindow) <==> command is FitToWindow,
        parity == CommandParity::Action(CommandKey::ActualSize) <==> command is ActualSize,
        parity == CommandParity::Action(CommandKey::ToggleFit) <==> command is ToggleFit,
        parity == CommandParity::Action(CommandKey::Fullscreen) <==> command is ToggleFullscreen
            || command is SetFullscreen,
        parity == CommandParity::Action(CommandKey::AutoFitWindow) <==> command is SetAutoFitWindow,
        parity == CommandParity::Action(CommandKey::EnlargeSmallImages)
            <==> command is SetEnlargeSmallImages,
        parity == CommandParity::Action(CommandKey::IccColorManagement)
            <==> command is SetIccColorManagement,
        parity == CommandParity::Action(CommandKey::ColorMatchDisplay)
            <==> command is SetColorMatchDisplay,
        parity == CommandParity::Action(CommandKey::RelativeColorimetric)
            <==> command is SetRelativeColorimetric,
        parity == CommandParity::Action(CommandKey::ScrollToZoom) <==> command is SetScrollToZoom,
        parity == CommandParity::Action(CommandKey::PreloadNeighbors)
            <==> command is SetPreloadNeighbors,
        parity == CommandParity::Action(CommandKey::TitleBar) <==> command is SetTitleBar,
        parity == CommandParity::Action(CommandKey::Histogram) <==> command is ToggleHistogram,
        parity == CommandParity::Action(CommandKey::ExifInfo) <==> command is ToggleExifInfo,
        parity == CommandParity::Action(CommandKey::BrowseMode) <==> command is ToggleBrowseMode
            || command is EnterImageMode,
        parity == CommandParity::Action(CommandKey::BrowseFocus) <==> command is ToggleBrowseFocus,
        parity == CommandParity::Action(CommandKey::BrowseOpenSelected)
            <==> command is BrowseOpenSelected,
        parity == CommandParity::Action(CommandKey::Slideshow) <==> command is ToggleSlideshow,
        parity == CommandParity::Action(CommandKey::SlideshowSeconds)
            <==> command is SetSlideshowSeconds,
        parity == CommandParity::Action(CommandKey::SlideshowCrossfade)
            <==> command is SetSlideshowCrossfade,
        parity == CommandParity::Action(CommandKey::SlideshowLoop) <==> command is SetSlideshowLoop,
        parity == CommandParity::Action(CommandKey::SlideshowSpeed)
            <==> command is IncreaseSlideshowSpeed || command is DecreaseSlideshowSpeed,
        parity == CommandParity::Action(CommandKey::RawPipelineFlags)
            <==> command is SetRawPipelineFlags,
        parity == CommandParity::Action(CommandKey::CustomDcpDir) <==> command is SetCustomDcpDir,
        parity == CommandParity::Action(CommandKey::CopyImage) <==> command is CopyImage,
        parity == CommandParity::Action(CommandKey::Print) <==> command is Print,
        parity == CommandParity::Action(CommandKey::About) <==> command is ShowAbout,
        parity == CommandParity::Action(CommandKey::Settings) <==> command is ShowSettings
            || command is ShowSettingsSection || command is CloseSettings,
        parity == CommandParity::Action(CommandKey::Exit) <==> command is Exit,
{
}

/// How far a platform has got with an action is what the first entry that names it says. Without
/// one it isn't known.
pub proof fn the_first_entry_counts(
    registry: &[(CommandKey, Coverage)],
    key: CommandKey,
    found: Option<Coverage>,
    i: int,
)
    requires
        call_ensures(coverage_of, (registry, key), found),
        0 <= i <= registry@.len(),
        forall|j: int| 0 <= j < i ==> (#[trigger] registry@[j]).0 != key,
        i == registry@.len() || registry@[i].0 == key,
    ensures
        i < registry@.len() ==> found == Some(registry@[i].1),
        i == registry@.len() ==> found is None,
{
    lemma_first_entry(registry@, key, i);
}

proof fn lemma_first_entry(registry: Seq<(CommandKey, Coverage)>, key: CommandKey, i: int)
    requires
        0 <= i <= registry.len(),
        forall|j: int| 0 <= j < i ==> (#[trigger] registry[j]).0 != key,
        i == registry.len() || registry[i].0 == key,
    ensures
        coverage(registry, key) == if i < registry.len() {
            Some(registry[i].1)
        } else {
            None
        },
    decreases i,
{
    if i > 0 {
        let rest = registry.skip(1);
        assert(registry[0].0 != key);
        assert forall|j: int| 0 <= j < i - 1 implies (#[trigger] rest[j]).0 != key by {
            assert(rest[j] == registry[j + 1]);
        }
        if i < registry.len() {
            assert(rest[i - 1] == registry[i]);
        }
        lemma_first_entry(rest, key, i - 1);
    }
}

/// A command is held back exactly where it performs an action that the platform is known to be
/// missing.
pub proof fn what_is_missing_is_held_back(
    command: &AppCommand,
    registry: &[(CommandKey, Coverage)],
    parity: CommandParity,
    key: CommandKey,
    found: Option<Coverage>,
    missing: Option<CommandKey>,
)
    requires
        call_ensures(AppCommand::unimplemented_here, (command, registry), missing),
        call_ensures(AppCommand::parity_key, (command,), parity),
        call_ensures(coverage_of, (registry, key), found),
    ensures
        parity is Internal ==> missing is None,
        parity == CommandParity::Action(key) && found == Some(Coverage::Missing) ==> missing
            == Some(key),
        parity == CommandParity::Action(key) && found != Some(Coverage::Missing)
            ==> missing is None,
{
}

} // verus!
