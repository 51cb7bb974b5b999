//! Which user-facing actions there are, so that what a platform hasn't built is known by name.

use vstd::prelude::*;

verus! {

/// A user-facing action.
#[derive(Clone, Copy, Debug, PartialEq, Eq, Structural)]
pub enum CommandKey {
    NextPreviousImage,
    GoToFirst,
    GoToLast,
    OpenFile,
    DropToOpen,
    LoopNavigation,
    SortBy,
    Refresh,
    ZoomIn,
    ZoomOut,
    SetZoom,
    FitToWindow,
    ActualSize,
    ToggleFit,
    Fullscreen,
    AutoFitWindow,
    EnlargeSmallImages,
    IccColorManagement,
    ColorMatchDisplay,
    RelativeColorimetric,
    ScrollToZoom,
    PreloadNeighbors,
    TitleBar,
    Histogram,
    ExifInfo,
    BrowseMode,
    BrowseFocus,
    BrowseOpenSelected,
    Slideshow,
    SlideshowSeconds,
    SlideshowCrossfade,
    SlideshowLoop,
    SlideshowSpeed,
    RawPipelineFlags,
    CustomDcpDir,
    CopyImage,
    Print,
    About,
    Settings,
    Exit,
}

/// What a command means to the registry of actions.
#[derive(Clone, Copy, Debug, PartialEq, Eq, Structural)]
pub enum CommandParity {
    /// It performs a user-facing action.
    Action(CommandKey),
    /// It's plumbing: worker wakeups, watcher results, and hooks that drive the app in tests.
    Internal,
}

/// How far a platform has got with an action.
#[derive(Clone, Copy, Debug, PartialEq, Eq, Structural)]
pub enum Coverage {
    /// It's built.
    Present,
    /// It applies there, and isn't built.
    Missing,
    /// It doesn't apply there.
    NotApplicable,
}

} // verus!
