//! Virtual-key codes, from `winuser.h`.

use vstd::prelude::*;

verus! {

/// `VK_BACK`.
pub const BACK: u32 = 0x08;

/// `VK_TAB`.
pub const TAB: u32 = 0x09;

/// `VK_RETURN`: both the main Return key and the numeric keypad's Enter, which Windows
/// distinguishes by an extended-key flag rather than by code.
pub const RETURN: u32 = 0x0D;

/// `VK_ESCAPE`.
pub const ESCAPE: u32 = 0x1B;

/// `VK_PRIOR`: Page Up.
pub const PRIOR: u32 = 0x21;

/// `VK_NEXT`: Page Down.
pub const NEXT: u32 = 0x22;

/// `VK_END`.
pub const END: u32 = 0x23;

/// `VK_HOME`.
pub const HOME: u32 = 0x24;

/// `VK_LEFT`.
pub const LEFT: u32 = 0x25;

/// `VK_UP`.
pub const UP: u32 = 0x26;

/// `VK_RIGHT`.
pub const RIGHT: u32 = 0x27;

/// `VK_DOWN`.
pub const DOWN: u32 = 0x28;

/// `VK_F5`, which the menu bar's accelerator table owns.
pub const F5: u32 = 0x74;

} // verus!
