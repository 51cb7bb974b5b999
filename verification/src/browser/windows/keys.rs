//! The three keys the browse panes take off Windows, and the many they leave alone.
//!
//! The tree and the grid handle their own arrows, page keys, Home, End, and type-select, because
//! the native controls already do all of that. Tab, Enter, and Esc are taken, and nothing else.

pub mod vk;

use crate::commands::AppCommand;
use vstd::prelude::*;

verus! {

/// The command a browse pane's `WM_KEYDOWN` should route, or `None` to leave the key to the
/// control.
pub fn browse_keydown_command(virtual_key: u32) -> (command: Option<AppCommand>)
    ensures
        command is Some <==> virtual_key == vk::TAB || virtual_key == vk::ESCAPE || virtual_key
            == vk::RETURN,
        virtual_key == vk::TAB ==> command == Some(AppCommand::ToggleBrowseFocus),
        virtual_key == vk::ESCAPE ==> command == Some(AppCommand::EnterImageMode),
        virtual_key == vk::RETURN ==> command == Some(AppCommand::BrowseOpenSelected),
{
    if virtual_key == vk::TAB {
        Some(AppCommand::ToggleBrowseFocus)
    } else if virtual_key == vk::ESCAPE {
        Some(AppCommand::EnterImageMode)
    } else if virtual_key == vk::RETURN {
        Some(AppCommand::BrowseOpenSelected)
    } else {
        None
    }
}

// ----- laws -----

/// Tab, Return and Escape are taken, each for its own command; every other key is left alone.
pub proof fn three_keys_are_taken(code: u32, command: Option<AppCommand>)
    requires
        call_ensures(browse_keydown_command, (code,), command),
    ensures
        code == 9 ==> command == Some(AppCommand::ToggleBrowseFocus),
        code == 13 ==> command == Some(AppCommand::BrowseOpenSelected),
        code == 27 ==> command == Some(AppCommand::EnterImageMode),
        code != 9 && code != 13 && code != 27 ==> command is None,
{
}

} // verus!
