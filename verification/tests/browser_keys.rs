//! The keys the browse panes take.

use prvw::browser::windows::keys::{browse_keydown_command, vk};
use prvw::commands::AppCommand;

#[test]
fn tab_enter_and_escape_are_the_only_keys_taken() {
    assert!(matches!(
        browse_keydown_command(vk::TAB),
        Some(AppCommand::ToggleBrowseFocus)
    ));
    assert!(matches!(
        browse_keydown_command(vk::ESCAPE),
        Some(AppCommand::EnterImageMode)
    ));
    assert!(matches!(
        browse_keydown_command(vk::RETURN),
        Some(AppCommand::BrowseOpenSelected)
    ));
}

/// The keys that make the browser feel like Explorer are the ones we don't touch. Taking any
/// of these would replace a native behaviour with a worse one: arrow selection, page scroll,
/// jump to first and last, and type-select all come free from the controls.
#[test]
fn navigation_keys_fall_through_to_the_control() {
    for key in [
        vk::LEFT,
        vk::UP,
        vk::RIGHT,
        vk::DOWN,
        vk::PRIOR,
        vk::NEXT,
        vk::HOME,
        vk::END,
        vk::BACK,
        vk::F5,
    ] {
        assert!(
            browse_keydown_command(key).is_none(),
            "key {key:#04x} should reach the control"
        );
    }
    // Every letter, so type-select keeps working.
    for letter in 'A'..='Z' {
        assert!(browse_keydown_command(letter as u32).is_none());
    }
}
