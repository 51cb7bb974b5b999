//! What commands mean to the registry of actions.

use prvw::commands::{coverage_of, AppCommand};
use prvw::parity::{CommandKey, CommandParity, Coverage};

#[test]
fn a_command_performs_an_action_or_is_plumbing() {
    assert_eq!(
        AppCommand::NavigateDebounced(true).parity_key(),
        CommandParity::Action(CommandKey::NextPreviousImage)
    );
    assert_eq!(
        AppCommand::EnterImageMode.parity_key(),
        CommandParity::Action(CommandKey::BrowseMode)
    );
    assert_eq!(
        AppCommand::OpenDropped(vec!["a.jpg".to_string()]).parity_key(),
        CommandParity::Action(CommandKey::DropToOpen)
    );
    assert_eq!(
        AppCommand::BrowseGridSelected(3).parity_key(),
        CommandParity::Internal
    );
    assert_eq!(
        AppCommand::SetWindowGeometry {
            x: None,
            y: Some(1),
            width: None,
            height: None
        }
        .parity_key(),
        CommandParity::Internal
    );
}

/// A command is dropped just where its action applies and isn't built.
#[test]
fn only_a_missing_action_is_dropped() {
    let registry = [
        (CommandKey::BrowseMode, Coverage::Missing),
        (CommandKey::Print, Coverage::NotApplicable),
        (CommandKey::CopyImage, Coverage::Present),
        (CommandKey::BrowseMode, Coverage::Present),
    ];
    assert_eq!(
        AppCommand::ToggleBrowseMode.unimplemented_here(&registry),
        Some(CommandKey::BrowseMode)
    );
    assert_eq!(AppCommand::Print.unimplemented_here(&registry), None);
    assert_eq!(AppCommand::CopyImage.unimplemented_here(&registry), None);
    assert_eq!(AppCommand::Exit.unimplemented_here(&registry), None);
    assert_eq!(AppCommand::PreloaderProgress.unimplemented_here(&registry), None);
    assert_eq!(
        coverage_of(&registry, CommandKey::BrowseMode),
        Some(Coverage::Missing)
    );
    assert_eq!(coverage_of(&registry, CommandKey::Exit), None);
}
