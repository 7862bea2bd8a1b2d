use screenoff::config::PowerState;
use screenoff::menu::{menu_entry, menu_ids, MenuEntry};

#[test]
fn enabled_menu_layout() {
    assert_eq!(menu_ids(PowerState::Enabled, 2), vec![0, 1, 2, 3, 4, 5, 6, 7]);
    let entries: Vec<MenuEntry> =
        (0..9).map(|id| menu_entry(PowerState::Enabled, 2, id)).collect();
    assert_eq!(
        entries,
        vec![
            MenuEntry::Header,
            MenuEntry::Monitor(0),
            MenuEntry::Monitor(1),
            MenuEntry::Separator,
            MenuEntry::TurnOffSelected,
            MenuEntry::Separator,
            MenuEntry::StartOnSignIn,
            MenuEntry::Exit,
            MenuEntry::Unknown,
        ]
    );
}

#[test]
fn disabled_menu_layout() {
    assert_eq!(menu_ids(PowerState::Disabled, 3), vec![1000, 1001, 1002, 1003, 1004]);
    assert_eq!(menu_entry(PowerState::Disabled, 3, 1000), MenuEntry::TurnBackOn);
    assert_eq!(menu_entry(PowerState::Disabled, 3, 1001), MenuEntry::Separator);
    assert_eq!(menu_entry(PowerState::Disabled, 3, 1002), MenuEntry::StartOnSignIn);
    assert_eq!(menu_entry(PowerState::Disabled, 3, 1003), MenuEntry::Separator);
    assert_eq!(menu_entry(PowerState::Disabled, 3, 1004), MenuEntry::Exit);
    assert_eq!(menu_entry(PowerState::Disabled, 3, 1), MenuEntry::Unknown);
}

#[test]
fn menu_with_no_outputs() {
    assert_eq!(menu_ids(PowerState::Enabled, 0), vec![0, 1, 2, 3, 4, 5]);
    assert_eq!(menu_entry(PowerState::Enabled, 0, 2), MenuEntry::TurnOffSelected);
    assert_eq!(menu_entry(PowerState::Enabled, 0, usize::MAX), MenuEntry::Unknown);
}
