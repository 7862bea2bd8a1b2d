//! The tray menu's layout: which entry each command identifier stands for.
use vstd::prelude::*;

use crate::config::PowerState;

verus! {

/// The first command identifier of the menu shown while disabled.
pub const DISABLED_MENU_BASE: usize = 1000;

/// One entry of the tray menu.
#[derive(Clone, Copy, Debug, PartialEq, Eq, Structural)]
pub enum MenuEntry {
    /// The greyed title above the outputs.
    Header,
    /// The listed output at this position; choosing it flips whether it is secondary.
    Monitor(usize),
    Separator,
    /// Switch the secondary outputs off.
    TurnOffSelected,
    /// Switch everything back on.
    TurnBackOn,
    /// Flip the registration that starts the utility at sign-in.
    StartOnSignIn,
    Exit,
    /// No entry has this identifier.
    Unknown,
}

/// The entry with identifier `id` in the menu for `state` with `n` listed
/// outputs. Enabled: the title, one entry per output, a separator, the
/// switch-off entry, a separator, sign-in, exit. Disabled, from its own base:
/// switch back on, a separator, sign-in, a separator, exit.
pub open spec fn menu_entry_spec(state: PowerState, n: nat, id: nat) -> MenuEntry {
    if state == PowerState::Disabled {
        let b = DISABLED_MENU_BASE as nat;
        if id == b {
            MenuEntry::TurnBackOn
        } else if id == b + 1 || id == b + 3 {
            MenuEntry::Separator
        } else if id == b + 2 {
            MenuEntry::StartOnSignIn
        } else if id == b + 4 {
            MenuEntry::Exit
        } else {
            MenuEntry::Unknown
        }
    } else {
        if id == 0 {
            MenuEntry::Header
        } else if id <= n {
            MenuEntry::Monitor((id - 1) as usize)
        } else if id == n + 1 || id == n + 3 {
            MenuEntry::Separator
        } else if id == n + 2 {
            MenuEntry::TurnOffSelected
        } else if id == n + 4 {
            MenuEntry::StartOnSignIn
        } else if id == n + 5 {
            MenuEntry::Exit
        } else {
            MenuEntry::Unknown
        }
    }
}

/// The identifiers of the menu's entries, top to bottom.
pub open spec fn menu_ids_spec(state: PowerState, n: nat) -> Seq<usize> {
    if state == PowerState::Disabled {
        Seq::new(5, |i: int| (DISABLED_MENU_BASE + i) as usize)
    } else {
        Seq::new(n + 6, |i: int| i as usize)
    }
}

/// The entry that the identifier `id` stands for.
pub fn menu_entry(state: PowerState, monitor_count: usize, id: usize) -> (r: MenuEntry)
    ensures
        r == menu_entry_spec(state, monitor_count as nat, id as nat),
{
    let n = monitor_count as u128;
    let i = id as u128;
    if state == PowerState::Disabled {
        if id == DISABLED_MENU_BASE {
            MenuEntry::TurnBackOn
        } else if id == DISABLED_MENU_BASE + 1 || id == DISABLED_MENU_BASE + 3 {
            MenuEntry::Separator
        } else if id == DISABLED_MENU_BASE + 2 {
            MenuEntry::StartOnSignIn
        } else if id == DISABLED_MENU_BASE + 4 {
            MenuEntry::Exit
        } else {
            MenuEntry::Unknown
        }
    } else if id == 0 {
        MenuEntry::Header
    } else if i <= n {
        MenuEntry::Monitor(id - 1)
    } else if i == n + 1 || i == n + 3 {
        MenuEntry::Separator
    } else if i == n + 2 {
        MenuEntry::TurnOffSelected
    } else if i == n + 4 {
        MenuEntry::StartOnSignIn
    } else if i == n + 5 {
        MenuEntry::Exit
    } else {
        MenuEntry::Unknown
    }
}

/// The identifiers of the menu's entries, top to bottom.
pub fn menu_ids(state: PowerState, monitor_count: usize) -> (r: Vec<usize>)
    requires
        monitor_count + 6 <= usize::MAX,
    ensures
        r@ == menu_ids_spec(state, monitor_count as nat),
{
    let (first, count) = if state == PowerState::Disabled {
        (DISABLED_MENU_BASE, 5usize)
    } else {
        (0usize, monitor_count + 6)
    };
    let mut r: Vec<usize> = Vec::new();
    let mut k: usize = 0;
    while k < count
        invariant
            k <= count,
            first + count <= usize::MAX,
            r@ == Seq::new(k as nat, |i: int| (first + i) as usize),
        decreases count - k,
    {
        r.push(first + k);
        k += 1;
        assert(r@ =~= Seq::new(k as nat, |i: int| (first + i) as usize));
    }
    assert(r@ =~= menu_ids_spec(state, monitor_count as nat));
    r
}

} // verus!
