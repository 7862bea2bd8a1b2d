use vstd::prelude::*;

use crate::mode::DisplayMode;
use crate::store::SavedModes;

verus! {

/// Whether the secondary outputs are currently switched off.
#[derive(Clone, Copy, Debug, PartialEq, Eq, Structural)]
pub enum PowerState {
    Enabled,
    Disabled,
}

/// What a configuration stands for: the outputs marked as secondary, in
/// order, and the modes saved when outputs were switched off.
pub ghost struct ConfigView {
    pub secondary: Seq<Seq<char>>,
    pub saved: Map<Seq<char>, DisplayMode>,
}

/// The state is read off the saved modes alone: none saved means enabled.
pub open spec fn state_of(c: ConfigView) -> PowerState {
    if c.saved == Map::<Seq<char>, DisplayMode>::empty() {
        PowerState::Enabled
    } else {
        PowerState::Disabled
    }
}

pub open spec fn names_view(v: Seq<String>) -> Seq<Seq<char>> {
    v.map_values(|s: String| s@)
}

/// The persisted state of the utility.
pub struct Config {
    pub secondary_monitors: Vec<String>,
    pub saved_modes: SavedModes,
}

impl View for Config {
    type V = ConfigView;

    open spec fn view(&self) -> ConfigView {
        ConfigView { secondary: names_view(self.secondary_monitors@), saved: self.saved_modes@ }
    }
}

impl Config {
    /// An empty configuration: no secondary outputs, nothing saved.
    pub fn new() -> (r: Config)
        ensures
            r@.secondary.len() == 0,
            r@.saved == Map::<Seq<char>, DisplayMode>::empty(),
    {
        let r = Config { secondary_monitors: Vec::new(), saved_modes: SavedModes::new() };
        assert(r@.secondary =~= Seq::<Seq<char>>::empty());
        r
    }

    /// The current state: enabled exactly when no mode is saved.
    pub fn state(&self) -> (r: PowerState)
        ensures
            r == state_of(self@),
            (r == PowerState::Enabled) <==> (self@.saved == Map::<Seq<char>, DisplayMode>::empty()),
    {
        if self.saved_modes.is_empty() {
            PowerState::Enabled
        } else {
            PowerState::Disabled
        }
    }
}

impl Default for Config {
    fn default() -> (r: Config)
        ensures
            r@.secondary.len() == 0,
            r@.saved == Map::<Seq<char>, DisplayMode>::empty(),
    {
        Config::new()
    }
}

} // verus!
