use vstd::prelude::*;

use crate::config::{state_of, Config, ConfigView, PowerState};
use crate::mode::DisplayMode;
use crate::store::SavedModes;

verus! {

/// Why switching outputs off or back on did not fully happen.
#[derive(Clone, Copy, Debug, PartialEq, Eq, Structural)]
pub enum MonitorError {
    /// The current mode of an output could not be read.
    ModeReadFailure,
    /// The system rejected a display change.
    ReconfigurationFailure,
}

/// What a toggle does from the current state.
#[derive(Clone, Copy, Debug, PartialEq, Eq, Structural)]
pub enum ToggleAction {
    /// Switch off each secondary output, in list order.
    DisableSecondaries,
    /// Reset all outputs to their stored system settings.
    EnableAll,
}

pub open spec fn toggle_action(c: ConfigView) -> ToggleAction {
    if state_of(c) == PowerState::Enabled {
        ToggleAction::DisableSecondaries
    } else {
        ToggleAction::EnableAll
    }
}

/// The saved modes after one output was attempted: a mode that could be read
/// is saved, before the output is switched off.
pub open spec fn record_mode(
    saved: Map<Seq<char>, DisplayMode>,
    id: Seq<char>,
    read: Option<DisplayMode>,
) -> Map<Seq<char>, DisplayMode> {
    match read {
        Some(m) => saved.insert(id, m),
        None => saved,
    }
}

/// The outcome of one output's step: the mode to apply, or why none is.
pub open spec fn disable_result(read: Option<DisplayMode>) -> Result<DisplayMode, MonitorError> {
    match read {
        Some(m) => Ok(m.spec_zeroed()),
        None => Err(MonitorError::ModeReadFailure),
    }
}

/// The saved modes after attempting each output of `ids` in order, where
/// `reads[i]` is what reading the mode of `ids[i]` gave.
pub open spec fn record_modes(
    saved: Map<Seq<char>, DisplayMode>,
    ids: Seq<Seq<char>>,
    reads: Seq<Option<DisplayMode>>,
) -> Map<Seq<char>, DisplayMode>
    decreases ids.len(),
{
    if ids.len() == 0 || reads.len() != ids.len() {
        saved
    } else {
        record_mode(record_modes(saved, ids.drop_last(), reads.drop_last()), ids.last(), reads.last())
    }
}

/// The configuration after the reset of all outputs was requested; `reset_ok`
/// says whether the system accepted it.
pub open spec fn enable_all_spec(c: ConfigView, reset_ok: bool) -> ConfigView {
    if reset_ok {
        ConfigView { secondary: c.secondary, saved: Map::empty() }
    } else {
        c
    }
}

/// Decides what a toggle does: switch the secondaries off when enabled, reset
/// everything when disabled.
pub fn toggle_monitors(config: &Config) -> (r: ToggleAction)
    ensures
        r == toggle_action(config@),
{
    match config.state() {
        PowerState::Enabled => ToggleAction::DisableSecondaries,
        PowerState::Disabled => ToggleAction::EnableAll,
    }
}

/// One output's step of switching off. `current` is the mode read for
/// `device_name`, if it could be read. A read mode is saved before anything
/// else; the result is the zero-resolution mode to apply to the output.
pub fn disable_monitor(
    device_name: &String,
    current: Option<DisplayMode>,
    saved_modes: &mut SavedModes,
) -> (r: Result<DisplayMode, MonitorError>)
    ensures
        final(saved_modes)@ == record_mode(old(saved_modes)@, device_name@, current),
        r == disable_result(current),
{
    match current {
        Some(m) => {
            saved_modes.insert(device_name.clone(), m);
            Ok(m.zeroed())
        },
        None => Err(MonitorError::ModeReadFailure),
    }
}

/// Completes switching everything back on: the saved modes are forgotten
/// only when the system accepted the reset.
pub fn enable_all_monitors(config: &mut Config, reset_ok: bool) -> (r: Result<(), MonitorError>)
    ensures
        final(config)@ == enable_all_spec(old(config)@, reset_ok),
        r == (if reset_ok {
            Ok::<(), MonitorError>(())
        } else {
            Err(MonitorError::ReconfigurationFailure)
        }),
{
    if reset_ok {
        config.saved_modes.clear();
        Ok(())
    } else {
        Err(MonitorError::ReconfigurationFailure)
    }
}

/// Some output's mode could be read.
pub open spec fn some_read(reads: Seq<Option<DisplayMode>>) -> bool {
    exists|i: int| 0 <= i < reads.len() && (#[trigger] reads[i]) is Some
}

/// Starting from the enabled state, saving the modes of a list of outputs
/// ends with modes saved exactly when some output's mode could be read.
pub proof fn lemma_record_modes_empty(
    saved: Map<Seq<char>, DisplayMode>,
    ids: Seq<Seq<char>>,
    reads: Seq<Option<DisplayMode>>,
)
    requires
        saved == Map::<Seq<char>, DisplayMode>::empty(),
        ids.len() == reads.len(),
    ensures
        (record_modes(saved, ids, reads) == Map::<Seq<char>, DisplayMode>::empty()) <==> !some_read(
            reads,
        ),
    decreases ids.len(),
{
    if ids.len() > 0 {
        let ri = reads.drop_last();
        lemma_record_modes_empty(saved, ids.drop_last(), ri);
        let prev = record_modes(saved, ids.drop_last(), ri);
        if some_read(ri) {
            let i = choose|i: int| 0 <= i < ri.len() && (#[trigger] ri[i]) is Some;
            assert(reads[i] is Some);
        }
        if some_read(reads) {
            let i = choose|i: int| 0 <= i < reads.len() && (#[trigger] reads[i]) is Some;
            if i < ri.len() {
                assert(ri[i] is Some);
            }
        }
        match reads.last() {
            Some(m) => {
                assert(prev.insert(ids.last(), m).contains_key(ids.last()));
                assert(reads[reads.len() - 1] is Some);
            },
            None => {},
        }
    }
}

/// Switching the secondary outputs off, one at a time and in list order. The
/// caller asks for the next output, reads its mode, hands the outcome to
/// `step` and applies the mode that `step` returns, until `next_output`
/// gives none.
pub struct DisableRun {
    next: usize,
    start: Ghost<Map<Seq<char>, DisplayMode>>,
    reads: Ghost<Seq<Option<DisplayMode>>>,
}

impl DisableRun {
    /// How many outputs have been attempted.
    pub closed spec fn done_count(&self) -> nat {
        self.next as nat
    }

    /// The saved modes when the run began.
    pub closed spec fn start(&self) -> Map<Seq<char>, DisplayMode> {
        self.start@
    }

    /// What reading each attempted output's mode gave, in order.
    pub closed spec fn reads(&self) -> Seq<Option<DisplayMode>> {
        self.reads@
    }

    /// The run agrees with `c`: the saved modes are those at the start with
    /// the attempted outputs' reads recorded.
    pub open spec fn agrees(&self, c: ConfigView) -> bool {
        &&& self.done_count() <= c.secondary.len()
        &&& self.reads().len() == self.done_count()
        &&& c.saved == record_modes(
            self.start(),
            c.secondary.subrange(0, self.done_count() as int),
            self.reads(),
        )
    }

    pub fn begin(config: &Config) -> (r: DisableRun)
        ensures
            r.agrees(config@),
            r.done_count() == 0,
            r.start() == config@.saved,
    {
        DisableRun { next: 0, start: Ghost(config@.saved), reads: Ghost(Seq::empty()) }
    }

    /// The next output to attempt, by its position in the secondary list.
    pub fn next_output(&self, config: &Config) -> (r: Option<usize>)
        requires
            self.agrees(config@),
        ensures
            r == (if self.done_count() < config@.secondary.len() {
                Some(self.done_count() as usize)
            } else {
                None::<usize>
            }),
    {
        if self.next < config.secondary_monitors.len() {
            Some(self.next)
        } else {
            None
        }
    }

    /// Attempts the next output, whose mode read as `read`: a read mode is
    /// saved, and the zero-resolution mode to apply is returned.
    pub fn step(&mut self, config: &mut Config, read: Option<DisplayMode>) -> (r: Result<DisplayMode, MonitorError>)
        requires
            old(self).agrees(old(config)@),
            old(self).done_count() < old(config)@.secondary.len(),
        ensures
            final(self).agrees(final(config)@),
            final(self).done_count() == old(self).done_count() + 1,
            final(self).start() == old(self).start(),
            final(self).reads() == old(self).reads().push(read),
            final(config)@.secondary == old(config)@.secondary,
            final(config)@.saved == record_mode(
                old(config)@.saved,
                old(config)@.secondary[old(self).done_count() as int],
                read,
            ),
            r == disable_result(read),
    {
        let ghost c0 = config@;
        let i = self.next;
        let n = config.secondary_monitors.len();
        assert(i < n);
        let r = disable_monitor(&config.secondary_monitors[i], read, &mut config.saved_modes);
        self.next = i + 1;
        self.reads = Ghost(self.reads@.push(read));
        proof {
            let ids = config@.secondary.subrange(0, i + 1);
            assert(ids.drop_last() =~= c0.secondary.subrange(0, i as int));
            assert(self.reads@.drop_last() =~= old(self).reads@);
            assert(ids.last() == c0.secondary[i as int]);
        }
        r
    }

    /// The state once every output was attempted. From the enabled state it
    /// is disabled exactly when some output's mode could be read.
    pub fn finish(&self, config: &Config) -> (r: PowerState)
        requires
            self.agrees(config@),
            self.done_count() == config@.secondary.len(),
        ensures
            r == state_of(config@),
            (r == PowerState::Enabled) <==> (config@.saved == Map::<Seq<char>, DisplayMode>::empty()),
            self.start() == Map::<Seq<char>, DisplayMode>::empty() ==> ((r == PowerState::Disabled)
                <==> some_read(self.reads())),
    {
        proof {
            if self.start() == Map::<Seq<char>, DisplayMode>::empty() {
                lemma_record_modes_empty(
                    self.start(),
                    config@.secondary.subrange(0, self.done_count() as int),
                    self.reads(),
                );
            }
        }
        config.state()
    }
}

} // verus!
