//! Properties that hold across the operations of a session.
use vstd::prelude::*;

use crate::config::{state_of, ConfigView, PowerState};
use crate::mode::DisplayMode;
use crate::monitors::{
    covers_all, is_listed, lemma_recomputed_leaves_one_out, remove_all, select_outcome,
    select_secondary, startup_spec, SelectOutcome,
};
use crate::power::{
    disable_result, enable_all_spec, lemma_record_modes_empty, record_modes, some_read,
    toggle_action, MonitorError, ToggleAction,
};

verus! {

/// Starting from the enabled state, switching a list of outputs off ends in
/// the disabled state exactly when some output's mode could be read; the
/// saved modes are empty exactly in the enabled state.
pub proof fn lemma_disable_state(c: ConfigView, ids: Seq<Seq<char>>, reads: Seq<Option<DisplayMode>>)
    requires
        state_of(c) == PowerState::Enabled,
        ids.len() == reads.len(),
    ensures
        ({
            let d = ConfigView { secondary: c.secondary, saved: record_modes(c.saved, ids, reads) };
            &&& (state_of(d) == PowerState::Disabled) <==> some_read(reads)
            &&& (state_of(d) == PowerState::Enabled) <==> (d.saved == Map::<Seq<char>, DisplayMode>::empty())
        }),
{
    lemma_record_modes_empty(c.saved, ids, reads);
}

/// Switching everything back on, accepted by the system, always ends in the
/// enabled state; refused, it leaves the state as it was.
pub proof fn lemma_enable_all_state(c: ConfigView, reset_ok: bool)
    ensures
        reset_ok ==> state_of(enable_all_spec(c, reset_ok)) == PowerState::Enabled,
        !reset_ok ==> state_of(enable_all_spec(c, reset_ok)) == state_of(c),
{
}

proof fn lemma_remove_all_subset(names: Seq<Seq<char>>, m: Seq<char>, x: Seq<char>)
    ensures
        remove_all(names, m).contains(x) ==> names.contains(x) && x != m,
    decreases names.len(),
{
    if names.len() > 0 {
        lemma_remove_all_subset(names.drop_last(), m, x);
        let p = remove_all(names.drop_last(), m);
        if remove_all(names, m).contains(x) {
            if p.contains(x) {
                let j = choose|j: int| 0 <= j < names.drop_last().len() && names.drop_last()[j] == x;
                assert(names[j] == x);
            } else {
                assert(names.last() != m);
                let j = choose|j: int| 0 <= j < p.push(names.last()).len() && p.push(names.last())[j] == x;
                if j < p.len() {
                    assert(p[j] == x);
                } else {
                    assert(names[names.len() - 1] == x);
                }
            }
        }
    }
}

/// Choosing a listed output in the menu never makes every listed output
/// secondary: if one was not secondary before, one is not after. Marking the
/// last output that is not secondary is refused and changes nothing.
pub proof fn lemma_select_never_covers_all(
    secondary: Seq<Seq<char>>,
    monitors: Seq<(Seq<char>, Seq<char>)>,
    index: int,
)
    requires
        0 <= index < monitors.len(),
        !covers_all(secondary, monitors),
    ensures
        !covers_all(select_secondary(secondary, monitors, index), monitors),
        !secondary.contains(monitors[index].0) && covers_all(secondary.push(monitors[index].0), monitors)
            ==> select_outcome(secondary, monitors, index) == SelectOutcome::Rejected
            && select_secondary(secondary, monitors, index) == secondary,
{
    let m = monitors[index].0;
    let i = choose|i: int| 0 <= i < monitors.len() && !secondary.contains(#[trigger] monitors[i].0);
    if secondary.contains(m) {
        lemma_remove_all_subset(secondary, m, monitors[i].0);
    }
}

/// A sequence of menu selections, applied in order, each the position of a
/// listed output.
pub open spec fn select_all(
    secondary: Seq<Seq<char>>,
    monitors: Seq<(Seq<char>, Seq<char>)>,
    picks: Seq<int>,
) -> Seq<Seq<char>>
    decreases picks.len(),
{
    if picks.len() == 0 {
        secondary
    } else {
        select_secondary(select_all(secondary, monitors, picks.drop_last()), monitors, picks.last())
    }
}

/// However many outputs are chosen in the menu, one after another, if one
/// listed output was not secondary before, one is not after.
pub proof fn lemma_selections_never_cover_all(
    secondary: Seq<Seq<char>>,
    monitors: Seq<(Seq<char>, Seq<char>)>,
    picks: Seq<int>,
)
    requires
        forall|k: int| 0 <= k < picks.len() ==> 0 <= #[trigger] picks[k] < monitors.len(),
        !covers_all(secondary, monitors),
    ensures
        !covers_all(select_all(secondary, monitors, picks), monitors),
    decreases picks.len(),
{
    if picks.len() > 0 {
        let rest = picks.drop_last();
        assert forall|k: int| 0 <= k < rest.len() implies 0 <= #[trigger] rest[k] < monitors.len() by {
            assert(rest[k] == picks[k]);
        }
        lemma_selections_never_cover_all(secondary, monitors, rest);
        assert(picks[picks.len() - 1] == picks.last());
        lemma_select_never_covers_all(select_all(secondary, monitors, rest), monitors, picks.last());
    }
}

/// Recomputing the secondary outputs at start-up, with any output listed,
/// never makes every listed output secondary: the primary one is left out
/// when it is listed, else the first listed output is.
pub proof fn lemma_startup_keeps_one_output(
    c: ConfigView,
    monitors: Seq<(Seq<char>, Seq<char>)>,
    primary: Option<Seq<char>>,
)
    requires
        state_of(c) == PowerState::Enabled,
        monitors.len() > 0,
    ensures
        !covers_all(startup_spec(c, monitors, primary).secondary, monitors),
        forall|p: Seq<char>|
            primary == Some(p) && is_listed(monitors, p) ==> !startup_spec(
                c,
                monitors,
                primary,
            ).secondary.contains(p),
{
    lemma_recomputed_leaves_one_out(monitors, primary);
}

/// Switching everything on while already enabled changes nothing.
pub proof fn lemma_enable_all_when_enabled(c: ConfigView, reset_ok: bool)
    requires
        state_of(c) == PowerState::Enabled,
    ensures
        enable_all_spec(c, reset_ok) == c,
        enable_all_spec(c, reset_ok).saved == Map::<Seq<char>, DisplayMode>::empty(),
{
}

/// Switching a list of outputs off and then everything back on, with the
/// reset accepted, ends enabled with nothing saved, whatever the reads gave;
/// the secondary outputs are as they were.
pub proof fn lemma_disable_enable_round_trip(
    c: ConfigView,
    ids: Seq<Seq<char>>,
    reads: Seq<Option<DisplayMode>>,
)
    requires
        state_of(c) == PowerState::Enabled,
        ids.len() == reads.len(),
    ensures
        ({
            let d = ConfigView { secondary: c.secondary, saved: record_modes(c.saved, ids, reads) };
            let e = enable_all_spec(d, true);
            &&& toggle_action(c) == ToggleAction::DisableSecondaries
            &&& some_read(reads) ==> toggle_action(d) == ToggleAction::EnableAll
            &&& state_of(e) == PowerState::Enabled
            &&& e.saved == Map::<Seq<char>, DisplayMode>::empty()
            &&& e.secondary == c.secondary
        }),
{
    lemma_disable_state(c, ids, reads);
}

/// Of two outputs `a` and `b`, where the mode of `a` reads as `m` and that of
/// `b` cannot be read: the mode of `a` is saved and `a` is switched off,
/// while `b` is neither saved nor switched off.
pub proof fn lemma_failed_read_is_skipped(
    saved: Map<Seq<char>, DisplayMode>,
    a: Seq<char>,
    b: Seq<char>,
    m: DisplayMode,
)
    requires
        a != b,
        !saved.contains_key(b),
    ensures
        ({
            let r = record_modes(saved, seq![a, b], seq![Some(m), None]);
            &&& r == saved.insert(a, m)
            &&& r[a] == m
            &&& !r.contains_key(b)
        }),
        disable_result(Some(m)) == Ok::<DisplayMode, MonitorError>(m.spec_zeroed()),
        disable_result(None) == Err::<DisplayMode, MonitorError>(MonitorError::ModeReadFailure),
{
    let ids = seq![a, b];
    let reads = seq![Some(m), None::<DisplayMode>];
    assert(ids.drop_last() =~= seq![a]);
    assert(reads.drop_last() =~= seq![Some(m)]);
    assert(ids.drop_last().drop_last() =~= Seq::<Seq<char>>::empty());
    assert(reads.drop_last().drop_last() =~= Seq::<Option<DisplayMode>>::empty());
    assert(record_modes(saved, ids.drop_last().drop_last(), reads.drop_last().drop_last()) == saved);
    assert(record_modes(saved, ids.drop_last(), reads.drop_last()) == saved.insert(a, m));
    assert(record_modes(saved, ids, reads) == saved.insert(a, m));
}

/// A session that was closed while disabled resumes as it was: start-up keeps
/// the loaded configuration, secondary outputs included, and shows the
/// disabled state.
pub proof fn lemma_startup_resume(
    c: ConfigView,
    monitors: Seq<(Seq<char>, Seq<char>)>,
    primary: Option<Seq<char>>,
)
    requires
        c.saved != Map::<Seq<char>, DisplayMode>::empty(),
    ensures
        startup_spec(c, monitors, primary) == c,
        state_of(startup_spec(c, monitors, primary)) == PowerState::Disabled,
{
}

} // verus!
