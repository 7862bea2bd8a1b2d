use vstd::prelude::*;

use crate::config::{state_of, Config, ConfigView, PowerState};
use crate::naming::{
    display_number, display_number_of, monitor_name, ordinal_name, pairs_view,
    resolve_name,
};

verus! {

/// The monitor attached to an output, as the system describes it.
pub struct MonitorInfo {
    /// Hardware identifier, a backslash-delimited path.
    pub device_id: String,
    /// Driver-supplied description.
    pub device_string: String,
}

/// One output as the system enumerates it.
pub struct DeviceRecord {
    pub device_name: String,
    /// The system flags this output as the primary one.
    pub is_primary: bool,
    /// The output reported a current mode, so it is actively driven.
    pub has_current_mode: bool,
    /// The attached monitor, if the system reported one.
    pub monitor: Option<MonitorInfo>,
}

pub open spec fn monitor_view(m: Option<MonitorInfo>) -> Option<(Seq<char>, Seq<char>)> {
    match m {
        Some(i) => Some((i.device_id@, i.device_string@)),
        None => None,
    }
}

/// The outputs listed from the enumeration `devs`, each with its shown name:
/// those with a device name and a current mode, in enumeration order.
pub open spec fn listed_monitors(
    table: Seq<(Seq<char>, Seq<char>)>,
    devs: Seq<DeviceRecord>,
) -> Seq<(Seq<char>, Seq<char>)>
    decreases devs.len(),
{
    if devs.len() == 0 {
        Seq::empty()
    } else {
        let p = listed_monitors(table, devs.drop_last());
        let d = devs.last();
        if d.device_name@.len() > 0 && d.has_current_mode {
            p.push(
                (
                    d.device_name@,
                    resolve_name(
                        table,
                        monitor_view(d.monitor),
                        display_number(d.device_name@, (devs.len() - 1) as nat),
                    ),
                ),
            )
        } else {
            p
        }
    }
}

/// The device name of the first output at or after `from` flagged primary.
pub open spec fn primary_from(devs: Seq<DeviceRecord>, from: int) -> Option<Seq<char>>
    decreases devs.len() - from,
{
    if from < 0 || from >= devs.len() {
        None
    } else if devs[from].is_primary {
        Some(devs[from].device_name@)
    } else {
        primary_from(devs, from + 1)
    }
}

pub open spec fn opt_view(o: Option<String>) -> Option<Seq<char>> {
    match o {
        Some(s) => Some(s@),
        None => None,
    }
}

/// The listed outputs other than the primary one, in order.
pub open spec fn secondaries_of(
    monitors: Seq<(Seq<char>, Seq<char>)>,
    primary: Option<Seq<char>>,
) -> Seq<Seq<char>>
    decreases monitors.len(),
{
    if monitors.len() == 0 {
        Seq::empty()
    } else {
        let p = secondaries_of(monitors.drop_last(), primary);
        if primary == Some(monitors.last().0) {
            p
        } else {
            p.push(monitors.last().0)
        }
    }
}

/// Every listed output is in `names`.
pub open spec fn covers_all(names: Seq<Seq<char>>, monitors: Seq<(Seq<char>, Seq<char>)>) -> bool {
    forall|i: int| 0 <= i < monitors.len() ==> names.contains(#[trigger] monitors[i].0)
}

/// `names` without any copy of `m`.
pub open spec fn remove_all(names: Seq<Seq<char>>, m: Seq<char>) -> Seq<Seq<char>>
    decreases names.len(),
{
    if names.len() == 0 {
        Seq::empty()
    } else if names.last() == m {
        remove_all(names.drop_last(), m)
    } else {
        remove_all(names.drop_last(), m).push(names.last())
    }
}

/// What choosing a listed output in the menu did to the secondary outputs.
#[derive(Clone, Copy, Debug, PartialEq, Eq, Structural)]
pub enum SelectOutcome {
    /// It was secondary and no longer is.
    Removed,
    /// It was not secondary and now is.
    Added,
    /// Marking it would have made every listed output secondary.
    Rejected,
}

pub open spec fn select_outcome(secondary: Seq<Seq<char>>, monitors: Seq<(Seq<char>, Seq<char>)>, index: int) -> SelectOutcome {
    let m = monitors[index].0;
    if secondary.contains(m) {
        SelectOutcome::Removed
    } else if covers_all(secondary.push(m), monitors) {
        SelectOutcome::Rejected
    } else {
        SelectOutcome::Added
    }
}

pub open spec fn select_secondary(secondary: Seq<Seq<char>>, monitors: Seq<(Seq<char>, Seq<char>)>, index: int) -> Seq<Seq<char>> {
    let m = monitors[index].0;
    match select_outcome(secondary, monitors, index) {
        SelectOutcome::Removed => remove_all(secondary, m),
        SelectOutcome::Added => secondary.push(m),
        SelectOutcome::Rejected => secondary,
    }
}

/// The configuration after start-up: with nothing saved, the secondary outputs
/// are recomputed; with modes saved, the configuration stands as loaded.
pub open spec fn startup_spec(
    c: ConfigView,
    monitors: Seq<(Seq<char>, Seq<char>)>,
    primary: Option<Seq<char>>,
) -> ConfigView {
    if state_of(c) == PowerState::Enabled {
        ConfigView { secondary: recomputed_secondaries(monitors, primary), saved: c.saved }
    } else {
        c
    }
}

/// The primary output: the first one that the system flags as primary.
pub fn get_primary_monitor(devices: &Vec<DeviceRecord>) -> (r: Option<String>)
    ensures
        opt_view(r) == primary_from(devices@, 0),
{
    let mut i: usize = 0;
    while i < devices.len()
        invariant
            i <= devices@.len(),
            primary_from(devices@, 0) == primary_from(devices@, i as int),
        decreases devices@.len() - i,
    {
        if devices[i].is_primary {
            return Some(devices[i].device_name.clone());
        }
        i += 1;
    }
    None
}

/// The actively driven outputs, in enumeration order, each with the name to
/// show for it; `friendly_names` is the table of monitor names.
pub fn get_monitors(devices: &Vec<DeviceRecord>, friendly_names: &Vec<(String, String)>) -> (r: Vec<(String, String)>)
    ensures
        pairs_view(r@) == listed_monitors(pairs_view(friendly_names@), devices@),
{
    let ghost table = pairs_view(friendly_names@);
    let mut r: Vec<(String, String)> = Vec::new();
    let mut i: usize = 0;
    while i < devices.len()
        invariant
            i <= devices@.len(),
            table == pairs_view(friendly_names@),
            pairs_view(r@) == listed_monitors(table, devices@.subrange(0, i as int)),
        decreases devices@.len() - i,
    {
        let ghost pre = devices@.subrange(0, i as int + 1);
        let ghost before = r@;
        assert(pre.drop_last() =~= devices@.subrange(0, i as int));
        let d = &devices[i];
        if d.device_name.as_str().unicode_len() > 0 && d.has_current_mode {
            let num = display_number_of(&d.device_name, i);
            let name = match &d.monitor {
                Some(m) => monitor_name(friendly_names, &m.device_id, &m.device_string, num),
                None => ordinal_name(num),
            };
            r.push((d.device_name.clone(), name));
            assert(pairs_view(r@) =~= pairs_view(before).push((r@.last().0@, r@.last().1@)));
        }
        assert(pairs_view(r@) =~= listed_monitors(table, pre));
        i += 1;
    }
    assert(devices@.subrange(0, devices@.len() as int) =~= devices@);
    r
}

/// Whether some listed output is named `p`.
pub open spec fn is_listed(monitors: Seq<(Seq<char>, Seq<char>)>, p: Seq<char>) -> bool {
    exists|i: int| 0 <= i < monitors.len() && #[trigger] monitors[i].0 == p
}

/// The output kept out of the secondary set: the primary one when it is
/// listed, else the first listed output, so that never every listed output
/// is secondary.
pub open spec fn kept_output(
    monitors: Seq<(Seq<char>, Seq<char>)>,
    primary: Option<Seq<char>>,
) -> Option<Seq<char>> {
    match primary {
        Some(p) if is_listed(monitors, p) => Some(p),
        _ => if monitors.len() > 0 {
            Some(monitors[0].0)
        } else {
            None
        },
    }
}

/// The secondary outputs recomputed from the listed outputs.
pub open spec fn recomputed_secondaries(
    monitors: Seq<(Seq<char>, Seq<char>)>,
    primary: Option<Seq<char>>,
) -> Seq<Seq<char>> {
    secondaries_of(monitors, kept_output(monitors, primary))
}

/// The listed outputs other than `kept`, in order, never hold `kept`.
pub proof fn lemma_secondaries_exclude(monitors: Seq<(Seq<char>, Seq<char>)>, kept: Seq<char>)
    ensures
        !secondaries_of(monitors, Some(kept)).contains(kept),
    decreases monitors.len(),
{
    if monitors.len() > 0 {
        lemma_secondaries_exclude(monitors.drop_last(), kept);
        let q = secondaries_of(monitors.drop_last(), Some(kept));
        if Some(kept) != Some(monitors.last().0) {
            if q.push(monitors.last().0).contains(kept) {
                let j = choose|j: int|
                    0 <= j < q.push(monitors.last().0).len() && q.push(monitors.last().0)[j] == kept;
                if j < q.len() {
                    assert(q[j] == kept);
                }
            }
        }
    }
}

/// Recomputing leaves the kept output out, so with any output listed not
/// every listed output is secondary; a listed primary output is the one kept.
pub proof fn lemma_recomputed_leaves_one_out(
    monitors: Seq<(Seq<char>, Seq<char>)>,
    primary: Option<Seq<char>>,
)
    requires
        monitors.len() > 0,
    ensures
        !covers_all(recomputed_secondaries(monitors, primary), monitors),
        kept_output(monitors, primary) is Some,
        !recomputed_secondaries(monitors, primary).contains(kept_output(monitors, primary)->0),
        forall|p: Seq<char>|
            primary == Some(p) && is_listed(monitors, p) ==> kept_output(monitors, primary) == Some(p),
{
    let k = kept_output(monitors, primary)->0;
    lemma_secondaries_exclude(monitors, k);
    let i = if primary is Some && is_listed(monitors, primary->0) {
        choose|i: int| 0 <= i < monitors.len() && #[trigger] monitors[i].0 == primary->0
    } else {
        0
    };
    assert(monitors[i].0 == k);
}

/// Whether `p` is one of the listed outputs.
fn listed_exec(monitors: &Vec<(String, String)>, p: &String) -> (r: bool)
    ensures
        r == is_listed(pairs_view(monitors@), p@),
{
    let ghost mv = pairs_view(monitors@);
    let mut i: usize = 0;
    while i < monitors.len()
        invariant
            i <= monitors@.len(),
            mv == pairs_view(monitors@),
            forall|j: int| 0 <= j < i ==> #[trigger] mv[j].0 != p@,
        decreases monitors@.len() - i,
    {
        if monitors[i].0 == *p {
            assert(mv[i as int].0 == p@);
            return true;
        }
        i += 1;
    }
    false
}

/// The listed outputs other than `excluded`, in order.
fn secondaries_excluding(monitors: &Vec<(String, String)>, excluded: &Option<String>) -> (r: Vec<String>)
    ensures
        r@.map_values(|x: String| x@) == secondaries_of(pairs_view(monitors@), opt_view(*excluded)),
{
    let ghost mv = pairs_view(monitors@);
    let mut s: Vec<String> = Vec::new();
    let mut i: usize = 0;
    while i < monitors.len()
        invariant
            i <= monitors@.len(),
            mv == pairs_view(monitors@),
            s@.map_values(|x: String| x@) == secondaries_of(mv.subrange(0, i as int), opt_view(*excluded)),
        decreases monitors@.len() - i,
    {
        let ghost pre = mv.subrange(0, i as int + 1);
        let ghost before = s@;
        assert(pre.drop_last() =~= mv.subrange(0, i as int));
        assert(pre.last() == (monitors@[i as int].0@, monitors@[i as int].1@));
        let is_excluded = match excluded {
            Some(p) => *p == monitors[i].0,
            None => false,
        };
        if !is_excluded {
            s.push(monitors[i].0.clone());
            assert(s@.map_values(|x: String| x@) =~= before.map_values(|x: String| x@).push(s@.last()@));
        }
        assert(s@.map_values(|x: String| x@) =~= secondaries_of(pre, opt_view(*excluded)));
        i += 1;
    }
    assert(mv.subrange(0, monitors@.len() as int) =~= mv);
    s
}

/// Recomputes the secondary outputs while nothing is saved: every listed
/// output but the kept one (the primary one when listed, else the first
/// listed), in order. While modes are saved the configuration is left as it
/// is, so that a disabled session keeps its intent.
pub fn update_secondary_monitors(
    config: &mut Config,
    monitors: &Vec<(String, String)>,
    primary: &Option<String>,
)
    ensures
        state_of(old(config)@) == PowerState::Enabled ==> final(config)@.secondary
            == recomputed_secondaries(pairs_view(monitors@), opt_view(*primary)),
        state_of(old(config)@) == PowerState::Enabled && monitors@.len() > 0 ==> !covers_all(
            final(config)@.secondary,
            pairs_view(monitors@),
        ),
        state_of(old(config)@) == PowerState::Disabled ==> final(config)@ == old(config)@,
        final(config)@.saved == old(config)@.saved,
{
    if config.state() == PowerState::Disabled {
        return;
    }
    let ghost mv = pairs_view(monitors@);
    let kept: Option<String> = match primary {
        Some(p) if listed_exec(monitors, p) => Some(p.clone()),
        _ => if monitors.len() > 0 {
            assert(mv[0].0 == monitors@[0].0@);
            Some(monitors[0].0.clone())
        } else {
            None
        },
    };
    assert(opt_view(kept) == kept_output(mv, opt_view(*primary)));
    config.secondary_monitors = secondaries_excluding(monitors, &kept);
    proof {
        if monitors@.len() > 0 {
            lemma_recomputed_leaves_one_out(mv, opt_view(*primary));
        }
    }
}

/// Start-up: with no saved modes the secondary outputs are recomputed from
/// the listed outputs and the primary one; with saved modes the
/// configuration is left as loaded. The result is the state to show.
pub fn start_session(
    config: &mut Config,
    monitors: &Vec<(String, String)>,
    primary: &Option<String>,
) -> (r: PowerState)
    ensures
        final(config)@ == startup_spec(old(config)@, pairs_view(monitors@), opt_view(*primary)),
        r == state_of(old(config)@),
        r == state_of(final(config)@),
{
    let state = config.state();
    update_secondary_monitors(config, monitors, primary);
    state
}

fn contains_name(names: &Vec<String>, m: &String) -> (r: bool)
    ensures
        r == names@.map_values(|x: String| x@).contains(m@),
{
    let ghost nv = names@.map_values(|x: String| x@);
    let mut i: usize = 0;
    while i < names.len()
        invariant
            i <= names@.len(),
            nv == names@.map_values(|x: String| x@),
            forall|j: int| 0 <= j < i ==> nv[j] != m@,
        decreases names@.len() - i,
    {
        if names[i] == *m {
            assert(nv[i as int] == m@);
            return true;
        }
        i += 1;
    }
    false
}

fn remove_name(names: &Vec<String>, m: &String) -> (r: Vec<String>)
    ensures
        r@.map_values(|x: String| x@) == remove_all(names@.map_values(|x: String| x@), m@),
{
    let ghost nv = names@.map_values(|x: String| x@);
    let mut r: Vec<String> = Vec::new();
    let mut i: usize = 0;
    while i < names.len()
        invariant
            i <= names@.len(),
            nv == names@.map_values(|x: String| x@),
            r@.map_values(|x: String| x@) == remove_all(nv.subrange(0, i as int), m@),
        decreases names@.len() - i,
    {
        let ghost pre = nv.subrange(0, i as int + 1);
        let ghost before = r@;
        assert(pre.drop_last() =~= nv.subrange(0, i as int));
        if !(names[i] == *m) {
            r.push(names[i].clone());
            assert(r@.map_values(|x: String| x@) =~= before.map_values(|x: String| x@).push(r@.last()@));
        }
        assert(r@.map_values(|x: String| x@) =~= remove_all(pre, m@));
        i += 1;
    }
    assert(nv.subrange(0, names@.len() as int) =~= nv);
    r
}

/// Whether every listed output is in `names`.
fn covers_all_exec(names: &Vec<String>, monitors: &Vec<(String, String)>) -> (r: bool)
    ensures
        r == covers_all(names@.map_values(|x: String| x@), pairs_view(monitors@)),
{
    let ghost mv = pairs_view(monitors@);
    let mut i: usize = 0;
    while i < monitors.len()
        invariant
            i <= monitors@.len(),
            mv == pairs_view(monitors@),
            forall|j: int| 0 <= j < i ==> names@.map_values(|x: String| x@).contains(#[trigger] mv[j].0),
        decreases monitors@.len() - i,
    {
        if !contains_name(names, &monitors[i].0) {
            assert(mv[i as int].0 == monitors@[i as int].0@);
            return false;
        }
        i += 1;
    }
    true
}

/// Flips whether the listed output at `index` is secondary, unless marking it
/// would make every listed output secondary; then nothing changes.
pub fn select_monitor(config: &mut Config, monitors: &Vec<(String, String)>, index: usize) -> (r: SelectOutcome)
    requires
        index < monitors@.len(),
    ensures
        r == select_outcome(old(config)@.secondary, pairs_view(monitors@), index as int),
        final(config)@.secondary == select_secondary(old(config)@.secondary, pairs_view(monitors@), index as int),
        final(config)@.saved == old(config)@.saved,
{
    let m = &monitors[index].0;
    assert(pairs_view(monitors@)[index as int].0 == m@);
    if contains_name(&config.secondary_monitors, m) {
        config.secondary_monitors = remove_name(&config.secondary_monitors, m);
        return SelectOutcome::Removed;
    }
    let mut marked = config.secondary_monitors.clone();
    assert(marked@ == old(config).secondary_monitors@);
    let ghost before = marked@;
    marked.push(m.clone());
    assert(marked@.map_values(|x: String| x@) =~= before.map_values(|x: String| x@).push(m@));
    if covers_all_exec(&marked, monitors) {
        SelectOutcome::Rejected
    } else {
        config.secondary_monitors = marked;
        SelectOutcome::Added
    }
}

} // verus!
