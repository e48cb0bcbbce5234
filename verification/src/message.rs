//! What the user interface and the worker tell each other.

use crate::inputs;
use crate::inputs::InputOption;
use crate::monitor;
use crate::monitor::MonitorState;
use crate::text;
use crate::vcp::FeatureCode;
use vstd::prelude::*;

verus! {

/// What the user interface asks of the worker.
#[derive(Clone, Copy, Debug, PartialEq, Eq, Structural)]
pub enum Cmd {
    SetFeature { idx: usize, code: FeatureCode, value: u16 },
    /// Re-read values on the existing handles.
    Reload,
    /// Re-enumerate monitors.
    Rescan,
}

/// What the worker reports to the user interface.
#[derive(Debug)]
pub enum Msg {
    Scanned { monitors: Vec<MonitorState>, error: Option<String> },
    Inputs { idx: usize, inputs: Vec<InputOption> },
    Reloaded { idx: usize, state: MonitorState },
    SetOk {
        idx: usize,
        code: FeatureCode,
        value: u16,
        /// For input switches: what the monitor reported afterwards.
        readback: Option<u8>,
    },
    SetErr { idx: usize, code: FeatureCode, value: u16, err: String },
}

/// What a [`Msg`] holds.
pub enum MsgView {
    Scanned { monitors: Seq<monitor::MonitorView>, error: Option<Seq<char>> },
    Inputs { idx: int, inputs: Seq<inputs::InputOptionView> },
    Reloaded { idx: int, state: monitor::MonitorView },
    SetOk { idx: int, code: FeatureCode, value: u16, readback: Option<u8> },
    SetErr { idx: int, code: FeatureCode, value: u16, err: Seq<char> },
}

/// What a list of monitors holds.
pub open spec fn monitors_view(monitors: Seq<MonitorState>) -> Seq<monitor::MonitorView> {
    monitors.map_values(|m: MonitorState| m@)
}

impl View for Msg {
    type V = MsgView;

    open spec fn view(&self) -> MsgView {
        match self {
            Msg::Scanned { monitors, error } => MsgView::Scanned {
                monitors: monitors_view(monitors@),
                error: text::opt_view(*error),
            },
            Msg::Inputs { idx, inputs } => MsgView::Inputs {
                idx: *idx as int,
                inputs: inputs::options_view(inputs@),
            },
            Msg::Reloaded { idx, state } => MsgView::Reloaded { idx: *idx as int, state: state@ },
            Msg::SetOk { idx, code, value, readback } => MsgView::SetOk {
                idx: *idx as int,
                code: *code,
                value: *value,
                readback: *readback,
            },
            Msg::SetErr { idx, code, value, err } => MsgView::SetErr {
                idx: *idx as int,
                code: *code,
                value: *value,
                err: err@,
            },
        }
    }
}

/// A burst of commands, collapsed.
#[derive(Debug, Default, PartialEq)]
pub struct Batch {
    pub rescan: bool,
    pub reload: bool,
    /// Latest value per (monitor, feature), in first-seen order.
    pub sets: Vec<(usize, FeatureCode, u16)>,
}

/// The control that a command is about, if it sets one.
pub open spec fn target(cmd: Cmd) -> Option<(usize, FeatureCode)> {
    match cmd {
        Cmd::SetFeature { idx, code, value } => Some((idx, code)),
        _ => None,
    }
}

/// The controls that the commands set, each once, in the order in which they first occur.
pub open spec fn first_seen(cmds: Seq<Cmd>) -> Seq<(usize, FeatureCode)>
    decreases cmds.len(),
{
    if cmds.len() == 0 {
        Seq::empty()
    } else {
        let before = first_seen(cmds.drop_last());
        match target(cmds.last()) {
            Some(key) => if before.contains(key) {
                before
            } else {
                before.push(key)
            },
            None => before,
        }
    }
}

/// The value in the last of the commands that set the given control.
pub open spec fn latest(cmds: Seq<Cmd>, key: (usize, FeatureCode)) -> u16
    recommends
        first_seen(cmds).contains(key),
    decreases cmds.len(),
{
    if cmds.len() == 0 {
        0
    } else if target(cmds.last()) == Some(key) {
        cmds.last()->value
    } else {
        latest(cmds.drop_last(), key)
    }
}

/// What the commands come to: for each control that they set, its latest value.
pub open spec fn coalesced(cmds: Seq<Cmd>) -> Seq<(usize, FeatureCode, u16)> {
    first_seen(cmds).map_values(
        |key: (usize, FeatureCode)| (key.0, key.1, latest(cmds, key)),
    )
}

proof fn lemma_first_seen_once(cmds: Seq<Cmd>)
    ensures
        first_seen(cmds).no_duplicates(),
    decreases cmds.len(),
{
    if cmds.len() > 0 {
        lemma_first_seen_once(cmds.drop_last());
    }
}

/// The position of a control among those that are set, or the length of the list.
fn find_slot(sets: &Vec<(usize, FeatureCode, u16)>, idx: usize, code: FeatureCode) -> (slot: usize)
    ensures
        slot <= sets@.len(),
        slot < sets@.len() ==> sets@[slot as int].0 == idx && sets@[slot as int].1 == code,
        forall|i: int| 0 <= i < slot ==> !((#[trigger] sets@[i]).0 == idx && sets@[i].1 == code),
{
    let mut i: usize = 0;
    while i < sets.len()
        invariant
            i <= sets@.len(),
            forall|j: int| 0 <= j < i ==> !((#[trigger] sets@[j]).0 == idx && sets@[j].1 == code),
        decreases sets@.len() - i,
    {
        if sets[i].0 == idx && sets[i].1 == code {
            return i;
        }
        i = i + 1;
    }
    i
}

/// Collapses a burst of queued commands: keeps only the newest value per control.
pub fn coalesce(cmds: Vec<Cmd>) -> (batch: Batch)
    ensures
        batch.rescan == cmds@.contains(Cmd::Rescan),
        batch.reload == cmds@.contains(Cmd::Reload),
        batch.sets@ == coalesced(cmds@),
{
    let mut batch = Batch { rescan: false, reload: false, sets: Vec::new() };
    let mut n: usize = 0;
    assert(batch.sets@ =~= coalesced(cmds@.take(0)));
    while n < cmds.len()
        invariant
            n <= cmds@.len(),
            batch.rescan == cmds@.take(n as int).contains(Cmd::Rescan),
            batch.reload == cmds@.take(n as int).contains(Cmd::Reload),
            batch.sets@ == coalesced(cmds@.take(n as int)),
        decreases cmds@.len() - n,
    {
        let ghost seen = cmds@.take(n as int);
        let ghost more = cmds@.take(n + 1);
        let ghost keys = first_seen(seen);
        let ghost before = batch.sets@;
        let cmd = cmds[n];
        assert(more.drop_last() =~= seen);
        assert(more.last() == cmd);
        assert(forall|c: Cmd| more.contains(c) <==> seen.contains(c) || c == cmd) by {
            lemma_contains_push(seen, cmd);
            assert(more =~= seen.push(cmd));
        }
        match cmd {
            Cmd::Rescan => {
                batch.rescan = true;
                assert(coalesced(more) =~= coalesced(seen));
            },
            Cmd::Reload => {
                batch.reload = true;
                assert(coalesced(more) =~= coalesced(seen));
            },
            Cmd::SetFeature { idx, code, value } => {
                let slot: usize = find_slot(&batch.sets, idx, code);
                proof {
                    lemma_first_seen_once(seen);
                    assert(forall|i: int|
                        0 <= i < before.len() ==> (#[trigger] before[i]).0 == keys[i].0
                            && before[i].1 == keys[i].1);
                }
                if slot < batch.sets.len() {
                    batch.sets.set(slot, (idx, code, value));
                    assert(keys[slot as int] == (idx, code));
                    assert(batch.sets@ =~= coalesced(more));
                } else {
                    batch.sets.push((idx, code, value));
                    assert(!keys.contains((idx, code))) by {
                        if keys.contains((idx, code)) {
                            let i = keys.index_of((idx, code));
                            assert(before[i].0 == idx && before[i].1 == code);
                        }
                    }
                    assert(batch.sets@ =~= coalesced(more));
                }
            },
        }
        n = n + 1;
    }
    assert(cmds@.take(n as int) =~= cmds@);
    batch
}

proof fn lemma_contains_push(s: Seq<Cmd>, c: Cmd)
    ensures
        forall|d: Cmd| s.push(c).contains(d) <==> s.contains(d) || d == c,
{
    assert forall|d: Cmd| s.push(c).contains(d) <==> s.contains(d) || d == c by {
        if s.contains(d) {
            let i = s.index_of(d);
            assert(s.push(c)[i] == d);
        }
        if d == c {
            assert(s.push(c)[s.len() as int] == d);
        }
    }
}

/// Whether the command at `n` is the first of those that set the given control.
pub open spec fn sets_first(cmds: Seq<Cmd>, n: int, key: (usize, FeatureCode)) -> bool {
    &&& 0 <= n < cmds.len()
    &&& target(cmds[n]) == Some(key)
    &&& forall|m: int| 0 <= m < n ==> target(#[trigger] cmds[m]) != Some(key)
}

/// Whether the command at `n` is the last of those that set the given control.
pub open spec fn sets_last(cmds: Seq<Cmd>, n: int, key: (usize, FeatureCode)) -> bool {
    &&& 0 <= n < cmds.len()
    &&& target(cmds[n]) == Some(key)
    &&& forall|m: int| n < m < cmds.len() ==> target(#[trigger] cmds[m]) != Some(key)
}

proof fn lemma_first_seen_is_set(cmds: Seq<Cmd>, key: (usize, FeatureCode))
    ensures
        first_seen(cmds).contains(key) <==> exists|n: int| sets_first(cmds, n, key),
    decreases cmds.len(),
{
    if cmds.len() > 0 {
        let front = cmds.drop_last();
        let before = first_seen(front);
        let end = cmds.len() - 1;
        lemma_first_seen_is_set(front, key);
        assert(forall|n: int| sets_first(front, n, key) ==> sets_first(cmds, n, key)) by {
            assert forall|n: int| sets_first(front, n, key) implies sets_first(cmds, n, key) by {
                assert(forall|m: int| 0 <= m < n ==> front[m] == cmds[m]);
            }
        }
        assert forall|n: int| n < end && sets_first(cmds, n, key) implies sets_first(
            front,
            n,
            key,
        ) by {
            assert(forall|m: int| 0 <= m < n ==> front[m] == cmds[m]);
        }
        if before.contains(key) {
            if target(cmds.last()) is Some && !before.contains(target(cmds.last())->0) {
                let i = before.index_of(key);
                assert(first_seen(cmds)[i] == key);
            }
        } else if target(cmds.last()) == Some(key) {
            assert(first_seen(cmds)[before.len() as int] == key);
            assert(sets_first(cmds, end, key)) by {
                if exists|m: int| 0 <= m < end && target(#[trigger] cmds[m]) == Some(key) {
                    let m = choose|m: int| 0 <= m < end && target(#[trigger] cmds[m]) == Some(key);
                    lemma_some_first(front, m, key);
                }
            }
        } else if exists|n: int| sets_first(cmds, n, key) {
            let n = choose|n: int| sets_first(cmds, n, key);
            assert(n < end);
        }
    }
}

/// Where some command sets a control, one is the first to do so.
proof fn lemma_some_first(cmds: Seq<Cmd>, n: int, key: (usize, FeatureCode))
    requires
        0 <= n < cmds.len(),
        target(cmds[n]) == Some(key),
    ensures
        exists|m: int| sets_first(cmds, m, key),
    decreases n,
{
    if sets_first(cmds, n, key) {
    } else {
        let m = choose|m: int| 0 <= m < n && target(#[trigger] cmds[m]) == Some(key);
        lemma_some_first(cmds, m, key);
    }
}

proof fn lemma_latest_is_last(cmds: Seq<Cmd>, n: int, key: (usize, FeatureCode))
    requires
        0 <= n < cmds.len(),
        target(cmds[n]) == Some(key),
    ensures
        exists|m: int|
            sets_last(cmds, m, key) && cmds[m] == (Cmd::SetFeature {
                idx: key.0,
                code: key.1,
                value: latest(cmds, key),
            }),
    decreases cmds.len(),
{
    let end = cmds.len() - 1;
    if target(cmds.last()) == Some(key) {
        assert(sets_last(cmds, end, key));
    } else {
        let front = cmds.drop_last();
        lemma_latest_is_last(front, n, key);
        let m = choose|m: int|
            sets_last(front, m, key) && front[m] == (Cmd::SetFeature {
                idx: key.0,
                code: key.1,
                value: latest(front, key),
            });
        assert(sets_last(cmds, m, key)) by {
            assert(forall|j: int| m < j < end ==> front[j] == cmds[j]);
        }
    }
}

proof fn lemma_first_seen_order(cmds: Seq<Cmd>, i: int, j: int)
    requires
        0 <= i < j < first_seen(cmds).len(),
    ensures
        exists|n: int, m: int|
            n < m && sets_first(cmds, n, first_seen(cmds)[i]) && sets_first(
                cmds,
                m,
                first_seen(cmds)[j],
            ),
    decreases cmds.len(),
{
    let front = cmds.drop_last();
    let before = first_seen(front);
    let keys = first_seen(cmds);
    let end = cmds.len() - 1;
    if j < before.len() {
        lemma_first_seen_order(front, i, j);
        let (n, m) = choose|n: int, m: int|
            n < m && sets_first(front, n, before[i]) && sets_first(front, m, before[j]);
        assert(forall|k: int| 0 <= k < end ==> front[k] == cmds[k]);
        assert(sets_first(cmds, n, keys[i]) && sets_first(cmds, m, keys[j]));
    } else {
        assert(before.contains(before[i]));
        lemma_first_seen_is_set(front, before[i]);
        let n = choose|n: int| sets_first(front, n, before[i]);
        assert(forall|k: int| 0 <= k < end ==> front[k] == cmds[k]);
        assert(sets_first(cmds, n, keys[i]));
        lemma_first_seen_once(cmds);
        assert(keys.contains(keys[j]));
        lemma_first_seen_is_set(cmds, keys[j]);
        let m = choose|m: int| sets_first(cmds, m, keys[j]);
        if m < end {
            assert(sets_first(front, m, keys[j]));
            lemma_first_seen_is_set(front, keys[j]);
        }
        assert(n < m);
    }
}

/// A collapsed burst sets each control that the burst sets, and no other, exactly once: to the
/// value in the last command about it. The controls come in the order of the first commands
/// about them.
pub proof fn law_latest_value_per_control_in_order(cmds: Seq<Cmd>)
    ensures
        forall|n: int, key: (usize, FeatureCode)|
            0 <= n < cmds.len() && target(#[trigger] cmds[n]) == Some(key)
                ==> #[trigger] first_seen(cmds).contains(key),
        coalesced(cmds).len() == first_seen(cmds).len(),
        forall|i: int|
            0 <= i < coalesced(cmds).len() ==> {
                let set = #[trigger] coalesced(cmds)[i];
                &&& first_seen(cmds)[i] == (set.0, set.1)
                &&& exists|n: int|
                    sets_last(cmds, n, (set.0, set.1)) && cmds[n] == (Cmd::SetFeature {
                        idx: set.0,
                        code: set.1,
                        value: set.2,
                    })
            },
        forall|i: int, j: int|
            0 <= i < j < coalesced(cmds).len() ==> {
                let a = #[trigger] coalesced(cmds)[i];
                let b = #[trigger] coalesced(cmds)[j];
                &&& (a.0, a.1) != (b.0, b.1)
                &&& exists|n: int, m: int|
                    n < m && sets_first(cmds, n, (a.0, a.1)) && sets_first(cmds, m, (b.0, b.1))
            },
{
    lemma_first_seen_once(cmds);
    assert forall|n: int, key: (usize, FeatureCode)|
        0 <= n < cmds.len() && target(#[trigger] cmds[n]) == Some(
            key,
        ) implies #[trigger] first_seen(cmds).contains(key) by {
        lemma_some_first(cmds, n, key);
        lemma_first_seen_is_set(cmds, key);
    }
    assert forall|i: int| 0 <= i < coalesced(cmds).len() implies {
        let set = #[trigger] coalesced(cmds)[i];
        &&& first_seen(cmds)[i] == (set.0, set.1)
        &&& exists|n: int|
            sets_last(cmds, n, (set.0, set.1)) && cmds[n] == (Cmd::SetFeature {
                idx: set.0,
                code: set.1,
                value: set.2,
            })
    } by {
        let key = first_seen(cmds)[i];
        assert(first_seen(cmds).contains(key));
        lemma_first_seen_is_set(cmds, key);
        let n = choose|n: int| sets_first(cmds, n, key);
        lemma_latest_is_last(cmds, n, key);
    }
    assert forall|i: int, j: int| 0 <= i < j < coalesced(cmds).len() implies {
        let a = #[trigger] coalesced(cmds)[i];
        let b = #[trigger] coalesced(cmds)[j];
        &&& (a.0, a.1) != (b.0, b.1)
        &&& exists|n: int, m: int|
            n < m && sets_first(cmds, n, (a.0, a.1)) && sets_first(cmds, m, (b.0, b.1))
    } by {
        lemma_first_seen_order(cmds, i, j);
        assert(first_seen(cmds)[i] != first_seen(cmds)[j]);
    }
}

/// The commands that a collapsed burst stands for.
pub open spec fn as_cmds(sets: Seq<(usize, FeatureCode, u16)>) -> Seq<Cmd> {
    sets.map_values(
        |s: (usize, FeatureCode, u16)| Cmd::SetFeature { idx: s.0, code: s.1, value: s.2 },
    )
}

/// Commands about controls that are all different stand for themselves.
proof fn lemma_distinct_sets(sets: Seq<(usize, FeatureCode, u16)>)
    requires
        forall|i: int, j: int|
            0 <= i < j < sets.len() ==> ((#[trigger] sets[i]).0, sets[i].1) != (
                (#[trigger] sets[j]).0,
                sets[j].1,
            ),
    ensures
        first_seen(as_cmds(sets)) == sets.map_values(
            |s: (usize, FeatureCode, u16)| (s.0, s.1),
        ),
        forall|i: int|
            0 <= i < sets.len() ==> latest(as_cmds(sets), ((#[trigger] sets[i]).0, sets[i].1))
                == sets[i].2,
    decreases sets.len(),
{
    let keys = sets.map_values(|s: (usize, FeatureCode, u16)| (s.0, s.1));
    if sets.len() == 0 {
        assert(first_seen(as_cmds(sets)) =~= keys);
    } else {
        let front = sets.drop_last();
        let front_keys = front.map_values(|s: (usize, FeatureCode, u16)| (s.0, s.1));
        let cmds = as_cmds(sets);
        assert(forall|i: int| 0 <= i < front.len() ==> front[i] == #[trigger] sets[i]);
        lemma_distinct_sets(front);
        assert(cmds.drop_last() =~= as_cmds(front));
        let key = (sets.last().0, sets.last().1);
        assert(target(cmds.last()) == Some(key));
        assert(!front_keys.contains(key)) by {
            if front_keys.contains(key) {
                let i = front_keys.index_of(key);
                assert(sets[i] == front[i]);
                assert((sets[i].0, sets[i].1) != (
                    sets[sets.len() - 1].0,
                    sets[sets.len() - 1].1,
                ));
            }
        }
        assert(first_seen(cmds) =~= keys);
        assert forall|i: int| 0 <= i < sets.len() implies latest(
            cmds,
            ((#[trigger] sets[i]).0, sets[i].1),
        ) == sets[i].2 by {
            if i < front.len() {
                assert(front[i] == sets[i]);
                assert((sets[i].0, sets[i].1) != (
                    sets[sets.len() - 1].0,
                    sets[sets.len() - 1].1,
                ));
            }
        }
    }
}

/// A burst whose beginning was collapsed mentions the same controls in the same order, and gives
/// each the same latest value.
proof fn lemma_coalesced_prefix(early: Seq<Cmd>, late: Seq<Cmd>)
    ensures
        ({
            let again = as_cmds(coalesced(early)) + late;
            &&& first_seen(again) == first_seen(early + late)
            &&& forall|key: (usize, FeatureCode)| #[trigger]
                first_seen(early + late).contains(key) ==> latest(again, key) == latest(
                    early + late,
                    key,
                )
        }),
    decreases late.len(),
{
    let short = as_cmds(coalesced(early));
    let again = short + late;
    let all = early + late;
    if late.len() == 0 {
        assert(again =~= short);
        assert(all =~= early);
        let sets = coalesced(early);
        law_latest_value_per_control_in_order(early);
        lemma_distinct_sets(sets);
        assert(first_seen(short) =~= first_seen(early));
        assert forall|key: (usize, FeatureCode)| #[trigger]
            first_seen(all).contains(key) implies latest(again, key) == latest(all, key) by {
            let i = first_seen(early).index_of(key);
            assert(sets[i].0 == key.0 && sets[i].1 == key.1);
        }
    } else {
        let front = late.drop_last();
        lemma_coalesced_prefix(early, front);
        assert(again.drop_last() =~= short + front);
        assert(all.drop_last() =~= early + front);
        assert(again.last() == all.last());
        assert forall|key: (usize, FeatureCode)| #[trigger]
            first_seen(all).contains(key) implies latest(again, key) == latest(all, key) by {
            if target(all.last()) != Some(key) {
                let before = first_seen(early + front);
                assert(before.contains(key)) by {
                    let i = first_seen(all).index_of(key);
                    assert(before[i] == key);
                }
            }
        }
    }
}

/// It makes no difference whether a burst is collapsed at once, or its beginning first and the
/// rest with what that came to. To collapse a collapsed burst changes nothing.
pub proof fn law_collapsing_in_steps(early: Seq<Cmd>, late: Seq<Cmd>)
    ensures
        coalesced(as_cmds(coalesced(early)) + late) == coalesced(early + late),
        coalesced(as_cmds(coalesced(early))) == coalesced(early),
{
    let short = as_cmds(coalesced(early));
    lemma_coalesced_prefix(early, late);
    assert forall|i: int| 0 <= i < first_seen(early + late).len() implies coalesced(
        short + late,
    )[i] == #[trigger] coalesced(early + late)[i] by {
        assert(first_seen(early + late).contains(first_seen(early + late)[i]));
    }
    assert(coalesced(short + late) =~= coalesced(early + late));
    lemma_coalesced_prefix(early, Seq::empty());
    assert(short + Seq::<Cmd>::empty() =~= short);
    assert(early + Seq::<Cmd>::empty() =~= early);
    assert forall|i: int| 0 <= i < first_seen(early).len() implies coalesced(short)[i]
        == #[trigger] coalesced(early)[i] by {
        assert(first_seen(early).contains(first_seen(early)[i]));
    }
    assert(coalesced(short) =~= coalesced(early));
}

/// Whether a command sets the given control, to whatever value.
pub open spec fn sets_control(cmd: Cmd, idx: usize, code: FeatureCode) -> bool {
    cmd matches Cmd::SetFeature { idx: i, code: c, value } && i == idx && c == code
}

/// Of all the commands about a control the last one counts, whatever control it is and whatever
/// its value: what it says is among what a collapsed burst sets, and what is set is what the last
/// command about it says. No control is set twice. A control that is set before another was
/// mentioned before it.
pub proof fn law_last_command_counts(cmds: Seq<Cmd>)
    ensures
        forall|n: int|
            0 <= n < cmds.len() ==> (#[trigger] cmds[n] matches Cmd::SetFeature {
                idx,
                code,
                value,
            } ==> (forall|m: int|
                n < m < cmds.len() ==> !sets_control(#[trigger] cmds[m], idx, code))
                ==> coalesced(cmds).contains((idx, code, value))),
        forall|i: int|
            0 <= i < coalesced(cmds).len() ==> {
                let (idx, code, value) = #[trigger] coalesced(cmds)[i];
                exists|n: int|
                    0 <= n < cmds.len() && #[trigger] cmds[n] == (Cmd::SetFeature {
                        idx,
                        code,
                        value,
                    }) && forall|m: int|
                        n < m < cmds.len() ==> !sets_control(#[trigger] cmds[m], idx, code)
            },
        forall|i: int, j: int|
            0 <= i < j < coalesced(cmds).len() ==> {
                let a = #[trigger] coalesced(cmds)[i];
                let b = #[trigger] coalesced(cmds)[j];
                &&& a.0 != b.0 || a.1 != b.1
                &&& exists|n: int|
                    0 <= n < cmds.len() && sets_control(#[trigger] cmds[n], a.0, a.1)
                        && forall|m: int|
                        0 <= m <= n ==> !sets_control(#[trigger] cmds[m], b.0, b.1)
            },
{
    law_latest_value_per_control_in_order(cmds);
    assert forall|n: int| 0 <= n < cmds.len() implies (#[trigger] cmds[n] matches Cmd::SetFeature {
        idx,
        code,
        value,
    } ==> (forall|m: int| n < m < cmds.len() ==> !sets_control(#[trigger] cmds[m], idx, code))
        ==> coalesced(cmds).contains((idx, code, value))) by {
        if let Cmd::SetFeature { idx, code, value } = cmds[n] {
            if forall|m: int| n < m < cmds.len() ==> !sets_control(#[trigger] cmds[m], idx, code) {
                let key = (idx, code);
                assert(target(cmds[n]) == Some(key));
                assert(first_seen(cmds).contains(key));
                let i = first_seen(cmds).index_of(key);
                let set = coalesced(cmds)[i];
                let m = choose|m: int|
                    sets_last(cmds, m, (set.0, set.1)) && cmds[m] == (Cmd::SetFeature {
                        idx: set.0,
                        code: set.1,
                        value: set.2,
                    });
                assert(m <= n);
                assert(m == n) by {
                    if m < n {
                        assert(target(cmds[n]) != Some(key));
                    }
                }
                assert(set == (idx, code, value));
            }
        }
    }
    assert forall|i: int| 0 <= i < coalesced(cmds).len() implies {
        let (idx, code, value) = #[trigger] coalesced(cmds)[i];
        exists|n: int|
            0 <= n < cmds.len() && #[trigger] cmds[n] == (Cmd::SetFeature { idx, code, value })
                && forall|m: int|
                n < m < cmds.len() ==> !sets_control(#[trigger] cmds[m], idx, code)
    } by {
        let set = coalesced(cmds)[i];
        let n = choose|n: int|
            sets_last(cmds, n, (set.0, set.1)) && cmds[n] == (Cmd::SetFeature {
                idx: set.0,
                code: set.1,
                value: set.2,
            });
        assert forall|m: int| n < m < cmds.len() implies !sets_control(
            #[trigger] cmds[m],
            set.0,
            set.1,
        ) by {
            assert(target(cmds[m]) != Some((set.0, set.1)));
        }
        assert(cmds[n] == (Cmd::SetFeature { idx: set.0, code: set.1, value: set.2 }));
    }
    assert forall|i: int, j: int| 0 <= i < j < coalesced(cmds).len() implies {
        let a = #[trigger] coalesced(cmds)[i];
        let b = #[trigger] coalesced(cmds)[j];
        &&& a.0 != b.0 || a.1 != b.1
        &&& exists|n: int|
            0 <= n < cmds.len() && sets_control(#[trigger] cmds[n], a.0, a.1) && forall|m: int|
                0 <= m <= n ==> !sets_control(#[trigger] cmds[m], b.0, b.1)
    } by {
        let a = coalesced(cmds)[i];
        let b = coalesced(cmds)[j];
        let (n, k) = choose|n: int, k: int|
            n < k && sets_first(cmds, n, (a.0, a.1)) && sets_first(cmds, k, (b.0, b.1));
        assert(sets_control(cmds[n], a.0, a.1));
        assert forall|m: int| 0 <= m <= n implies !sets_control(#[trigger] cmds[m], b.0, b.1) by {
            assert(target(cmds[m]) != Some((b.0, b.1)));
        }
    }
}

} // verus!
