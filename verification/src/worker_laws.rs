//! What holds of the worker whatever the displays and the user interface do.

use crate::message;
use crate::message::Cmd;
use crate::monitor;
use crate::monitor_laws;
use crate::monitor_read;
use crate::vcp::{FeatureCode, VCP_INPUT_SOURCE};
use crate::worker;
use vstd::prelude::*;

pub mod runs;

verus! {

/// The worker after a series of events.
pub open spec fn worker_after(
    w: worker::WorkerView,
    events: Seq<worker::EventView>,
) -> worker::WorkerView
    decreases events.len(),
{
    if events.len() == 0 {
        w
    } else {
        worker_after(w, events.drop_last()).after(events.last()).0
    }
}

/// What the worker wants done after each of a series of events.
pub open spec fn actions(
    w: worker::WorkerView,
    events: Seq<worker::EventView>,
) -> Seq<worker::ActionView>
    decreases events.len(),
{
    if events.len() == 0 {
        Seq::empty()
    } else {
        actions(w, events.drop_last()).push(
            worker_after(w, events.drop_last()).after(events.last()).1,
        )
    }
}

/// The write that an action asks for, if it does.
pub open spec fn write_in(action: worker::ActionView) -> Seq<(int, FeatureCode, u16)> {
    match action {
        worker::ActionView::Write { idx, code, value } => seq![(idx, code, value)],
        _ => Seq::empty(),
    }
}

/// The writes that the actions ask for, in their order.
pub open spec fn writes(done: Seq<worker::ActionView>) -> Seq<(int, FeatureCode, u16)>
    decreases done.len(),
{
    if done.len() == 0 {
        Seq::empty()
    } else {
        writes(done.drop_last()) + write_in(done.last())
    }
}

/// The write whose result an action reports, if it does.
pub open spec fn answer_in(action: worker::ActionView) -> Seq<(int, FeatureCode, u16)> {
    match action {
        worker::ActionView::Post(message::MsgView::SetOk { idx, code, value, readback }) => seq![
            (idx, code, value),
        ],
        worker::ActionView::Post(message::MsgView::SetErr { idx, code, value, err }) => seq![
            (idx, code, value),
        ],
        _ => Seq::empty(),
    }
}

/// The writes whose results the actions report, in their order.
pub open spec fn answers(done: Seq<worker::ActionView>) -> Seq<(int, FeatureCode, u16)>
    decreases done.len(),
{
    if done.len() == 0 {
        Seq::empty()
    } else {
        answers(done.drop_last()) + answer_in(done.last())
    }
}

/// The display whose values an action reports as read again, if it does.
pub open spec fn reload_in(action: worker::ActionView) -> Seq<int> {
    match action {
        worker::ActionView::Post(message::MsgView::Reloaded { idx, state }) => seq![idx],
        _ => Seq::empty(),
    }
}

/// The displays whose values the actions report as read again, in their order.
pub open spec fn reloads(done: Seq<worker::ActionView>) -> Seq<int>
    decreases done.len(),
{
    if done.len() == 0 {
        Seq::empty()
    } else {
        reloads(done.drop_last()) + reload_in(done.last())
    }
}

/// Sets, with the displays as plain integers.
pub open spec fn as_writes(sets: Seq<(usize, FeatureCode, u16)>) -> Seq<(int, FeatureCode, u16)> {
    sets.map_values(|s: (usize, FeatureCode, u16)| (s.0 as int, s.1, s.2))
}

/// The displays from `low` on, in their order.
pub open spec fn displays_from(low: int, displays: nat) -> Seq<int> {
    if low <= displays {
        Seq::new((displays - low) as nat, |i: int| low + i)
    } else {
        Seq::empty()
    }
}

/// The writes of the current batch that the worker has not asked for yet.
spec fn writes_left(w: worker::WorkerView) -> Seq<(int, FeatureCode, u16)> {
    match w.phase {
        worker::PhaseView::Writing { sets, reload } => as_writes(sets.drop_first()),
        worker::PhaseView::Settling { sets, reload } => as_writes(sets.drop_first()),
        worker::PhaseView::ReadingBack { sets, reload, read } => as_writes(sets.drop_first()),
        worker::PhaseView::PostingSet { sets, reload } => as_writes(sets),
        _ => Seq::empty(),
    }
}

/// The writes of the current batch whose results the worker has not reported yet.
spec fn answers_left(w: worker::WorkerView) -> Seq<(int, FeatureCode, u16)> {
    match w.phase {
        worker::PhaseView::Writing { sets, reload } => as_writes(sets),
        worker::PhaseView::Settling { sets, reload } => as_writes(sets),
        worker::PhaseView::ReadingBack { sets, reload, read } => as_writes(sets),
        worker::PhaseView::PostingSet { sets, reload } => as_writes(sets),
        _ => Seq::empty(),
    }
}

/// The displays of the current batch whose values the worker has not reported yet.
spec fn reloads_left(w: worker::WorkerView) -> Seq<int> {
    match w.phase {
        worker::PhaseView::Writing { sets, reload } => reloads_due(reload, w.displays),
        worker::PhaseView::Settling { sets, reload } => reloads_due(reload, w.displays),
        worker::PhaseView::ReadingBack { sets, reload, read } => reloads_due(reload, w.displays),
        worker::PhaseView::PostingSet { sets, reload } => reloads_due(reload, w.displays),
        worker::PhaseView::Reloading { idx, read } => displays_from(idx, w.displays),
        worker::PhaseView::PostingReloaded { idx } => displays_from(idx + 1, w.displays),
        _ => Seq::empty(),
    }
}

/// The displays to be read again for a batch.
pub open spec fn reloads_due(reload: bool, displays: nat) -> Seq<int> {
    if reload {
        displays_from(0, displays)
    } else {
        Seq::empty()
    }
}

/// Whether the worker is at work on a batch, or done with it.
spec fn in_batch(w: worker::WorkerView) -> bool {
    match w.phase {
        worker::PhaseView::Writing { .. } => true,
        worker::PhaseView::Settling { .. } => true,
        worker::PhaseView::ReadingBack { .. } => true,
        worker::PhaseView::PostingSet { .. } => true,
        worker::PhaseView::Reloading { .. } => true,
        worker::PhaseView::PostingReloaded { .. } => true,
        worker::PhaseView::Receiving => true,
        worker::PhaseView::Stopped => true,
        _ => false,
    }
}

proof fn lemma_as_writes(sets: Seq<(usize, FeatureCode, u16)>)
    requires
        sets.len() > 0,
    ensures
        as_writes(sets) == seq![(sets[0].0 as int, sets[0].1, sets[0].2)] + as_writes(
            sets.drop_first(),
        ),
{
    assert(as_writes(sets) =~= seq![(sets[0].0 as int, sets[0].1, sets[0].2)] + as_writes(
        sets.drop_first(),
    ));
}

proof fn lemma_displays_from(low: int, displays: nat)
    requires
        0 <= low < displays,
    ensures
        displays_from(low, displays) == seq![low] + displays_from(low + 1, displays),
{
    assert(displays_from(low, displays) =~= seq![low] + displays_from(low + 1, displays));
}

/// What is left of a batch where it is worked off.
proof fn lemma_batch_from(
    w: worker::WorkerView,
    sets: Seq<(usize, FeatureCode, u16)>,
    reload: bool,
)
    ensures
        ({
            let (next, action) = w.batch_from(sets, reload);
            &&& in_batch(next)
            &&& next.displays == w.displays
            &&& next.phase !is Stopped
            &&& write_in(action) + writes_left(next) == as_writes(sets)
            &&& answer_in(action) + answers_left(next) == as_writes(sets)
            &&& reload_in(action) + reloads_left(next) == reloads_due(reload, w.displays)
        }),
{
    let (next, action) = w.batch_from(sets, reload);
    if sets.len() > 0 {
        lemma_as_writes(sets);
    } else {
        assert(as_writes(sets) =~= Seq::empty());
    }
    assert(write_in(action) + writes_left(next) =~= as_writes(sets));
    assert(answer_in(action) + answers_left(next) =~= as_writes(sets));
    assert(reload_in(action) + reloads_left(next) =~= reloads_due(reload, w.displays));
}

/// One event in a batch takes the worker on by what it then does, or stops it.
proof fn lemma_batch_step(w: worker::WorkerView, event: worker::EventView)
    requires
        w.wf(),
        in_batch(w),
        event !is Commands,
    ensures
        ({
            let (next, action) = w.after(event);
            &&& in_batch(next)
            &&& next.displays == w.displays
            &&& (w.phase is Stopped ==> next.phase is Stopped)
            &&& next.phase is Stopped ==> write_in(action).len() == 0 && answer_in(action).len()
                == 0 && reload_in(action).len() == 0
            &&& next.phase !is Stopped ==> writes_left(w) == write_in(action) + writes_left(next)
            &&& next.phase !is Stopped ==> answers_left(w) == answer_in(action) + answers_left(next)
            &&& next.phase !is Stopped ==> reloads_left(w) == reload_in(action) + reloads_left(next)
        }),
{
    let (next, action) = w.after(event);
    match (w.phase, event) {
        (worker::PhaseView::Writing { sets, reload }, worker::EventView::Written(outcome)) => {
            lemma_as_writes(sets);
        },
        (worker::PhaseView::ReadingBack { sets, reload, read }, worker::EventView::Read(o)) => {
            lemma_as_writes(sets);
        },
        (worker::PhaseView::PostingSet { sets, reload }, worker::EventView::Posted(ok)) => {
            lemma_batch_from(w, sets, reload);
        },
        (worker::PhaseView::Reloading { idx, read }, worker::EventView::Read(o)) => {
            lemma_displays_from(idx, w.displays);
        },
        (worker::PhaseView::PostingReloaded { idx }, worker::EventView::Posted(ok)) => {
            assert(idx + 1 == w.displays ==> displays_from(idx + 1, w.displays) =~= Seq::empty());
        },
        _ => {},
    }
    if next.phase !is Stopped {
        assert(writes_left(w) =~= write_in(action) + writes_left(next));
        assert(answers_left(w) =~= answer_in(action) + answers_left(next));
        assert(reloads_left(w) =~= reload_in(action) + reloads_left(next));
    }
}

/// Monitors that match their displays still do with the next one behind them.
proof fn lemma_probed_push(
    infos: Seq<monitor::DisplayInfoView>,
    monitors: Seq<monitor::MonitorView>,
    replies: monitor::RepliesView,
)
    requires
        monitors.len() < infos.len(),
        forall|i: int|
            0 <= i < monitors.len() ==> worker::probed(#[trigger] monitors[i], infos[i]),
    ensures
        ({
            let more = monitors.push(
                monitor::MonitorView::described(infos[monitors.len() as int]).read_values(replies),
            );
            forall|i: int| 0 <= i < more.len() ==> worker::probed(#[trigger] more[i], infos[i])
        }),
{
    let info = infos[monitors.len() as int];
    let found = monitor::MonitorView::described(info).read_values(replies);
    assert(worker::probed(found, info));
    let more = monitors.push(found);
    assert forall|i: int| 0 <= i < more.len() implies worker::probed(
        #[trigger] more[i],
        infos[i],
    ) by {
        if i < monitors.len() {
            assert(worker::probed(monitors[i], infos[i]));
        }
    }
}

/// A worker stays well formed: whatever it is told, it asks only for displays that exist.
pub proof fn law_worker_stays_well_formed(w: worker::WorkerView, event: worker::EventView)
    requires
        w.wf(),
    ensures
        worker::WorkerView::start().wf(),
        w.after(event).0.wf(),
        match w.after(event).1 {
            worker::ActionView::Read { idx, code } => 0 <= idx < w.after(event).0.displays,
            worker::ActionView::ReadCapabilities { idx } => 0 <= idx < w.after(event).0.displays,
            worker::ActionView::Write { idx, code, value } => 0 <= idx < w.after(event).0.displays,
            _ => true,
        },
{
    match (w.phase, event) {
        (
            worker::PhaseView::Probing { infos, monitors, read },
            worker::EventView::Read(outcome),
        ) => {
            if let monitor_read::MonitorReadStepView::Done(replies) = read.after(outcome) {
                lemma_probed_push(infos, monitors, replies);
            }
        },
        (worker::PhaseView::Receiving, worker::EventView::Commands(cmds)) => {
            lemma_due_known(message::coalesced(cmds), w.displays);
        },
        _ => {},
    }
}

/// A worker that is started and told whatever may come stays well formed.
pub proof fn law_every_run_is_well_formed(events: Seq<worker::EventView>)
    ensures
        worker_after(worker::WorkerView::start(), events).wf(),
    decreases events.len(),
{
    if events.len() > 0 {
        law_every_run_is_well_formed(events.drop_last());
        law_worker_stays_well_formed(
            worker_after(worker::WorkerView::start(), events.drop_last()),
            events.last(),
        );
    }
}

proof fn lemma_due_known(sets: Seq<(usize, FeatureCode, u16)>, displays: nat)
    ensures
        worker::all_known(worker::due(sets, displays), displays),
{
    let refers = |s: (usize, FeatureCode, u16)| s.0 < displays;
    assert forall|i: int| 0 <= i < worker::due(sets, displays).len() implies (
    #[trigger] worker::due(sets, displays)[i]).0 < displays by {
        sets.lemma_filter_pred(refers, i);
    }
}

/// The events of a batch: the commands, and what came of the actions that followed.
pub open spec fn batch_events(cmds: Seq<Cmd>, events: Seq<worker::EventView>) -> Seq<
    worker::EventView,
> {
    seq![worker::EventView::Commands(cmds)] + events
}

/// The writes that a batch of commands calls for: the latest value for each control, in the
/// order in which the controls were first mentioned, where there is such a display.
pub open spec fn writes_due(cmds: Seq<Cmd>, displays: nat) -> Seq<(int, FeatureCode, u16)> {
    as_writes(worker::due(message::coalesced(cmds), displays))
}

#[verifier::rlimit(40)]
proof fn lemma_batch(w: worker::WorkerView, cmds: Seq<Cmd>, events: Seq<worker::EventView>)
    requires
        w.wf(),
        w.phase is Receiving,
        !cmds.contains(Cmd::Rescan),
        forall|i: int| 0 <= i < events.len() ==> (#[trigger] events[i]) !is Commands,
    ensures
        ({
            let end = worker_after(w, batch_events(cmds, events));
            let done = actions(w, batch_events(cmds, events));
            &&& end.wf()
            &&& in_batch(end)
            &&& end.displays == w.displays
            &&& answers(done).len() <= writes(done).len() <= answers(done).len() + 1
            &&& writes(done).is_prefix_of(writes_due(cmds, w.displays))
            &&& answers(done).is_prefix_of(writes_due(cmds, w.displays))
            &&& reloads(done).is_prefix_of(
                reloads_due(cmds.contains(Cmd::Reload), w.displays),
            )
            &&& reloads(done).len() > 0 ==> answers(done) == writes_due(cmds, w.displays)
            &&& end.phase !is Stopped ==> {
                &&& writes(done) + writes_left(end) == writes_due(cmds, w.displays)
                &&& answers(done) + answers_left(end) == writes_due(cmds, w.displays)
                &&& reloads(done) + reloads_left(end) == reloads_due(
                    cmds.contains(Cmd::Reload),
                    w.displays,
                )
            }
        }),
    decreases events.len(),
{
    let trace = batch_events(cmds, events);
    let wd = writes_due(cmds, w.displays);
    let rd = reloads_due(cmds.contains(Cmd::Reload), w.displays);
    let front = trace.drop_last();
    let mid = worker_after(w, front);
    let done = actions(w, trace);
    let before = actions(w, front);
    let (end, action) = mid.after(trace.last());
    assert(done.drop_last() =~= before);
    assert(done.last() == action);
    if events.len() == 0 {
        assert(front =~= Seq::empty());
        law_worker_stays_well_formed(mid, trace.last());
        assert(trace.last() == worker::EventView::Commands(cmds));
        lemma_batch_from(
            w,
            worker::due(message::coalesced(cmds), w.displays),
            cmds.contains(Cmd::Reload),
        );
        assert(writes(before) =~= Seq::empty());
        assert(answers(before) =~= Seq::empty());
        assert(reloads(before) =~= Seq::empty());
        assert(writes(done) =~= write_in(action));
        assert(answers(done) =~= answer_in(action));
        assert(reloads(done) =~= reload_in(action));
    } else {
        assert(front =~= batch_events(cmds, events.drop_last()));
        assert(trace.last() == events.last());
        lemma_batch(w, cmds, events.drop_last());
        law_worker_stays_well_formed(mid, trace.last());
        lemma_batch_step(mid, trace.last());
    }
    if end.phase !is Stopped {
        assert(writes(done) + writes_left(end) =~= wd);
        assert(answers(done) + answers_left(end) =~= wd);
        assert(reloads(done) + reloads_left(end) =~= rd);
        assert(answers_left(end).len() >= writes_left(end).len() >= answers_left(end).len() - 1);
        if reloads(done).len() > 0 {
            assert(reloads_left(end).len() < rd.len());
            assert(answers(done) =~= wd);
        }
    } else {
        assert(writes(done) =~= writes(before));
        assert(answers(done) =~= answers(before));
        assert(reloads(done) =~= reloads(before));
    }
}

/// A batch of commands without a rescan is worked off one write at a time. What is written is
/// the latest value of each control, in the order in which the controls were first mentioned,
/// for the displays that exist; then each display is reported in turn if the values were to be
/// read again, and none is read or reported before the result of the last write. A worker that
/// is back at waiting for commands has left nothing out, and has reported the result of each
/// write.
pub proof fn law_batch_is_worked_off(
    w: worker::WorkerView,
    cmds: Seq<Cmd>,
    events: Seq<worker::EventView>,
)
    requires
        w.wf(),
        w.phase is Receiving,
        !cmds.contains(Cmd::Rescan),
        forall|i: int| 0 <= i < events.len() ==> (#[trigger] events[i]) !is Commands,
    ensures
        ({
            let end = worker_after(w, batch_events(cmds, events));
            let done = actions(w, batch_events(cmds, events));
            let reload = cmds.contains(Cmd::Reload);
            &&& writes(done).is_prefix_of(writes_due(cmds, w.displays))
            &&& answers(done).is_prefix_of(writes(done))
            &&& writes(done).len() <= answers(done).len() + 1
            &&& reloads(done).is_prefix_of(reloads_due(reload, w.displays))
            &&& (reloads(done).len() > 0 || end.phase is Reloading || end.phase is PostingReloaded)
                ==> {
                &&& writes(done) == writes_due(cmds, w.displays)
                &&& answers(done) == writes_due(cmds, w.displays)
            }
            &&& end.phase is Receiving ==> {
                &&& writes(done) == writes_due(cmds, w.displays)
                &&& answers(done) == writes_due(cmds, w.displays)
                &&& reloads(done) == reloads_due(reload, w.displays)
            }
        }),
{
    lemma_batch(w, cmds, events);
    let end = worker_after(w, batch_events(cmds, events));
    let done = actions(w, batch_events(cmds, events));
    let wd = writes_due(cmds, w.displays);
    assert(answers(done) =~= wd.take(answers(done).len() as int));
    assert(writes(done) =~= wd.take(writes(done).len() as int));
    assert(answers(done) =~= writes(done).take(answers(done).len() as int));
    if end.phase is Reloading || end.phase is PostingReloaded {
        assert(writes(done) =~= wd);
        assert(answers(done) =~= wd);
    }
    if answers(done) == wd {
        assert(writes(done) =~= wd);
    }
    if end.phase is Receiving {
        assert(writes(done) =~= wd);
        assert(answers(done) =~= wd);
        assert(reloads(done) =~= reloads_due(cmds.contains(Cmd::Reload), w.displays));
    }
}

/// A rescan drops all that was queued with it: the worker looks for displays at once and writes
/// nothing, however many sets the commands hold.
pub proof fn law_rescan_drops_queued_sets(w: worker::WorkerView, cmds: Seq<Cmd>)
    requires
        w.phase is Receiving,
        cmds.contains(Cmd::Rescan),
    ensures
        w.after(worker::EventView::Commands(cmds)) == (
            worker::WorkerView { phase: worker::PhaseView::Enumerating, ..w },
            worker::ActionView::Enumerate,
        ),
{
}

/// A search that has found displays ends in one message with a monitor for each of them, in
/// their order, made of the display's description and its replies. A search that has found none
/// ends in a message with no monitor, which says so.
pub proof fn law_scan_reports_every_display(w: worker::WorkerView, event: worker::EventView)
    requires
        w.wf(),
    ensures
        (w.after(event).1 matches worker::ActionView::Post(
            message::MsgView::Scanned { monitors, error },
        ) ==> {
            &&& monitors.len() == w.after(event).0.displays
            &&& error == (if monitors.len() == 0 {
                Some(worker::nothing_found())
            } else {
                None
            })
            &&& w.phase matches worker::PhaseView::Probing { infos, .. } ==> (monitors.len()
                == infos.len() && forall|i: int|
                0 <= i < monitors.len() ==> worker::probed(#[trigger] monitors[i], infos[i]))
            &&& w.phase !is Probing ==> event == worker::EventView::Enumerated(Seq::empty())
        }),
{
    match (w.phase, event) {
        (worker::PhaseView::Enumerating, worker::EventView::Enumerated(infos)) => {
            if infos.len() == 0 {
                assert(infos =~= Seq::empty());
            }
        },
        (
            worker::PhaseView::Probing { infos, monitors, read },
            worker::EventView::Read(outcome),
        ) => {
            if let monitor_read::MonitorReadStepView::Done(replies) = read.after(outcome) {
                lemma_probed_push(infos, monitors, replies);
            }
        },
        _ => {},
    }
}

/// The capabilities are asked for only after the monitors have been reported, for each display
/// in turn, and the inputs that are reported are those of the display that was asked.
pub proof fn law_inputs_follow_the_scan(w: worker::WorkerView, event: worker::EventView)
    ensures
        (w.after(event).0.phase matches worker::PhaseView::ReadingCapabilities { idx, .. } ==> {
            ||| w.phase is PostingScan && event == worker::EventView::Posted(true) && idx == 0
            ||| w.phase matches worker::PhaseView::ReadingCapabilities { idx: asked, .. } && (idx
                == asked || idx == asked + 1)
            ||| w.phase matches worker::PhaseView::PostingInputs { idx: asked } && event
                == worker::EventView::Posted(true) && idx == asked + 1
        }),
        (w.after(event).1 matches worker::ActionView::Post(
            message::MsgView::Inputs { idx, inputs },
        ) ==> {
            &&& w.phase matches worker::PhaseView::ReadingCapabilities { idx: asked, .. }
            &&& idx == asked
            &&& event matches worker::EventView::Capabilities(Some(caps))
            &&& crate::transfer::advertised(caps) == Some(inputs)
        }),
{
}

/// The monitors in the worker's messages keep their lists of errors within bounds.
pub proof fn law_reported_monitors_well_formed(w: worker::WorkerView, event: worker::EventView)
    requires
        w.wf(),
    ensures
        (w.after(event).1 matches worker::ActionView::Post(
            message::MsgView::Scanned { monitors, error },
        ) ==> forall|i: int| 0 <= i < monitors.len() ==> (#[trigger] monitors[i]).wf()),
        (w.after(event).1 matches worker::ActionView::Post(
            message::MsgView::Reloaded { idx, state },
        ) ==> state.wf() && 0 <= idx < w.displays),
{
    law_scan_reports_every_display(w, event);
    match w.after(event).1 {
        worker::ActionView::Post(message::MsgView::Scanned { monitors, error }) => {
            if let worker::PhaseView::Probing { infos, .. } = w.phase {
                assert forall|i: int| 0 <= i < monitors.len() implies (
                #[trigger] monitors[i]).wf() by {
                    assert(worker::probed(monitors[i], infos[i]));
                    let replies = choose|replies: monitor::RepliesView|
                        monitors[i] == #[trigger] monitor::MonitorView::described(
                            infos[i],
                        ).read_values(replies);
                    monitor_laws::law_reading_keeps_well_formed(
                        monitor::MonitorView::described(infos[i]),
                        replies,
                    );
                }
            }
        },
        worker::ActionView::Post(message::MsgView::Reloaded { idx, state }) => {
            match (w.phase, event) {
                (
                    worker::PhaseView::Reloading { idx, read },
                    worker::EventView::Read(outcome),
                ) => {
                    if let monitor_read::MonitorReadStepView::Done(replies) = read.after(outcome) {
                        monitor_laws::law_reading_keeps_well_formed(
                            monitor::MonitorView::unknown(),
                            replies,
                        );
                    }
                },
                _ => {},
            }
        },
        _ => {},
    }
}

/// An undelivered message ends the worker in the midst of a batch; in a scan it only ends the
/// scan.
pub proof fn law_undelivered_message(w: worker::WorkerView)
    ensures
        (w.phase is PostingSet || w.phase is PostingReloaded) ==> w.after(
            worker::EventView::Posted(false),
        ).0.phase is Stopped,
        (w.phase is PostingScan || w.phase is PostingInputs) ==> w.after(
            worker::EventView::Posted(false),
        ).0.phase is Receiving,
{
}

/// Only an input switch is read back, and only after the monitor has had time to settle: the
/// worker waits for nothing else, what it then reads is the input of that display, and no other
/// write is confirmed with a value that was read back.
pub proof fn law_only_input_is_read_back(w: worker::WorkerView, event: worker::EventView)
    requires
        w.wf(),
    ensures
        (w.after(event).1 matches worker::ActionView::Post(
            message::MsgView::SetOk { idx, code, value, readback },
        ) ==> readback is Some ==> code == VCP_INPUT_SOURCE && w.phase is ReadingBack),
        (w.after(event).1 matches worker::ActionView::Post(
            message::MsgView::SetOk { idx, code, value, readback },
        ) ==> code == VCP_INPUT_SOURCE ==> w.phase is ReadingBack),
        (w.after(event).0.phase matches worker::PhaseView::ReadingBack { sets, .. } ==> {
            &&& w.phase is Settling || w.phase is ReadingBack
            &&& w.after(event).1 == worker::ActionView::Read {
                idx: sets[0].0 as int,
                code: VCP_INPUT_SOURCE,
            }
        }),
        w.after(event).0.phase is Settling ==> w.after(event).1 is Settle && (w.phase matches
            worker::PhaseView::Writing { sets, reload } && sets[0].1 == VCP_INPUT_SOURCE),
{
}

/// In a whole run, from the start on, no write but an input switch is ever confirmed with a value
/// that was read back.
pub proof fn law_every_run_reads_back_inputs_only(events: Seq<worker::EventView>)
    ensures
        forall|i: int|
            0 <= i < actions(worker::WorkerView::start(), events).len() ==> (
            #[trigger] actions(worker::WorkerView::start(), events)[i] matches
                worker::ActionView::Post(message::MsgView::SetOk { code, readback, .. })
                ==> readback is Some ==> code == VCP_INPUT_SOURCE),
    decreases events.len(),
{
    if events.len() > 0 {
        let front = events.drop_last();
        law_every_run_reads_back_inputs_only(front);
        law_every_run_is_well_formed(front);
        law_only_input_is_read_back(
            worker_after(worker::WorkerView::start(), front),
            events.last(),
        );
        let before = actions(worker::WorkerView::start(), front);
        let done = actions(worker::WorkerView::start(), events);
        assert(forall|i: int| 0 <= i < before.len() ==> done[i] == #[trigger] before[i]);
    }
}

/// How many events there can be at most before the worker waits for commands again. A write
/// takes up to five: itself, a pause, two attempts to read back, and a message; reading a
/// display again takes up to seven, and asking for its inputs up to three.
pub open spec fn events_left(w: worker::WorkerView) -> int {
    let n = w.displays as int;
    match w.phase {
        worker::PhaseView::Probing { infos, monitors, read } => 6 * (infos.len() - monitors.len()
            - 1) + read.attempts_left() + 3 * n + 1,
        worker::PhaseView::PostingScan => 3 * n + 1,
        worker::PhaseView::ReadingCapabilities { idx, read } => 3 * (n - idx - 1) + 3 - read.failed,
        worker::PhaseView::PostingInputs { idx } => 3 * (n - idx - 1) + 1,
        worker::PhaseView::Writing { sets, reload } => 5 * sets.len() + reload_events(reload, n),
        worker::PhaseView::Settling { sets, reload } => 5 * sets.len() - 1 + reload_events(
            reload,
            n,
        ),
        worker::PhaseView::ReadingBack { sets, reload, read } => 5 * sets.len() - 2 - read.failed
            + reload_events(reload, n),
        worker::PhaseView::PostingSet { sets, reload } => 5 * sets.len() + 1 + reload_events(
            reload,
            n,
        ),
        worker::PhaseView::Reloading { idx, read } => 7 * (n - idx - 1) + 1 + read.attempts_left(),
        worker::PhaseView::PostingReloaded { idx } => 7 * (n - idx - 1) + 1,
        _ => 0,
    }
}

/// How many events a reload takes at most.
pub open spec fn reload_events(reload: bool, displays: int) -> int {
    if reload {
        7 * displays
    } else {
        0
    }
}

/// The worker always comes back to its commands: once the displays are listed or the commands
/// are there, each event leaves fewer to come, whatever the displays and the user interface do.
pub proof fn law_worker_comes_to_rest(w: worker::WorkerView, event: worker::EventView)
    requires
        w.wf(),
    ensures
        events_left(w) >= 0,
        w.phase !is Enumerating && w.phase !is Receiving && w.phase !is Stopped ==> events_left(
            w.after(event).0,
        ) < events_left(w),
        events_left(w) == 0 ==> w.phase is Enumerating || w.phase is Receiving || w.phase is Stopped,
        w.phase is Stopped ==> w.after(event).0.phase is Stopped,
{
}

/// The message that an action delivers, if it does.
pub open spec fn post_in(action: worker::ActionView) -> Seq<message::MsgView> {
    match action {
        worker::ActionView::Post(msg) => seq![msg],
        _ => Seq::empty(),
    }
}

/// The messages that the actions deliver, in their order.
pub open spec fn posts(done: Seq<worker::ActionView>) -> Seq<message::MsgView>
    decreases done.len(),
{
    if done.len() == 0 {
        Seq::empty()
    } else {
        posts(done.drop_last()) + post_in(done.last())
    }
}

/// Whether the messages are those of a scan: the report of all monitors, and behind it the inputs
/// of some of the displays below `bound`, in the order of the displays.
pub open spec fn scan_messages(msgs: Seq<message::MsgView>, bound: int) -> bool {
    &&& msgs.len() > 0 ==> msgs[0] is Scanned
    &&& forall|i: int|
        1 <= i < msgs.len() ==> (#[trigger] msgs[i] matches message::MsgView::Inputs { idx, .. }
            && 0 <= idx < bound)
    &&& forall|i: int, j: int|
        1 <= i < j < msgs.len() ==> (#[trigger] msgs[i])->Inputs_idx < (
        #[trigger] msgs[j])->Inputs_idx
}

/// What has been delivered in a scan, by how far the worker has come.
spec fn scan_so_far(w: worker::WorkerView, msgs: Seq<message::MsgView>) -> bool {
    match w.phase {
        worker::PhaseView::Probing { .. } => msgs.len() == 0,
        worker::PhaseView::PostingScan => msgs.len() == 1 && msgs[0] is Scanned,
        worker::PhaseView::ReadingCapabilities { idx, .. } => msgs.len() > 0 && scan_messages(
            msgs,
            idx,
        ),
        worker::PhaseView::PostingInputs { idx } => msgs.len() > 0 && scan_messages(msgs, idx + 1),
        worker::PhaseView::Receiving => msgs.len() > 0 && scan_messages(msgs, w.displays as int),
        worker::PhaseView::Stopped => scan_messages(msgs, w.displays as int),
        _ => false,
    }
}

/// The events of a scan: the displays that were found, and what came of the actions that followed.
pub open spec fn scan_events(
    infos: Seq<monitor::DisplayInfoView>,
    events: Seq<worker::EventView>,
) -> Seq<worker::EventView> {
    seq![worker::EventView::Enumerated(infos)] + events
}

proof fn lemma_scan(
    w: worker::WorkerView,
    infos: Seq<monitor::DisplayInfoView>,
    events: Seq<worker::EventView>,
)
    requires
        w.phase is Enumerating,
        forall|i: int| 0 <= i < events.len() ==> (#[trigger] events[i]) !is Commands,
    ensures
        ({
            let end = worker_after(w, scan_events(infos, events));
            &&& end.wf()
            &&& end.displays == infos.len()
            &&& scan_so_far(end, posts(actions(w, scan_events(infos, events))))
        }),
    decreases events.len(),
{
    let trace = scan_events(infos, events);
    let front = trace.drop_last();
    let mid = worker_after(w, front);
    let done = actions(w, trace);
    let before = posts(actions(w, front));
    let (end, action) = mid.after(trace.last());
    assert(done.drop_last() =~= actions(w, front));
    assert(done.last() == action);
    if events.len() == 0 {
        assert(front =~= Seq::empty());
        assert(trace.last() == worker::EventView::Enumerated(infos));
        assert(before =~= Seq::empty());
    } else {
        assert(front =~= scan_events(infos, events.drop_last()));
        assert(trace.last() == events.last());
        lemma_scan(w, infos, events.drop_last());
    }
    law_worker_stays_well_formed(mid, trace.last());
    if post_in(action).len() == 0 {
        assert(posts(done) =~= before);
    }
}

/// A scan delivers the report of all monitors first, and only behind it the inputs that they
/// advertise, in the order of the displays and at most once for each. A worker that is back at
/// waiting for commands has delivered the report.
pub proof fn law_scan_message_order(
    w: worker::WorkerView,
    infos: Seq<monitor::DisplayInfoView>,
    events: Seq<worker::EventView>,
)
    requires
        w.phase is Enumerating,
        forall|i: int| 0 <= i < events.len() ==> (#[trigger] events[i]) !is Commands,
    ensures
        ({
            let end = worker_after(w, scan_events(infos, events));
            let delivered = posts(actions(w, scan_events(infos, events)));
            &&& scan_messages(delivered, infos.len() as int)
            &&& end.phase is Receiving ==> delivered.len() > 0
        }),
{
    lemma_scan(w, infos, events);
}

/// A monitor has a whole second to settle after an input switch.
pub proof fn law_time_to_settle()
    ensures
        worker::INPUT_READBACK_DELAY == 1_000 * 1_000_000,
{
}

} // verus!
