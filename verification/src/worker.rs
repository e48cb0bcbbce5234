//! The worker that owns the displays: what it does next, given what came of what it did.
//!
//! The worker itself touches no display and no channel. It asks for one [`Action`] at a time and
//! is told the outcome as an [`Event`].

use crate::message;
use crate::message::{Cmd, Msg};
use crate::monitor;
use crate::monitor::{DisplayInfo, MonitorState};
use crate::monitor_read;
use crate::monitor_read::{MonitorRead, MonitorReadStep};
use crate::transfer;
use crate::transfer::{
    Capabilities, CapabilitiesRead, CapabilitiesStep, ReadOutcome, ReadStep, VcpRead, WriteOutcome,
    READ_ATTEMPTS,
};
use crate::vcp::{FeatureCode, VCP_BRIGHTNESS, VCP_INPUT_SOURCE};
use vstd::prelude::*;
use vstd::string::*;

verus! {

/// How long to wait after an input switch before reading the input back, in nanoseconds.
pub const INPUT_READBACK_DELAY: u64 = 1_000_000_000;

/// What the worker wants done. Displays are counted from zero, in the order in which they were
/// last enumerated.
#[derive(Debug)]
pub enum Action {
    /// Look for displays.
    Enumerate,
    /// Try once to read a feature of a display.
    Read { idx: usize, code: FeatureCode },
    /// Try once to read the capabilities of a display.
    ReadCapabilities { idx: usize },
    /// Try once to write a feature of a display.
    Write { idx: usize, code: FeatureCode, value: u16 },
    /// Wait for [`INPUT_READBACK_DELAY`].
    Settle,
    /// Deliver a message to the user interface.
    Post(Msg),
    /// Wait for a command, and take all that have been queued.
    Receive,
    /// Nothing: the worker has ended.
    Stop,
}

/// What came of an action.
#[derive(Debug)]
pub enum Event {
    /// The displays that were found; none if the search failed.
    Enumerated(Vec<DisplayInfo>),
    Read(ReadOutcome),
    /// The capabilities; `None` if the attempt failed.
    Capabilities(Option<Capabilities>),
    Written(WriteOutcome),
    Settled,
    /// Whether the message could be delivered.
    Posted(bool),
    Commands(Vec<Cmd>),
    /// No command will ever come.
    Closed,
}

/// What an [`Action`] holds.
pub enum ActionView {
    Enumerate,
    Read { idx: int, code: FeatureCode },
    ReadCapabilities { idx: int },
    Write { idx: int, code: FeatureCode, value: u16 },
    Settle,
    Post(message::MsgView),
    Receive,
    Stop,
}

/// What an [`Event`] holds.
pub enum EventView {
    Enumerated(Seq<monitor::DisplayInfoView>),
    Read(transfer::ReadOutcomeView),
    Capabilities(Option<Map<u8, Map<u8, Option<Seq<char>>>>>),
    Written(transfer::WriteOutcomeView),
    Settled,
    Posted(bool),
    Commands(Seq<Cmd>),
    Closed,
}

impl View for Action {
    type V = ActionView;

    open spec fn view(&self) -> ActionView {
        match self {
            Action::Enumerate => ActionView::Enumerate,
            Action::Read { idx, code } => ActionView::Read { idx: *idx as int, code: *code },
            Action::ReadCapabilities { idx } => ActionView::ReadCapabilities { idx: *idx as int },
            Action::Write { idx, code, value } => ActionView::Write {
                idx: *idx as int,
                code: *code,
                value: *value,
            },
            Action::Settle => ActionView::Settle,
            Action::Post(msg) => ActionView::Post(msg@),
            Action::Receive => ActionView::Receive,
            Action::Stop => ActionView::Stop,
        }
    }
}

/// What a list of displays holds.
pub open spec fn infos_view(infos: Seq<DisplayInfo>) -> Seq<monitor::DisplayInfoView> {
    infos.map_values(|i: DisplayInfo| i@)
}

impl View for Event {
    type V = EventView;

    open spec fn view(&self) -> EventView {
        match self {
            Event::Enumerated(infos) => EventView::Enumerated(infos_view(infos@)),
            Event::Read(outcome) => EventView::Read(outcome@),
            Event::Capabilities(caps) => EventView::Capabilities(transfer::caps_view(*caps)),
            Event::Written(outcome) => EventView::Written(outcome@),
            Event::Settled => EventView::Settled,
            Event::Posted(ok) => EventView::Posted(*ok),
            Event::Commands(cmds) => EventView::Commands(cmds@),
            Event::Closed => EventView::Closed,
        }
    }
}

/// What the worker is waiting for.
#[derive(Debug)]
enum Phase {
    Enumerating,
    /// The values of the displays are being read, one after the other.
    Probing { infos: Vec<DisplayInfo>, monitors: Vec<MonitorState>, read: MonitorRead },
    PostingScan,
    ReadingCapabilities { idx: usize, read: CapabilitiesRead },
    PostingInputs { idx: usize },
    Receiving,
    /// The first of the sets is being written.
    Writing { sets: Vec<(usize, FeatureCode, u16)>, reload: bool },
    /// The first of the sets has switched the input.
    Settling { sets: Vec<(usize, FeatureCode, u16)>, reload: bool },
    ReadingBack { sets: Vec<(usize, FeatureCode, u16)>, reload: bool, read: VcpRead },
    PostingSet { sets: Vec<(usize, FeatureCode, u16)>, reload: bool },
    Reloading { idx: usize, read: MonitorRead },
    PostingReloaded { idx: usize },
    Stopped,
}

/// What the worker is waiting for.
pub enum PhaseView {
    Enumerating,
    Probing {
        infos: Seq<monitor::DisplayInfoView>,
        monitors: Seq<monitor::MonitorView>,
        read: monitor_read::MonitorReadView,
    },
    PostingScan,
    ReadingCapabilities { idx: int, read: CapabilitiesRead },
    PostingInputs { idx: int },
    Receiving,
    Writing { sets: Seq<(usize, FeatureCode, u16)>, reload: bool },
    Settling { sets: Seq<(usize, FeatureCode, u16)>, reload: bool },
    ReadingBack { sets: Seq<(usize, FeatureCode, u16)>, reload: bool, read: VcpRead },
    PostingSet { sets: Seq<(usize, FeatureCode, u16)>, reload: bool },
    Reloading { idx: int, read: monitor_read::MonitorReadView },
    PostingReloaded { idx: int },
    Stopped,
}

/// The worker between an action and its outcome.
#[derive(Debug)]
pub struct Worker {
    displays: usize,
    phase: Phase,
}

/// What a [`Worker`] holds.
pub struct WorkerView {
    /// How many displays there are.
    pub displays: nat,
    pub phase: PhaseView,
}

impl View for Worker {
    type V = WorkerView;

    closed spec fn view(&self) -> WorkerView {
        WorkerView {
            displays: self.displays as nat,
            phase: match self.phase {
                Phase::Enumerating => PhaseView::Enumerating,
                Phase::Probing { infos, monitors, read } => PhaseView::Probing {
                    infos: infos_view(infos@),
                    monitors: message::monitors_view(monitors@),
                    read: read@,
                },
                Phase::PostingScan => PhaseView::PostingScan,
                Phase::ReadingCapabilities { idx, read } => PhaseView::ReadingCapabilities {
                    idx: idx as int,
                    read,
                },
                Phase::PostingInputs { idx } => PhaseView::PostingInputs { idx: idx as int },
                Phase::Receiving => PhaseView::Receiving,
                Phase::Writing { sets, reload } => PhaseView::Writing { sets: sets@, reload },
                Phase::Settling { sets, reload } => PhaseView::Settling { sets: sets@, reload },
                Phase::ReadingBack { sets, reload, read } => PhaseView::ReadingBack {
                    sets: sets@,
                    reload,
                    read,
                },
                Phase::PostingSet { sets, reload } => PhaseView::PostingSet { sets: sets@, reload },
                Phase::Reloading { idx, read } => PhaseView::Reloading {
                    idx: idx as int,
                    read: read@,
                },
                Phase::PostingReloaded { idx } => PhaseView::PostingReloaded { idx: idx as int },
                Phase::Stopped => PhaseView::Stopped,
            },
        }
    }
}

/// The sets that refer to one of the displays.
pub open spec fn due(sets: Seq<(usize, FeatureCode, u16)>, displays: nat) -> Seq<
    (usize, FeatureCode, u16),
> {
    sets.filter(|s: (usize, FeatureCode, u16)| s.0 < displays)
}

/// Whether all the sets refer to one of the displays.
pub open spec fn all_known(sets: Seq<(usize, FeatureCode, u16)>, displays: nat) -> bool {
    forall|i: int| 0 <= i < sets.len() ==> (#[trigger] sets[i]).0 < displays
}

/// Whether a monitor is what some replies make of a display.
pub open spec fn probed(m: monitor::MonitorView, info: monitor::DisplayInfoView) -> bool {
    exists|replies: monitor::RepliesView|
        m == #[trigger] monitor::MonitorView::described(info).read_values(replies)
}

/// What is said of a search that has found nothing.
pub open spec fn nothing_found() -> Seq<char> {
    "No DDC/CI capable monitors found. i2c-dev must be loaded and your user needs access to /dev/i2c-* (group `i2c`); `just doctor` checks both."@
}

impl WorkerView {
    /// A worker that has just been started.
    pub open spec fn start() -> WorkerView {
        WorkerView { displays: 0, phase: PhaseView::Enumerating }
    }

    /// A worker with the given number of displays that waits for commands.
    pub open spec fn of(displays: nat) -> WorkerView {
        WorkerView { displays, phase: PhaseView::Receiving }
    }

    /// What holds of a worker at all times: it deals with displays that exist, it waits and reads
    /// back for input switches only, it has not failed too often at the read that is under way,
    /// and what it knows of the displays that it has read is what they replied.
    pub open spec fn wf(self) -> bool {
        match self.phase {
            PhaseView::Probing { infos, monitors, read } => {
                &&& infos.len() == self.displays
                &&& monitors.len() < infos.len()
                &&& read.wf()
                &&& forall|i: int|
                    0 <= i < monitors.len() ==> probed(#[trigger] monitors[i], infos[i])
            },
            PhaseView::ReadingCapabilities { idx, read } => 0 <= idx < self.displays
                && read.failed < READ_ATTEMPTS,
            PhaseView::PostingInputs { idx } => 0 <= idx < self.displays,
            PhaseView::Writing { sets, reload } => sets.len() > 0 && all_known(sets, self.displays),
            PhaseView::Settling { sets, reload } => {
                &&& sets.len() > 0
                &&& all_known(sets, self.displays)
                &&& sets[0].1 == VCP_INPUT_SOURCE
            },
            PhaseView::ReadingBack { sets, reload, read } => {
                &&& sets.len() > 0
                &&& all_known(sets, self.displays)
                &&& sets[0].1 == VCP_INPUT_SOURCE
                &&& read.failed < READ_ATTEMPTS
            },
            PhaseView::PostingSet { sets, reload } => all_known(sets, self.displays),
            PhaseView::Reloading { idx, read } => 0 <= idx < self.displays && read.wf(),
            PhaseView::PostingReloaded { idx } => 0 <= idx < self.displays,
            _ => true,
        }
    }

    /// The same displays in another phase, and what is to be done in it.
    pub open spec fn go(self, phase: PhaseView, action: ActionView) -> (WorkerView, ActionView) {
        (WorkerView { phase, ..self }, action)
    }

    /// Waiting for commands.
    pub open spec fn receive(self) -> (WorkerView, ActionView) {
        self.go(PhaseView::Receiving, ActionView::Receive)
    }

    /// At its end.
    pub open spec fn stop(self) -> (WorkerView, ActionView) {
        self.go(PhaseView::Stopped, ActionView::Stop)
    }

    /// Posting a message in another phase.
    pub open spec fn post(self, phase: PhaseView, msg: message::MsgView) -> (
        WorkerView,
        ActionView,
    ) {
        self.go(phase, ActionView::Post(msg))
    }

    /// Reading the capabilities of the displays from `idx` on.
    pub open spec fn capabilities_from(self, idx: int) -> (WorkerView, ActionView) {
        if idx < self.displays {
            self.go(
                PhaseView::ReadingCapabilities { idx, read: CapabilitiesRead::spec_new() },
                ActionView::ReadCapabilities { idx },
            )
        } else {
            self.receive()
        }
    }

    /// Reading the values of the displays from `idx` on again.
    pub open spec fn reload_from(self, idx: int) -> (WorkerView, ActionView) {
        if idx < self.displays {
            self.go(
                PhaseView::Reloading { idx, read: monitor_read::MonitorReadView::start() },
                ActionView::Read { idx, code: VCP_BRIGHTNESS },
            )
        } else {
            self.receive()
        }
    }

    /// Working off what is left of a batch: first the sets, then the reload.
    pub open spec fn batch_from(self, sets: Seq<(usize, FeatureCode, u16)>, reload: bool) -> (
        WorkerView,
        ActionView,
    ) {
        if sets.len() > 0 {
            self.go(
                PhaseView::Writing { sets, reload },
                ActionView::Write { idx: sets[0].0 as int, code: sets[0].1, value: sets[0].2 },
            )
        } else if reload {
            self.reload_from(0)
        } else {
            self.receive()
        }
    }

    /// Reading the values of newly found displays, behind those in `monitors`.
    pub open spec fn probe_from(
        self,
        infos: Seq<monitor::DisplayInfoView>,
        monitors: Seq<monitor::MonitorView>,
    ) -> (WorkerView, ActionView) {
        if monitors.len() < infos.len() {
            self.go(
                PhaseView::Probing {
                    infos,
                    monitors,
                    read: monitor_read::MonitorReadView::start(),
                },
                ActionView::Read { idx: monitors.len() as int, code: VCP_BRIGHTNESS },
            )
        } else {
            self.post(
                PhaseView::PostingScan,
                message::MsgView::Scanned {
                    monitors,
                    error: if infos.len() == 0 {
                        Some(nothing_found())
                    } else {
                        None
                    },
                },
            )
        }
    }

    /// The worker after an event, and what it wants done then. An event that no action of the
    /// worker has led to ends it.
    pub open spec fn after(self, event: EventView) -> (WorkerView, ActionView) {
        match (self.phase, event) {
            (PhaseView::Enumerating, EventView::Enumerated(infos)) => WorkerView {
                displays: infos.len(),
                ..self
            }.probe_from(infos, Seq::empty()),
            (
                PhaseView::Probing { infos, monitors, read },
                EventView::Read(outcome),
            ) => match read.after(outcome) {
                monitor_read::MonitorReadStepView::More(more) => self.go(
                    PhaseView::Probing { infos, monitors, read: more },
                    ActionView::Read { idx: monitors.len() as int, code: more.code() },
                ),
                monitor_read::MonitorReadStepView::Done(replies) => self.probe_from(
                    infos,
                    monitors.push(
                        monitor::MonitorView::described(
                            infos[monitors.len() as int],
                        ).read_values(replies),
                    ),
                ),
            },
            (PhaseView::PostingScan, EventView::Posted(ok)) => if ok {
                self.capabilities_from(0)
            } else {
                self.receive()
            },
            (
                PhaseView::ReadingCapabilities { idx, read },
                EventView::Capabilities(caps),
            ) => match read.after(caps) {
                transfer::CapabilitiesStepView::Retry(again) => self.go(
                    PhaseView::ReadingCapabilities { idx, read: again },
                    ActionView::ReadCapabilities { idx },
                ),
                transfer::CapabilitiesStepView::Done(Some(inputs)) => self.post(
                    PhaseView::PostingInputs { idx },
                    message::MsgView::Inputs { idx, inputs },
                ),
                transfer::CapabilitiesStepView::Done(None) => self.capabilities_from(idx + 1),
            },
            (PhaseView::PostingInputs { idx }, EventView::Posted(ok)) => if ok {
                self.capabilities_from(idx + 1)
            } else {
                self.receive()
            },
            (PhaseView::Receiving, EventView::Commands(cmds)) => if cmds.contains(Cmd::Rescan) {
                self.go(PhaseView::Enumerating, ActionView::Enumerate)
            } else {
                self.batch_from(
                    due(message::coalesced(cmds), self.displays),
                    cmds.contains(Cmd::Reload),
                )
            },
            (PhaseView::Writing { sets, reload }, EventView::Written(outcome)) => {
                let (idx, code, value) = sets[0];
                match outcome.error() {
                    Some(err) => self.post(
                        PhaseView::PostingSet { sets: sets.drop_first(), reload },
                        message::MsgView::SetErr { idx: idx as int, code, value, err },
                    ),
                    None => if code == VCP_INPUT_SOURCE {
                        self.go(PhaseView::Settling { sets, reload }, ActionView::Settle)
                    } else {
                        self.post(
                            PhaseView::PostingSet { sets: sets.drop_first(), reload },
                            message::MsgView::SetOk {
                                idx: idx as int,
                                code,
                                value,
                                readback: None,
                            },
                        )
                    },
                }
            },
            (PhaseView::Settling { sets, reload }, EventView::Settled) => self.go(
                PhaseView::ReadingBack { sets, reload, read: VcpRead::spec_new() },
                ActionView::Read { idx: sets[0].0 as int, code: sets[0].1 },
            ),
            (PhaseView::ReadingBack { sets, reload, read }, EventView::Read(outcome)) => {
                let (idx, code, value) = sets[0];
                match read.after(outcome) {
                    transfer::ReadStepView::Retry(again) => self.go(
                        PhaseView::ReadingBack { sets, reload, read: again },
                        ActionView::Read { idx: idx as int, code },
                    ),
                    transfer::ReadStepView::Done(reply) => self.post(
                        PhaseView::PostingSet { sets: sets.drop_first(), reload },
                        message::MsgView::SetOk {
                            idx: idx as int,
                            code,
                            value,
                            readback: monitor::input_of(reply),
                        },
                    ),
                }
            },
            (PhaseView::PostingSet { sets, reload }, EventView::Posted(ok)) => if ok {
                self.batch_from(sets, reload)
            } else {
                self.stop()
            },
            (PhaseView::Reloading { idx, read }, EventView::Read(outcome)) => match read.after(
                outcome,
            ) {
                monitor_read::MonitorReadStepView::More(more) => self.go(
                    PhaseView::Reloading { idx, read: more },
                    ActionView::Read { idx, code: more.code() },
                ),
                monitor_read::MonitorReadStepView::Done(replies) => self.post(
                    PhaseView::PostingReloaded { idx },
                    message::MsgView::Reloaded {
                        idx,
                        state: monitor::MonitorView::unknown().read_values(replies),
                    },
                ),
            },
            (PhaseView::PostingReloaded { idx }, EventView::Posted(ok)) => if ok {
                self.reload_from(idx + 1)
            } else {
                self.stop()
            },
            _ => self.stop(),
        }
    }
}

/// The sets that refer to one of the displays.
fn known_sets(sets: &Vec<(usize, FeatureCode, u16)>, displays: usize) -> (known: Vec<
    (usize, FeatureCode, u16),
>)
    ensures
        known@ == due(sets@, displays as nat),
        all_known(known@, displays as nat),
{
    let mut known: Vec<(usize, FeatureCode, u16)> = Vec::new();
    let mut i: usize = 0;
    let ghost refers = |s: (usize, FeatureCode, u16)| s.0 < displays as nat;
    proof {
        reveal(Seq::filter);
    }
    while i < sets.len()
        invariant
            i <= sets@.len(),
            refers == (|s: (usize, FeatureCode, u16)| s.0 < displays as nat),
            known@ == sets@.take(i as int).filter(refers),
            all_known(known@, displays as nat),
        decreases sets@.len() - i,
    {
        proof {
            reveal(Seq::filter);
            assert(sets@.take(i + 1).drop_last() =~= sets@.take(i as int));
        }
        if sets[i].0 < displays {
            known.push(sets[i]);
        }
        i = i + 1;
    }
    assert(sets@.take(i as int) =~= sets@);
    known
}

impl Worker {
    /// A worker that has just been started, and what it wants done first.
    pub fn new() -> (r: (Worker, Action))
        ensures
            r.0@ == WorkerView::start(),
            r.0@.wf(),
            r.1@ == ActionView::Enumerate,
    {
        (Worker { displays: 0, phase: Phase::Enumerating }, Action::Enumerate)
    }

    fn receive(displays: usize) -> (r: (Worker, Action))
        ensures
            (r.0@, r.1@) == WorkerView::of(displays as nat).receive(),
            r.0@.wf(),
    {
        (Worker { displays, phase: Phase::Receiving }, Action::Receive)
    }

    fn stop(displays: usize) -> (r: (Worker, Action))
        ensures
            (r.0@, r.1@) == WorkerView::of(displays as nat).stop(),
            r.0@.wf(),
    {
        (Worker { displays, phase: Phase::Stopped }, Action::Stop)
    }

    fn capabilities_from(displays: usize, idx: usize) -> (r: (Worker, Action))
        ensures
            (r.0@, r.1@) == WorkerView::of(displays as nat).capabilities_from(
                    idx as int,
                ),
            r.0@.wf(),
    {
        if idx < displays {
            (
                Worker {
                    displays,
                    phase: Phase::ReadingCapabilities { idx, read: CapabilitiesRead::new() },
                },
                Action::ReadCapabilities { idx },
            )
        } else {
            Worker::receive(displays)
        }
    }

    fn reload_from(displays: usize, idx: usize) -> (r: (Worker, Action))
        ensures
            (r.0@, r.1@) == WorkerView::of(displays as nat).reload_from(idx as int),
            r.0@.wf(),
    {
        if idx < displays {
            (
                Worker { displays, phase: Phase::Reloading { idx, read: MonitorRead::new() } },
                Action::Read { idx, code: VCP_BRIGHTNESS },
            )
        } else {
            Worker::receive(displays)
        }
    }

    fn batch_from(
        displays: usize,
        sets: Vec<(usize, FeatureCode, u16)>,
        reload: bool,
    ) -> (r: (Worker, Action))
        requires
            all_known(sets@, displays as nat),
        ensures
            (r.0@, r.1@) == WorkerView::of(displays as nat).batch_from(sets@, reload),
            r.0@.wf(),
    {
        if sets.len() > 0 {
            let (idx, code, value) = sets[0];
            (
                Worker { displays, phase: Phase::Writing { sets, reload } },
                Action::Write { idx, code, value },
            )
        } else if reload {
            Worker::reload_from(displays, 0)
        } else {
            Worker::receive(displays)
        }
    }

    fn probe_from(infos: Vec<DisplayInfo>, monitors: Vec<MonitorState>) -> (r: (Worker, Action))
        requires
            monitors@.len() <= infos@.len(),
            forall|i: int|
                0 <= i < monitors@.len() ==> probed((#[trigger] monitors@[i])@, infos@[i]@),
        ensures
            (r.0@, r.1@) == WorkerView::of(infos@.len()).probe_from(
                    infos_view(infos@),
                    message::monitors_view(monitors@),
                ),
            r.0@.wf(),
    {
        let displays: usize = infos.len();
        let idx: usize = monitors.len();
        if idx < displays {
            let w = Worker {
                displays,
                phase: Phase::Probing { infos, monitors, read: MonitorRead::new() },
            };
            assert(forall|i: int|
                0 <= i < monitors@.len() ==> #[trigger] message::monitors_view(monitors@)[i]
                    == monitors@[i]@);
            (w, Action::Read { idx, code: VCP_BRIGHTNESS })
        } else {
            let error = if displays == 0 {
                Some(
                    "No DDC/CI capable monitors found. i2c-dev must be loaded and your user needs access to /dev/i2c-* (group `i2c`); `just doctor` checks both.".to_string(),
                )
            } else {
                None
            };
            (
                Worker { displays, phase: Phase::PostingScan },
                Action::Post(Msg::Scanned { monitors, error }),
            )
        }
    }

    /// Takes the outcome of the last action, and says what is to be done next.
    pub fn step(self, event: Event) -> (r: (Worker, Action))
        requires
            self@.wf(),
        ensures
            (r.0@, r.1@) == self@.after(event@),
            r.0@.wf(),
    {
        let displays: usize = self.displays;
        match (self.phase, event) {
            (Phase::Enumerating, Event::Enumerated(infos)) => {
                let monitors: Vec<MonitorState> = Vec::new();
                assert(message::monitors_view(monitors@) =~= Seq::empty());
                Worker::probe_from(infos, monitors)
            },
            (
                Phase::Probing { infos, monitors, read },
                Event::Read(outcome),
            ) => match read.step(outcome) {
                MonitorReadStep::More(more) => {
                    let idx: usize = monitors.len();
                    let code = more.code();
                    (
                        Worker { displays, phase: Phase::Probing { infos, monitors, read: more } },
                        Action::Read { idx, code },
                    )
                },
                MonitorReadStep::Done(replies) => {
                    let mut monitors = monitors;
                    let ghost known = monitors@;
                    let idx: usize = monitors.len();
                    let ghost info = infos@[idx as int]@;
                    let m = MonitorState::probe(&infos[idx], replies);
                    let ghost found = m@;
                    monitors.push(m);
                    proof {
                        assert(probed(found, info));
                        assert forall|i: int| 0 <= i < monitors@.len() implies probed(
                            (#[trigger] monitors@[i])@,
                            infos@[i]@,
                        ) by {
                            if i < idx {
                                assert(probed(
                                    message::monitors_view(known)[i],
                                    infos_view(infos@)[i],
                                ));
                            }
                        }
                        assert(message::monitors_view(monitors@) =~= message::monitors_view(
                            known,
                        ).push(found));
                    }
                    Worker::probe_from(infos, monitors)
                },
            },
            (Phase::PostingScan, Event::Posted(ok)) => if ok {
                Worker::capabilities_from(displays, 0)
            } else {
                Worker::receive(displays)
            },
            (
                Phase::ReadingCapabilities { idx, read },
                Event::Capabilities(caps),
            ) => match read.step(caps) {
                CapabilitiesStep::Retry(again) => (
                    Worker { displays, phase: Phase::ReadingCapabilities { idx, read: again } },
                    Action::ReadCapabilities { idx },
                ),
                CapabilitiesStep::Done(found) => match found {
                    Some(inputs) => (
                        Worker { displays, phase: Phase::PostingInputs { idx } },
                        Action::Post(Msg::Inputs { idx, inputs }),
                    ),
                    None => Worker::capabilities_from(displays, idx + 1),
                },
            },
            (Phase::PostingInputs { idx }, Event::Posted(ok)) => if ok {
                Worker::capabilities_from(displays, idx + 1)
            } else {
                Worker::receive(displays)
            },
            (Phase::Receiving, Event::Commands(cmds)) => {
                let batch = message::coalesce(cmds);
                if batch.rescan {
                    // Queued sets refer to indices that may no longer be valid; drop them.
                    (Worker { displays, phase: Phase::Enumerating }, Action::Enumerate)
                } else {
                    Worker::batch_from(displays, known_sets(&batch.sets, displays), batch.reload)
                }
            },
            (Phase::Writing { sets, reload }, Event::Written(outcome)) => {
                let (idx, code, value) = sets[0];
                match transfer::write_vcp(outcome) {
                    Err(err) => {
                        let rest = Worker::without_first(sets, displays);
                        (
                            Worker { displays, phase: Phase::PostingSet { sets: rest, reload } },
                            Action::Post(Msg::SetErr { idx, code, value, err }),
                        )
                    },
                    Ok(()) => if code == VCP_INPUT_SOURCE {
                        (
                            Worker { displays, phase: Phase::Settling { sets, reload } },
                            Action::Settle,
                        )
                    } else {
                        let rest = Worker::without_first(sets, displays);
                        (
                            Worker { displays, phase: Phase::PostingSet { sets: rest, reload } },
                            Action::Post(Msg::SetOk { idx, code, value, readback: None }),
                        )
                    },
                }
            },
            (Phase::Settling { sets, reload }, Event::Settled) => {
                let (idx, code, value) = sets[0];
                (
                    Worker {
                        displays,
                        phase: Phase::ReadingBack { sets, reload, read: VcpRead::new() },
                    },
                    Action::Read { idx, code },
                )
            },
            (Phase::ReadingBack { sets, reload, read }, Event::Read(outcome)) => {
                let (idx, code, value) = sets[0];
                match read.step(outcome) {
                    ReadStep::Retry(again) => (
                        Worker {
                            displays,
                            phase: Phase::ReadingBack { sets, reload, read: again },
                        },
                        Action::Read { idx, code },
                    ),
                    ReadStep::Done(reply) => {
                        let readback = match reply {
                            Ok(v) => Some(v.sl),
                            Err(_) => None,
                        };
                        let rest = Worker::without_first(sets, displays);
                        (
                            Worker { displays, phase: Phase::PostingSet { sets: rest, reload } },
                            Action::Post(Msg::SetOk { idx, code, value, readback }),
                        )
                    },
                }
            },
            (Phase::PostingSet { sets, reload }, Event::Posted(ok)) => if ok {
                Worker::batch_from(displays, sets, reload)
            } else {
                Worker::stop(displays)
            },
            (Phase::Reloading { idx, read }, Event::Read(outcome)) => match read.step(outcome) {
                MonitorReadStep::More(more) => {
                    let code = more.code();
                    (
                        Worker { displays, phase: Phase::Reloading { idx, read: more } },
                        Action::Read { idx, code },
                    )
                },
                MonitorReadStep::Done(replies) => {
                    let mut state = MonitorState::default();
                    state.read_values(replies);
                    (
                        Worker { displays, phase: Phase::PostingReloaded { idx } },
                        Action::Post(Msg::Reloaded { idx, state }),
                    )
                },
            },
            (Phase::PostingReloaded { idx }, Event::Posted(ok)) => if ok {
                Worker::reload_from(displays, idx + 1)
            } else {
                Worker::stop(displays)
            },
            _ => Worker::stop(displays),
        }
    }

    /// The sets behind the first one.
    fn without_first(sets: Vec<(usize, FeatureCode, u16)>, displays: usize) -> (rest: Vec<
        (usize, FeatureCode, u16),
    >)
        requires
            sets@.len() > 0,
            all_known(sets@, displays as nat),
        ensures
            rest@ == sets@.drop_first(),
            all_known(rest@, displays as nat),
    {
        let mut rest = sets;
        rest.remove(0);
        assert(rest@ =~= sets@.drop_first());
        rest
    }
}

} // verus!
