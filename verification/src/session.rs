//! The state of the user interface.

use crate::control::{Control, SliderResponse};
use crate::message;
use crate::message::{Cmd, Msg};
use crate::monitor;
use crate::monitor::MonitorState;
use crate::monitor_laws;
use crate::text;
use crate::vcp::FeatureCode;
use vstd::prelude::*;
use vstd::string::*;

verus! {

/// Values are not re-read on focus gain if they were read more recently than this many
/// nanoseconds ago.
pub const FOCUS_RELOAD_MIN_AGE: u64 = 2_000_000_000;

/// What the user interface knows. Points in time are nanoseconds since some fixed start.
#[derive(Debug)]
pub struct App {
    pub monitors: Vec<MonitorState>,
    pub scanning: bool,
    pub scan_error: Option<String>,
    pub worker_error: Option<String>,
    pub was_focused: bool,
    /// When values were last read.
    pub last_read: u64,
}

/// What an [`App`] holds.
pub struct AppView {
    pub monitors: Seq<monitor::MonitorView>,
    pub scanning: bool,
    pub scan_error: Option<Seq<char>>,
    pub worker_error: Option<Seq<char>>,
    pub was_focused: bool,
    pub last_read: u64,
}

impl View for App {
    type V = AppView;

    open spec fn view(&self) -> AppView {
        AppView {
            monitors: message::monitors_view(self.monitors@),
            scanning: self.scanning,
            scan_error: text::opt_view(self.scan_error),
            worker_error: text::opt_view(self.worker_error),
            was_focused: self.was_focused,
            last_read: self.last_read,
        }
    }
}

/// What stands in the window while there is no monitor to show.
#[derive(Clone, Copy, Debug, PartialEq, Eq, Structural)]
pub enum Placeholder {
    /// The search is under way.
    Searching,
    /// Nothing was found.
    NoMonitors,
    /// The error says it all.
    Blank,
}

/// What is said of a worker that takes no more commands.
pub open spec fn worker_stopped() -> Seq<char> {
    "The DDC worker thread has stopped; restart the application."@
}

impl AppView {
    /// A user interface whose worker has just been started.
    pub open spec fn start(now: u64) -> AppView {
        AppView {
            monitors: Seq::empty(),
            scanning: true,
            scan_error: None,
            worker_error: None,
            was_focused: true,
            last_read: now,
        }
    }

    /// What every operation keeps: the monitors are well formed.
    pub open spec fn wf(self) -> bool {
        forall|i: int| 0 <= i < self.monitors.len() ==> (#[trigger] self.monitors[i]).wf()
    }

    /// The state with another monitor at `idx`, if there is one.
    pub open spec fn with_monitor(self, idx: int, m: monitor::MonitorView) -> AppView {
        if 0 <= idx < self.monitors.len() {
            AppView { monitors: self.monitors.update(idx, m), ..self }
        } else {
            self
        }
    }

    /// The state after a message that comes in at `now`.
    pub open spec fn after(self, msg: message::MsgView, now: u64) -> AppView {
        match msg {
            message::MsgView::Scanned { monitors, error } => AppView {
                monitors,
                scan_error: error,
                scanning: false,
                last_read: now,
                ..self
            },
            message::MsgView::Inputs { idx, inputs } => self.with_monitor(
                idx,
                self.monitors[idx].with_inputs(inputs),
            ),
            message::MsgView::Reloaded { idx, state } => AppView {
                last_read: now,
                ..self.with_monitor(idx, self.monitors[idx].apply_reload(state))
            },
            message::MsgView::SetOk { idx, code, value, readback } => self.with_monitor(
                idx,
                self.monitors[idx].set_ok(code, value, readback),
            ),
            message::MsgView::SetErr { idx, code, value, err } => self.with_monitor(
                idx,
                self.monitors[idx].set_err(code, value, err),
            ),
        }
    }

    /// The state after a command was sent, or could not be.
    pub open spec fn sent(self, cmd: Cmd, delivered: bool) -> AppView {
        AppView {
            scanning: self.scanning || cmd is Rescan,
            worker_error: if delivered {
                self.worker_error
            } else {
                Some(worker_stopped())
            },
            ..self
        }
    }

    /// Whether the values are to be read again because the window has gained the focus.
    pub open spec fn reloads_on_focus(self, focused: bool, now: u64) -> bool {
        &&& focused
        &&& !self.was_focused
        &&& self.can_reload()
        &&& now - self.last_read >= FOCUS_RELOAD_MIN_AGE
    }

    /// Whether the values can be read again.
    pub open spec fn can_reload(self) -> bool {
        !self.scanning && self.monitors.len() > 0
    }

    /// What stands in the window where there is no monitor to show.
    pub open spec fn placeholder(self) -> Option<Placeholder> {
        if self.monitors.len() > 0 {
            None
        } else if self.scanning {
            Some(Placeholder::Searching)
        } else if self.scan_error is None {
            Some(Placeholder::NoMonitors)
        } else {
            Some(Placeholder::Blank)
        }
    }

    /// The line of text beside the title.
    pub open spec fn status(self) -> Seq<char> {
        if self.scanning {
            "Scanning…"@
        } else if self.monitors.len() == 1 {
            "1 monitor"@
        } else {
            text::decimal(self.monitors.len()) + " monitors"@
        }
    }
}

impl App {
    /// A user interface whose worker has just been started.
    pub fn new(now: u64) -> (app: App)
        ensures
            app@ == AppView::start(now),
    {
        let app = App {
            monitors: Vec::new(),
            scanning: true,
            scan_error: None,
            worker_error: None,
            was_focused: true,
            last_read: now,
        };
        assert(app@.monitors =~= Seq::empty());
        app
    }

    /// Takes a message of the worker.
    pub fn handle_message(&mut self, msg: Msg, now: u64)
        ensures
            final(self)@ == old(self)@.after(msg@, now),
    {
        let ghost before = self@;
        match msg {
            Msg::Scanned { monitors, error } => {
                self.monitors = monitors;
                self.scan_error = error;
                self.scanning = false;
                self.last_read = now;
            },
            Msg::Inputs { idx, inputs } => {
                if idx < self.monitors.len() {
                    self.monitors[idx].inputs = inputs;
                }
                assert(self@.monitors =~= before.after(msg@, now).monitors);
            },
            Msg::Reloaded { idx, state } => {
                if idx < self.monitors.len() {
                    self.monitors[idx].apply_reload(state);
                }
                self.last_read = now;
                assert(self@.monitors =~= before.after(msg@, now).monitors);
            },
            Msg::SetOk { idx, code, value, readback } => {
                if idx < self.monitors.len() {
                    self.monitors[idx].set_ok(code, value, readback);
                }
                assert(self@.monitors =~= before.after(msg@, now).monitors);
            },
            Msg::SetErr { idx, code, value, err } => {
                if idx < self.monitors.len() {
                    self.monitors[idx].set_err(code, value, err);
                }
                assert(self@.monitors =~= before.after(msg@, now).monitors);
            },
        }
    }

    /// Notes that a command was sent, or that the worker is gone and could not be given it.
    pub fn send(&mut self, cmd: Cmd, delivered: bool)
        ensures
            final(self)@ == old(self)@.sent(cmd, delivered),
    {
        if let Cmd::Rescan = cmd {
            self.scanning = true;
        }
        if !delivered {
            self.worker_error = Some(
                "The DDC worker thread has stopped; restart the application.".to_string(),
            );
        }
    }

    /// Notes whether the window has the focus. Values are read again when the window regains it,
    /// as they may have been changed by other means, unless they are fresh. Returns the command
    /// for that, if it is due.
    pub fn update_focus(&mut self, focused: bool, now: u64) -> (cmd: Option<Cmd>)
        ensures
            final(self)@ == (AppView { was_focused: focused, ..old(self)@ }),
            cmd == (if old(self)@.reloads_on_focus(focused, now) {
                Some(Cmd::Reload)
            } else {
                None
            }),
    {
        let stale = now >= self.last_read && now - self.last_read >= FOCUS_RELOAD_MIN_AGE;
        let due = focused && !self.was_focused && self.can_reload() && stale;
        self.was_focused = focused;
        if due {
            Some(Cmd::Reload)
        } else {
            None
        }
    }

    /// Whether monitors can be searched for.
    pub fn can_rescan(&self) -> (b: bool)
        ensures
            b == !self@.scanning,
    {
        !self.scanning
    }

    /// Whether the values can be read again.
    pub fn can_reload(&self) -> (b: bool)
        ensures
            b == self@.can_reload(),
    {
        !self.scanning && self.monitors.len() > 0
    }

    /// What stands in the window where there is no monitor to show.
    pub fn placeholder(&self) -> (p: Option<Placeholder>)
        ensures
            p == self@.placeholder(),
    {
        if self.monitors.len() > 0 {
            None
        } else if self.scanning {
            Some(Placeholder::Searching)
        } else if self.scan_error.is_none() {
            Some(Placeholder::NoMonitors)
        } else {
            Some(Placeholder::Blank)
        }
    }

    /// The line of text beside the title.
    pub fn status(&self) -> (line: String)
        ensures
            line@ == self@.status(),
    {
        if self.scanning {
            "Scanning…".to_string()
        } else if self.monitors.len() == 1 {
            "1 monitor".to_string()
        } else {
            let mut line = String::new();
            text::push_decimal(&mut line, self.monitors.len() as u64);
            line.append(" monitors");
            assert(line@ =~= self@.status());
            line
        }
    }
}

/// The monitor that a message is about, if it is about one.
pub open spec fn about(msg: message::MsgView) -> Option<int> {
    match msg {
        message::MsgView::Scanned { .. } => None,
        message::MsgView::Inputs { idx, .. } => Some(idx),
        message::MsgView::Reloaded { idx, .. } => Some(idx),
        message::MsgView::SetOk { idx, .. } => Some(idx),
        message::MsgView::SetErr { idx, .. } => Some(idx),
    }
}

/// The lists of errors stay within bounds through every message and every command.
pub proof fn law_app_stays_well_formed(
    app: AppView,
    msg: message::MsgView,
    now: u64,
    cmd: Cmd,
    delivered: bool,
)
    requires
        app.wf(),
        msg matches message::MsgView::Scanned { monitors, .. } ==> forall|i: int|
            0 <= i < monitors.len() ==> (#[trigger] monitors[i]).wf(),
    ensures
        AppView::start(now).wf(),
        app.after(msg, now).wf(),
        app.sent(cmd, delivered).wf(),
{
    if let Some(idx) = about(msg) {
        if 0 <= idx < app.monitors.len() {
            let m = app.monitors[idx];
            assert(m.wf());
            match msg {
                message::MsgView::Reloaded { state, .. } => {
                    monitor_laws::law_added_errors_in_bounds(m.errors, state.errors);
                },
                message::MsgView::SetOk { code, value, readback, .. } => {
                    if let Some(actual) = readback {
                        monitor_laws::law_errors_deduplicated_and_capped(
                            m.errors,
                            monitor::wrong_input((value % 256) as u8, actual),
                        );
                    }
                },
                message::MsgView::SetErr { code, value, err, .. } => {
                    monitor_laws::law_errors_deduplicated_and_capped(
                        m.errors,
                        monitor::set_error(code, value, err),
                    );
                },
                _ => {},
            }
        }
    }
}

/// A message about one monitor leaves all the others as they are, and a message about a monitor
/// that does not exist leaves all of them as they are.
pub proof fn law_message_touches_one_monitor(app: AppView, msg: message::MsgView, now: u64)
    requires
        about(msg) is Some,
    ensures
        app.after(msg, now).monitors.len() == app.monitors.len(),
        forall|i: int|
            0 <= i < app.monitors.len() && Some(i) != about(msg) ==> #[trigger] app.after(
                msg,
                now,
            ).monitors[i] == app.monitors[i],
        !(0 <= about(msg)->0 < app.monitors.len()) ==> app.after(msg, now).monitors
            == app.monitors,
        app.after(msg, now).scan_error == app.scan_error,
        app.after(msg, now).worker_error == app.worker_error,
        app.after(msg, now).was_focused == app.was_focused,
        app.after(msg, now).scanning == app.scanning,
        app.after(msg, now).last_read == (if msg is Reloaded {
            now
        } else {
            app.last_read
        }),
{
}

/// The state after a series of messages, each with the time at which it comes in.
pub open spec fn after_all(app: AppView, msgs: Seq<(message::MsgView, u64)>) -> AppView
    decreases msgs.len(),
{
    if msgs.len() == 0 {
        app
    } else {
        after_all(app, msgs.drop_last()).after(msgs.last().0, msgs.last().1)
    }
}

/// Whether a message confirms a write to monitor `k`.
pub open spec fn confirms(msg: message::MsgView, k: int) -> bool {
    msg is SetOk && about(msg) == Some(k)
}

/// Whether a message reports the failure of a write to monitor `k`.
pub open spec fn reports_failure(msg: message::MsgView, k: int) -> bool {
    msg is SetErr && about(msg) == Some(k)
}

/// Whether some message confirms a write to monitor `k`.
pub open spec fn some_confirmed(msgs: Seq<(message::MsgView, u64)>, k: int) -> bool {
    exists|i: int| 0 <= i < msgs.len() && confirms((#[trigger] msgs[i]).0, k)
}

/// How many failures of writes to monitor `k` are reported behind the last confirmation of one,
/// or in all where there is none.
pub open spec fn failures_in_a_row(msgs: Seq<(message::MsgView, u64)>, k: int) -> nat
    decreases msgs.len(),
{
    if msgs.len() == 0 || confirms(msgs.last().0, k) {
        0
    } else if reports_failure(msgs.last().0, k) {
        failures_in_a_row(msgs.drop_last(), k) + 1
    } else {
        failures_in_a_row(msgs.drop_last(), k)
    }
}

/// What a monitor counts are its failures in a row, as far as the counter goes: those since the
/// last write that succeeded, or, where none did, those on top of what it had counted before.
/// Nothing that is said of other monitors, and nothing else that is said of this one, makes a
/// difference, as long as the monitors are not searched for anew. The controls are locked out
/// if and only if there were enough of them.
pub proof fn law_consecutive_failures_counted(
    app: AppView,
    msgs: Seq<(message::MsgView, u64)>,
    k: int,
)
    requires
        0 <= k < app.monitors.len(),
        forall|i: int| 0 <= i < msgs.len() ==> (#[trigger] msgs[i]).0 !is Scanned,
    ensures
        ({
            let count = failures_in_a_row(msgs, k) + if some_confirmed(msgs, k) {
                0
            } else {
                app.monitors[k].failures as int
            };
            let m = after_all(app, msgs).monitors[k];
            &&& after_all(app, msgs).monitors.len() == app.monitors.len()
            &&& m.failures == (if count <= u8::MAX {
                count
            } else {
                u8::MAX as int
            })
            &&& m.locked_out() <==> count >= monitor::MAX_FAILURES
        }),
    decreases msgs.len(),
{
    if msgs.len() > 0 {
        let front = msgs.drop_last();
        let (msg, now) = msgs.last();
        law_consecutive_failures_counted(app, front, k);
        assert(msgs[msgs.len() - 1].0 == msg);
        law_message_touches_one_monitor(after_all(app, front), msg, now);
        assert(after_all(app, msgs).monitors.len() == app.monitors.len());
        if about(msg) != Some(k) {
            assert(after_all(app, msgs).monitors[k] == after_all(app, front).monitors[k]);
        }
        if some_confirmed(front, k) {
            let i = choose|i: int| 0 <= i < front.len() && confirms((#[trigger] front[i]).0, k);
            assert(confirms(msgs[i].0, k));
        }
        if some_confirmed(msgs, k) && !confirms(msg, k) {
            let i = choose|i: int| 0 <= i < msgs.len() && confirms((#[trigger] msgs[i]).0, k);
            assert(confirms(front[i].0, k));
        }
        if confirms(msg, k) {
            assert(some_confirmed(msgs, k));
        }
    }
}

/// From a rescan until the worker reports what it has found, neither a rescan nor a reload can
/// be asked for and no control can be used; the report ends that.
pub proof fn law_scanning_until_reported(
    app: AppView,
    delivered: bool,
    msg: message::MsgView,
    now: u64,
)
    ensures
        AppView::start(now).scanning,
        app.sent(Cmd::Rescan, delivered).scanning,
        !app.sent(Cmd::Rescan, delivered).can_reload(),
        forall|m: monitor::MonitorView| !#[trigger] m.enabled(
            app.sent(Cmd::Rescan, delivered).scanning,
        ),
        app.after(msg, now).scanning == (app.scanning && msg !is Scanned),
{
}

/// A window that gains the focus asks for the values once, and only if they were not read
/// within the minimum age.
pub proof fn law_focus_reloads_once(app: AppView, focused: bool, now: u64, later: u64)
    ensures
        app.reloads_on_focus(focused, now) ==> now - app.last_read >= FOCUS_RELOAD_MIN_AGE,
        app.reloads_on_focus(focused, now) ==> !(AppView {
            was_focused: focused,
            ..app
        }).reloads_on_focus(true, later),
{
}

/// What becomes of a slider's value: once it has been sent and the monitor has confirmed it,
/// slider and monitor agree and nothing is left to send. If the monitor fails to take it, the
/// slider is back at what the monitor had confirmed before.
pub proof fn law_slider_round_trip(
    m: monitor::MonitorView,
    code: FeatureCode,
    c: Control,
    resp: SliderResponse,
    now: u64,
    err: Seq<char>,
)
    requires
        m.control(code) == Some(c),
        c.sends(resp, now),
    ensures
        ({
            let waiting = m.with_control(code, c.after_row(resp, now));
            &&& waiting.set_ok(code, resp.value, None).control(code) matches Some(confirmed)
            &&& confirmed.value == resp.value
            &&& confirmed.applied == resp.value
            &&& !confirmed.outdated()
            &&& waiting.set_err(code, resp.value, err).control(code) matches Some(failed)
            &&& failed.value == c.applied
            &&& failed.applied == c.applied
            &&& !failed.outdated()
        }),
{
}

/// A report of a search replaces all monitors and the error of the last search, ends the search
/// and counts as a read; nothing else changes.
pub proof fn law_report_replaces_monitors(
    app: AppView,
    monitors: Seq<monitor::MonitorView>,
    error: Option<Seq<char>>,
    now: u64,
)
    ensures
        ({
            let after = app.after(message::MsgView::Scanned { monitors, error }, now);
            &&& after.monitors == monitors
            &&& after.scan_error == error
            &&& !after.scanning
            &&& after.last_read == now
            &&& after.worker_error == app.worker_error
            &&& after.was_focused == app.was_focused
        }),
{
}

/// What a message says of a monitor reaches that monitor: its advertised inputs, its values, the
/// confirmation of a write and the failure of one.
pub proof fn law_message_reaches_its_monitor(
    app: AppView,
    idx: int,
    inputs: Seq<crate::inputs::InputOptionView>,
    state: monitor::MonitorView,
    code: FeatureCode,
    value: u16,
    readback: Option<u8>,
    err: Seq<char>,
    now: u64,
)
    requires
        0 <= idx < app.monitors.len(),
    ensures
        app.after(message::MsgView::Inputs { idx, inputs }, now).monitors[idx] == (
        monitor::MonitorView { inputs, ..app.monitors[idx] }),
        app.after(message::MsgView::Reloaded { idx, state }, now).monitors[idx]
            == app.monitors[idx].apply_reload(state),
        app.after(message::MsgView::SetOk { idx, code, value, readback }, now).monitors[idx]
            == app.monitors[idx].set_ok(code, value, readback),
        app.after(message::MsgView::SetErr { idx, code, value, err }, now).monitors[idx]
            == app.monitors[idx].set_err(code, value, err),
{
}

/// A command that could not be delivered is the only thing that is said to have stopped the
/// worker, and it is said until the end. A rescan, and no other command, starts a search, even
/// where it could not be delivered. Nothing else changes.
pub proof fn law_sending(app: AppView, cmd: Cmd, delivered: bool)
    ensures
        ({
            let after = app.sent(cmd, delivered);
            &&& delivered ==> after.worker_error == app.worker_error
            &&& !delivered ==> after.worker_error == Some(
                "The DDC worker thread has stopped; restart the application."@,
            )
            &&& cmd == Cmd::Rescan ==> after.scanning
            &&& cmd != Cmd::Rescan ==> after.scanning == app.scanning
            &&& after.monitors == app.monitors
            &&& after.scan_error == app.scan_error
            &&& after.was_focused == app.was_focused
            &&& after.last_read == app.last_read
        }),
{
}

/// The values are read again exactly when the window gains the focus, there is a monitor, no
/// search is under way, and the last read was two seconds ago or more. On demand they can be read
/// again whenever there is a monitor and no search is under way.
pub proof fn law_when_to_reload(app: AppView, focused: bool, now: u64)
    ensures
        app.reloads_on_focus(focused, now) <==> focused && !app.was_focused && !app.scanning
            && app.monitors.len() > 0 && now >= app.last_read + 2_000_000_000,
        app.can_reload() <==> !app.scanning && app.monitors.len() > 0,
{
}

/// What the window says of its monitors: where there is one, nothing stands in its place; where
/// there is none, that they are searched for, or that there are none, unless an error says so. The
/// title tells how many there are, as soon as that is known.
pub proof fn law_what_the_window_says(app: AppView)
    ensures
        app.monitors.len() > 0 <==> app.placeholder() is None,
        app.monitors.len() == 0 && app.scanning <==> app.placeholder() == Some(
            Placeholder::Searching,
        ),
        app.monitors.len() == 0 && !app.scanning && app.scan_error is None <==> app.placeholder()
            == Some(Placeholder::NoMonitors),
        app.monitors.len() == 0 && !app.scanning && app.scan_error is Some <==> app.placeholder()
            == Some(Placeholder::Blank),
        app.scanning ==> app.status() == "Scanning…"@,
        !app.scanning && app.monitors.len() == 1 ==> app.status() == "1 monitor"@,
        !app.scanning && app.monitors.len() != 1 ==> app.status() == text::decimal(
            app.monitors.len(),
        ) + " monitors"@,
{
}

/// At the start there is no monitor and no error, a search is under way, and the window counts as
/// focused and its values as just read.
pub proof fn law_start(now: u64)
    ensures
        AppView::start(now).monitors.len() == 0,
        AppView::start(now).scanning,
        AppView::start(now).scan_error is None,
        AppView::start(now).worker_error is None,
        AppView::start(now).was_focused,
        AppView::start(now).last_read == now,
{
}

/// A confirmation that comes in while the slider is already elsewhere leaves the slider where it
/// is: what is then released is still sent, unless it was.
pub proof fn law_late_confirmation_keeps_the_slider(
    m: monitor::MonitorView,
    code: FeatureCode,
    c: Control,
    value: u16,
    readback: Option<u8>,
    resp: SliderResponse,
    now: u64,
)
    requires
        m.control(code) == Some(c),
        c.last_sent_value == Some(value),
        resp.drag_stopped,
        resp.value == c.value,
        c.value != value,
    ensures
        m.set_ok(code, value, readback).control(code) matches Some(d) && d.value == c.value
            && d.sends(resp, now),
{
}

} // verus!
