//! Whole runs of the worker: what it asks for, one action after the other, given what the
//! displays answer.

use crate::message;
use crate::message::Cmd;
use crate::monitor;
use crate::monitor_laws;
use crate::monitor_read;
use crate::transfer;
use crate::control::Control;
use crate::vcp::{FeatureCode, VcpReply};
use crate::worker;
use crate::worker_laws;
use vstd::prelude::*;

verus! {

/// What a display answers when its values are read: the outcome of each attempt.
pub struct ReadAnswers {
    pub brightness: Seq<transfer::ReadOutcomeView>,
    pub contrast: Seq<transfer::ReadOutcomeView>,
    pub input: Seq<transfer::ReadOutcomeView>,
}

/// Whether the attempts are those of one read: one that succeeds, or a second one after a
/// failure, whatever comes of it.
pub open spec fn one_read(attempts: Seq<transfer::ReadOutcomeView>) -> bool {
    ||| attempts.len() == 1 && attempts[0] is Value
    ||| attempts.len() == 2 && attempts[0] !is Value
}

/// Whether the attempts are those of reading all values of a display.
pub open spec fn full_read(answers: ReadAnswers) -> bool {
    one_read(answers.brightness) && one_read(answers.contrast) && one_read(answers.input)
}

/// What a read has come to: the outcome of the last attempt.
pub open spec fn outcome(attempts: Seq<transfer::ReadOutcomeView>) -> Result<VcpReply, Seq<char>> {
    match attempts.last() {
        transfer::ReadOutcomeView::Value(v) => Ok(v),
        transfer::ReadOutcomeView::Failed(e) => Err(e),
        transfer::ReadOutcomeView::Panicked => Err("DDC layer panicked on a malformed reply"@),
    }
}

/// The attempts as events.
pub open spec fn read_events(attempts: Seq<transfer::ReadOutcomeView>) -> Seq<worker::EventView> {
    attempts.map_values(|o: transfer::ReadOutcomeView| worker::EventView::Read(o))
}

/// The answers of a display as events, in the order of brightness, contrast and input.
pub open spec fn reading_events(answers: ReadAnswers) -> Seq<worker::EventView> {
    read_events(answers.brightness) + read_events(answers.contrast) + read_events(answers.input)
}

/// So many attempts to read a feature of a display.
pub open spec fn read_asks(idx: int, code: FeatureCode, attempts: nat) -> Seq<worker::ActionView> {
    Seq::new(attempts, |i: int| worker::ActionView::Read { idx, code })
}

/// The attempts to read all values of a display, as many as it takes.
pub open spec fn reading_asks(idx: int, answers: ReadAnswers) -> Seq<worker::ActionView> {
    read_asks(idx, 0x10, answers.brightness.len()) + read_asks(idx, 0x12, answers.contrast.len())
        + read_asks(idx, 0x60, answers.input.len())
}

/// The slider that a reply describes: with the maximum and the value that its bytes give, the
/// value no higher than the maximum.
pub open spec fn slider(reply: Result<VcpReply, Seq<char>>) -> Option<Control> {
    match reply {
        Ok(v) => {
            let max = 256 * v.mh + v.ml;
            let value = 256 * v.sh + v.sl;
            if max == 0 {
                None
            } else {
                let shown = (if value < max {
                    value
                } else {
                    max
                }) as u16;
                Some(
                    Control {
                        value: shown,
                        applied: shown,
                        max: max as u16,
                        last_sent_value: None,
                        last_sent_at: None,
                    },
                )
            }
        },
        Err(_) => None,
    }
}

/// What is known of a display with the given names from its answers alone.
pub open spec fn known_from(name: Seq<char>, ident: Seq<char>, answers: ReadAnswers)
    -> monitor::MonitorView {
    monitor::MonitorView {
        name,
        ident,
        brightness: slider(outcome(answers.brightness)),
        contrast: slider(outcome(answers.contrast)),
        input: match outcome(answers.input) {
            Ok(v) => Some(v.sl),
            Err(_) => None,
        },
        pending_input: None,
        inputs: Seq::empty(),
        errors: monitor::with_errors(
            Seq::empty(),
            monitor_laws::slider_complaint("brightness"@, outcome(answers.brightness))
                + monitor_laws::slider_complaint("contrast"@, outcome(answers.contrast))
                + monitor_laws::input_complaint(outcome(answers.input)),
        ),
        failures: 0,
    }
}

/// A series of events is a series of events after another.
proof fn lemma_in_steps(
    w: worker::WorkerView,
    a: Seq<worker::EventView>,
    b: Seq<worker::EventView>,
)
    ensures
        worker_laws::worker_after(w, a + b) == worker_laws::worker_after(
            worker_laws::worker_after(w, a),
            b,
        ),
        worker_laws::actions(w, a + b) == worker_laws::actions(w, a) + worker_laws::actions(
            worker_laws::worker_after(w, a),
            b,
        ),
    decreases b.len(),
{
    if b.len() == 0 {
        assert(a + b =~= a);
        assert(worker_laws::actions(w, a) + Seq::<worker::ActionView>::empty()
            =~= worker_laws::actions(w, a));
    } else {
        lemma_in_steps(w, a, b.drop_last());
        assert((a + b).drop_last() =~= a + b.drop_last());
        assert((a + b).last() == b.last());
        assert(worker_laws::actions(w, a + b) =~= worker_laws::actions(w, a)
            + worker_laws::actions(worker_laws::worker_after(w, a), b));
    }
}

proof fn lemma_one_event(w: worker::WorkerView, e: worker::EventView)
    ensures
        worker_laws::worker_after(w, seq![e]) == w.after(e).0,
        worker_laws::actions(w, seq![e]) == seq![w.after(e).1],
{
    let one = seq![e];
    assert(one.drop_last() =~= Seq::<worker::EventView>::empty());
    assert(worker_laws::worker_after(w, one.drop_last()) == w);
    assert(worker_laws::actions(w, one.drop_last()) =~= Seq::<worker::ActionView>::empty());
    assert(worker_laws::actions(w, one) =~= seq![w.after(e).1]);
}

proof fn lemma_two_events(w: worker::WorkerView, e: worker::EventView, f: worker::EventView)
    ensures
        worker_laws::worker_after(w, seq![e, f]) == w.after(e).0.after(f).0,
        worker_laws::actions(w, seq![e, f]) == seq![w.after(e).1, w.after(e).0.after(f).1],
{
    lemma_one_event(w, e);
    lemma_one_event(w.after(e).0, f);
    lemma_in_steps(w, seq![e], seq![f]);
    assert(seq![e] + seq![f] =~= seq![e, f]);
    assert(worker_laws::actions(w, seq![e, f]) =~= seq![
        w.after(e).1,
        w.after(e).0.after(f).1,
    ]);
}

/// Two runs put together: what the first one ends with is what the second one begins with.
proof fn lemma_join(
    first: Seq<worker::ActionView>,
    a: Seq<worker::ActionView>,
    r: Seq<worker::ActionView>,
    mid: Seq<worker::ActionView>,
    b: Seq<worker::ActionView>,
    t: Seq<worker::ActionView>,
)
    requires
        first + a == r + mid,
        mid + b == t,
    ensures
        first + (a + b) == r + t,
{
    assert(first + (a + b) =~= (first + a) + b);
    assert((r + mid) + b =~= r + (mid + b));
}

/// What follows the last action of a run follows the whole of it.
proof fn lemma_follow(
    r: Seq<worker::ActionView>,
    mid: Seq<worker::ActionView>,
    b: Seq<worker::ActionView>,
    c: Seq<worker::ActionView>,
    d: Seq<worker::ActionView>,
)
    requires
        mid + b == c + d,
    ensures
        (r + mid) + b == (r + c) + d,
{
    assert((r + mid) + b =~= r + (mid + b));
    assert(r + (c + d) =~= (r + c) + d);
}

proof fn lemma_regroup(
    a: Seq<worker::ActionView>,
    b: Seq<worker::ActionView>,
    c: Seq<worker::ActionView>,
)
    ensures
        a + (b + c) == (a + b) + c,
{
    assert(a + (b + c) =~= (a + b) + c);
}

/// The phase of reading a display, with another state of the reading.
spec fn reading(base: worker::PhaseView, read: monitor_read::MonitorReadView)
    -> worker::PhaseView {
    match base {
        worker::PhaseView::Probing { infos, monitors, .. } => worker::PhaseView::Probing {
            infos,
            monitors,
            read,
        },
        worker::PhaseView::Reloading { idx, .. } => worker::PhaseView::Reloading { idx, read },
        _ => base,
    }
}

/// The display that is being read.
spec fn read_display(base: worker::PhaseView) -> int {
    match base {
        worker::PhaseView::Probing { monitors, .. } => monitors.len() as int,
        worker::PhaseView::Reloading { idx, .. } => idx,
        _ => 0,
    }
}

/// What follows the last value of a display.
spec fn finished(w: worker::WorkerView, base: worker::PhaseView, replies: monitor::RepliesView) -> (
    worker::WorkerView,
    worker::ActionView,
) {
    match base {
        worker::PhaseView::Probing { infos, monitors, .. } => w.probe_from(
            infos,
            monitors.push(
                monitor::MonitorView::described(infos[monitors.len() as int]).read_values(replies),
            ),
        ),
        worker::PhaseView::Reloading { idx, .. } => w.post(
            worker::PhaseView::PostingReloaded { idx },
            message::MsgView::Reloaded {
                idx,
                state: monitor::MonitorView::unknown().read_values(replies),
            },
        ),
        _ => w.stop(),
    }
}

proof fn lemma_feature_read(
    w: worker::WorkerView,
    base: worker::PhaseView,
    read: monitor_read::MonitorReadView,
    next: monitor_read::MonitorReadView,
    attempts: Seq<transfer::ReadOutcomeView>,
)
    requires
        base is Probing || base is Reloading,
        w.phase == reading(base, read),
        one_read(attempts),
        match read {
            monitor_read::MonitorReadView::Brightness { read: r } => r
                == transfer::VcpRead::spec_new() && next
                == (monitor_read::MonitorReadView::Contrast {
                brightness: outcome(attempts),
                read: transfer::VcpRead::spec_new(),
            }),
            monitor_read::MonitorReadView::Contrast { brightness, read: r } => r
                == transfer::VcpRead::spec_new() && next == (monitor_read::MonitorReadView::Input {
                brightness,
                contrast: outcome(attempts),
                read: transfer::VcpRead::spec_new(),
            }),
            _ => false,
        },
    ensures
        worker_laws::worker_after(w, read_events(attempts)) == (worker::WorkerView {
            phase: reading(base, next),
            ..w
        }),
        seq![worker::ActionView::Read { idx: read_display(base), code: read.code() }]
            + worker_laws::actions(w, read_events(attempts)) == read_asks(
            read_display(base),
            read.code(),
            attempts.len(),
        ) + seq![worker::ActionView::Read { idx: read_display(base), code: next.code() }],
{
    let events = read_events(attempts);
    let ask = worker::ActionView::Read { idx: read_display(base), code: read.code() };
    let then = worker::ActionView::Read { idx: read_display(base), code: next.code() };
    lemma_asks(read_display(base), read.code(), attempts.len(), then);
    if attempts.len() == 1 {
        assert(events =~= seq![worker::EventView::Read(attempts[0])]);
        lemma_one_event(w, events[0]);
        assert(w.after(events[0]).1 == then);
    } else {
        assert(events =~= seq![
            worker::EventView::Read(attempts[0]),
            worker::EventView::Read(attempts[1]),
        ]);
        lemma_two_events(w, events[0], events[1]);
        assert(w.after(events[0]).1 == ask);
        assert(w.after(events[0]).0.after(events[1]).1 == then);
    }
}

/// One or two attempts, and what follows.
proof fn lemma_asks(idx: int, code: FeatureCode, attempts: nat, then: worker::ActionView)
    ensures
        ({
            let ask = worker::ActionView::Read { idx, code };
            &&& attempts == 1 ==> read_asks(idx, code, attempts) + seq![then] == seq![ask] + seq![
                then,
            ]
            &&& attempts == 2 ==> read_asks(idx, code, attempts) + seq![then] == seq![ask] + seq![
                ask,
                then,
            ]
        }),
{
    let ask = worker::ActionView::Read { idx, code };
    if attempts == 1 {
        assert(read_asks(idx, code, attempts) + seq![then] =~= seq![ask] + seq![then]);
    }
    if attempts == 2 {
        assert(read_asks(idx, code, attempts) + seq![then] =~= seq![ask] + seq![ask, then]);
    }
}

#[verifier::rlimit(40)]
proof fn lemma_input_read(
    w: worker::WorkerView,
    base: worker::PhaseView,
    brightness: Result<VcpReply, Seq<char>>,
    contrast: Result<VcpReply, Seq<char>>,
    attempts: Seq<transfer::ReadOutcomeView>,
)
    requires
        base is Probing || base is Reloading,
        w.phase == reading(
            base,
            monitor_read::MonitorReadView::Input {
                brightness,
                contrast,
                read: transfer::VcpRead::spec_new(),
            },
        ),
        one_read(attempts),
    ensures
        ({
            let end = finished(
                w,
                base,
                monitor::RepliesView { brightness, contrast, input: outcome(attempts) },
            );
            &&& worker_laws::worker_after(w, read_events(attempts)) == end.0
            &&& seq![worker::ActionView::Read { idx: read_display(base), code: 0x60 }]
                + worker_laws::actions(w, read_events(attempts)) == read_asks(
                read_display(base),
                0x60,
                attempts.len(),
            ) + seq![end.1]
        }),
{
    let events = read_events(attempts);
    let end = finished(
        w,
        base,
        monitor::RepliesView { brightness, contrast, input: outcome(attempts) },
    );
    let ask = worker::ActionView::Read { idx: read_display(base), code: 0x60 };
    lemma_asks(read_display(base), 0x60, attempts.len(), end.1);
    if attempts.len() == 1 {
        assert(events =~= seq![worker::EventView::Read(attempts[0])]);
        lemma_one_event(w, events[0]);
        assert(w.after(events[0]) == end);
    } else {
        assert(events =~= seq![
            worker::EventView::Read(attempts[0]),
            worker::EventView::Read(attempts[1]),
        ]);
        lemma_two_events(w, events[0], events[1]);
        assert(w.after(events[0]).1 == ask);
        assert(w.after(events[0]).0.after(events[1]) == end);
    }
}

/// Reading a display, from the first attempt on, which was asked for before.
#[verifier::rlimit(40)]
proof fn lemma_display_read(w: worker::WorkerView, base: worker::PhaseView, answers: ReadAnswers)
    requires
        base is Probing || base is Reloading,
        w.phase == reading(base, monitor_read::MonitorReadView::start()),
        full_read(answers),
    ensures
        ({
            let end = finished(
                w,
                base,
                monitor::RepliesView {
                    brightness: outcome(answers.brightness),
                    contrast: outcome(answers.contrast),
                    input: outcome(answers.input),
                },
            );
            &&& worker_laws::worker_after(w, reading_events(answers)) == end.0
            &&& seq![worker::ActionView::Read { idx: read_display(base), code: 0x10 }]
                + worker_laws::actions(w, reading_events(answers)) == reading_asks(
                read_display(base),
                answers,
            ) + seq![end.1]
        }),
{
    let idx = read_display(base);
    let b = outcome(answers.brightness);
    let c = outcome(answers.contrast);
    let second = monitor_read::MonitorReadView::Contrast {
        brightness: b,
        read: transfer::VcpRead::spec_new(),
    };
    let third = monitor_read::MonitorReadView::Input {
        brightness: b,
        contrast: c,
        read: transfer::VcpRead::spec_new(),
    };
    let w2 = worker::WorkerView { phase: reading(base, second), ..w };
    let w3 = worker::WorkerView { phase: reading(base, third), ..w };
    lemma_feature_read(
        w,
        base,
        monitor_read::MonitorReadView::start(),
        second,
        answers.brightness,
    );
    lemma_feature_read(w2, base, second, third, answers.contrast);
    lemma_input_read(w3, base, b, c, answers.input);
    let e1 = read_events(answers.brightness);
    let e2 = read_events(answers.contrast);
    let e3 = read_events(answers.input);
    lemma_in_steps(w, e1, e2);
    lemma_in_steps(w, e1 + e2, e3);
    let replies = monitor::RepliesView {
        brightness: b,
        contrast: c,
        input: outcome(answers.input),
    };
    let end = finished(w, base, replies);
    assert(finished(w3, base, replies) == end);
    let first = seq![worker::ActionView::Read { idx, code: 0x10 }];
    let asks1 = read_asks(idx, 0x10, answers.brightness.len());
    let asks2 = read_asks(idx, 0x12, answers.contrast.len());
    let asks3 = read_asks(idx, 0x60, answers.input.len());
    let then2 = seq![worker::ActionView::Read { idx, code: 0x12 }];
    let then3 = seq![worker::ActionView::Read { idx, code: 0x60 }];
    let a1 = worker_laws::actions(w, e1);
    let a2 = worker_laws::actions(w2, e2);
    let a3 = worker_laws::actions(w3, e3);
    lemma_join(first, a1, asks1, then2, a2, asks2 + then3);
    lemma_regroup(asks1, asks2, then3);
    lemma_join(first, a1 + a2, asks1 + asks2, then3, a3, asks3 + seq![end.1]);
    lemma_regroup(asks1 + asks2, asks3, seq![end.1]);
}

/// The answers of several displays as events, one display after the other.
pub open spec fn all_reading_events(answers: Seq<ReadAnswers>) -> Seq<worker::EventView>
    decreases answers.len(),
{
    if answers.len() == 0 {
        Seq::empty()
    } else {
        all_reading_events(answers.drop_last()) + reading_events(answers.last())
    }
}

/// The attempts to read all values of several displays, from the first display on.
pub open spec fn all_reading_asks(answers: Seq<ReadAnswers>) -> Seq<worker::ActionView>
    decreases answers.len(),
{
    if answers.len() == 0 {
        Seq::empty()
    } else {
        all_reading_asks(answers.drop_last()) + reading_asks(answers.len() - 1, answers.last())
    }
}

/// What is known of the displays from their answers.
pub open spec fn found(infos: Seq<monitor::DisplayInfoView>, answers: Seq<ReadAnswers>) -> Seq<
    monitor::MonitorView,
> {
    Seq::new(
        answers.len(),
        |i: int|
            known_from(
                monitor::display_name(infos[i]),
                monitor::display_ident(infos[i]),
                answers[i],
            ),
    )
}

/// The report of a search: a monitor for each display, or the word that there is none.
pub open spec fn report(infos: Seq<monitor::DisplayInfoView>, answers: Seq<ReadAnswers>)
    -> worker::ActionView {
    worker::ActionView::Post(
        message::MsgView::Scanned {
            monitors: found(infos, answers),
            error: if infos.len() == 0 {
                Some(
                    "No DDC/CI capable monitors found. i2c-dev must be loaded and your user needs access to /dev/i2c-* (group `i2c`); `just doctor` checks both."@,
                )
            } else {
                None
            },
        },
    )
}

/// What is read of a display is what its answers say.
proof fn lemma_known_from(m: monitor::MonitorView, answers: ReadAnswers)
    requires
        m == (monitor::MonitorView { name: m.name, ident: m.ident, ..monitor::MonitorView::unknown()
        }),
    ensures
        m.read_values(
            monitor::RepliesView {
                brightness: outcome(answers.brightness),
                contrast: outcome(answers.contrast),
                input: outcome(answers.input),
            },
        ) == known_from(m.name, m.ident, answers),
{
    let replies = monitor::RepliesView {
        brightness: outcome(answers.brightness),
        contrast: outcome(answers.contrast),
        input: outcome(answers.input),
    };
    monitor_laws::law_values_come_from_their_replies(m, replies);
    monitor_laws::law_control_shows_what_was_reported(replies.brightness);
    monitor_laws::law_control_shows_what_was_reported(replies.contrast);
    assert(monitor::control_of(replies.brightness) == slider(replies.brightness));
    assert(monitor::control_of(replies.contrast) == slider(replies.contrast));
    assert(m.read_values(replies) =~= known_from(m.name, m.ident, answers));
}

proof fn lemma_probing(
    w: worker::WorkerView,
    infos: Seq<monitor::DisplayInfoView>,
    answers: Seq<ReadAnswers>,
)
    requires
        w.phase is Enumerating,
        answers.len() <= infos.len(),
        forall|i: int| 0 <= i < answers.len() ==> full_read(#[trigger] answers[i]),
    ensures
        ({
            let trace = seq![worker::EventView::Enumerated(infos)] + all_reading_events(answers);
            let start = worker::WorkerView { displays: infos.len(), ..w };
            let next = start.probe_from(infos, found(infos, answers));
            &&& worker_laws::worker_after(w, trace) == next.0
            &&& worker_laws::actions(w, trace) == all_reading_asks(answers) + seq![next.1]
        }),
    decreases answers.len(),
{
    let first = seq![worker::EventView::Enumerated(infos)];
    let trace = first + all_reading_events(answers);
    let start = worker::WorkerView { displays: infos.len(), ..w };
    let next = start.probe_from(infos, found(infos, answers));
    if answers.len() == 0 {
        assert(trace =~= first);
        lemma_one_event(w, first[0]);
        assert(found(infos, answers) =~= Seq::empty());
        assert(worker_laws::actions(w, trace) =~= all_reading_asks(answers) + seq![next.1]);
    } else {
        let front = answers.drop_last();
        let n = front.len() as int;
        let last = answers.last();
        assert(forall|i: int| 0 <= i < front.len() ==> front[i] == #[trigger] answers[i]);
        assert(full_read(answers[n]));
        lemma_probing(w, infos, front);
        let before = first + all_reading_events(front);
        assert(trace =~= before + reading_events(last));
        lemma_in_steps(w, before, reading_events(last));
        let mid = start.probe_from(infos, found(infos, front));
        let base = mid.0.phase;
        lemma_display_read(mid.0, base, last);
        let m = monitor::MonitorView::described(infos[n]);
        lemma_known_from(m, last);
        assert(found(infos, front).push(known_from(m.name, m.ident, last)) =~= found(
            infos,
            answers,
        ));
        assert(mid.1 == worker::ActionView::Read { idx: n, code: 0x10 });
        lemma_follow(
            all_reading_asks(front),
            seq![mid.1],
            worker_laws::actions(mid.0, reading_events(last)),
            reading_asks(n, last),
            seq![next.1],
        );
    }
}

/// What a monitor says of itself, if that could be read: for each feature the values that it
/// takes and their names.
pub type Said = Option<Map<u8, Map<u8, Option<Seq<char>>>>>;

/// Whether the attempts are those of one read of the capabilities: one that succeeds, or a second
/// one after a failure.
pub open spec fn one_caps_read(attempts: Seq<Said>) -> bool {
    ||| attempts.len() == 1 && attempts[0] is Some
    ||| attempts.len() == 2 && attempts[0] is None
}

/// Whether a monitor lists an input.
pub open spec fn lists_input(said: Said) -> bool {
    said matches Some(caps) && caps.contains_key(0x60) && exists|code: u8| #[trigger]
        caps[0x60].contains_key(code)
}

/// What comes of asking a display for its inputs: the attempts, and the delivery of the list if
/// there is one.
pub open spec fn caps_events(attempts: Seq<Said>) -> Seq<worker::EventView> {
    attempts.map_values(|said: Said| worker::EventView::Capabilities(said)) + if lists_input(
        attempts.last(),
    ) {
        seq![worker::EventView::Posted(true)]
    } else {
        Seq::empty()
    }
}

/// The attempts to ask a display for its inputs, and the message with the list if there is one.
pub open spec fn caps_asks(idx: int, attempts: Seq<Said>) -> Seq<worker::ActionView> {
    Seq::new(attempts.len(), |i: int| worker::ActionView::ReadCapabilities { idx })
        + if lists_input(attempts.last()) {
        seq![
            worker::ActionView::Post(
                message::MsgView::Inputs {
                    idx,
                    inputs: transfer::advertised(attempts.last()->0)->0,
                },
            ),
        ]
    } else {
        Seq::empty()
    }
}

/// What comes of asking several displays for their inputs, one after the other.
pub open spec fn all_caps_events(answers: Seq<Seq<Said>>) -> Seq<worker::EventView>
    decreases answers.len(),
{
    if answers.len() == 0 {
        Seq::empty()
    } else {
        all_caps_events(answers.drop_last()) + caps_events(answers.last())
    }
}

/// What is asked and told of the inputs of several displays, from the first display on.
pub open spec fn all_caps_asks(answers: Seq<Seq<Said>>) -> Seq<worker::ActionView>
    decreases answers.len(),
{
    if answers.len() == 0 {
        Seq::empty()
    } else {
        all_caps_asks(answers.drop_last()) + caps_asks(answers.len() - 1, answers.last())
    }
}

/// The attempts to read the capabilities of a display, behind the first one, and what follows.
#[verifier::rlimit(40)]
proof fn lemma_caps_tries(w: worker::WorkerView, idx: int, attempts: Seq<Said>)
    requires
        w.phase == (worker::PhaseView::ReadingCapabilities {
            idx,
            read: transfer::CapabilitiesRead::spec_new(),
        }),
        one_caps_read(attempts),
    ensures
        ({
            let tries = attempts.map_values(|said: Said| worker::EventView::Capabilities(said));
            let next = if lists_input(attempts.last()) {
                w.post(
                    worker::PhaseView::PostingInputs { idx },
                    message::MsgView::Inputs {
                        idx,
                        inputs: transfer::advertised(attempts.last()->0)->0,
                    },
                )
            } else {
                w.capabilities_from(idx + 1)
            };
            &&& worker_laws::worker_after(w, tries) == next.0
            &&& seq![worker::ActionView::ReadCapabilities { idx }] + worker_laws::actions(w, tries)
                == Seq::new(
                attempts.len(),
                |i: int| worker::ActionView::ReadCapabilities { idx },
            ) + seq![next.1]
        }),
{
    let tries = attempts.map_values(|said: Said| worker::EventView::Capabilities(said));
    let asks = Seq::new(attempts.len(), |i: int| worker::ActionView::ReadCapabilities { idx });
    let ask = worker::ActionView::ReadCapabilities { idx };
    if let Some(caps) = attempts.last() {
        transfer::law_every_listed_input_is_advertised(caps);
        assert(lists_input(attempts.last()) <==> transfer::advertised(caps) is Some);
    }
    if attempts.len() == 1 {
        assert(tries =~= seq![worker::EventView::Capabilities(attempts[0])]);
        lemma_one_event(w, tries[0]);
        assert(asks =~= seq![ask]);
    } else {
        assert(tries =~= seq![
            worker::EventView::Capabilities(attempts[0]),
            worker::EventView::Capabilities(attempts[1]),
        ]);
        lemma_two_events(w, tries[0], tries[1]);
        assert(asks =~= seq![ask, ask]);
        let told = w.after(tries[0]).0.after(tries[1]).1;
        assert(seq![ask] + seq![ask, told] =~= seq![ask, ask] + seq![told]);
    }
}

proof fn lemma_inputs_posted(w: worker::WorkerView, mid: worker::WorkerView, idx: int)
    requires
        mid == (worker::WorkerView { phase: worker::PhaseView::PostingInputs { idx }, ..w }),
    ensures
        worker_laws::worker_after(mid, seq![worker::EventView::Posted(true)])
            == w.capabilities_from(idx + 1).0,
        worker_laws::actions(mid, seq![worker::EventView::Posted(true)]) == seq![
            w.capabilities_from(idx + 1).1,
        ],
{
    lemma_one_event(mid, worker::EventView::Posted(true));
}

/// Asking a display for its inputs, from the first attempt on, which was asked for before.
proof fn lemma_caps_read(w: worker::WorkerView, idx: int, attempts: Seq<Said>)
    requires
        0 <= idx < w.displays,
        w.phase == (worker::PhaseView::ReadingCapabilities {
            idx,
            read: transfer::CapabilitiesRead::spec_new(),
        }),
        one_caps_read(attempts),
    ensures
        worker_laws::worker_after(w, caps_events(attempts)) == w.capabilities_from(idx + 1).0,
        seq![worker::ActionView::ReadCapabilities { idx }] + worker_laws::actions(
            w,
            caps_events(attempts),
        ) == caps_asks(idx, attempts) + seq![w.capabilities_from(idx + 1).1],
{
    let tries = attempts.map_values(|said: Said| worker::EventView::Capabilities(said));
    let asks = Seq::new(attempts.len(), |i: int| worker::ActionView::ReadCapabilities { idx });
    let first = seq![worker::ActionView::ReadCapabilities { idx }];
    let next = seq![w.capabilities_from(idx + 1).1];
    let a = worker_laws::actions(w, tries);
    lemma_caps_tries(w, idx, attempts);
    if lists_input(attempts.last()) {
        let mid = worker::WorkerView { phase: worker::PhaseView::PostingInputs { idx }, ..w };
        let posted = seq![worker::EventView::Posted(true)];
        let told = seq![
            worker::ActionView::Post(
                message::MsgView::Inputs {
                    idx,
                    inputs: transfer::advertised(attempts.last()->0)->0,
                },
            ),
        ];
        lemma_inputs_posted(w, mid, idx);
        lemma_in_steps(w, tries, posted);
        assert(first + (a + next) =~= (first + a) + next);
        assert(caps_asks(idx, attempts) == asks + told);
    } else {
        assert(caps_events(attempts) =~= tries);
        assert(caps_asks(idx, attempts) =~= asks);
    }
}

proof fn lemma_all_caps(w: worker::WorkerView, answers: Seq<Seq<Said>>)
    requires
        w.phase is PostingScan,
        answers.len() <= w.displays,
        forall|i: int| 0 <= i < answers.len() ==> one_caps_read(#[trigger] answers[i]),
    ensures
        ({
            let trace = seq![worker::EventView::Posted(true)] + all_caps_events(answers);
            let next = w.capabilities_from(answers.len() as int);
            &&& worker_laws::worker_after(w, trace) == next.0
            &&& worker_laws::actions(w, trace) == all_caps_asks(answers) + seq![next.1]
        }),
    decreases answers.len(),
{
    let first = seq![worker::EventView::Posted(true)];
    let trace = first + all_caps_events(answers);
    let next = w.capabilities_from(answers.len() as int);
    if answers.len() == 0 {
        assert(trace =~= first);
        lemma_one_event(w, first[0]);
        assert(worker_laws::actions(w, trace) =~= all_caps_asks(answers) + seq![next.1]);
    } else {
        let front = answers.drop_last();
        let n = front.len() as int;
        let last = answers.last();
        assert(forall|i: int| 0 <= i < front.len() ==> front[i] == #[trigger] answers[i]);
        assert(one_caps_read(answers[n]));
        lemma_all_caps(w, front);
        let before = first + all_caps_events(front);
        assert(trace =~= before + caps_events(last));
        lemma_in_steps(w, before, caps_events(last));
        let mid = w.capabilities_from(n);
        lemma_caps_read(mid.0, n, last);
        assert(mid.1 == worker::ActionView::ReadCapabilities { idx: n });
        assert(mid.0.capabilities_from(n + 1) == next);
        lemma_follow(
            all_caps_asks(front),
            seq![mid.1],
            worker_laws::actions(mid.0, caps_events(last)),
            caps_asks(n, last),
            seq![next.1],
        );
    }
}

/// A scan from its beginning to its end, for any displays and whatever they answer, as long as
/// the messages are delivered. First each display is read, one after the other, brightness,
/// contrast and input, with a second attempt where the first one fails. Then one message reports
/// all of them, with exactly what they have answered. Then each display is asked for its
/// capabilities, again with a second attempt, and its inputs are told if it lists any. A display
/// that lists none, or cannot be read, does not keep the next one from being asked. Then the
/// worker waits for commands.
pub proof fn law_whole_scan(
    w: worker::WorkerView,
    infos: Seq<monitor::DisplayInfoView>,
    values: Seq<ReadAnswers>,
    inputs: Seq<Seq<Said>>,
)
    requires
        w.phase is Enumerating,
        values.len() == infos.len(),
        inputs.len() == infos.len(),
        forall|i: int| 0 <= i < values.len() ==> full_read(#[trigger] values[i]),
        forall|i: int| 0 <= i < inputs.len() ==> one_caps_read(#[trigger] inputs[i]),
    ensures
        ({
            let trace = seq![worker::EventView::Enumerated(infos)] + all_reading_events(values)
                + seq![worker::EventView::Posted(true)] + all_caps_events(inputs);
            &&& worker_laws::actions(w, trace) == all_reading_asks(values) + seq![
                report(infos, values),
            ] + all_caps_asks(inputs) + seq![worker::ActionView::Receive]
            &&& worker_laws::worker_after(w, trace) == (worker::WorkerView {
                displays: infos.len(),
                phase: worker::PhaseView::Receiving,
            })
        }),
{
    let a = seq![worker::EventView::Enumerated(infos)] + all_reading_events(values);
    let b = seq![worker::EventView::Posted(true)] + all_caps_events(inputs);
    let trace = seq![worker::EventView::Enumerated(infos)] + all_reading_events(values) + seq![
        worker::EventView::Posted(true),
    ] + all_caps_events(inputs);
    assert(trace =~= a + b);
    lemma_probing(w, infos, values);
    let mid = worker_laws::worker_after(w, a);
    lemma_all_caps(mid, inputs);
    lemma_in_steps(w, a, b);
    assert(worker_laws::actions(w, trace) =~= all_reading_asks(values) + seq![
        report(infos, values),
    ] + all_caps_asks(inputs) + seq![worker::ActionView::Receive]);
}

/// What a display answers to a write: what came of it, and the attempts to read an input back.
pub struct WriteAnswer {
    pub written: transfer::WriteOutcomeView,
    pub read_back: Seq<transfer::ReadOutcomeView>,
}

/// Whether a write to the given feature is followed by a pause and a read.
pub open spec fn is_read_back(code: FeatureCode, answer: WriteAnswer) -> bool {
    code == 0x60 && answer.written is Written
}

/// What comes of a write: the write itself, the pause and the attempts to read an input back, and
/// the delivery of the result.
pub open spec fn write_events(code: FeatureCode, answer: WriteAnswer) -> Seq<worker::EventView> {
    seq![worker::EventView::Written(answer.written)] + (if is_read_back(code, answer) {
        seq![worker::EventView::Settled] + read_events(answer.read_back)
    } else {
        Seq::empty()
    }) + seq![worker::EventView::Posted(true)]
}

/// The message about a write: that it has failed, and why, or that it has succeeded, and for an
/// input what the monitor then reports, if that can be read.
pub open spec fn write_result(set: (int, FeatureCode, u16), answer: WriteAnswer)
    -> message::MsgView {
    let (idx, code, value) = set;
    match answer.written {
        transfer::WriteOutcomeView::Failed(err) => message::MsgView::SetErr {
            idx,
            code,
            value,
            err,
        },
        transfer::WriteOutcomeView::Panicked => message::MsgView::SetErr {
            idx,
            code,
            value,
            err: "DDC layer panicked"@,
        },
        transfer::WriteOutcomeView::Written => message::MsgView::SetOk {
            idx,
            code,
            value,
            readback: if code == 0x60 {
                match answer.read_back.last() {
                    transfer::ReadOutcomeView::Value(v) => Some(v.sl),
                    _ => None,
                }
            } else {
                None
            },
        },
    }
}

/// A write and all that it takes.
pub open spec fn write_asks(set: (int, FeatureCode, u16), answer: WriteAnswer) -> Seq<
    worker::ActionView,
> {
    seq![worker::ActionView::Write { idx: set.0, code: set.1, value: set.2 }] + (if is_read_back(
        set.1,
        answer,
    ) {
        seq![worker::ActionView::Settle] + read_asks(set.0, 0x60, answer.read_back.len())
    } else {
        Seq::empty()
    }) + seq![worker::ActionView::Post(write_result(set, answer))]
}

/// What comes of several writes, one after the other.
pub open spec fn all_write_events(
    sets: Seq<(int, FeatureCode, u16)>,
    answers: Seq<WriteAnswer>,
) -> Seq<worker::EventView>
    decreases sets.len(),
{
    if sets.len() == 0 {
        Seq::empty()
    } else {
        write_events(sets[0].1, answers[0]) + all_write_events(
            sets.drop_first(),
            answers.drop_first(),
        )
    }
}

/// Several writes and all that they take.
pub open spec fn all_write_asks(
    sets: Seq<(int, FeatureCode, u16)>,
    answers: Seq<WriteAnswer>,
) -> Seq<worker::ActionView>
    decreases sets.len(),
{
    if sets.len() == 0 {
        Seq::empty()
    } else {
        write_asks(sets[0], answers[0]) + all_write_asks(sets.drop_first(), answers.drop_first())
    }
}

/// What comes of reading displays again: their answers, and after each the delivery of what was
/// read.
pub open spec fn reload_run_events(answers: Seq<ReadAnswers>) -> Seq<worker::EventView>
    decreases answers.len(),
{
    if answers.len() == 0 {
        Seq::empty()
    } else {
        reload_run_events(answers.drop_last()) + reading_events(answers.last()) + seq![
            worker::EventView::Posted(true),
        ]
    }
}

/// The attempts to read displays again, and after each display the message with what it has
/// answered, and with nothing else.
pub open spec fn reload_run_asks(answers: Seq<ReadAnswers>) -> Seq<worker::ActionView>
    decreases answers.len(),
{
    if answers.len() == 0 {
        Seq::empty()
    } else {
        reload_run_asks(answers.drop_last()) + reading_asks(answers.len() - 1, answers.last())
            + seq![
            worker::ActionView::Post(
                message::MsgView::Reloaded {
                    idx: answers.len() - 1,
                    state: known_from(Seq::empty(), Seq::empty(), answers.last()),
                },
            ),
        ]
    }
}

/// Reading displays again, from the first attempt on, which was asked for before.
#[verifier::rlimit(40)]
proof fn lemma_reload_run(w: worker::WorkerView, answers: Seq<ReadAnswers>)
    requires
        answers.len() <= w.displays,
        forall|i: int| 0 <= i < answers.len() ==> full_read(#[trigger] answers[i]),
    ensures
        ({
            let start = w.reload_from(0);
            let next = w.reload_from(answers.len() as int);
            &&& worker_laws::worker_after(start.0, reload_run_events(answers)) == next.0
            &&& seq![start.1] + worker_laws::actions(start.0, reload_run_events(answers))
                == reload_run_asks(answers) + seq![next.1]
        }),
    decreases answers.len(),
{
    let start = w.reload_from(0);
    let next = w.reload_from(answers.len() as int);
    let trace = reload_run_events(answers);
    if answers.len() == 0 {
        assert(worker_laws::actions(start.0, trace) =~= Seq::empty());
        assert(seq![start.1] + worker_laws::actions(start.0, trace) =~= reload_run_asks(answers)
            + seq![next.1]);
    } else {
        let front = answers.drop_last();
        let n = front.len() as int;
        let last = answers.last();
        let posted = worker::EventView::Posted(true);
        assert(forall|i: int| 0 <= i < front.len() ==> front[i] == #[trigger] answers[i]);
        assert(full_read(answers[n]));
        lemma_reload_run(w, front);
        let before = reload_run_events(front);
        let mid = w.reload_from(n);
        lemma_in_steps(start.0, before, reading_events(last));
        lemma_in_steps(start.0, before + reading_events(last), seq![posted]);
        lemma_display_read(mid.0, mid.0.phase, last);
        lemma_known_from(monitor::MonitorView::unknown(), last);
        let read = worker_laws::worker_after(mid.0, reading_events(last));
        lemma_reload_next(w, read, n);
        let told = worker::ActionView::Post(
            message::MsgView::Reloaded {
                idx: n,
                state: known_from(Seq::empty(), Seq::empty(), last),
            },
        );
        let a = worker_laws::actions(start.0, before);
        let b = worker_laws::actions(mid.0, reading_events(last));
        let asks = reading_asks(n, last);
        lemma_join(seq![start.1], a, reload_run_asks(front), seq![mid.1], b, asks + seq![told]);
        lemma_regroup(reload_run_asks(front), asks, seq![told]);
        lemma_regroup(seq![start.1], a + b, seq![next.1]);
    }
}

proof fn lemma_reload_next(w: worker::WorkerView, read: worker::WorkerView, n: int)
    requires
        read == (worker::WorkerView { phase: worker::PhaseView::PostingReloaded { idx: n }, ..w }),
    ensures
        worker_laws::worker_after(read, seq![worker::EventView::Posted(true)]) == w.reload_from(
            n + 1,
        ).0,
        worker_laws::actions(read, seq![worker::EventView::Posted(true)]) == seq![
            w.reload_from(n + 1).1,
        ],
{
    lemma_one_event(read, worker::EventView::Posted(true));
}

/// Reading an input back, from the first attempt on, which was asked for before.
proof fn lemma_read_back(
    w: worker::WorkerView,
    sets: Seq<(usize, FeatureCode, u16)>,
    reload: bool,
    attempts: Seq<transfer::ReadOutcomeView>,
    told: worker::ActionView,
)
    requires
        sets.len() > 0,
        sets[0].1 == 0x60,
        w.phase == (worker::PhaseView::ReadingBack {
            sets,
            reload,
            read: transfer::VcpRead::spec_new(),
        }),
        one_read(attempts),
        told == worker::ActionView::Post(
            message::MsgView::SetOk {
                idx: sets[0].0 as int,
                code: 0x60,
                value: sets[0].2,
                readback: match attempts.last() {
                    transfer::ReadOutcomeView::Value(v) => Some(v.sl),
                    _ => None,
                },
            },
        ),
    ensures
        worker_laws::worker_after(w, read_events(attempts)) == (worker::WorkerView {
            phase: worker::PhaseView::PostingSet { sets: sets.drop_first(), reload },
            ..w
        }),
        seq![worker::ActionView::Read { idx: sets[0].0 as int, code: 0x60 }]
            + worker_laws::actions(w, read_events(attempts)) == read_asks(
            sets[0].0 as int,
            0x60,
            attempts.len(),
        ) + seq![told],
{
    let reads = read_events(attempts);
    let ask = worker::ActionView::Read { idx: sets[0].0 as int, code: 0x60 };
    lemma_asks(sets[0].0 as int, 0x60, attempts.len(), told);
    if attempts.len() == 1 {
        assert(reads =~= seq![worker::EventView::Read(attempts[0])]);
        lemma_one_event(w, reads[0]);
        assert(w.after(reads[0]).1 == told);
    } else {
        assert(reads =~= seq![
            worker::EventView::Read(attempts[0]),
            worker::EventView::Read(attempts[1]),
        ]);
        lemma_two_events(w, reads[0], reads[1]);
        assert(w.after(reads[0]).1 == ask);
        assert(w.after(reads[0]).0.after(reads[1]).1 == told);
    }
}

/// The pause after an input switch.
proof fn lemma_settle(
    w: worker::WorkerView,
    sets: Seq<(usize, FeatureCode, u16)>,
    reload: bool,
    answer: WriteAnswer,
)
    requires
        sets.len() > 0,
        w.phase == (worker::PhaseView::Writing { sets, reload }),
        is_read_back(sets[0].1, answer),
    ensures
        ({
            let events = seq![
                worker::EventView::Written(answer.written),
                worker::EventView::Settled,
            ];
            &&& worker_laws::worker_after(w, events) == (worker::WorkerView {
                phase: worker::PhaseView::ReadingBack {
                    sets,
                    reload,
                    read: transfer::VcpRead::spec_new(),
                },
                ..w
            })
            &&& worker_laws::actions(w, events) == seq![worker::ActionView::Settle] + seq![
                worker::ActionView::Read { idx: sets[0].0 as int, code: 0x60 },
            ]
        }),
{
    let written = worker::EventView::Written(answer.written);
    let ask = worker::ActionView::Read { idx: sets[0].0 as int, code: 0x60 };
    lemma_two_events(w, written, worker::EventView::Settled);
    assert(w.after(written).1 == worker::ActionView::Settle);
    assert(w.after(written).0.after(worker::EventView::Settled).1 == ask);
    assert(seq![worker::ActionView::Settle] + seq![ask] =~= seq![worker::ActionView::Settle, ask]);
}

/// An input switch of a batch, which was asked for before and has succeeded.
#[verifier::rlimit(40)]
proof fn lemma_switch_run(
    w: worker::WorkerView,
    sets: Seq<(usize, FeatureCode, u16)>,
    reload: bool,
    answer: WriteAnswer,
)
    requires
        sets.len() > 0,
        w.phase == (worker::PhaseView::Writing { sets, reload }),
        is_read_back(sets[0].1, answer),
        one_read(answer.read_back),
    ensures
        ({
            let set = (sets[0].0 as int, sets[0].1, sets[0].2);
            let events = seq![worker::EventView::Written(answer.written)] + (seq![
                worker::EventView::Settled,
            ] + read_events(answer.read_back));
            &&& worker_laws::worker_after(w, events) == (worker::WorkerView {
                phase: worker::PhaseView::PostingSet { sets: sets.drop_first(), reload },
                ..w
            })
            &&& worker_laws::actions(w, events) == (seq![worker::ActionView::Settle] + read_asks(
                set.0,
                0x60,
                answer.read_back.len(),
            )) + seq![worker::ActionView::Post(write_result(set, answer))]
        }),
{
    let set = (sets[0].0 as int, sets[0].1, sets[0].2);
    let written = worker::EventView::Written(answer.written);
    let settled = worker::EventView::Settled;
    let reads = read_events(answer.read_back);
    let told = worker::ActionView::Post(write_result(set, answer));
    let mid = worker::WorkerView {
        phase: worker::PhaseView::ReadingBack {
            sets,
            reload,
            read: transfer::VcpRead::spec_new(),
        },
        ..w
    };
    lemma_settle(w, sets, reload, answer);
    lemma_in_steps(w, seq![written, settled], reads);
    lemma_read_back(mid, sets, reload, answer.read_back, told);
    assert(seq![written, settled] + reads =~= seq![written] + (seq![settled] + reads));
    lemma_follow(
        seq![worker::ActionView::Settle],
        seq![worker::ActionView::Read { idx: set.0, code: 0x60 }],
        worker_laws::actions(mid, reads),
        read_asks(set.0, 0x60, answer.read_back.len()),
        seq![told],
    );
}

/// One write of a batch, which was asked for before.
#[verifier::rlimit(40)]
proof fn lemma_write_run(
    w: worker::WorkerView,
    sets: Seq<(usize, FeatureCode, u16)>,
    reload: bool,
    answer: WriteAnswer,
)
    requires
        sets.len() > 0,
        w.phase == (worker::PhaseView::Writing { sets, reload }),
        is_read_back(sets[0].1, answer) ==> one_read(answer.read_back),
    ensures
        ({
            let set = (sets[0].0 as int, sets[0].1, sets[0].2);
            let next = w.batch_from(sets.drop_first(), reload);
            &&& worker_laws::worker_after(w, write_events(set.1, answer)) == next.0
            &&& seq![worker::ActionView::Write { idx: set.0, code: set.1, value: set.2 }]
                + worker_laws::actions(w, write_events(set.1, answer)) == write_asks(set, answer)
                + seq![next.1]
        }),
{
    let set = (sets[0].0 as int, sets[0].1, sets[0].2);
    let written = seq![worker::EventView::Written(answer.written)];
    let posted = seq![worker::EventView::Posted(true)];
    let told = seq![worker::ActionView::Post(write_result(set, answer))];
    let first = seq![worker::ActionView::Write { idx: set.0, code: set.1, value: set.2 }];
    let back = worker::WorkerView {
        phase: worker::PhaseView::PostingSet { sets: sets.drop_first(), reload },
        ..w
    };
    lemma_set_posted(w, back, sets.drop_first(), reload);
    let next = seq![w.batch_from(sets.drop_first(), reload).1];
    if is_read_back(set.1, answer) {
        let between = seq![worker::EventView::Settled] + read_events(answer.read_back);
        let asks = seq![worker::ActionView::Settle] + read_asks(
            set.0,
            0x60,
            answer.read_back.len(),
        );
        lemma_switch_run(w, sets, reload, answer);
        lemma_in_steps(w, written + between, posted);
        assert(write_events(set.1, answer) == (written + between) + posted);
        assert(write_asks(set, answer) == (first + asks) + told);
        lemma_regroup(first, asks, told);
        lemma_regroup(first, asks + told, next);
    } else {
        let nothing = Seq::<worker::ActionView>::empty();
        lemma_written(w, back, sets, reload, answer);
        lemma_in_steps(w, written, posted);
        assert(written + Seq::<worker::EventView>::empty() =~= written);
        assert(write_events(set.1, answer) == written + posted);
        assert(first + nothing =~= first);
        assert(write_asks(set, answer) == first + told);
        lemma_regroup(first, told, next);
    }
}

proof fn lemma_set_posted(
    w: worker::WorkerView,
    back: worker::WorkerView,
    sets: Seq<(usize, FeatureCode, u16)>,
    reload: bool,
)
    requires
        back == (worker::WorkerView { phase: worker::PhaseView::PostingSet { sets, reload }, ..w }),
    ensures
        worker_laws::worker_after(back, seq![worker::EventView::Posted(true)]) == w.batch_from(
            sets,
            reload,
        ).0,
        worker_laws::actions(back, seq![worker::EventView::Posted(true)]) == seq![
            w.batch_from(sets, reload).1,
        ],
{
    lemma_one_event(back, worker::EventView::Posted(true));
}

proof fn lemma_written(
    w: worker::WorkerView,
    back: worker::WorkerView,
    sets: Seq<(usize, FeatureCode, u16)>,
    reload: bool,
    answer: WriteAnswer,
)
    requires
        sets.len() > 0,
        w.phase == (worker::PhaseView::Writing { sets, reload }),
        !is_read_back(sets[0].1, answer),
        back == (worker::WorkerView {
            phase: worker::PhaseView::PostingSet { sets: sets.drop_first(), reload },
            ..w
        }),
    ensures
        worker_laws::worker_after(w, seq![worker::EventView::Written(answer.written)]) == back,
        worker_laws::actions(w, seq![worker::EventView::Written(answer.written)]) == seq![
            worker::ActionView::Post(
                write_result((sets[0].0 as int, sets[0].1, sets[0].2), answer),
            ),
        ],
{
    lemma_one_event(w, worker::EventView::Written(answer.written));
}

proof fn lemma_writes_run(
    w: worker::WorkerView,
    sets: Seq<(usize, FeatureCode, u16)>,
    reload: bool,
    answers: Seq<WriteAnswer>,
)
    requires
        answers.len() == sets.len(),
        forall|i: int|
            0 <= i < answers.len() ==> is_read_back(sets[i].1, #[trigger] answers[i]) ==> one_read(
                answers[i].read_back,
            ),
    ensures
        ({
            let start = w.batch_from(sets, reload);
            let next = w.batch_from(Seq::empty(), reload);
            let all = worker_laws::as_writes(sets);
            &&& worker_laws::worker_after(start.0, all_write_events(all, answers)) == next.0
            &&& seq![start.1] + worker_laws::actions(start.0, all_write_events(all, answers))
                == all_write_asks(all, answers) + seq![next.1]
        }),
    decreases sets.len(),
{
    let start = w.batch_from(sets, reload);
    let next = w.batch_from(Seq::empty(), reload);
    let all = worker_laws::as_writes(sets);
    let trace = all_write_events(all, answers);
    if sets.len() == 0 {
        assert(sets =~= Seq::empty());
        assert(worker_laws::actions(start.0, trace) =~= Seq::empty());
        assert(seq![start.1] + worker_laws::actions(start.0, trace) =~= all_write_asks(all, answers)
            + seq![next.1]);
    } else {
        let rest = sets.drop_first();
        let more = answers.drop_first();
        assert(worker_laws::as_writes(rest) =~= all.drop_first());
        assert forall|i: int| 0 <= i < more.len() implies is_read_back(
            rest[i].1,
            #[trigger] more[i],
        ) ==> one_read(more[i].read_back) by {
            assert(more[i] == answers[i + 1]);
            assert(rest[i] == sets[i + 1]);
        }
        assert(is_read_back(sets[0].1, answers[0]) ==> one_read(answers[0].read_back));
        let one = write_events(sets[0].1, answers[0]);
        let others = all_write_events(all.drop_first(), more);
        let mid = w.batch_from(rest, reload);
        lemma_write_run(start.0, sets, reload, answers[0]);
        assert(start.0.batch_from(rest, reload) == mid);
        lemma_writes_run(w, rest, reload, more);
        lemma_in_steps(start.0, one, others);
        assert(trace == one + others);
        let asks = write_asks(all[0], answers[0]);
        let tail = all_write_asks(all.drop_first(), more);
        lemma_join(
            seq![start.1],
            worker_laws::actions(start.0, one),
            asks,
            seq![mid.1],
            worker_laws::actions(mid.0, others),
            tail + seq![next.1],
        );
        assert(asks + (tail + seq![next.1]) =~= (asks + tail) + seq![next.1]);
    }
}

/// Whether the given writes are what the commands call for: for each control of a display that
/// there is, the value in the last command about it, whatever the control and whatever the value,
/// and nothing else. No control is written twice, and a control that is written before another
/// was mentioned before it.
pub open spec fn called_for(
    sets: Seq<(int, FeatureCode, u16)>,
    cmds: Seq<Cmd>,
    displays: nat,
) -> bool {
    &&& forall|n: int|
        0 <= n < cmds.len() ==> (#[trigger] cmds[n] matches Cmd::SetFeature { idx, code, value }
            ==> idx < displays ==> (forall|m: int|
            n < m < cmds.len() ==> !message::sets_control(#[trigger] cmds[m], idx, code))
            ==> sets.contains((idx as int, code, value)))
    &&& forall|i: int|
        0 <= i < sets.len() ==> {
            let (idx, code, value) = #[trigger] sets[i];
            &&& 0 <= idx < displays
            &&& exists|n: int|
                0 <= n < cmds.len() && (#[trigger] cmds[n] matches Cmd::SetFeature {
                    idx: k,
                    code: c,
                    value: v,
                } && k == idx && c == code && v == value && forall|m: int|
                    n < m < cmds.len() ==> !message::sets_control(#[trigger] cmds[m], k, c))
        }
    &&& forall|i: int, j: int|
        0 <= i < j < sets.len() ==> {
            let a = #[trigger] sets[i];
            let b = #[trigger] sets[j];
            &&& a.0 != b.0 || a.1 != b.1
            &&& exists|n: int|
                0 <= n < cmds.len() && message::sets_control(#[trigger] cmds[n], a.0 as usize, a.1)
                    && forall|m: int|
                    0 <= m <= n ==> !message::sets_control(#[trigger] cmds[m], b.0 as usize, b.1)
        }
}

/// Of all sets those are due that refer to one of the displays, in their order.
proof fn lemma_due(sets: Seq<(usize, FeatureCode, u16)>, displays: nat)
    ensures
        forall|i: int|
            0 <= i < sets.len() && (#[trigger] sets[i]).0 < displays ==> worker::due(
                sets,
                displays,
            ).contains(sets[i]),
        forall|i: int|
            0 <= i < worker::due(sets, displays).len() ==> (#[trigger] worker::due(
                sets,
                displays,
            )[i]).0 < displays && sets.contains(worker::due(sets, displays)[i]),
        forall|i: int, j: int|
            0 <= i < j < worker::due(sets, displays).len() ==> exists|p: int, q: int|
                0 <= p < q < sets.len() && #[trigger] sets[p] == (#[trigger] worker::due(
                    sets,
                    displays,
                )[i]) && #[trigger] sets[q] == (#[trigger] worker::due(sets, displays)[j]),
    decreases sets.len(),
{
    reveal(Seq::filter);
    if sets.len() > 0 {
        let front = sets.drop_last();
        let shorter = worker::due(front, displays);
        let longer = worker::due(sets, displays);
        lemma_due(front, displays);
        assert(sets[sets.len() - 1] == sets.last());
        assert(forall|i: int| 0 <= i < front.len() ==> front[i] == #[trigger] sets[i]);
        assert(longer == if sets.last().0 < displays {
            shorter.push(sets.last())
        } else {
            shorter
        });
        assert forall|i: int| 0 <= i < sets.len() && (#[trigger] sets[i]).0
            < displays implies longer.contains(sets[i]) by {
            if i < front.len() {
                assert(front[i].0 < displays);
                let k = shorter.index_of(sets[i]);
                assert(longer[k] == sets[i]);
            } else {
                assert(longer[longer.len() - 1] == sets[i]);
            }
        }
        assert forall|i: int| 0 <= i < longer.len() implies (#[trigger] longer[i]).0 < displays
            && sets.contains(longer[i]) by {
            if i < shorter.len() {
                assert(longer[i] == shorter[i]);
                let k = front.index_of(shorter[i]);
                assert(sets[k] == longer[i]);
            } else {
                assert(sets[sets.len() - 1] == longer[i]);
            }
        }
        assert forall|i: int, j: int| 0 <= i < j < longer.len() implies exists|p: int, q: int|
            0 <= p < q < sets.len() && #[trigger] sets[p] == (#[trigger] longer[i])
                && #[trigger] sets[q] == (#[trigger] longer[j]) by {
            assert(longer[i] == shorter[i]);
            if j < shorter.len() {
                assert(longer[j] == shorter[j]);
                let (p, q) = choose|p: int, q: int|
                    0 <= p < q < front.len() && #[trigger] front[p] == shorter[i]
                        && #[trigger] front[q] == shorter[j];
                assert(sets[p] == longer[i] && sets[q] == longer[j]);
            } else {
                assert(front.contains(shorter[i]));
                let p = front.index_of(shorter[i]);
                let q = sets.len() - 1;
                assert(sets[p] == longer[i] && sets[q] == longer[j]);
            }
        }
    }
}

/// The writes of a batch are what its commands call for.
pub proof fn law_writes_are_called_for(cmds: Seq<Cmd>, displays: nat)
    ensures
        called_for(worker_laws::writes_due(cmds, displays), cmds, displays),
{
    let all = message::coalesced(cmds);
    let known = worker::due(all, displays);
    let sets = worker_laws::writes_due(cmds, displays);
    message::law_last_command_counts(cmds);
    lemma_due(all, displays);
    assert(forall|i: int|
        0 <= i < known.len() ==> #[trigger] sets[i] == (known[i].0 as int, known[i].1, known[i].2));
    assert forall|n: int| 0 <= n < cmds.len() implies (#[trigger] cmds[n] matches Cmd::SetFeature {
        idx,
        code,
        value,
    } ==> idx < displays ==> (forall|m: int|
        n < m < cmds.len() ==> !message::sets_control(#[trigger] cmds[m], idx, code))
        ==> sets.contains((idx as int, code, value))) by {
        if let Cmd::SetFeature { idx, code, value } = cmds[n] {
            if idx < displays && forall|m: int|
                n < m < cmds.len() ==> !message::sets_control(#[trigger] cmds[m], idx, code) {
                assert(all.contains((idx, code, value)));
                let i = all.index_of((idx, code, value));
                assert(all[i].0 < displays);
                assert(known.contains(all[i]));
                let k = known.index_of(all[i]);
                assert(sets[k] == (idx as int, code, value));
            }
        }
    }
    assert forall|i: int| 0 <= i < sets.len() implies {
        let (idx, code, value) = #[trigger] sets[i];
        &&& 0 <= idx < displays
        &&& exists|n: int|
            0 <= n < cmds.len() && (#[trigger] cmds[n] matches Cmd::SetFeature {
                idx: k,
                code: c,
                value: v,
            } && k == idx && c == code && v == value && forall|m: int|
                n < m < cmds.len() ==> !message::sets_control(#[trigger] cmds[m], k, c))
    } by {
        let (idx, code, value) = known[i];
        assert(all.contains(known[i]));
        let k = all.index_of(known[i]);
        assert(all[k] == (idx, code, value));
        let n = choose|n: int|
            0 <= n < cmds.len() && #[trigger] cmds[n] == (Cmd::SetFeature { idx, code, value })
                && forall|m: int|
                n < m < cmds.len() ==> !message::sets_control(#[trigger] cmds[m], idx, code);
        assert(cmds[n] == (Cmd::SetFeature { idx, code, value }));
    }
    assert forall|i: int, j: int| 0 <= i < j < sets.len() implies {
        let a = #[trigger] sets[i];
        let b = #[trigger] sets[j];
        &&& a.0 != b.0 || a.1 != b.1
        &&& exists|n: int|
            0 <= n < cmds.len() && message::sets_control(#[trigger] cmds[n], a.0 as usize, a.1)
                && forall|m: int|
                0 <= m <= n ==> !message::sets_control(#[trigger] cmds[m], b.0 as usize, b.1)
    } by {
        let a = known[i];
        let b = known[j];
        let (p, q) = choose|p: int, q: int|
            0 <= p < q < all.len() && #[trigger] all[p] == a && #[trigger] all[q] == b;
        assert(all[p] == a && all[q] == b);
        let n = choose|n: int|
            0 <= n < cmds.len() && message::sets_control(#[trigger] cmds[n], a.0, a.1)
                && forall|m: int|
                0 <= m <= n ==> !message::sets_control(#[trigger] cmds[m], b.0, b.1);
        assert(message::sets_control(cmds[n], a.0, a.1));
    }
}

/// Whether the command at `m` is the last one about the given control.
pub open spec fn last_about(cmds: Seq<Cmd>, m: int, idx: usize, code: FeatureCode) -> bool {
    &&& 0 <= m < cmds.len()
    &&& message::sets_control(cmds[m], idx, code)
    &&& forall|k: int| m < k < cmds.len() ==> !message::sets_control(#[trigger] cmds[k], idx, code)
}

/// Where some command is about a control, one is the last to be.
proof fn lemma_some_last(cmds: Seq<Cmd>, n: int, idx: usize, code: FeatureCode)
    requires
        0 <= n < cmds.len(),
        message::sets_control(cmds[n], idx, code),
    ensures
        exists|m: int| n <= m && #[trigger] last_about(cmds, m, idx, code),
    decreases cmds.len() - n,
{
    if !last_about(cmds, n, idx, code) {
        let m = choose|m: int|
            n < m < cmds.len() && message::sets_control(#[trigger] cmds[m], idx, code);
        lemma_some_last(cmds, m, idx, code);
    }
}

/// Once the worker is back at waiting for commands, each control that a command was about is
/// written, if there is such a display, to the value in the last command about it, whatever that
/// is; the result of the write is reported; and nothing else is written. After that every display
/// is reported, from the first to the last, if the values were to be read again, and else none.
pub proof fn law_every_control_is_written(
    w: worker::WorkerView,
    cmds: Seq<Cmd>,
    events: Seq<worker::EventView>,
)
    requires
        w.wf(),
        w.phase is Receiving,
        !cmds.contains(Cmd::Rescan),
        forall|i: int| 0 <= i < events.len() ==> (#[trigger] events[i]) !is Commands,
        worker_laws::worker_after(w, worker_laws::batch_events(cmds, events)).phase is Receiving,
    ensures
        ({
            let done = worker_laws::actions(w, worker_laws::batch_events(cmds, events));
            let written = worker_laws::writes(done);
            &&& forall|n: int|
                0 <= n < cmds.len() ==> (#[trigger] cmds[n] matches Cmd::SetFeature {
                    idx,
                    code,
                    ..
                } ==> idx < w.displays ==> exists|m: int|
                    n <= m && #[trigger] last_about(cmds, m, idx, code) && written.contains(
                        (idx as int, code, cmds[m]->value),
                    ))
            &&& called_for(written, cmds, w.displays)
            &&& worker_laws::answers(done) == written
            &&& cmds.contains(Cmd::Reload) ==> worker_laws::reloads(done).len() == w.displays
                && forall|i: int|
                0 <= i < w.displays ==> #[trigger] worker_laws::reloads(done)[i] == i
            &&& !cmds.contains(Cmd::Reload) ==> worker_laws::reloads(done).len() == 0
        }),
{
    worker_laws::law_batch_is_worked_off(w, cmds, events);
    law_writes_are_called_for(cmds, w.displays);
    let done = worker_laws::actions(w, worker_laws::batch_events(cmds, events));
    let written = worker_laws::writes(done);
    assert forall|n: int| 0 <= n < cmds.len() implies (#[trigger] cmds[n] matches Cmd::SetFeature {
        idx,
        code,
        ..
    } ==> idx < w.displays ==> exists|m: int|
        n <= m && #[trigger] last_about(cmds, m, idx, code) && written.contains(
            (idx as int, code, cmds[m]->value),
        )) by {
        if let Cmd::SetFeature { idx, code, value } = cmds[n] {
            if idx < w.displays {
                lemma_some_last(cmds, n, idx, code);
                let m = choose|m: int| n <= m && #[trigger] last_about(cmds, m, idx, code);
                assert(cmds[m] == (Cmd::SetFeature { idx, code, value: cmds[m]->value }));
            }
        }
    }
}

/// A batch from its beginning to its end, for any commands without a rescan and whatever the
/// displays answer, as long as the messages are delivered: the writes that the commands call for,
/// one after the other, each with its result, an input switch with a pause and a read in between;
/// then, if the values were to be read again, each display with what it has answered; then the
/// worker waits for commands.
pub proof fn law_whole_batch(
    w: worker::WorkerView,
    cmds: Seq<Cmd>,
    answers: Seq<WriteAnswer>,
    values: Seq<ReadAnswers>,
)
    requires
        w.phase is Receiving,
        !cmds.contains(Cmd::Rescan),
        answers.len() == worker_laws::writes_due(cmds, w.displays).len(),
        forall|i: int|
            0 <= i < answers.len() ==> is_read_back(
                worker_laws::writes_due(cmds, w.displays)[i].1,
                #[trigger] answers[i],
            ) ==> one_read(answers[i].read_back),
        values.len() == if cmds.contains(Cmd::Reload) {
            w.displays
        } else {
            0
        },
        forall|i: int| 0 <= i < values.len() ==> full_read(#[trigger] values[i]),
    ensures
        ({
            let sets = worker_laws::writes_due(cmds, w.displays);
            let trace = seq![worker::EventView::Commands(cmds)] + all_write_events(sets, answers)
                + reload_run_events(values);
            &&& called_for(sets, cmds, w.displays)
            &&& worker_laws::actions(w, trace) == all_write_asks(sets, answers) + reload_run_asks(
                values,
            ) + seq![worker::ActionView::Receive]
            &&& worker_laws::worker_after(w, trace) == w
        }),
{
    let due = worker::due(message::coalesced(cmds), w.displays);
    let sets = worker_laws::writes_due(cmds, w.displays);
    let reload = cmds.contains(Cmd::Reload);
    let a = seq![worker::EventView::Commands(cmds)];
    let b = all_write_events(sets, answers);
    let c = reload_run_events(values);
    law_writes_are_called_for(cmds, w.displays);
    assert forall|i: int| 0 <= i < answers.len() implies is_read_back(
        due[i].1,
        #[trigger] answers[i],
    ) ==> one_read(answers[i].read_back) by {
        assert(sets[i].1 == due[i].1);
    }
    let start = w.batch_from(due, reload);
    let mid = w.batch_from(Seq::empty(), reload);
    lemma_one_event(w, a[0]);
    assert(w.after(a[0]) == start);
    lemma_writes_run(w, due, reload, answers);
    lemma_in_steps(w, a, b);
    lemma_in_steps(w, a + b, c);
    let asks = all_write_asks(sets, answers);
    let before = worker_laws::actions(w, a + b);
    assert(before == asks + seq![mid.1]);
    let rest = worker_laws::actions(mid.0, c);
    let none = Seq::<worker::ActionView>::empty();
    let tail = reload_run_asks(values) + seq![worker::ActionView::Receive];
    assert(w.receive().0 == w);
    if reload {
        lemma_reload_run(w, values);
        assert(w.reload_from(w.displays as int) == w.receive());
    } else {
        assert(c =~= Seq::empty());
        assert(rest =~= none);
        assert(seq![mid.1] + rest =~= tail);
    }
    assert(none + before =~= before);
    lemma_join(none, before, asks, seq![mid.1], rest, tail);
    assert(none + (before + rest) =~= before + rest);
    assert(asks + tail =~= asks + reload_run_asks(values) + seq![worker::ActionView::Receive]);
}

/// Whether an event can be the outcome of an action.
pub open spec fn is_outcome(event: worker::EventView, action: worker::ActionView) -> bool {
    match action {
        worker::ActionView::Enumerate => event is Enumerated,
        worker::ActionView::Read { .. } => event is Read,
        worker::ActionView::ReadCapabilities { .. } => event is Capabilities,
        worker::ActionView::Write { .. } => event is Written,
        worker::ActionView::Settle => event is Settled,
        worker::ActionView::Post(_) => event is Posted,
        worker::ActionView::Receive => event is Commands || event is Closed,
        worker::ActionView::Stop => false,
    }
}

/// The worker ends exactly if no command will come any more, or if the result of a write or the
/// values of a reload cannot be delivered. No failure of a display, and no message of a scan that
/// is not delivered, ends it.
pub proof fn law_when_the_worker_ends(
    w: worker::WorkerView,
    event: worker::EventView,
    outcome: worker::EventView,
)
    requires
        w.wf(),
        is_outcome(outcome, w.after(event).1),
    ensures
        w.after(event).0.after(outcome).1 is Stop <==> {
            ||| outcome is Closed
            ||| outcome == worker::EventView::Posted(false) && (w.after(
                event,
            ).1 matches worker::ActionView::Post(msg) && (msg is SetOk || msg is SetErr
                || msg is Reloaded))
        },
        w.after(event).1 is Post && outcome == worker::EventView::Posted(false) ==> w.after(
            event,
        ).0.after(outcome).1 is Stop || w.after(event).0.after(outcome).1 is Receive,
        worker::WorkerView::start().after(event).1 is Stop <==> event !is Enumerated,
{
}

/// Each action is what the worker wants done after the event at the same place.
proof fn lemma_action_at(w: worker::WorkerView, events: Seq<worker::EventView>, p: int)
    requires
        0 <= p < events.len(),
    ensures
        worker_laws::actions(w, events).len() == events.len(),
        worker_laws::actions(w, events)[p] == worker_laws::worker_after(w, events.take(p)).after(
            events[p],
        ).1,
        worker_laws::worker_after(w, events.take(p + 1)) == worker_laws::worker_after(
            w,
            events.take(p),
        ).after(events[p]).0,
    decreases events.len(),
{
    let front = events.drop_last();
    assert(events.take(p + 1).drop_last() =~= events.take(p));
    if p < front.len() {
        lemma_action_at(w, front, p);
        assert(front.take(p) =~= events.take(p));
    } else {
        assert(events.take(p) =~= front);
        lemma_actions_len(w, front);
    }
    lemma_actions_len(w, events);
}

proof fn lemma_actions_len(w: worker::WorkerView, events: Seq<worker::EventView>)
    ensures
        worker_laws::actions(w, events).len() == events.len(),
    decreases events.len(),
{
    if events.len() > 0 {
        lemma_actions_len(w, events.drop_last());
    }
}

/// Whether the inputs of display `idx` are told with the given code among them.
pub open spec fn tells_input(action: worker::ActionView, idx: int, code: u8) -> bool {
    action matches worker::ActionView::Post(message::MsgView::Inputs { idx: k, inputs }) && k == idx
        && exists|i: int| 0 <= i < inputs.len() && (#[trigger] inputs[i]).code == code
}

/// A display that is asked for its capabilities and lists an input has its inputs told next.
proof fn lemma_listed_inputs_are_told(
    w: worker::WorkerView,
    event: worker::EventView,
    idx: int,
    caps: Map<u8, Map<u8, Option<Seq<char>>>>,
    code: u8,
)
    requires
        w.after(event).1 == (worker::ActionView::ReadCapabilities { idx }),
        caps.contains_key(0x60),
        caps[0x60].contains_key(code),
    ensures
        tells_input(
            w.after(event).0.after(worker::EventView::Capabilities(Some(caps))).1,
            idx,
            code,
        ),
{
    transfer::law_every_listed_input_is_advertised(caps);
    let inputs = transfer::advertised(caps)->0;
    let i = choose|i: int| 0 <= i < inputs.len() && (#[trigger] inputs[i]).code == code;
    let told = worker::ActionView::Post(message::MsgView::Inputs { idx, inputs });
    assert(told->Post_0->Inputs_inputs[i].code == code);
    assert(tells_input(told, idx, code));
    let next = w.after(event).0;
    assert(next.phase matches worker::PhaseView::ReadingCapabilities { idx: k, .. } && k == idx);
    assert(next.after(worker::EventView::Capabilities(Some(caps))).1 == told);
}

/// Inputs are told only of a display that was just asked, and only those that it lists.
proof fn lemma_told_inputs_are_listed(
    w: worker::WorkerView,
    event: worker::EventView,
    outcome: worker::EventView,
    idx: int,
    code: u8,
)
    requires
        tells_input(w.after(event).0.after(outcome).1, idx, code),
    ensures
        w.after(event).1 == (worker::ActionView::ReadCapabilities { idx }),
        outcome matches worker::EventView::Capabilities(Some(caps)) && caps.contains_key(0x60)
            && caps[0x60].contains_key(code),
{
    let next = w.after(event).0;
    worker_laws::law_inputs_follow_the_scan(next, outcome);
    if let worker::EventView::Capabilities(Some(caps)) = outcome {
        transfer::law_every_listed_input_is_advertised(caps);
    }
    assert(next.phase matches worker::PhaseView::ReadingCapabilities { idx: k, .. } && k == idx);
}

/// Whether the displays below `bound` have been asked for their capabilities.
pub open spec fn asked_below(done: Seq<worker::ActionView>, bound: int) -> bool {
    forall|idx: int|
        0 <= idx < bound ==> #[trigger] done.contains(worker::ActionView::ReadCapabilities { idx })
}

spec fn asked_so_far(w: worker::WorkerView, done: Seq<worker::ActionView>) -> bool {
    match w.phase {
        worker::PhaseView::ReadingCapabilities { idx, .. } => asked_below(done, idx + 1),
        worker::PhaseView::PostingInputs { idx } => asked_below(done, idx + 1),
        worker::PhaseView::Receiving => asked_below(done, w.displays as int),
        _ => true,
    }
}

proof fn lemma_asked_more(done: Seq<worker::ActionView>, action: worker::ActionView, bound: int)
    requires
        asked_below(done, bound),
    ensures
        asked_below(done.push(action), bound),
        action == (worker::ActionView::ReadCapabilities { idx: bound }) ==> asked_below(
            done.push(action),
            bound + 1,
        ),
{
    let more = done.push(action);
    assert forall|idx: int| 0 <= idx < bound implies #[trigger] more.contains(
        worker::ActionView::ReadCapabilities { idx },
    ) by {
        let ask = worker::ActionView::ReadCapabilities { idx };
        assert(done.contains(ask));
        let i = done.index_of(ask);
        assert(more[i] == ask);
    }
    assert(more[done.len() as int] == action);
}

proof fn lemma_asked(
    w: worker::WorkerView,
    infos: Seq<monitor::DisplayInfoView>,
    events: Seq<worker::EventView>,
)
    requires
        w.phase is Enumerating,
        forall|i: int| 0 <= i < events.len() ==> (#[trigger] events[i]) !is Commands,
        forall|i: int|
            0 <= i < events.len() ==> #[trigger] events[i] != worker::EventView::Posted(false),
    ensures
        asked_so_far(
            worker_laws::worker_after(w, worker_laws::scan_events(infos, events)),
            worker_laws::actions(w, worker_laws::scan_events(infos, events)),
        ),
    decreases events.len(),
{
    let trace = worker_laws::scan_events(infos, events);
    let front = trace.drop_last();
    let mid = worker_laws::worker_after(w, front);
    let before = worker_laws::actions(w, front);
    let (end, action) = mid.after(trace.last());
    let done = worker_laws::actions(w, trace);
    assert(done == before.push(action));
    if events.len() == 0 {
        assert(front =~= Seq::empty());
    } else {
        let fewer = events.drop_last();
        assert(front =~= worker_laws::scan_events(infos, fewer));
        assert(trace.last() == events.last());
        assert(events[events.len() - 1] != worker::EventView::Posted(false));
        lemma_asked(w, infos, fewer);
        worker_laws::lemma_scan(w, infos, fewer);
        match mid.phase {
            worker::PhaseView::PostingScan => {
                lemma_asked_more(before, action, 0);
            },
            worker::PhaseView::ReadingCapabilities { idx, .. } => {
                lemma_asked_more(before, action, idx + 1);
            },
            worker::PhaseView::PostingInputs { idx } => {
                lemma_asked_more(before, action, idx + 1);
            },
            _ => {},
        }
    }
}

/// A scan whose messages are delivered asks every display for its capabilities before it waits
/// for commands, whatever the others have answered; and whenever a display that was asked lists an
/// input, its inputs are told at once: each code that it lists and no other.
pub proof fn law_every_display_is_asked(
    w: worker::WorkerView,
    infos: Seq<monitor::DisplayInfoView>,
    events: Seq<worker::EventView>,
)
    requires
        w.phase is Enumerating,
        forall|i: int| 0 <= i < events.len() ==> (#[trigger] events[i]) !is Commands,
        forall|i: int|
            0 <= i < events.len() ==> #[trigger] events[i] != worker::EventView::Posted(false),
        worker_laws::worker_after(w, worker_laws::scan_events(infos, events)).phase is Receiving,
    ensures
        ({
            let done = worker_laws::actions(w, worker_laws::scan_events(infos, events));
            &&& forall|idx: int|
                0 <= idx < infos.len() ==> #[trigger] done.contains(
                    worker::ActionView::ReadCapabilities { idx },
                )
            &&& forall|p: int, idx: int, code: u8|
                0 <= p < events.len() ==> (#[trigger] tells_input(done[p + 1], idx, code) <==> {
                    &&& done[p] == worker::ActionView::ReadCapabilities { idx }
                    &&& events[p] matches worker::EventView::Capabilities(Some(caps))
                    &&& caps.contains_key(0x60)
                    &&& caps[0x60].contains_key(code)
                })
        }),
{
    let trace = worker_laws::scan_events(infos, events);
    let done = worker_laws::actions(w, trace);
    lemma_asked(w, infos, events);
    worker_laws::lemma_scan(w, infos, events);
    assert forall|p: int, idx: int, code: u8| 0 <= p < events.len() implies (
    #[trigger] tells_input(done[p + 1], idx, code) <==> {
        &&& done[p] == worker::ActionView::ReadCapabilities { idx }
        &&& events[p] matches worker::EventView::Capabilities(Some(caps))
        &&& caps.contains_key(0x60)
        &&& caps[0x60].contains_key(code)
    }) by {
        assert(trace[p + 1] == events[p]);
        lemma_told(w, trace, p, idx, code);
    }
}

proof fn lemma_told(
    w: worker::WorkerView,
    trace: Seq<worker::EventView>,
    p: int,
    idx: int,
    code: u8,
)
    requires
        0 <= p < trace.len() - 1,
    ensures
        tells_input(worker_laws::actions(w, trace)[p + 1], idx, code) <==> {
            &&& worker_laws::actions(w, trace)[p] == worker::ActionView::ReadCapabilities { idx }
            &&& trace[p + 1] matches worker::EventView::Capabilities(Some(caps))
            &&& caps.contains_key(0x60)
            &&& caps[0x60].contains_key(code)
        },
{
    let before = worker_laws::worker_after(w, trace.take(p));
    lemma_action_at(w, trace, p);
    lemma_action_at(w, trace, p + 1);
    if tells_input(worker_laws::actions(w, trace)[p + 1], idx, code) {
        lemma_told_inputs_are_listed(before, trace[p], trace[p + 1], idx, code);
    } else if worker_laws::actions(w, trace)[p] == (worker::ActionView::ReadCapabilities { idx }) {
        if let worker::EventView::Capabilities(Some(caps)) = trace[p + 1] {
            if caps.contains_key(0x60) && caps[0x60].contains_key(code) {
                lemma_listed_inputs_are_told(before, trace[p], idx, caps, code);
            }
        }
    }
}

} // verus!
