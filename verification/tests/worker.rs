use std::collections::BTreeMap;

use ddpm::message::{Cmd, Msg};
use ddpm::monitor::DisplayInfo;
use ddpm::transfer::{Capabilities, ReadOutcome, VcpDescriptor, WriteOutcome};
use ddpm::vcp::{VcpReply, VCP_BRIGHTNESS, VCP_CONTRAST, VCP_INPUT_SOURCE};
use ddpm::worker::{Action, Event, Worker, INPUT_READBACK_DELAY};

fn info(name: &str) -> DisplayInfo {
    DisplayInfo {
        id: "22789".into(),
        manufacturer_id: None,
        model_id: None,
        model_name: Some(name.into()),
        serial_number: None,
    }
}

fn value(sl: u8) -> Event {
    Event::Read(ReadOutcome::Value(VcpReply { ty: 0, mh: 0, ml: 100, sh: 0, sl }))
}

fn failed() -> Event {
    Event::Read(ReadOutcome::Failed("no answer".into()))
}

fn inputs(code: u8) -> Event {
    let mut values = BTreeMap::new();
    values.insert(code, None);
    let mut vcp_features = BTreeMap::new();
    vcp_features.insert(VCP_INPUT_SOURCE, VcpDescriptor { values });
    Event::Capabilities(Some(Capabilities { vcp_features }))
}

fn set(idx: usize, code: u8, value: u16) -> Cmd {
    Cmd::SetFeature { idx, code, value }
}

/// Feeds the events one by one and collects what the worker asks for in between.
fn feed(mut worker: Worker, events: Vec<Event>) -> (Worker, Vec<Action>) {
    let mut actions = Vec::new();
    for event in events {
        let (next, action) = worker.step(event);
        worker = next;
        actions.push(action);
    }
    (worker, actions)
}

/// A worker with two displays that waits for commands.
fn ready() -> Worker {
    let (worker, action) = Worker::new();
    assert!(matches!(action, Action::Enumerate));
    let mut events = vec![Event::Enumerated(vec![info("A"), info("B")])];
    for v in 1..=6 {
        events.push(value(v));
    }
    events.push(Event::Posted(false));
    let (worker, actions) = feed(worker, events);
    assert!(matches!(actions.last(), Some(Action::Receive)));
    worker
}

#[test]
fn a_scan_reports_monitors_and_then_their_inputs() {
    let (worker, _) = Worker::new();
    let (worker, action) = worker.step(Event::Enumerated(vec![info("A"), info("B")]));
    assert!(matches!(action, Action::Read { idx: 0, code: VCP_BRIGHTNESS }));
    let (worker, actions) = feed(
        worker,
        vec![value(10), failed(), value(20), value(0x11), value(30), value(40), failed(), failed()],
    );
    assert!(matches!(actions[0], Action::Read { idx: 0, code: VCP_CONTRAST }));
    assert!(matches!(actions[1], Action::Read { idx: 0, code: VCP_CONTRAST }));
    assert!(matches!(actions[2], Action::Read { idx: 0, code: VCP_INPUT_SOURCE }));
    assert!(matches!(actions[3], Action::Read { idx: 1, code: VCP_BRIGHTNESS }));
    assert!(matches!(actions[6], Action::Read { idx: 1, code: VCP_INPUT_SOURCE }));
    match &actions[7] {
        Action::Post(Msg::Scanned { monitors, error }) => {
            assert_eq!(*error, None);
            assert_eq!(monitors.len(), 2);
            assert_eq!(monitors[0].name, "A");
            assert_eq!(monitors[0].brightness.unwrap().value, 10);
            assert_eq!(monitors[0].contrast.unwrap().value, 20);
            assert_eq!(monitors[0].input, Some(0x11));
            assert_eq!(monitors[1].name, "B");
            assert_eq!(monitors[1].input, None);
            assert_eq!(monitors[1].errors, ["input: no answer"]);
        }
        other => panic!("{other:?}"),
    }
    let (_, actions) = feed(
        worker,
        vec![
            Event::Posted(true),
            inputs(0x0F),
            Event::Posted(true),
            Event::Capabilities(None),
            Event::Capabilities(None),
        ],
    );
    assert!(matches!(actions[0], Action::ReadCapabilities { idx: 0 }));
    match &actions[1] {
        Action::Post(Msg::Inputs { idx: 0, inputs }) => assert_eq!(inputs[0].label, "DisplayPort-1"),
        other => panic!("{other:?}"),
    }
    assert!(matches!(actions[2], Action::ReadCapabilities { idx: 1 }));
    assert!(matches!(actions[3], Action::ReadCapabilities { idx: 1 }));
    assert!(matches!(actions[4], Action::Receive));
}

#[test]
fn an_empty_scan_says_so() {
    let (worker, _) = Worker::new();
    let (_, actions) = feed(worker, vec![Event::Enumerated(vec![]), Event::Posted(true)]);
    match &actions[0] {
        Action::Post(Msg::Scanned { monitors, error: Some(error) }) => {
            assert!(monitors.is_empty());
            assert_eq!(
                error,
                "No DDC/CI capable monitors found. i2c-dev must be loaded and your user needs \
                 access to /dev/i2c-* (group `i2c`); `just doctor` checks both."
            );
        }
        other => panic!("{other:?}"),
    }
    assert!(matches!(actions[1], Action::Receive));
}

#[test]
fn undelivered_inputs_end_the_scan_only() {
    let (worker, _) = Worker::new();
    let mut events = vec![Event::Enumerated(vec![info("A"), info("B")])];
    for v in 1..=6 {
        events.push(value(v));
    }
    events.push(Event::Posted(true));
    events.push(inputs(0x0F));
    events.push(Event::Posted(false));
    let (_, actions) = feed(worker, events);
    assert!(matches!(actions.last(), Some(Action::Receive)));
}

#[test]
fn a_batch_is_worked_off_in_order() {
    let (worker, actions) = feed(
        ready(),
        vec![
            Event::Commands(vec![
                set(1, VCP_CONTRAST, 5),
                set(7, VCP_BRIGHTNESS, 9),
                set(0, VCP_BRIGHTNESS, 10),
                Cmd::Reload,
                set(1, VCP_CONTRAST, 6),
            ]),
            Event::Written(WriteOutcome::Written),
            Event::Posted(true),
            Event::Written(WriteOutcome::Failed("no ack".into())),
            Event::Posted(true),
        ],
    );
    assert!(matches!(actions[0], Action::Write { idx: 1, code: VCP_CONTRAST, value: 6 }));
    assert!(matches!(
        actions[1],
        Action::Post(Msg::SetOk { idx: 1, code: VCP_CONTRAST, value: 6, readback: None })
    ));
    assert!(matches!(actions[2], Action::Write { idx: 0, code: VCP_BRIGHTNESS, value: 10 }));
    match &actions[3] {
        Action::Post(Msg::SetErr { idx: 0, code: VCP_BRIGHTNESS, value: 10, err }) => {
            assert_eq!(err, "no ack")
        }
        other => panic!("{other:?}"),
    }
    assert!(matches!(actions[4], Action::Read { idx: 0, code: VCP_BRIGHTNESS }));
    let (_, actions) = feed(
        worker,
        vec![
            value(1),
            value(2),
            value(3),
            Event::Posted(true),
            value(4),
            value(5),
            value(6),
            Event::Posted(true),
        ],
    );
    match &actions[2] {
        Action::Post(Msg::Reloaded { idx: 0, state }) => {
            assert_eq!(state.name, "");
            assert_eq!(state.brightness.unwrap().value, 1);
            assert_eq!(state.contrast.unwrap().value, 2);
            assert_eq!(state.input, Some(3));
        }
        other => panic!("{other:?}"),
    }
    assert!(matches!(actions[3], Action::Read { idx: 1, code: VCP_BRIGHTNESS }));
    assert!(matches!(actions[6], Action::Post(Msg::Reloaded { idx: 1, .. })));
    assert!(matches!(actions[7], Action::Receive));
}

#[test]
fn an_input_switch_is_read_back_after_a_while() {
    assert_eq!(INPUT_READBACK_DELAY, 1_000_000_000);
    let (worker, actions) = feed(
        ready(),
        vec![
            Event::Commands(vec![set(1, VCP_INPUT_SOURCE, 0x11)]),
            Event::Written(WriteOutcome::Written),
            Event::Settled,
            failed(),
            value(0x0F),
            Event::Posted(true),
        ],
    );
    assert!(matches!(actions[1], Action::Settle));
    assert!(matches!(actions[2], Action::Read { idx: 1, code: VCP_INPUT_SOURCE }));
    assert!(matches!(actions[3], Action::Read { idx: 1, code: VCP_INPUT_SOURCE }));
    assert!(matches!(
        actions[4],
        Action::Post(Msg::SetOk {
            idx: 1,
            code: VCP_INPUT_SOURCE,
            value: 0x11,
            readback: Some(0x0F)
        })
    ));
    assert!(matches!(actions[5], Action::Receive));
    let (_, actions) = feed(
        worker,
        vec![
            Event::Commands(vec![set(0, VCP_INPUT_SOURCE, 0x12)]),
            Event::Written(WriteOutcome::Written),
            Event::Settled,
            failed(),
            failed(),
        ],
    );
    assert!(matches!(
        actions[4],
        Action::Post(Msg::SetOk { idx: 0, code: VCP_INPUT_SOURCE, value: 0x12, readback: None })
    ));
}

#[test]
fn a_failed_input_switch_is_not_read_back() {
    let (_, actions) = feed(
        ready(),
        vec![
            Event::Commands(vec![set(1, VCP_INPUT_SOURCE, 0x11)]),
            Event::Written(WriteOutcome::Panicked),
        ],
    );
    match &actions[1] {
        Action::Post(Msg::SetErr { err, .. }) => assert_eq!(err, "DDC layer panicked"),
        other => panic!("{other:?}"),
    }
}

#[test]
fn a_rescan_drops_queued_sets() {
    let (_, actions) = feed(
        ready(),
        vec![
            Event::Commands(vec![set(0, VCP_BRIGHTNESS, 10), Cmd::Rescan, Cmd::Reload]),
            Event::Enumerated(vec![info("C")]),
        ],
    );
    assert!(matches!(actions[0], Action::Enumerate));
    assert!(matches!(actions[1], Action::Read { idx: 0, code: VCP_BRIGHTNESS }));
}

#[test]
fn the_worker_ends() {
    let (worker, actions) = feed(ready(), vec![Event::Closed]);
    assert!(matches!(actions[0], Action::Stop));
    let (_, action) = worker.step(Event::Commands(vec![Cmd::Reload]));
    assert!(matches!(action, Action::Stop));
    let (_, actions) = feed(
        ready(),
        vec![
            Event::Commands(vec![set(0, VCP_BRIGHTNESS, 10), set(1, VCP_BRIGHTNESS, 10)]),
            Event::Written(WriteOutcome::Written),
            Event::Posted(false),
        ],
    );
    assert!(matches!(actions[2], Action::Stop));
    let (_, actions) = feed(
        ready(),
        vec![
            Event::Commands(vec![Cmd::Reload]),
            value(1),
            value(2),
            value(3),
            Event::Posted(false),
        ],
    );
    assert!(matches!(actions[4], Action::Stop));
}

#[test]
fn commands_for_unknown_displays_do_nothing() {
    let (_, actions) = feed(ready(), vec![Event::Commands(vec![set(2, VCP_BRIGHTNESS, 10)])]);
    assert!(matches!(actions[0], Action::Receive));
}
