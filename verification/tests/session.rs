use ddpm::control::SliderResponse;
use ddpm::inputs::InputOption;
use ddpm::message::{Cmd, Msg};
use ddpm::monitor::{MonitorState, Replies};
use ddpm::session::{App, Placeholder, FOCUS_RELOAD_MIN_AGE};
use ddpm::vcp::{VcpReply, VCP_BRIGHTNESS};

fn monitor(brightness: u8) -> MonitorState {
    let reply = |sl| Ok(VcpReply { ty: 0, mh: 0, ml: 100, sh: 0, sl });
    let mut m = MonitorState::default();
    m.read_values(Replies {
        brightness: reply(brightness),
        contrast: reply(50),
        input: reply(0x11),
    });
    m
}

fn ready(now: u64) -> App {
    let mut app = App::new(0);
    app.handle_message(Msg::Scanned { monitors: vec![monitor(1), monitor(2)], error: None }, now);
    app
}

#[test]
fn the_first_scan() {
    let mut app = App::new(3);
    assert!(app.scanning && app.was_focused);
    assert!(!app.can_rescan() && !app.can_reload());
    assert_eq!(app.status(), "Scanning…");
    assert_eq!(app.placeholder(), Some(Placeholder::Searching));
    assert_eq!(app.last_read, 3);
    app.handle_message(Msg::Scanned { monitors: vec![], error: Some("none".into()) }, 9);
    assert!(app.can_rescan() && !app.can_reload());
    assert_eq!(app.status(), "0 monitors");
    assert_eq!(app.placeholder(), Some(Placeholder::Blank));
    assert_eq!(app.scan_error.as_deref(), Some("none"));
    assert_eq!(app.last_read, 9);
    app.scan_error = None;
    assert_eq!(app.placeholder(), Some(Placeholder::NoMonitors));
    app.handle_message(Msg::Scanned { monitors: vec![monitor(1)], error: None }, 10);
    assert_eq!(app.status(), "1 monitor");
    assert_eq!(app.placeholder(), None);
    assert!(app.can_reload());
    assert_eq!(ready(0).status(), "2 monitors");
}

#[test]
fn messages_reach_the_monitor_they_are_about() {
    let mut app = ready(5);
    let options = vec![InputOption { code: 1, label: "One".into() }];
    app.handle_message(Msg::Inputs { idx: 1, inputs: options.clone() }, 6);
    assert!(app.monitors[0].inputs.is_empty());
    assert_eq!(app.monitors[1].inputs, options);
    app.handle_message(Msg::Reloaded { idx: 0, state: monitor(9) }, 7);
    assert_eq!(app.monitors[0].brightness.unwrap().value, 9);
    assert_eq!(app.monitors[1].brightness.unwrap().value, 2);
    assert_eq!(app.last_read, 7);
    app.handle_message(Msg::SetOk { idx: 1, code: VCP_BRIGHTNESS, value: 77, readback: None }, 8);
    assert_eq!(app.monitors[1].brightness.unwrap().applied, 77);
    app.handle_message(
        Msg::SetErr { idx: 1, code: VCP_BRIGHTNESS, value: 78, err: "no ack".into() },
        8,
    );
    assert_eq!(app.monitors[1].errors, ["brightness: could not set 78: no ack"]);
    assert_eq!(app.monitors[1].brightness.unwrap().value, 77);
    assert_eq!(app.monitors[0].failures, 0);
    assert_eq!(app.last_read, 7);
}

#[test]
fn messages_about_unknown_monitors_are_ignored() {
    let mut app = ready(5);
    app.handle_message(Msg::Inputs { idx: 2, inputs: vec![] }, 6);
    app.handle_message(Msg::SetOk { idx: 2, code: VCP_BRIGHTNESS, value: 1, readback: None }, 6);
    app.handle_message(
        Msg::SetErr { idx: 2, code: VCP_BRIGHTNESS, value: 1, err: "e".into() },
        6,
    );
    assert_eq!(app.last_read, 5);
    app.handle_message(Msg::Reloaded { idx: 2, state: monitor(9) }, 6);
    assert_eq!(app.last_read, 6);
    assert_eq!(app.monitors.len(), 2);
    assert_eq!(app.monitors[0].brightness.unwrap().value, 1);
    assert_eq!(app.monitors[1].brightness.unwrap().value, 2);
}

#[test]
fn commands_that_cannot_be_sent() {
    let mut app = ready(5);
    app.send(Cmd::Reload, true);
    assert!(!app.scanning);
    assert_eq!(app.worker_error, None);
    app.send(Cmd::Rescan, true);
    assert!(app.scanning);
    assert!(!app.monitors[0].controls_enabled(app.scanning));
    app.send(Cmd::Reload, false);
    assert_eq!(
        app.worker_error.as_deref(),
        Some("The DDC worker thread has stopped; restart the application.")
    );
}

#[test]
fn values_are_reloaded_when_the_focus_comes_back() {
    assert_eq!(FOCUS_RELOAD_MIN_AGE, 2_000_000_000);
    let t = 1_000;
    let mut app = ready(t);
    let late = t + FOCUS_RELOAD_MIN_AGE;
    assert_eq!(app.update_focus(true, late), None);
    assert_eq!(app.update_focus(false, late), None);
    assert_eq!(app.update_focus(true, late - 1), None);
    assert_eq!(app.update_focus(false, late), None);
    assert_eq!(app.update_focus(true, late), Some(Cmd::Reload));
    assert_eq!(app.update_focus(true, late + 1), None);
    app.update_focus(false, late);
    app.send(Cmd::Rescan, true);
    assert_eq!(app.update_focus(true, late), None);
    let mut empty = App::new(0);
    empty.handle_message(Msg::Scanned { monitors: vec![], error: None }, 0);
    empty.update_focus(false, late);
    assert_eq!(empty.update_focus(true, late), None);
}

#[test]
fn a_slider_round_trip() {
    let mut app = ready(5);
    let resp = SliderResponse { value: 30, dragged: false, changed: true, drag_stopped: false };
    let cmd = app.monitors[1].control_mut(VCP_BRIGHTNESS).unwrap().control_row(
        1,
        VCP_BRIGHTNESS,
        resp,
        9,
    );
    assert_eq!(cmd, Some(Cmd::SetFeature { idx: 1, code: VCP_BRIGHTNESS, value: 30 }));
    app.handle_message(Msg::SetOk { idx: 1, code: VCP_BRIGHTNESS, value: 30, readback: None }, 10);
    let c = app.monitors[1].brightness.unwrap();
    assert_eq!((c.value, c.applied), (30, 30));
    let again = SliderResponse { drag_stopped: true, ..resp };
    let c = app.monitors[1].control_mut(VCP_BRIGHTNESS).unwrap();
    assert_eq!(c.control_row(1, VCP_BRIGHTNESS, again, 11), None);
}

#[test]
fn failures_in_a_row_are_counted_per_monitor() {
    let ok = |idx| Msg::SetOk { idx, code: VCP_BRIGHTNESS, value: 1, readback: None };
    let err = |idx| Msg::SetErr { idx, code: VCP_BRIGHTNESS, value: 1, err: "no ack".into() };
    let mut app = ready(5);
    app.monitors[0].failures = 1;
    for msg in [err(0), err(1), ok(1), Msg::Reloaded { idx: 0, state: monitor(3) }] {
        app.handle_message(msg, 6);
    }
    assert_eq!((app.monitors[0].failures, app.monitors[1].failures), (2, 0));
    assert!(!app.monitors[0].locked_out());
    app.handle_message(err(0), 7);
    assert!(app.monitors[0].locked_out());
    for msg in [ok(0), err(0), err(1), err(0)] {
        app.handle_message(msg, 8);
    }
    assert_eq!((app.monitors[0].failures, app.monitors[1].failures), (2, 1));
    for _ in 0..300 {
        app.handle_message(err(1), 9);
    }
    assert_eq!(app.monitors[1].failures, 255);
}
