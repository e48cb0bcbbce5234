use ddpm::control::Control;
use ddpm::inputs::{InputOption, INPUT_SOURCES};
use ddpm::message::Cmd;
use ddpm::monitor::{DisplayInfo, MonitorState, Replies, MAX_ERRORS, MAX_FAILURES};
use ddpm::vcp::{VcpReply, VCP_BRIGHTNESS, VCP_CONTRAST, VCP_INPUT_SOURCE};

fn reply(max: u16, value: u16) -> Result<VcpReply, String> {
    let [mh, ml] = max.to_be_bytes();
    let [sh, sl] = value.to_be_bytes();
    Ok(VcpReply { ty: 0, mh, ml, sh, sl })
}

fn control(value: u16, max: u16) -> Option<Control> {
    Some(Control { value, applied: value, max, last_sent_value: None, last_sent_at: None })
}

fn info(id: &str) -> DisplayInfo {
    DisplayInfo {
        id: id.to_string(),
        manufacturer_id: None,
        model_id: None,
        model_name: None,
        serial_number: None,
    }
}

fn good() -> Replies {
    Replies { brightness: reply(100, 42), contrast: reply(255, 128), input: reply(0, 0x0F) }
}

#[test]
fn input_options_always_include_current() {
    let mut m = MonitorState {
        inputs: vec![InputOption { code: 0x0F, label: "DisplayPort-1".into() }],
        input: Some(0x19),
        ..Default::default()
    };
    let opts = m.input_options();
    assert_eq!(opts.len(), 2);
    assert_eq!(opts[1].code, 0x19);
    m.inputs.clear();
    assert_eq!(m.input_options().len(), INPUT_SOURCES.len());
}

#[test]
fn input_options_keep_the_advertised_names() {
    let listed = vec![
        InputOption { code: 0x0F, label: "Left".into() },
        InputOption { code: 0x11, label: "Right".into() },
    ];
    let mut m = MonitorState { inputs: listed.clone(), input: Some(0x11), ..Default::default() };
    assert_eq!(m.input_options(), listed);
    m.input = None;
    assert_eq!(m.input_options(), listed);
    m.input = Some(0x1C);
    assert_eq!(
        m.input_options()[2],
        InputOption { code: 0x1C, label: "Unknown (0x1C)".into() }
    );
    m.inputs.clear();
    let options = m.input_options();
    assert_eq!(options.len(), INPUT_SOURCES.len() + 1);
    assert_eq!(options[0], InputOption { code: 0x01, label: "VGA-1".into() });
    assert_eq!(options[19], InputOption { code: 0x1B, label: "USB-C-2".into() });
}

#[test]
fn errors_are_deduplicated_and_capped() {
    let mut m = MonitorState::default();
    for _ in 0..3 {
        m.push_error("same".into());
    }
    assert_eq!(m.errors.len(), 1);
    for i in 0..10 {
        m.push_error(format!("e{i}"));
    }
    assert_eq!(m.errors.len(), MAX_ERRORS);
    assert_eq!(m.errors.last().map(String::as_str), Some("e9"));
}

#[test]
fn only_repetitions_in_a_row_are_dropped() {
    let mut m = MonitorState::default();
    for e in ["a", "b", "a", "a"] {
        m.push_error(e.into());
    }
    assert_eq!(m.errors, ["a", "b", "a"]);
    for i in 0..5 {
        m.push_error(format!("e{i}"));
    }
    assert_eq!(m.errors, ["a", "e0", "e1", "e2", "e3", "e4"]);
    m.clear_errors();
    assert!(m.errors.is_empty());
}

#[test]
fn probing_reads_values_from_their_bytes() {
    let m = MonitorState::probe(
        &info("22789"),
        Replies { brightness: reply(0x0102, 0x0101), contrast: reply(255, 300), input: reply(0, 0x0F11) },
    );
    assert_eq!(m.brightness, control(0x0101, 0x0102));
    assert_eq!(m.contrast, control(255, 255));
    assert_eq!(m.input, Some(0x11));
    assert!(m.errors.is_empty());
    assert_eq!(m.pending_input, None);
    assert_eq!(m.failures, 0);
}

#[test]
fn names_and_identifiers() {
    let mut i = info("22789");
    let m = MonitorState::probe(&i, good());
    assert_eq!(m.name, "Unknown display");
    assert_eq!(m.ident, "/dev/i2c-5");
    i.model_id = Some(0x2ab);
    i.serial_number = Some("XYZ".into());
    let m = MonitorState::probe(&i, good());
    assert_eq!(m.name, "model 0x02ab");
    assert_eq!(m.ident, "S/N XYZ · /dev/i2c-5");
    i.model_name = Some("Screen".into());
    i.manufacturer_id = Some("ACM".into());
    i.id = "259".into();
    let m = MonitorState::probe(&i, good());
    assert_eq!(m.name, "Screen");
    assert_eq!(m.ident, "ACM · S/N XYZ · id 259");
}

#[test]
fn bad_replies_are_reported() {
    let mut m = MonitorState::default();
    m.read_values(Replies {
        brightness: reply(0, 7),
        contrast: Err("no answer".into()),
        input: Err("bad checksum".into()),
    });
    assert_eq!(m.brightness, None);
    assert_eq!(m.contrast, None);
    assert_eq!(m.input, None);
    assert_eq!(
        m.errors,
        [
            "brightness: monitor reported a maximum of 0",
            "contrast: no answer",
            "input: bad checksum",
        ]
    );
}

#[test]
fn single_replies_are_read_on_their_own() {
    let mut m = MonitorState::default();
    assert_eq!(m.read_control(reply(100, 42), VCP_CONTRAST), control(42, 100));
    assert_eq!(m.read_control(Err("gone".into()), 0xD6), None);
    assert_eq!(m.read_input(reply(0x1234, 0x5678)), Some(0x78));
    assert_eq!(m.read_input(Err("gone".into())), None);
    assert_eq!(m.errors, ["feature: gone", "input: gone"]);
}

#[test]
fn reload_keeps_what_only_the_interface_knows() {
    let mut m = MonitorState::probe(&info("22789"), good());
    m.inputs = vec![InputOption { code: 0x11, label: "TV".into() }];
    m.pending_input = Some(0x11);
    m.failures = 2;
    m.push_error("old".into());
    let mut fresh = MonitorState::default();
    fresh.read_values(Replies {
        brightness: reply(100, 1),
        contrast: Err("x".into()),
        input: reply(0, 0x12),
    });
    fresh.name = "other".into();
    m.apply_reload(fresh);
    assert_eq!(m.name, "Unknown display");
    assert_eq!(m.brightness, control(1, 100));
    assert_eq!(m.contrast, None);
    assert_eq!(m.input, Some(0x12));
    assert_eq!(m.pending_input, Some(0x11));
    assert_eq!(m.failures, 2);
    assert_eq!(m.inputs.len(), 1);
    assert_eq!(m.errors, ["old", "contrast: x"]);
    let mut fresh = MonitorState::default();
    fresh.input = Some(0x11);
    m.apply_reload(fresh);
    assert_eq!(m.pending_input, None);
    m.apply_reload(MonitorState::default());
    assert_eq!(m.pending_input, None);
    assert_eq!(m.input, None);
}

#[test]
fn controls_by_feature() {
    let mut m = MonitorState::probe(&info("22789"), good());
    m.control_mut(VCP_BRIGHTNESS).unwrap().value = 43;
    m.control_mut(VCP_CONTRAST).unwrap().value = 129;
    assert!(m.control_mut(VCP_INPUT_SOURCE).is_none());
    assert_eq!(m.brightness.unwrap().value, 43);
    assert_eq!(m.contrast.unwrap().value, 129);
    assert!(MonitorState::default().control_mut(VCP_BRIGHTNESS).is_none());
}

#[test]
fn confirmed_writes() {
    let mut m = MonitorState::probe(&info("22789"), good());
    m.failures = 2;
    m.set_ok(VCP_BRIGHTNESS, 77, None);
    assert_eq!(m.failures, 0);
    assert_eq!(m.brightness.unwrap().applied, 77);
    assert_eq!(m.brightness.unwrap().value, 42);
    m.pending_input = Some(0x11);
    m.set_ok(VCP_INPUT_SOURCE, 0x11, None);
    assert_eq!((m.input, m.pending_input), (Some(0x11), None));
    m.set_ok(VCP_INPUT_SOURCE, 0x12, Some(0x12));
    assert_eq!(m.input, Some(0x12));
    assert!(m.errors.is_empty());
    m.set_ok(VCP_INPUT_SOURCE, 0x11, Some(0x1C));
    assert_eq!(m.input, Some(0x1C));
    assert_eq!(m.errors, ["input: asked for HDMI-1 but monitor reports Unknown (0x1C)"]);
    // Only the low byte of an input value counts.
    m.set_ok(VCP_INPUT_SOURCE, 0x0F11, Some(0x11));
    assert_eq!(m.input, Some(0x11));
    assert_eq!(m.errors.len(), 1);
}

#[test]
fn failed_writes_revert_and_lock_out() {
    let mut m = MonitorState::probe(&info("22789"), good());
    assert!(m.controls_enabled(false));
    assert!(!m.controls_enabled(true));
    let c = m.control_mut(VCP_CONTRAST).unwrap();
    c.value = 200;
    c.last_sent_value = Some(200);
    c.last_sent_at = Some(5);
    m.set_err(VCP_CONTRAST, 200, "no ack".into());
    assert_eq!(m.errors, ["contrast: could not set 200: no ack"]);
    let c = m.contrast.unwrap();
    assert_eq!((c.value, c.applied), (128, 128));
    assert_eq!((c.last_sent_value, c.last_sent_at), (None, Some(5)));
    m.set_err(VCP_INPUT_SOURCE, 17, "no ack".into());
    assert!(!m.locked_out());
    m.set_err(VCP_INPUT_SOURCE, 17, "no ack".into());
    assert_eq!(m.failures, MAX_FAILURES);
    assert!(m.locked_out());
    assert!(!m.controls_enabled(false));
    assert_eq!(m.errors.len(), 2);
    m.failures = 255;
    m.set_err(VCP_BRIGHTNESS, 1, "no ack".into());
    assert_eq!(m.failures, 255);
    assert_eq!(m.retry(), Cmd::Reload);
    assert!(!m.locked_out());
}

#[test]
fn selecting_and_switching_the_input() {
    let mut m = MonitorState::probe(&info("22789"), good());
    assert_eq!(m.selected_input(), Some(0x0F));
    assert!(!m.switch_enabled(false));
    assert_eq!(m.switch_input(1), None);
    m.select_input(0x11);
    assert_eq!(m.selected_input(), Some(0x11));
    assert!(m.switch_enabled(false));
    assert!(!m.switch_enabled(true));
    assert_eq!(
        m.switch_input(1),
        Some(Cmd::SetFeature { idx: 1, code: VCP_INPUT_SOURCE, value: 0x11 })
    );
    m.select_input(0x0F);
    assert_eq!(m.pending_input, None);
    let mut unknown = MonitorState::default();
    unknown.select_input(0x11);
    assert_eq!(unknown.selected_input(), None);
    assert_eq!(unknown.pending_input, None);
}

#[test]
fn no_switch_while_the_input_is_unreadable() {
    let mut m = MonitorState::probe(&info("22789"), good());
    m.select_input(0x11);
    let mut fresh = MonitorState::default();
    fresh.read_values(Replies {
        brightness: reply(100, 42),
        contrast: reply(255, 128),
        input: Err("no answer".into()),
    });
    m.apply_reload(fresh);
    assert_eq!((m.input, m.pending_input), (None, Some(0x11)));
    assert_eq!(m.selected_input(), None);
    assert!(!m.switch_enabled(false));
    assert_eq!(m.switch_input(0), None);
}
