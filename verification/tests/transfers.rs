use std::collections::BTreeMap;

use ddpm::inputs::InputOption;
use ddpm::monitor_read::{MonitorRead, MonitorReadStep};
use ddpm::transfer::{
    supported_inputs, write_vcp, Capabilities, CapabilitiesRead, CapabilitiesStep, ReadOutcome,
    ReadStep, VcpDescriptor, VcpRead, WriteOutcome,
};
use ddpm::vcp::{VcpReply, VCP_BRIGHTNESS, VCP_CONTRAST, VCP_INPUT_SOURCE};

fn value(sl: u8) -> VcpReply {
    VcpReply { ty: 0, mh: 0, ml: 100, sh: 0, sl }
}

fn caps(values: &[(u8, Option<&str>)]) -> Capabilities {
    let mut names = BTreeMap::new();
    for (code, name) in values {
        names.insert(*code, name.map(String::from));
    }
    let mut vcp_features = BTreeMap::new();
    vcp_features.insert(VCP_BRIGHTNESS, VcpDescriptor { values: BTreeMap::new() });
    vcp_features.insert(VCP_INPUT_SOURCE, VcpDescriptor { values: names });
    Capabilities { vcp_features }
}

fn retry(step: ReadStep) -> VcpRead {
    match step {
        ReadStep::Retry(read) => read,
        ReadStep::Done(r) => panic!("done with {r:?}"),
    }
}

fn done(step: ReadStep) -> Result<VcpReply, String> {
    match step {
        ReadStep::Retry(read) => panic!("still at {read:?}"),
        ReadStep::Done(r) => r,
    }
}

#[test]
fn reads_are_tried_twice() {
    assert_eq!(done(VcpRead::new().step(ReadOutcome::Value(value(1)))), Ok(value(1)));
    let second = retry(VcpRead::new().step(ReadOutcome::Failed("first".into())));
    assert_eq!(done(second.step(ReadOutcome::Value(value(2)))), Ok(value(2)));
    let second = retry(VcpRead::new().step(ReadOutcome::Panicked));
    assert_eq!(
        done(second.step(ReadOutcome::Failed("second".into()))),
        Err("second".to_string())
    );
    assert_eq!(
        done(second.step(ReadOutcome::Panicked)),
        Err("DDC layer panicked on a malformed reply".to_string())
    );
}

#[test]
fn writes_are_tried_once() {
    assert_eq!(write_vcp(WriteOutcome::Written), Ok(()));
    assert_eq!(write_vcp(WriteOutcome::Failed("no ack".into())), Err("no ack".to_string()));
    assert_eq!(write_vcp(WriteOutcome::Panicked), Err("DDC layer panicked".to_string()));
}

#[test]
fn advertised_inputs_come_in_order_of_code() {
    let found = supported_inputs(&caps(&[(0x1C, None), (0x11, Some("TV")), (0x0F, None)]));
    assert_eq!(
        found,
        Some(vec![
            InputOption { code: 0x0F, label: "DisplayPort-1".into() },
            InputOption { code: 0x11, label: "TV".into() },
            InputOption { code: 0x1C, label: "Unknown (0x1C)".into() },
        ])
    );
    assert_eq!(supported_inputs(&caps(&[])), None);
    assert_eq!(supported_inputs(&Capabilities { vcp_features: BTreeMap::new() }), None);
    let ends = supported_inputs(&caps(&[(0xFF, Some("last")), (0x00, Some("first"))])).unwrap();
    assert_eq!((ends[0].code, ends[1].code, ends.len()), (0x00, 0xFF, 2));
}

#[test]
fn capabilities_are_tried_twice() {
    let second = match CapabilitiesRead::new().step(None) {
        CapabilitiesStep::Retry(read) => read,
        CapabilitiesStep::Done(_) => panic!("given up at once"),
    };
    assert!(matches!(second.step(None), CapabilitiesStep::Done(None)));
    match second.step(Some(caps(&[(0x11, None)]))) {
        CapabilitiesStep::Done(Some(options)) => assert_eq!(options[0].label, "HDMI-1"),
        _ => panic!("nothing found"),
    }
    assert!(matches!(
        CapabilitiesRead::new().step(Some(caps(&[]))),
        CapabilitiesStep::Done(None)
    ));
}

#[test]
fn a_monitor_is_read_feature_by_feature() {
    let mut read = MonitorRead::new();
    let mut asked = vec![read.code()];
    let outcomes = [
        ReadOutcome::Failed("once".into()),
        ReadOutcome::Value(value(1)),
        ReadOutcome::Failed("once".into()),
        ReadOutcome::Failed("twice".into()),
        ReadOutcome::Value(value(3)),
    ];
    for outcome in outcomes {
        read = match read.step(outcome) {
            MonitorReadStep::More(more) => {
                asked.push(more.code());
                more
            }
            MonitorReadStep::Done(replies) => {
                assert_eq!(replies.brightness, Ok(value(1)));
                assert_eq!(replies.contrast, Err("twice".to_string()));
                assert_eq!(replies.input, Ok(value(3)));
                assert_eq!(
                    asked,
                    [
                        VCP_BRIGHTNESS,
                        VCP_BRIGHTNESS,
                        VCP_CONTRAST,
                        VCP_CONTRAST,
                        VCP_INPUT_SOURCE
                    ]
                );
                return;
            }
        };
    }
    panic!("the reading did not end");
}
