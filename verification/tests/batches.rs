use ddpm::message::{coalesce, Batch, Cmd};
use ddpm::vcp::{VCP_BRIGHTNESS, VCP_CONTRAST, VCP_INPUT_SOURCE};

#[test]
fn coalesce_keeps_latest_per_control_in_order() {
    let batch = coalesce(vec![
        Cmd::SetFeature { idx: 0, code: VCP_BRIGHTNESS, value: 10 },
        Cmd::SetFeature { idx: 1, code: VCP_CONTRAST, value: 50 },
        Cmd::SetFeature { idx: 0, code: VCP_BRIGHTNESS, value: 30 },
        Cmd::Reload,
    ]);
    assert_eq!(
        batch,
        Batch {
            rescan: false,
            reload: true,
            sets: vec![(0, VCP_BRIGHTNESS, 30), (1, VCP_CONTRAST, 50)],
        }
    );
}

#[test]
fn nothing_coalesces_to_nothing() {
    assert_eq!(coalesce(vec![]), Batch::default());
}

#[test]
fn controls_are_told_apart_by_monitor_and_feature() {
    let batch = coalesce(vec![
        Cmd::Rescan,
        Cmd::SetFeature { idx: 1, code: VCP_BRIGHTNESS, value: 1 },
        Cmd::SetFeature { idx: 0, code: VCP_BRIGHTNESS, value: 2 },
        Cmd::SetFeature { idx: 0, code: VCP_CONTRAST, value: 3 },
        Cmd::SetFeature { idx: 0, code: VCP_INPUT_SOURCE, value: 4 },
        Cmd::SetFeature { idx: 0, code: VCP_BRIGHTNESS, value: 2 },
        Cmd::Rescan,
    ]);
    assert_eq!(
        batch,
        Batch {
            rescan: true,
            reload: false,
            sets: vec![
                (1, VCP_BRIGHTNESS, 1),
                (0, VCP_BRIGHTNESS, 2),
                (0, VCP_CONTRAST, 3),
                (0, VCP_INPUT_SOURCE, 4),
            ],
        }
    );
}

#[test]
fn a_burst_may_be_collapsed_in_steps() {
    let early = vec![
        Cmd::SetFeature { idx: 0, code: VCP_BRIGHTNESS, value: 10 },
        Cmd::SetFeature { idx: 1, code: VCP_CONTRAST, value: 50 },
        Cmd::SetFeature { idx: 0, code: VCP_BRIGHTNESS, value: 30 },
    ];
    let late = vec![
        Cmd::SetFeature { idx: 0, code: VCP_INPUT_SOURCE, value: 0x11 },
        Cmd::SetFeature { idx: 1, code: VCP_CONTRAST, value: 60 },
    ];
    let at_once = coalesce(early.iter().chain(late.iter()).cloned().collect()).sets;
    assert_eq!(
        at_once,
        [(0, VCP_BRIGHTNESS, 30), (1, VCP_CONTRAST, 60), (0, VCP_INPUT_SOURCE, 0x11)]
    );
    let first: Vec<Cmd> = coalesce(early)
        .sets
        .into_iter()
        .map(|(idx, code, value)| Cmd::SetFeature { idx, code, value })
        .collect();
    assert_eq!(first.len(), 2);
    assert_eq!(coalesce(first.into_iter().chain(late).collect()).sets, at_once);
}
