use ddpm::control::{Control, SliderResponse, DRAG_WRITE_INTERVAL};
use ddpm::message::Cmd;
use ddpm::vcp::VCP_BRIGHTNESS;

fn fresh(value: u16) -> Control {
    Control { value, applied: value, max: 100, last_sent_value: None, last_sent_at: None }
}

fn drag(value: u16) -> SliderResponse {
    SliderResponse { value, dragged: true, changed: true, drag_stopped: false }
}

fn release(value: u16) -> SliderResponse {
    SliderResponse { value, dragged: false, changed: false, drag_stopped: true }
}

fn edit(value: u16) -> SliderResponse {
    SliderResponse { value, dragged: false, changed: true, drag_stopped: false }
}

fn idle(value: u16) -> SliderResponse {
    SliderResponse { value, dragged: false, changed: false, drag_stopped: false }
}

fn set(value: u16) -> Option<Cmd> {
    Some(Cmd::SetFeature { idx: 3, code: VCP_BRIGHTNESS, value })
}

#[test]
fn drag_writes_are_throttled_and_release_commits() {
    assert_eq!(DRAG_WRITE_INTERVAL, 150_000_000);
    let mut c = fresh(50);
    let t = 1_000_000_000;
    assert_eq!(c.control_row(3, VCP_BRIGHTNESS, drag(51), t), set(51));
    assert_eq!(c.last_sent_at, Some(t));
    assert_eq!(c.control_row(3, VCP_BRIGHTNESS, drag(52), t + DRAG_WRITE_INTERVAL - 1), None);
    assert_eq!(c.value, 52);
    assert_eq!(c.last_sent_value, Some(51));
    assert_eq!(c.control_row(3, VCP_BRIGHTNESS, drag(53), t + DRAG_WRITE_INTERVAL), set(53));
    assert_eq!(c.control_row(3, VCP_BRIGHTNESS, drag(54), t + DRAG_WRITE_INTERVAL + 1), None);
    assert_eq!(c.control_row(3, VCP_BRIGHTNESS, release(54), t + DRAG_WRITE_INTERVAL + 2), set(54));
    assert_eq!(c.control_row(3, VCP_BRIGHTNESS, release(54), t + DRAG_WRITE_INTERVAL + 3), None);
}

#[test]
fn edits_commit_at_once() {
    let mut c = fresh(50);
    assert_eq!(c.control_row(3, VCP_BRIGHTNESS, edit(60), 7), set(60));
    assert_eq!(c.control_row(3, VCP_BRIGHTNESS, edit(61), 8), set(61));
    assert_eq!(
        c,
        Control {
            value: 61,
            applied: 50,
            max: 100,
            last_sent_value: Some(61),
            last_sent_at: Some(8),
        }
    );
}

#[test]
fn a_value_the_monitor_has_is_not_sent() {
    let mut c = fresh(50);
    assert_eq!(c.control_row(3, VCP_BRIGHTNESS, release(50), 1), None);
    assert_eq!(c.control_row(3, VCP_BRIGHTNESS, idle(50), 2), None);
    assert_eq!(c, fresh(50));
    // Back to the confirmed value while another one is still in flight.
    assert_eq!(c.control_row(3, VCP_BRIGHTNESS, edit(70), 3), set(70));
    assert_eq!(c.control_row(3, VCP_BRIGHTNESS, edit(50), 4), set(50));
}

#[test]
fn a_clock_that_went_back_counts_as_no_time() {
    let mut c = fresh(50);
    assert_eq!(c.control_row(3, VCP_BRIGHTNESS, drag(51), u64::MAX), set(51));
    assert_eq!(c.control_row(3, VCP_BRIGHTNESS, drag(52), 0), None);
}
