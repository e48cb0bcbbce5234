//! One slider: what it shows, what the monitor has confirmed, and when a value is sent.

use crate::message::Cmd;
use crate::vcp::FeatureCode;
use vstd::prelude::*;

verus! {

/// Minimum interval between writes while a slider is being dragged, in nanoseconds.
pub const DRAG_WRITE_INTERVAL: u64 = 150_000_000;

/// A continuous feature of a monitor. Points in time are nanoseconds since some fixed start.
#[derive(Clone, Copy, Debug, PartialEq, Eq)]
pub struct Control {
    /// Value shown by the slider (may be ahead of the monitor while a write is pending).
    pub value: u16,
    /// Last value the monitor confirmed.
    pub applied: u16,
    pub max: u16,
    pub last_sent_value: Option<u16>,
    pub last_sent_at: Option<u64>,
}

/// What the slider reports after a frame: the value it shows and what was done to it.
#[derive(Clone, Copy, Debug)]
pub struct SliderResponse {
    pub value: u16,
    /// It is being dragged.
    pub dragged: bool,
    /// The value was changed in this frame.
    pub changed: bool,
    /// It was released in this frame.
    pub drag_stopped: bool,
}

impl Control {
    /// A control that nothing has been sent to.
    pub open spec fn spec_fresh(value: u16, max: u16) -> Control {
        Control { value, applied: value, max, last_sent_value: None, last_sent_at: None }
    }

    /// Whether the monitor is out of date: the value shown is not the one that was sent last,
    /// or, where none was sent, not the one that the monitor has confirmed.
    pub open spec fn outdated(self) -> bool {
        match self.last_sent_value {
            Some(sent) => sent != self.value,
            None => self.value != self.applied,
        }
    }

    /// Whether enough time has passed since the last write for another one in a drag.
    pub open spec fn rested(self, now: u64) -> bool {
        match self.last_sent_at {
            Some(t) => now - t >= DRAG_WRITE_INTERVAL,
            None => true,
        }
    }

    /// Whether the value is to be sent now: on release, on a change outside a drag, and in a
    /// drag on a change after a rest.
    pub open spec fn commits(self, resp: SliderResponse, now: u64) -> bool {
        ||| resp.drag_stopped
        ||| resp.changed && !resp.dragged
        ||| resp.changed && self.rested(now)
    }

    /// The control with the slider at another value.
    pub open spec fn shows(self, value: u16) -> Control {
        Control { value, ..self }
    }

    /// Whether a slider response makes the control send its value.
    pub open spec fn sends(self, resp: SliderResponse, now: u64) -> bool {
        self.commits(resp, now) && self.shows(resp.value).outdated()
    }

    /// The control after a slider response.
    pub open spec fn after_row(self, resp: SliderResponse, now: u64) -> Control {
        if self.sends(resp, now) {
            Control {
                last_sent_value: Some(resp.value),
                last_sent_at: Some(now),
                ..self.shows(resp.value)
            }
        } else {
            self.shows(resp.value)
        }
    }

    /// Takes what the slider reports. Writes are throttled while dragging and committed on
    /// release; keyboard and typed edits commit immediately. Returns the write, if one is due.
    pub fn control_row(
        &mut self,
        idx: usize,
        code: FeatureCode,
        resp: SliderResponse,
        now: u64,
    ) -> (cmd: Option<Cmd>)
        ensures
            *final(self) == old(self).after_row(resp, now),
            cmd == (if old(self).sends(resp, now) {
                Some(Cmd::SetFeature { idx, code, value: resp.value })
            } else {
                None
            }),
            final(self).value == resp.value,
            final(self).applied == old(self).applied,
            final(self).max == old(self).max,
            cmd matches Some(sent) ==> sent == (Cmd::SetFeature { idx, code, value: resp.value })
                && final(self).last_sent_value == Some(resp.value) && final(self).last_sent_at
                == Some(now),
            cmd is None ==> final(self).last_sent_value == old(self).last_sent_value,
            cmd is None ==> final(self).last_sent_at == old(self).last_sent_at,
            resp.drag_stopped || (resp.changed && !resp.dragged) ==> {
                &&& old(self).last_sent_value is None ==> (cmd is Some <==> resp.value
                    != old(self).applied)
                &&& old(self).last_sent_value is Some ==> (cmd is Some <==> Some(resp.value)
                    != old(self).last_sent_value)
            },
    {
        self.value = resp.value;
        let rested = match self.last_sent_at {
            Some(t) => now >= t && now - t >= DRAG_WRITE_INTERVAL,
            None => true,
        };
        let throttled = resp.dragged && resp.changed && rested;
        let commit = resp.drag_stopped || (resp.changed && !resp.dragged) || throttled;
        let outdated = match self.last_sent_value {
            Some(sent) => sent != self.value,
            None => self.value != self.applied,
        };
        if commit && outdated {
            self.last_sent_value = Some(self.value);
            self.last_sent_at = Some(now);
            Some(Cmd::SetFeature { idx, code, value: self.value })
        } else {
            None
        }
    }
}

/// In a drag two writes are at least the minimum interval apart.
pub proof fn law_drag_writes_are_throttled(c: Control, resp: SliderResponse, now: u64, t: u64)
    requires
        resp.dragged,
        !resp.drag_stopped,
        c.last_sent_at == Some(t),
        c.sends(resp, now),
    ensures
        now - t >= DRAG_WRITE_INTERVAL,
{
}

/// After a release, and after a change outside a drag, nothing is left to send.
pub proof fn law_release_and_edit_commit(c: Control, resp: SliderResponse, now: u64)
    requires
        resp.drag_stopped || (resp.changed && !resp.dragged),
    ensures
        !c.after_row(resp, now).outdated(),
        c.shows(resp.value).outdated() ==> c.sends(resp, now),
{
}

/// A value that was just sent is not sent again, whatever the slider reports next, unless the
/// slider moves away from it.
pub proof fn law_value_sent_once(
    c: Control,
    resp: SliderResponse,
    now: u64,
    next: SliderResponse,
    later: u64,
)
    requires
        c.sends(resp, now),
        next.value == resp.value,
    ensures
        !c.after_row(resp, now).sends(next, later),
{
}

/// A slider that is not touched sends nothing and changes nothing but the value it shows.
pub proof fn law_untouched_slider_sends_nothing(c: Control, resp: SliderResponse, now: u64)
    requires
        !resp.changed,
        !resp.drag_stopped,
    ensures
        !c.sends(resp, now),
        c.after_row(resp, now) == c.shows(resp.value),
{
}

/// On a release, and on a change outside a drag, a value is sent exactly if the monitor does not
/// have it: if it is not the one that was sent last, or, where none was sent, not the confirmed
/// one. It makes no difference whether the value went up or down, or how far.
pub proof fn law_committed_value_is_sent(c: Control, resp: SliderResponse, now: u64)
    requires
        resp.drag_stopped || (resp.changed && !resp.dragged),
    ensures
        c.last_sent_value is None && resp.value != c.applied ==> c.sends(resp, now),
        c.last_sent_value is None && resp.value == c.applied ==> !c.sends(resp, now),
        (c.last_sent_value matches Some(sent) ==> sent != resp.value ==> c.sends(resp, now)),
        c.last_sent_value == Some(resp.value) ==> !c.sends(resp, now),
{
}

/// In a drag a changed value that the monitor does not have is sent as soon as 150 milliseconds
/// have passed since the last write, or at once where there was none, and not before.
pub proof fn law_dragged_value_is_sent_in_time(c: Control, resp: SliderResponse, now: u64)
    requires
        resp.dragged,
        resp.changed,
        !resp.drag_stopped,
    ensures
        ({
            let news = if c.last_sent_value is None {
                resp.value != c.applied
            } else {
                c.last_sent_value != Some(resp.value)
            };
            &&& c.last_sent_at is None ==> (c.sends(resp, now) <==> news)
            &&& (c.last_sent_at matches Some(t) ==> now >= t + 150_000_000 ==> (c.sends(resp, now)
                <==> news))
            &&& (c.last_sent_at matches Some(t) ==> now < t + 150_000_000 ==> !c.sends(resp, now))
        }),
{
}

/// The slider shows what it reports, whatever is sent; the confirmed value and the range never
/// change. What was sent last, and when, changes with a write and only then.
pub proof fn law_row_changes_what_it_should(c: Control, resp: SliderResponse, now: u64)
    ensures
        ({
            let after = c.after_row(resp, now);
            &&& after.value == resp.value
            &&& after.applied == c.applied
            &&& after.max == c.max
            &&& c.sends(resp, now) ==> after.last_sent_value == Some(resp.value)
                && after.last_sent_at == Some(now)
            &&& !c.sends(resp, now) ==> after.last_sent_value == c.last_sent_value
                && after.last_sent_at == c.last_sent_at
        }),
{
}

} // verus!
