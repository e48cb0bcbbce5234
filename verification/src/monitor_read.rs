//! Reading the values of one monitor: brightness, then contrast, then input.

use crate::monitor;
use crate::monitor::Replies;
use crate::transfer;
use crate::transfer::{ReadOutcome, ReadStep, VcpRead, READ_ATTEMPTS};
use crate::vcp::{FeatureCode, VcpReply, VCP_BRIGHTNESS, VCP_CONTRAST, VCP_INPUT_SOURCE};
use vstd::prelude::*;

verus! {

/// How far the reading of a monitor has come: the reads that are finished and the one that is
/// under way.
#[derive(Debug)]
pub enum MonitorRead {
    Brightness { read: VcpRead },
    Contrast { brightness: Result<VcpReply, String>, read: VcpRead },
    Input {
        brightness: Result<VcpReply, String>,
        contrast: Result<VcpReply, String>,
        read: VcpRead,
    },
}

/// What a [`MonitorRead`] holds.
pub enum MonitorReadView {
    Brightness { read: VcpRead },
    Contrast { brightness: Result<VcpReply, Seq<char>>, read: VcpRead },
    Input {
        brightness: Result<VcpReply, Seq<char>>,
        contrast: Result<VcpReply, Seq<char>>,
        read: VcpRead,
    },
}

impl View for MonitorRead {
    type V = MonitorReadView;

    open spec fn view(&self) -> MonitorReadView {
        match self {
            MonitorRead::Brightness { read } => MonitorReadView::Brightness { read: *read },
            MonitorRead::Contrast { brightness, read } => MonitorReadView::Contrast {
                brightness: transfer::result_view(*brightness),
                read: *read,
            },
            MonitorRead::Input { brightness, contrast, read } => MonitorReadView::Input {
                brightness: transfer::result_view(*brightness),
                contrast: transfer::result_view(*contrast),
                read: *read,
            },
        }
    }
}

/// What follows an attempt to read one of the values.
#[derive(Debug)]
pub enum MonitorReadStep {
    More(MonitorRead),
    Done(Replies),
}

/// What a [`MonitorReadStep`] holds.
pub enum MonitorReadStepView {
    More(MonitorReadView),
    Done(monitor::RepliesView),
}

impl View for MonitorReadStep {
    type V = MonitorReadStepView;

    open spec fn view(&self) -> MonitorReadStepView {
        match self {
            MonitorReadStep::More(r) => MonitorReadStepView::More(r@),
            MonitorReadStep::Done(r) => MonitorReadStepView::Done(r@),
        }
    }
}

impl MonitorReadView {
    /// A reading of which no attempt has been made.
    pub open spec fn start() -> MonitorReadView {
        MonitorReadView::Brightness { read: VcpRead::spec_new() }
    }

    /// The feature that is being read.
    pub open spec fn code(self) -> FeatureCode {
        match self {
            MonitorReadView::Brightness { .. } => VCP_BRIGHTNESS,
            MonitorReadView::Contrast { .. } => VCP_CONTRAST,
            MonitorReadView::Input { .. } => VCP_INPUT_SOURCE,
        }
    }

    /// What follows an attempt with the given outcome.
    pub open spec fn after(self, outcome: transfer::ReadOutcomeView) -> MonitorReadStepView {
        match self {
            MonitorReadView::Brightness { read } => match read.after(outcome) {
                transfer::ReadStepView::Retry(again) => MonitorReadStepView::More(
                    MonitorReadView::Brightness { read: again },
                ),
                transfer::ReadStepView::Done(brightness) => MonitorReadStepView::More(
                    MonitorReadView::Contrast { brightness, read: VcpRead::spec_new() },
                ),
            },
            MonitorReadView::Contrast { brightness, read } => match read.after(outcome) {
                transfer::ReadStepView::Retry(again) => MonitorReadStepView::More(
                    MonitorReadView::Contrast { brightness, read: again },
                ),
                transfer::ReadStepView::Done(contrast) => MonitorReadStepView::More(
                    MonitorReadView::Input { brightness, contrast, read: VcpRead::spec_new() },
                ),
            },
            MonitorReadView::Input { brightness, contrast, read } => match read.after(outcome) {
                transfer::ReadStepView::Retry(again) => MonitorReadStepView::More(
                    MonitorReadView::Input { brightness, contrast, read: again },
                ),
                transfer::ReadStepView::Done(input) => MonitorReadStepView::Done(
                    monitor::RepliesView { brightness, contrast, input },
                ),
            },
        }
    }
}

impl MonitorRead {
    /// A reading of which no attempt has been made.
    pub fn new() -> (r: MonitorRead)
        ensures
            r@ == MonitorReadView::start(),
    {
        MonitorRead::Brightness { read: VcpRead::new() }
    }

    /// The feature that is being read.
    pub fn code(&self) -> (code: FeatureCode)
        ensures
            code == self@.code(),
    {
        match self {
            MonitorRead::Brightness { .. } => VCP_BRIGHTNESS,
            MonitorRead::Contrast { .. } => VCP_CONTRAST,
            MonitorRead::Input { .. } => VCP_INPUT_SOURCE,
        }
    }

    /// Takes the outcome of an attempt to read the feature.
    pub fn step(self, outcome: ReadOutcome) -> (next: MonitorReadStep)
        ensures
            next@ == self@.after(outcome@),
    {
        match self {
            MonitorRead::Brightness { read } => match read.step(outcome) {
                ReadStep::Retry(again) => MonitorReadStep::More(
                    MonitorRead::Brightness { read: again },
                ),
                ReadStep::Done(brightness) => MonitorReadStep::More(
                    MonitorRead::Contrast { brightness, read: VcpRead::new() },
                ),
            },
            MonitorRead::Contrast { brightness, read } => match read.step(outcome) {
                ReadStep::Retry(again) => MonitorReadStep::More(
                    MonitorRead::Contrast { brightness, read: again },
                ),
                ReadStep::Done(contrast) => MonitorReadStep::More(
                    MonitorRead::Input { brightness, contrast, read: VcpRead::new() },
                ),
            },
            MonitorRead::Input { brightness, contrast, read } => match read.step(outcome) {
                ReadStep::Retry(again) => MonitorReadStep::More(
                    MonitorRead::Input { brightness, contrast, read: again },
                ),
                ReadStep::Done(input) => MonitorReadStep::Done(
                    Replies { brightness, contrast, input },
                ),
            },
        }
    }
}

impl MonitorReadView {
    /// Whether the read that is under way has not been given up.
    pub open spec fn wf(self) -> bool {
        match self {
            MonitorReadView::Brightness { read } => read.failed < READ_ATTEMPTS,
            MonitorReadView::Contrast { read, .. } => read.failed < READ_ATTEMPTS,
            MonitorReadView::Input { read, .. } => read.failed < READ_ATTEMPTS,
        }
    }

    /// How many attempts there can be at most before the reading ends.
    pub open spec fn attempts_left(self) -> int {
        match self {
            MonitorReadView::Brightness { read } => 3 * READ_ATTEMPTS - read.failed,
            MonitorReadView::Contrast { read, .. } => 2 * READ_ATTEMPTS - read.failed,
            MonitorReadView::Input { read, .. } => READ_ATTEMPTS - read.failed,
        }
    }
}

/// Reading a monitor ends: each attempt leaves fewer, and at the start there are two for each
/// of the three features.
pub proof fn law_reading_ends(r: MonitorReadView, outcome: transfer::ReadOutcomeView)
    requires
        r.wf(),
    ensures
        MonitorReadView::start().wf(),
        MonitorReadView::start().attempts_left() == 6,
        r.attempts_left() > 0,
        r.after(outcome) matches MonitorReadStepView::More(more) ==> more.wf()
            && more.attempts_left() < r.attempts_left(),
{
}

/// A monitor that answers each feature at once is asked once for each, for brightness, contrast
/// and input in turn, and its answers are the replies.
pub proof fn law_prompt_answers_are_the_replies(
    brightness: VcpReply,
    contrast: VcpReply,
    input: VcpReply,
)
    ensures
        ({
            let first = MonitorReadView::start();
            &&& first.code() == VCP_BRIGHTNESS
            &&& first.after(
                transfer::ReadOutcomeView::Value(brightness),
            ) matches MonitorReadStepView::More(second)
            &&& second.code() == VCP_CONTRAST
            &&& second.after(
                transfer::ReadOutcomeView::Value(contrast),
            ) matches MonitorReadStepView::More(third)
            &&& third.code() == VCP_INPUT_SOURCE
            &&& third.after(transfer::ReadOutcomeView::Value(input)) == MonitorReadStepView::Done(
                monitor::RepliesView {
                    brightness: Ok(brightness),
                    contrast: Ok(contrast),
                    input: Ok(input),
                },
            )
        }),
{
}

} // verus!
