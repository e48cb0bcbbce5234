//! What is known of one monitor.

use crate::control::Control;
use crate::device;
use crate::inputs;
use crate::inputs::InputOption;
use crate::message::Cmd;
use crate::text;
use crate::transfer;
use crate::vcp;
use crate::vcp::{FeatureCode, VcpReply, VCP_BRIGHTNESS, VCP_CONTRAST, VCP_INPUT_SOURCE};
use vstd::prelude::*;
use vstd::string::*;

verus! {

/// Errors kept per monitor.
pub const MAX_ERRORS: usize = 6;

/// Consecutive write failures after which a monitor's controls are disabled until a retry.
pub const MAX_FAILURES: u8 = 3;

/// Identifying information about an attached display, as far as it is known.
#[derive(Clone, Debug)]
pub struct DisplayInfo {
    /// A unique identifier for the display; on Linux the decimal device number.
    pub id: String,
    pub manufacturer_id: Option<String>,
    pub model_id: Option<u16>,
    pub model_name: Option<String>,
    pub serial_number: Option<String>,
}

/// What a [`DisplayInfo`] holds.
pub struct DisplayInfoView {
    pub id: Seq<char>,
    pub manufacturer_id: Option<Seq<char>>,
    pub model_id: Option<u16>,
    pub model_name: Option<Seq<char>>,
    pub serial_number: Option<Seq<char>>,
}

impl View for DisplayInfo {
    type V = DisplayInfoView;

    open spec fn view(&self) -> DisplayInfoView {
        DisplayInfoView {
            id: self.id@,
            manufacturer_id: text::opt_view(self.manufacturer_id),
            model_id: self.model_id,
            model_name: text::opt_view(self.model_name),
            serial_number: text::opt_view(self.serial_number),
        }
    }
}

/// What is known of a monitor and what the user has chosen for it.
#[derive(Clone, Debug)]
pub struct MonitorState {
    pub name: String,
    pub ident: String,
    pub brightness: Option<Control>,
    pub contrast: Option<Control>,
    /// Input reported by the monitor; `None` if unreadable.
    pub input: Option<u8>,
    /// Input selected in the dropdown but not yet sent.
    pub pending_input: Option<u8>,
    /// Inputs from the capabilities string; empty until read (falls back to the generic list).
    pub inputs: Vec<InputOption>,
    pub errors: Vec<String>,
    pub failures: u8,
}

/// What a [`MonitorState`] holds.
#[verifier::ext_equal]
pub struct MonitorView {
    pub name: Seq<char>,
    pub ident: Seq<char>,
    pub brightness: Option<Control>,
    pub contrast: Option<Control>,
    pub input: Option<u8>,
    pub pending_input: Option<u8>,
    pub inputs: Seq<inputs::InputOptionView>,
    pub errors: Seq<Seq<char>>,
    pub failures: u8,
}

/// What a list of errors holds.
pub open spec fn errors_view(errors: Seq<String>) -> Seq<Seq<char>> {
    errors.map_values(|e: String| e@)
}

impl View for MonitorState {
    type V = MonitorView;

    open spec fn view(&self) -> MonitorView {
        MonitorView {
            name: self.name@,
            ident: self.ident@,
            brightness: self.brightness,
            contrast: self.contrast,
            input: self.input,
            pending_input: self.pending_input,
            inputs: inputs::options_view(self.inputs@),
            errors: errors_view(self.errors@),
            failures: self.failures,
        }
    }
}

/// The list of errors after another one: an error that repeats the last one is left out, and
/// a full list drops its oldest.
pub open spec fn with_error(errors: Seq<Seq<char>>, err: Seq<char>) -> Seq<Seq<char>> {
    if errors.len() > 0 && errors.last() == err {
        errors
    } else if errors.len() >= MAX_ERRORS {
        errors.drop_first().push(err)
    } else {
        errors.push(err)
    }
}

/// Whether there are no more errors than are kept, and none twice in a row.
pub open spec fn in_bounds(errors: Seq<Seq<char>>) -> bool {
    &&& errors.len() <= MAX_ERRORS
    &&& forall|i: int| 0 <= i < errors.len() - 1 ==> #[trigger] errors[i] != errors[i + 1]
}

/// The list of errors after an error that may not have occurred.
pub open spec fn with_opt_error(errors: Seq<Seq<char>>, err: Option<Seq<char>>) -> Seq<Seq<char>> {
    match err {
        Some(e) => with_error(errors, e),
        None => errors,
    }
}

/// The list of errors after several others, in their order.
pub open spec fn with_errors(errors: Seq<Seq<char>>, added: Seq<Seq<char>>) -> Seq<Seq<char>>
    decreases added.len(),
{
    if added.len() == 0 {
        errors
    } else {
        with_error(with_errors(errors, added.drop_last()), added.last())
    }
}

/// The control that a reply describes. A maximum of zero describes none.
pub open spec fn control_of(reply: Result<VcpReply, Seq<char>>) -> Option<Control> {
    match reply {
        Ok(v) => if v.spec_maximum() == 0 {
            None
        } else if v.spec_value() <= v.spec_maximum() {
            Some(Control::spec_fresh(v.spec_value() as u16, v.spec_maximum() as u16))
        } else {
            Some(Control::spec_fresh(v.spec_maximum() as u16, v.spec_maximum() as u16))
        },
        Err(_) => None,
    }
}

/// What there is to complain of in a reply about a continuous feature.
pub open spec fn control_error(
    code: FeatureCode,
    reply: Result<VcpReply, Seq<char>>,
) -> Option<Seq<char>> {
    match reply {
        Ok(v) => if v.spec_maximum() == 0 {
            Some(vcp::name_of(code) + ": monitor reported a maximum of 0"@)
        } else {
            None
        },
        Err(e) => Some(vcp::name_of(code) + ": "@ + e),
    }
}

/// The input that a reply names.
pub open spec fn input_of(reply: Result<VcpReply, Seq<char>>) -> Option<u8> {
    match reply {
        Ok(v) => Some(v.sl),
        Err(_) => None,
    }
}

/// What there is to complain of in a reply about the input.
pub open spec fn input_error(reply: Result<VcpReply, Seq<char>>) -> Option<Seq<char>> {
    match reply {
        Ok(_) => None,
        Err(e) => Some("input: "@ + e),
    }
}

/// The error of a monitor that shows another input than it was asked for.
pub open spec fn wrong_input(requested: u8, actual: u8) -> Seq<char> {
    "input: asked for "@ + inputs::label_of(requested) + " but monitor reports "@
        + inputs::label_of(actual)
}

/// The error of a monitor that could not be given a value.
pub open spec fn set_error(code: FeatureCode, value: u16, err: Seq<char>) -> Seq<char> {
    vcp::name_of(code) + ": could not set "@ + text::decimal(value as nat) + ": "@ + err
}

/// The name of a display: its model name, or else its model number.
pub open spec fn display_name(info: DisplayInfoView) -> Seq<char> {
    match (info.model_name, info.model_id) {
        (Some(name), _) => name,
        (None, Some(id)) => "model 0x"@ + text::hex_word(id),
        (None, None) => "Unknown display"@,
    }
}

/// What tells a display from others of its model: manufacturer and serial number, where they
/// are known, and the device node or else the bare identifier.
pub open spec fn display_ident(info: DisplayInfoView) -> Seq<char> {
    let manufacturer = match info.manufacturer_id {
        Some(id) => id + " · "@,
        None => Seq::empty(),
    };
    let serial = match info.serial_number {
        Some(number) => "S/N "@ + number + " · "@,
        None => Seq::empty(),
    };
    let node = match device::i2c_path(info.id) {
        Some(path) => path,
        None => "id "@ + info.id,
    };
    manufacturer + serial + node
}

impl MonitorView {
    /// A display of which no value has been read.
    pub open spec fn described(info: DisplayInfoView) -> MonitorView {
        MonitorView {
            name: display_name(info),
            ident: display_ident(info),
            ..MonitorView::unknown()
        }
    }

    /// A monitor of which nothing is known.
    pub open spec fn unknown() -> MonitorView {
        MonitorView {
            name: Seq::empty(),
            ident: Seq::empty(),
            brightness: None,
            contrast: None,
            input: None,
            pending_input: None,
            inputs: Seq::empty(),
            errors: Seq::empty(),
            failures: 0,
        }
    }

    /// What every operation keeps: no more errors than are kept, and none twice in a row.
    pub open spec fn wf(self) -> bool {
        in_bounds(self.errors)
    }

    /// The monitor after another error.
    pub open spec fn push_error(self, err: Seq<char>) -> MonitorView {
        MonitorView { errors: with_error(self.errors, err), ..self }
    }

    /// The monitor after its three features have been read, in this order.
    pub open spec fn read_values(self, replies: RepliesView) -> MonitorView {
        MonitorView {
            brightness: control_of(replies.brightness),
            contrast: control_of(replies.contrast),
            input: input_of(replies.input),
            errors: with_opt_error(
                with_opt_error(
                    with_opt_error(
                        self.errors,
                        control_error(VCP_BRIGHTNESS, replies.brightness),
                    ),
                    control_error(VCP_CONTRAST, replies.contrast),
                ),
                input_error(replies.input),
            ),
            ..self
        }
    }

    /// The monitor with freshly read values. What only the user interface knows stays.
    pub open spec fn apply_reload(self, fresh: MonitorView) -> MonitorView {
        MonitorView {
            brightness: fresh.brightness,
            contrast: fresh.contrast,
            input: fresh.input,
            pending_input: if self.pending_input == fresh.input {
                None
            } else {
                self.pending_input
            },
            errors: with_errors(self.errors, fresh.errors),
            ..self
        }
    }

    /// The control for a feature.
    pub open spec fn control(self, code: FeatureCode) -> Option<Control> {
        if code == VCP_BRIGHTNESS {
            self.brightness
        } else if code == VCP_CONTRAST {
            self.contrast
        } else {
            None
        }
    }

    /// The monitor with another control for a feature, where the feature has one.
    pub open spec fn with_control(self, code: FeatureCode, c: Control) -> MonitorView {
        if code == VCP_BRIGHTNESS {
            MonitorView { brightness: Some(c), ..self }
        } else if code == VCP_CONTRAST {
            MonitorView { contrast: Some(c), ..self }
        } else {
            self
        }
    }

    /// The monitor after it has taken a value for a feature. For the input, `readback` is what
    /// it reported afterwards, if that could be read.
    pub open spec fn set_ok(
        self,
        code: FeatureCode,
        value: u16,
        readback: Option<u8>,
    ) -> MonitorView {
        let m = MonitorView { failures: 0, ..self };
        if code == VCP_INPUT_SOURCE {
            let requested = (value % 256) as u8;
            let actual = match readback {
                Some(reported) => reported,
                None => requested,
            };
            MonitorView {
                input: Some(actual),
                pending_input: None,
                errors: if actual == requested {
                    self.errors
                } else {
                    with_error(self.errors, wrong_input(requested, actual))
                },
                ..m
            }
        } else {
            match m.control(code) {
                Some(c) => m.with_control(code, Control { applied: value, ..c }),
                None => m,
            }
        }
    }

    /// The monitor after it has failed to take a value for a feature: the slider goes back to
    /// the confirmed value.
    pub open spec fn set_err(self, code: FeatureCode, value: u16, err: Seq<char>) -> MonitorView {
        let m = MonitorView {
            failures: if self.failures < u8::MAX {
                (self.failures + 1) as u8
            } else {
                u8::MAX
            },
            errors: with_error(self.errors, set_error(code, value, err)),
            ..self
        };
        match m.control(code) {
            Some(c) => m.with_control(
                code,
                Control { value: c.applied, last_sent_value: None, ..c },
            ),
            None => m,
        }
    }

    /// Whether the controls are disabled after repeated failures.
    pub open spec fn locked_out(self) -> bool {
        self.failures >= MAX_FAILURES
    }

    /// Whether the controls can be used.
    pub open spec fn enabled(self, scanning: bool) -> bool {
        !scanning && !self.locked_out()
    }

    /// The input that the dropdown shows.
    pub open spec fn selected_input(self) -> Option<u8> {
        match self.input {
            Some(current) => match self.pending_input {
                Some(pending) => Some(pending),
                None => Some(current),
            },
            None => None,
        }
    }

    /// The input that can be switched to: the chosen one, where the current one is known.
    pub open spec fn switch_target(self) -> Option<u8> {
        match self.input {
            Some(_) => self.pending_input,
            None => None,
        }
    }

    /// The monitor after a choice in the dropdown. To choose the current input is to choose
    /// none, and where the current input is unknown there is no dropdown.
    pub open spec fn select_input(self, selected: u8) -> MonitorView {
        match self.input {
            Some(current) => MonitorView {
                pending_input: if selected == current {
                    None
                } else {
                    Some(selected)
                },
                ..self
            },
            None => self,
        }
    }

    /// The monitor with its failures forgotten.
    pub open spec fn retried(self) -> MonitorView {
        MonitorView { failures: 0, ..self }
    }

    /// The monitor with its errors forgotten.
    pub open spec fn cleared(self) -> MonitorView {
        MonitorView { errors: Seq::empty(), ..self }
    }

    /// The monitor with another list of advertised inputs.
    pub open spec fn with_inputs(self, inputs: Seq<inputs::InputOptionView>) -> MonitorView {
        MonitorView { inputs, ..self }
    }

    /// The inputs to choose from: those that the monitor advertises, or else the generic list,
    /// and the current one behind them where it is not among them.
    pub open spec fn input_options(self) -> Seq<inputs::InputOptionView> {
        let listed = if self.inputs.len() == 0 {
            inputs::generic_options()
        } else {
            self.inputs
        };
        match self.input {
            Some(cur) => if inputs::has_code(listed, cur) {
                listed
            } else {
                listed.push(inputs::InputOptionView { code: cur, label: inputs::label_of(cur) })
            },
            None => listed,
        }
    }
}

/// The name of a display.
fn name_display(info: &DisplayInfo) -> (name: String)
    ensures
        name@ == display_name(info@),
{
    match &info.model_name {
        Some(name) => name.clone(),
        None => match info.model_id {
            Some(id) => {
                let mut name = "model 0x".to_string();
                text::push_hex_word(&mut name, id);
                name
            },
            None => "Unknown display".to_string(),
        },
    }
}

/// What tells a display from others of its model.
fn identify_display(info: &DisplayInfo) -> (ident: String)
    ensures
        ident@ == display_ident(info@),
{
    let mut ident = String::new();
    if let Some(id) = &info.manufacturer_id {
        ident.append(id.as_str());
        ident.append(" · ");
    }
    if let Some(number) = &info.serial_number {
        ident.append("S/N ");
        ident.append(number.as_str());
        ident.append(" · ");
    }
    match device::i2c_device_path(info.id.as_str()) {
        Some(path) => {
            ident.append(path.as_str());
        },
        None => {
            ident.append("id ");
            ident.append(info.id.as_str());
        },
    }
    assert(ident@ =~= display_ident(info@));
    ident
}

/// The replies of a monitor about its features.
#[derive(Debug)]
pub struct Replies {
    pub brightness: Result<VcpReply, String>,
    pub contrast: Result<VcpReply, String>,
    pub input: Result<VcpReply, String>,
}

/// What [`Replies`] hold.
pub struct RepliesView {
    pub brightness: Result<VcpReply, Seq<char>>,
    pub contrast: Result<VcpReply, Seq<char>>,
    pub input: Result<VcpReply, Seq<char>>,
}

impl View for Replies {
    type V = RepliesView;

    open spec fn view(&self) -> RepliesView {
        RepliesView {
            brightness: transfer::result_view(self.brightness),
            contrast: transfer::result_view(self.contrast),
            input: transfer::result_view(self.input),
        }
    }
}

impl Default for MonitorState {
    fn default() -> (m: MonitorState)
        ensures
            m@ == MonitorView::unknown(),
    {
        let m = MonitorState {
            name: String::new(),
            ident: String::new(),
            brightness: None,
            contrast: None,
            input: None,
            pending_input: None,
            inputs: Vec::new(),
            errors: Vec::new(),
            failures: 0,
        };
        assert(m@ =~= MonitorView::unknown());
        m
    }
}

impl MonitorState {
    /// Notes an error, unless it repeats the last one. The oldest makes room for it.
    pub fn push_error(&mut self, err: String)
        ensures
            final(self)@ == old(self)@.push_error(err@),
    {
        let n: usize = self.errors.len();
        if n > 0 && self.errors[n - 1] == err {
            assert(self@.errors.last() == err@);
            return;
        }
        if n >= MAX_ERRORS {
            self.errors.remove(0);
        }
        self.errors.push(err);
        assert(self@ =~= old(self)@.push_error(err@));
    }

    /// Makes a control of a reply about a continuous feature, or notes what is wrong with it.
    pub fn read_control(
        &mut self,
        reply: Result<VcpReply, String>,
        code: FeatureCode,
    ) -> (c: Option<Control>)
        ensures
            c == control_of(transfer::result_view(reply)),
            final(self)@ == (MonitorView {
                errors: with_opt_error(
                    old(self)@.errors,
                    control_error(code, transfer::result_view(reply)),
                ),
                ..old(self)@
            }),
    {
        match reply {
            Ok(v) => {
                let max = v.maximum();
                if max == 0 {
                    let mut err = vcp::feature_name(code).to_string();
                    err.append(": monitor reported a maximum of 0");
                    self.push_error(err);
                    None
                } else {
                    let reported = v.value();
                    let value: u16 = if reported <= max {
                        reported
                    } else {
                        max
                    };
                    Some(
                        Control {
                            value,
                            applied: value,
                            max,
                            last_sent_value: None,
                            last_sent_at: None,
                        },
                    )
                }
            },
            Err(e) => {
                let mut err = vcp::feature_name(code).to_string();
                err.append(": ");
                err.append(e.as_str());
                self.push_error(err);
                None
            },
        }
    }

    /// The input that a reply names; notes the error if there is none. The value of this
    /// non-continuous feature is the low byte; some monitors echo it into the high one.
    pub fn read_input(&mut self, reply: Result<VcpReply, String>) -> (input: Option<u8>)
        ensures
            input == input_of(transfer::result_view(reply)),
            final(self)@ == (MonitorView {
                errors: with_opt_error(
                    old(self)@.errors,
                    input_error(transfer::result_view(reply)),
                ),
                ..old(self)@
            }),
    {
        match reply {
            Ok(v) => Some(v.sl),
            Err(e) => {
                let mut err = "input: ".to_string();
                err.append(e.as_str());
                self.push_error(err);
                None
            },
        }
    }

    /// Takes the replies about brightness, contrast and input.
    pub fn read_values(&mut self, replies: Replies)
        ensures
            final(self)@ == old(self)@.read_values(replies@),
    {
        self.brightness = self.read_control(replies.brightness, VCP_BRIGHTNESS);
        self.contrast = self.read_control(replies.contrast, VCP_CONTRAST);
        self.input = self.read_input(replies.input);
    }

    /// What is known of a display from its description and its replies.
    pub fn probe(info: &DisplayInfo, replies: Replies) -> (m: MonitorState)
        ensures
            m@ == MonitorView::described(info@).read_values(replies@),
    {
        let mut m = MonitorState {
            name: name_display(info),
            ident: identify_display(info),
            brightness: None,
            contrast: None,
            input: None,
            pending_input: None,
            inputs: Vec::new(),
            errors: Vec::new(),
            failures: 0,
        };
        assert(m@ =~= MonitorView::described(info@));
        m.read_values(replies);
        m
    }

    /// Takes freshly read values, keeping UI-only state (errors, pending selection, inputs).
    pub fn apply_reload(&mut self, fresh: MonitorState)
        ensures
            final(self)@ == old(self)@.apply_reload(fresh@),
    {
        let ghost before = self@;
        let ghost added = fresh@.errors;
        self.brightness = fresh.brightness;
        self.contrast = fresh.contrast;
        self.input = fresh.input;
        let settled = match (self.pending_input, self.input) {
            (Some(pending), Some(input)) => pending == input,
            (None, None) => true,
            _ => false,
        };
        if settled {
            self.pending_input = None;
        }
        let mut i: usize = 0;
        assert(added.take(0) =~= Seq::<Seq<char>>::empty());
        while i < fresh.errors.len()
            invariant
                i <= fresh.errors@.len(),
                added == errors_view(fresh.errors@),
                self@ == (MonitorView {
                    errors: with_errors(before.errors, added.take(i as int)),
                    ..before.apply_reload(fresh@)
                }),
            decreases fresh.errors@.len() - i,
        {
            self.push_error(fresh.errors[i].clone());
            i = i + 1;
            assert(added.take(i as int).drop_last() =~= added.take(i - 1));
        }
        assert(added.take(i as int) =~= added);
    }

    /// The control for a feature, to be changed.
    pub fn control_mut(&mut self, code: FeatureCode) -> (c: Option<&mut Control>)
        ensures
            c is Some == old(self)@.control(code) is Some,
            c is None ==> final(self)@ == old(self)@,
            c is Some ==> *c->0 == old(self)@.control(code)->0 && final(self)@ == old(
                self,
            )@.with_control(code, *final(c->0)),
    {
        match code {
            VCP_BRIGHTNESS => self.brightness.as_mut(),
            VCP_CONTRAST => self.contrast.as_mut(),
            _ => None,
        }
    }

    /// Selectable inputs: the monitor's advertised list (or the generic one), always
    /// including whatever the monitor currently reports so it can be switched back to.
    pub fn input_options(&self) -> (options: Vec<InputOption>)
        ensures
            inputs::options_view(options@) == self@.input_options(),
            options@.len() == self@.input_options().len(),
    {
        let mut options = if self.inputs.is_empty() {
            inputs::generic_inputs()
        } else {
            inputs::copy_options(&self.inputs)
        };
        if let Some(cur) = self.input {
            if !inputs::lists_code(&options, cur) {
                options.push(InputOption { code: cur, label: inputs::input_label(cur) });
                assert(inputs::options_view(options@) =~= self@.input_options());
            }
        }
        options
    }

    /// Takes the confirmation of a write.
    pub fn set_ok(&mut self, code: FeatureCode, value: u16, readback: Option<u8>)
        ensures
            final(self)@ == old(self)@.set_ok(code, value, readback),
    {
        self.failures = 0;
        if code == VCP_INPUT_SOURCE {
            let requested: u8 = (value % 256) as u8;
            let actual: u8 = match readback {
                Some(reported) => reported,
                None => requested,
            };
            self.input = Some(actual);
            self.pending_input = None;
            if actual != requested {
                let mut err = "input: asked for ".to_string();
                err.append(inputs::input_label(requested).as_str());
                err.append(" but monitor reports ");
                err.append(inputs::input_label(actual).as_str());
                self.push_error(err);
            }
        } else if let Some(c) = self.control_mut(code) {
            c.applied = value;
        }
    }

    /// Takes the failure of a write.
    pub fn set_err(&mut self, code: FeatureCode, value: u16, err: String)
        ensures
            final(self)@ == old(self)@.set_err(code, value, err@),
    {
        self.failures = self.failures.saturating_add(1);
        if let Some(c) = self.control_mut(code) {
            c.value = c.applied;
            c.last_sent_value = None;
        }
        let mut text = vcp::feature_name(code).to_string();
        text.append(": could not set ");
        text::push_decimal(&mut text, value as u64);
        text.append(": ");
        text.append(err.as_str());
        self.push_error(text);
    }

    /// Whether the controls are disabled after repeated failures.
    pub fn locked_out(&self) -> (b: bool)
        ensures
            b == self@.locked_out(),
    {
        self.failures >= MAX_FAILURES
    }

    /// Whether the controls can be used.
    pub fn controls_enabled(&self, scanning: bool) -> (b: bool)
        ensures
            b == self@.enabled(scanning),
    {
        !scanning && !self.locked_out()
    }

    /// The input that the dropdown shows; `None` where the current input is unknown.
    pub fn selected_input(&self) -> (selected: Option<u8>)
        ensures
            selected == self@.selected_input(),
    {
        match self.input {
            Some(current) => match self.pending_input {
                Some(pending) => Some(pending),
                None => Some(current),
            },
            None => None,
        }
    }

    /// Takes a choice in the dropdown.
    pub fn select_input(&mut self, selected: u8)
        ensures
            final(self)@ == old(self)@.select_input(selected),
    {
        if let Some(current) = self.input {
            self.pending_input = if selected != current {
                Some(selected)
            } else {
                None
            };
        }
    }

    /// Whether the chosen input can be switched to. Where the current input is unknown, as after
    /// a read that failed, there is no switch.
    pub fn switch_enabled(&self, scanning: bool) -> (b: bool)
        ensures
            b == (self@.enabled(scanning) && self@.input is Some && self@.pending_input is Some),
    {
        self.controls_enabled(scanning) && self.input.is_some() && self.pending_input.is_some()
    }

    /// The command that switches to the chosen input, if one is chosen and the current one is
    /// known.
    pub fn switch_input(&self, idx: usize) -> (cmd: Option<Cmd>)
        ensures
            self@.input is None ==> cmd is None,
            cmd == (match self@.switch_target() {
                Some(selected) => Some(
                    Cmd::SetFeature { idx, code: VCP_INPUT_SOURCE, value: selected as u16 },
                ),
                None => None,
            }),
    {
        match (self.input, self.pending_input) {
            (Some(_), Some(selected)) => Some(
                Cmd::SetFeature { idx, code: VCP_INPUT_SOURCE, value: selected as u16 },
            ),
            _ => None,
        }
    }

    /// Forgets the failures; the values have to be read again.
    pub fn retry(&mut self) -> (cmd: Cmd)
        ensures
            cmd == Cmd::Reload,
            final(self)@ == old(self)@.retried(),
    {
        self.failures = 0;
        Cmd::Reload
    }

    /// Forgets the errors.
    pub fn clear_errors(&mut self)
        ensures
            final(self)@ == old(self)@.cleared(),
    {
        self.errors.clear();
        assert(self@.errors =~= Seq::empty());
    }
}

} // verus!
