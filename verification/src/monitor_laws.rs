//! What holds of a monitor whatever happens to it.

use crate::control::Control;
use crate::inputs;
use crate::monitor;
use crate::monitor::MAX_ERRORS;
use crate::vcp::{FeatureCode, VcpReply, VCP_BRIGHTNESS, VCP_CONTRAST, VCP_INPUT_SOURCE};
use vstd::prelude::*;

verus! {

/// A new error comes last, a list within bounds stays within them, and no error comes twice in
/// a row.
pub proof fn law_errors_deduplicated_and_capped(errors: Seq<Seq<char>>, err: Seq<char>)
    ensures
        monitor::with_error(errors, err).last() == err,
        monitor::with_error(errors, err).len() > 0,
        errors.len() <= MAX_ERRORS ==> monitor::with_error(errors, err).len() <= MAX_ERRORS,
        monitor::with_error(monitor::with_error(errors, err), err) == monitor::with_error(
            errors,
            err,
        ),
        monitor::in_bounds(errors) ==> monitor::in_bounds(monitor::with_error(errors, err)),
{
    let after = monitor::with_error(errors, err);
    if monitor::in_bounds(errors) {
        assert forall|i: int| 0 <= i < after.len() - 1 implies #[trigger] after[i] != after[i
            + 1] by {
            if errors.len() > 0 && errors.last() == err {
            } else if errors.len() >= MAX_ERRORS {
                assert(after[i] == errors[i + 1]);
                if i + 1 < after.len() - 1 {
                    assert(after[i + 1] == errors[i + 2]);
                }
            } else {
                assert(after[i] == errors[i]);
            }
        }
    }
}

proof fn lemma_opt_error_in_bounds(errors: Seq<Seq<char>>, err: Option<Seq<char>>)
    requires
        monitor::in_bounds(errors),
    ensures
        monitor::in_bounds(monitor::with_opt_error(errors, err)),
{
    if let Some(e) = err {
        law_errors_deduplicated_and_capped(errors, e);
    }
}

/// A list of errors keeps its bounds however many are added.
pub proof fn law_added_errors_in_bounds(errors: Seq<Seq<char>>, added: Seq<Seq<char>>)
    requires
        monitor::in_bounds(errors),
    ensures
        monitor::in_bounds(monitor::with_errors(errors, added)),
    decreases added.len(),
{
    if added.len() > 0 {
        law_added_errors_in_bounds(errors, added.drop_last());
        law_errors_deduplicated_and_capped(
            monitor::with_errors(errors, added.drop_last()),
            added.last(),
        );
    }
}

/// The messages without those that repeat the one before them.
pub open spec fn collapsed(msgs: Seq<Seq<char>>) -> Seq<Seq<char>>
    decreases msgs.len(),
{
    if msgs.len() == 0 {
        Seq::empty()
    } else {
        let before = collapsed(msgs.drop_last());
        if before.len() > 0 && before.last() == msgs.last() {
            before
        } else {
            before.push(msgs.last())
        }
    }
}

/// The newest of the messages, as many as are kept.
pub open spec fn newest(msgs: Seq<Seq<char>>) -> Seq<Seq<char>> {
    if msgs.len() <= MAX_ERRORS {
        msgs
    } else {
        msgs.skip(msgs.len() - MAX_ERRORS)
    }
}

proof fn lemma_collapsed_in_bounds(errors: Seq<Seq<char>>)
    requires
        monitor::in_bounds(errors),
    ensures
        collapsed(errors) == errors,
    decreases errors.len(),
{
    if errors.len() > 0 {
        let front = errors.drop_last();
        assert forall|i: int| 0 <= i < front.len() - 1 implies #[trigger] front[i] != front[i
            + 1] by {
            assert(errors[i] != errors[i + 1]);
        }
        lemma_collapsed_in_bounds(front);
        if front.len() > 0 {
            assert(errors[errors.len() - 2] != errors[errors.len() - 2 + 1]);
        }
        assert(collapsed(errors) =~= errors);
    }
}

/// What is kept of all errors are the newest ones, after repetitions in a row have been left out.
pub proof fn law_newest_errors_are_kept(errors: Seq<Seq<char>>, added: Seq<Seq<char>>)
    requires
        monitor::in_bounds(errors),
    ensures
        monitor::with_errors(errors, added) == newest(collapsed(errors + added)),
    decreases added.len(),
{
    if added.len() == 0 {
        assert(errors + added =~= errors);
        lemma_collapsed_in_bounds(errors);
    } else {
        let front = added.drop_last();
        law_newest_errors_are_kept(errors, front);
        assert((errors + added).drop_last() =~= errors + front);
        let before = collapsed(errors + front);
        assert(before.len() > 0 ==> newest(before).last() == before.last());
        assert(monitor::with_errors(errors, added) =~= newest(collapsed(errors + added)));
    }
}

/// Reading the values of a monitor keeps its list of errors within bounds.
pub proof fn law_reading_keeps_well_formed(
    m: monitor::MonitorView,
    replies: monitor::RepliesView,
)
    requires
        m.wf(),
    ensures
        m.read_values(replies).wf(),
{
    let brightness = monitor::control_error(VCP_BRIGHTNESS, replies.brightness);
    let contrast = monitor::control_error(VCP_CONTRAST, replies.contrast);
    let e1 = monitor::with_opt_error(m.errors, brightness);
    let e2 = monitor::with_opt_error(e1, contrast);
    lemma_opt_error_in_bounds(m.errors, brightness);
    lemma_opt_error_in_bounds(e1, contrast);
    lemma_opt_error_in_bounds(e2, monitor::input_error(replies.input));
}

/// A monitor that is well formed stays so through every operation, and a new one is.
pub proof fn law_monitor_stays_well_formed(
    m: monitor::MonitorView,
    info: monitor::DisplayInfoView,
    replies: monitor::RepliesView,
    fresh: monitor::MonitorView,
    code: FeatureCode,
    value: u16,
    readback: Option<u8>,
    err: Seq<char>,
    selected: u8,
    advertised: Seq<inputs::InputOptionView>,
    c: Control,
)
    requires
        m.wf(),
    ensures
        monitor::MonitorView::unknown().wf(),
        monitor::MonitorView::described(info).wf(),
        m.push_error(err).wf(),
        m.read_values(replies).wf(),
        m.apply_reload(fresh).wf(),
        m.set_ok(code, value, readback).wf(),
        m.set_err(code, value, err).wf(),
        m.select_input(selected).wf(),
        m.with_inputs(advertised).wf(),
        m.with_control(code, c).wf(),
        m.retried().wf(),
        m.cleared().wf(),
{
    law_errors_deduplicated_and_capped(m.errors, err);
    law_reading_keeps_well_formed(m, replies);
    law_added_errors_in_bounds(m.errors, fresh.errors);
    let requested = (value % 256) as u8;
    if let Some(actual) = readback {
        law_errors_deduplicated_and_capped(m.errors, monitor::wrong_input(requested, actual));
    }
    law_errors_deduplicated_and_capped(m.errors, monitor::set_error(code, value, err));
}

/// Whatever a monitor reports as its input can be selected, so it can be switched back to. All
/// that is advertised can be, too.
pub proof fn law_current_input_selectable(m: monitor::MonitorView)
    ensures
        m.input matches Some(cur) ==> inputs::has_code(m.input_options(), cur),
        m.inputs.len() > 0 ==> m.inputs.is_prefix_of(m.input_options()),
        m.inputs.len() == 0 ==> inputs::generic_options().is_prefix_of(m.input_options()),
{
    let options = m.input_options();
    let listed = if m.inputs.len() == 0 {
        inputs::generic_options()
    } else {
        m.inputs
    };
    assert(listed.is_prefix_of(options));
    if let Some(cur) = m.input {
        if !inputs::has_code(listed, cur) {
            assert(options[options.len() - 1].code == cur);
        }
    }
}

/// A control that was read shows what the monitor has, within its range, and has nothing to send.
pub proof fn law_read_control_in_range(reply: Result<VcpReply, Seq<char>>)
    ensures
        monitor::control_of(reply) matches Some(c) ==> c.value <= c.max && c.max > 0 && c.applied
            == c.value && !c.outdated(),
{
}

/// A reload leaves alone what only the user interface knows: the names, the list of inputs, the
/// failures, and the selection unless the monitor now shows what was selected.
pub proof fn law_reload_keeps_ui_state(m: monitor::MonitorView, fresh: monitor::MonitorView)
    ensures
        m.apply_reload(fresh).name == m.name,
        m.apply_reload(fresh).ident == m.ident,
        m.apply_reload(fresh).inputs == m.inputs,
        m.apply_reload(fresh).failures == m.failures,
        m.pending_input != fresh.input ==> m.apply_reload(fresh).pending_input == m.pending_input,
        m.pending_input == fresh.input ==> m.apply_reload(fresh).pending_input is None,
{
}

/// A monitor locks out its controls with the third failure in a row, whatever was to be written,
/// and further failures do not unlock them.
pub proof fn law_three_failures_lock_out(
    m: monitor::MonitorView,
    code1: FeatureCode,
    value1: u16,
    err1: Seq<char>,
    code2: FeatureCode,
    value2: u16,
    err2: Seq<char>,
    code3: FeatureCode,
    value3: u16,
    err3: Seq<char>,
)
    ensures
        m.set_err(code1, value1, err1).set_err(code2, value2, err2).set_err(
            code3,
            value3,
            err3,
        ).locked_out(),
        m.failures == 0 ==> !m.set_err(code1, value1, err1).set_err(
            code2,
            value2,
            err2,
        ).locked_out(),
        m.locked_out() ==> m.set_err(code1, value1, err1).locked_out(),
{
}

/// A write that succeeds starts the count of failures anew.
pub proof fn law_success_unlocks(
    m: monitor::MonitorView,
    code: FeatureCode,
    value: u16,
    readback: Option<u8>,
)
    ensures
        m.set_ok(code, value, readback).failures == 0,
        !m.set_ok(code, value, readback).locked_out(),
{
}

/// A slider whose write failed shows the confirmed value again, with nothing left to send.
pub proof fn law_failed_write_reverts(
    m: monitor::MonitorView,
    code: FeatureCode,
    value: u16,
    err: Seq<char>,
)
    ensures
        (m.control(code) matches Some(c) ==> m.set_err(code, value, err).control(code) == Some(
            Control { value: c.applied, last_sent_value: None, ..c },
        )),
        (m.set_err(code, value, err).control(code) matches Some(c) ==> c.value == c.applied
            && !c.outdated()),
        m.set_err(code, value, err).input == m.input,
        m.set_err(code, value, err).pending_input == m.pending_input,
{
}

/// A slider whose write was confirmed has nothing left to send, if it still shows the value.
pub proof fn law_confirmed_write_settles(
    m: monitor::MonitorView,
    code: FeatureCode,
    value: u16,
    readback: Option<u8>,
)
    requires
        m.control(code) matches Some(c) && c.value == value && (c.last_sent_value is None
            || c.last_sent_value == Some(value)),
    ensures
        m.set_ok(code, value, readback).control(code) matches Some(c) && c.applied == value
            && !c.outdated(),
        m.set_ok(code, value, readback).errors == m.errors,
{
}

/// After an input switch the selection is settled: the monitor's own report counts, and where
/// it is missing, the input that was asked for. Only a report of another input is an error.
pub proof fn law_input_switch_settles(m: monitor::MonitorView, requested: u8, readback: Option<u8>)
    ensures
        ({
            let after = m.set_ok(VCP_INPUT_SOURCE, requested as u16, readback);
            &&& after.pending_input is None
            &&& readback is None ==> after.input == Some(requested)
            &&& readback is Some ==> after.input == readback
            &&& after.selected_input() == after.input
            &&& (readback is None || readback == Some(requested)) ==> after.errors == m.errors
            &&& (readback matches Some(actual) ==> actual != requested ==> after.errors.last()
                == monitor::wrong_input(requested, actual))
        }),
{
    if let Some(actual) = readback {
        law_errors_deduplicated_and_capped(m.errors, monitor::wrong_input(requested, actual));
    }
}

/// A retry makes the controls usable again and clearing the errors does not; neither touches
/// anything else.
pub proof fn law_retry_unlocks(m: monitor::MonitorView)
    ensures
        !m.retried().locked_out(),
        m.retried() == (monitor::MonitorView { failures: 0, ..m }),
        m.cleared().locked_out() == m.locked_out(),
        m.cleared() == (monitor::MonitorView { errors: Seq::empty(), ..m }),
{
}

/// To choose an input and then the current one again leaves nothing to switch to; what is
/// chosen is what the dropdown shows.
pub proof fn law_selection(m: monitor::MonitorView, selected: u8)
    requires
        m.input is Some,
    ensures
        m.select_input(selected).selected_input() == Some(selected),
        m.select_input(selected).select_input(m.input->0).pending_input is None,
        m.select_input(selected).pending_input is Some <==> Some(selected) != m.input,
        m.select_input(selected).switch_target() == (if Some(selected) != m.input {
            Some(selected)
        } else {
            None
        }),
{
}

/// A monitor whose input cannot be read offers no input to switch to, whatever was chosen before.
pub proof fn law_unreadable_input_has_no_switch(
    m: monitor::MonitorView,
    fresh: monitor::MonitorView,
)
    requires
        fresh.input is None,
    ensures
        m.apply_reload(fresh).selected_input() is None,
        m.apply_reload(fresh).switch_target() is None,
{
}

/// A noted error comes last, all that was noted before stays in front of it, and nothing else of
/// the monitor changes. An error that repeats the last one changes nothing. Where six are noted
/// already, the oldest goes.
pub proof fn law_noted_error(m: monitor::MonitorView, err: Seq<char>)
    ensures
        ({
            let after = m.push_error(err);
            let repeats = m.errors.len() > 0 && m.errors.last() == err;
            &&& repeats ==> after == m
            &&& !repeats && m.errors.len() < 6 ==> after.errors == m.errors + seq![err]
            &&& !repeats && m.errors.len() >= 6 ==> after.errors == m.errors.skip(1) + seq![err]
            &&& after == (monitor::MonitorView { errors: after.errors, ..m })
        }),
{
    let after = m.push_error(err);
    if !(m.errors.len() > 0 && m.errors.last() == err) {
        if m.errors.len() < 6 {
            assert(after.errors =~= m.errors + seq![err]);
        } else {
            assert(after.errors =~= m.errors.skip(1) + seq![err]);
        }
    }
}

/// A reply with a maximum above zero is a control with that maximum, which shows the value as
/// it was reported, or the maximum if the value is above it. The value counts as confirmed, and
/// nothing counts as sent. A maximum of zero, and an error, are no control.
pub proof fn law_control_shows_what_was_reported(reply: Result<VcpReply, Seq<char>>)
    ensures
        (reply matches Ok(v) ==> {
            let max = 256 * v.mh + v.ml;
            let value = 256 * v.sh + v.sl;
            &&& max == 0 ==> monitor::control_of(reply) is None
            &&& max > 0 ==> {
                &&& monitor::control_of(reply) matches Some(c)
                &&& c.max == max
                &&& value <= max ==> c.value == value
                &&& value > max ==> c.value == max
                &&& c.applied == c.value
                &&& c.last_sent_value is None
                &&& c.last_sent_at is None
            }
        }),
        reply is Err ==> monitor::control_of(reply) is None,
{
}

/// The input is the low byte of the reply, whatever the other bytes are.
pub proof fn law_input_is_the_low_byte(reply: Result<VcpReply, Seq<char>>)
    ensures
        (reply matches Ok(v) ==> monitor::input_of(reply) == Some(v.sl)),
        reply is Err ==> monitor::input_of(reply) is None,
{
}

/// What there is to complain of in a reply about the slider with the given name.
pub open spec fn slider_complaint(name: Seq<char>, reply: Result<VcpReply, Seq<char>>) -> Seq<
    Seq<char>,
> {
    match reply {
        Ok(v) => if v.mh == 0 && v.ml == 0 {
            seq![name + ": monitor reported a maximum of 0"@]
        } else {
            Seq::empty()
        },
        Err(e) => seq![name + ": "@ + e],
    }
}

/// What there is to complain of in a reply about the input.
pub open spec fn input_complaint(reply: Result<VcpReply, Seq<char>>) -> Seq<Seq<char>> {
    match reply {
        Ok(_) => Seq::empty(),
        Err(e) => seq!["input: "@ + e],
    }
}

proof fn lemma_one_more(errors: Seq<Seq<char>>, added: Seq<Seq<char>>, one: Option<Seq<char>>)
    ensures
        ({
            let more = match one {
                Some(e) => seq![e],
                None => Seq::empty(),
            };
            monitor::with_opt_error(monitor::with_errors(errors, added), one)
                == monitor::with_errors(errors, added + more)
        }),
{
    match one {
        Some(e) => {
            assert((added + seq![e]).drop_last() =~= added);
        },
        None => {
            assert(added + Seq::<Seq<char>>::empty() =~= added);
        },
    }
}

/// Each value of a monitor comes from the reply about it, and from no other: the sliders, and the
/// input. What was wrong with the replies is noted in the order of brightness, contrast and input.
/// The names, the chosen input, the list of inputs and the failures are not touched.
pub proof fn law_values_come_from_their_replies(
    m: monitor::MonitorView,
    replies: monitor::RepliesView,
)
    ensures
        ({
            let after = m.read_values(replies);
            &&& after.brightness == monitor::control_of(replies.brightness)
            &&& after.contrast == monitor::control_of(replies.contrast)
            &&& after.input == (match replies.input {
                Ok(v) => Some(v.sl),
                Err(_) => None,
            })
            &&& after.errors == monitor::with_errors(
                m.errors,
                slider_complaint("brightness"@, replies.brightness) + slider_complaint(
                    "contrast"@,
                    replies.contrast,
                ) + input_complaint(replies.input),
            )
            &&& after.name == m.name
            &&& after.ident == m.ident
            &&& after.pending_input == m.pending_input
            &&& after.inputs == m.inputs
            &&& after.failures == m.failures
        }),
{
    let b = monitor::control_error(VCP_BRIGHTNESS, replies.brightness);
    let c = monitor::control_error(VCP_CONTRAST, replies.contrast);
    let i = monitor::input_error(replies.input);
    let bs = slider_complaint("brightness"@, replies.brightness);
    let cs = slider_complaint("contrast"@, replies.contrast);
    let none = Seq::<Seq<char>>::empty();
    lemma_one_more(m.errors, none, b);
    assert(none + bs =~= bs);
    lemma_one_more(m.errors, bs, c);
    lemma_one_more(m.errors, bs + cs, i);
}

/// A newly found display has its names and nothing else, until its values are read.
pub proof fn law_described_display(info: monitor::DisplayInfoView)
    ensures
        ({
            let m = monitor::MonitorView::described(info);
            &&& m.name == monitor::display_name(info)
            &&& m.ident == monitor::display_ident(info)
            &&& m.brightness is None && m.contrast is None && m.input is None
            &&& m.pending_input is None && m.failures == 0
            &&& m.inputs.len() == 0 && m.errors.len() == 0
            &&& monitor::MonitorView::unknown() == (monitor::MonitorView {
                name: Seq::empty(),
                ident: Seq::empty(),
                ..m
            })
        }),
{
}

/// A display is called by its model name, whatever else is known; without one by the four digits
/// of its model number; without either it has no name of its own.
pub proof fn law_display_name(info: monitor::DisplayInfoView)
    ensures
        (info.model_name matches Some(name) ==> monitor::display_name(info) == name),
        (info.model_name is None ==> (info.model_id matches Some(id) ==> monitor::display_name(info)
            == "model 0x"@ + crate::text::hex_word(id))),
        info.model_name is None && info.model_id is None ==> monitor::display_name(info)
            == "Unknown display"@,
{
}

/// Manufacturer and serial number stand in front of what tells the display apart without them, in
/// this order. Without both that is the path of its device, or the bare identifier.
pub proof fn law_display_ident(info: monitor::DisplayInfoView)
    ensures
        (info.manufacturer_id matches Some(id) ==> monitor::display_ident(info) == id + " · "@
            + monitor::display_ident(
            monitor::DisplayInfoView { manufacturer_id: None, ..info },
        )),
        (info.manufacturer_id is None ==> (info.serial_number matches Some(number)
            ==> monitor::display_ident(info) == "S/N "@ + number + " · "@ + monitor::display_ident(
            monitor::DisplayInfoView { serial_number: None, ..info },
        ))),
        info.manufacturer_id is None && info.serial_number is None ==> monitor::display_ident(info)
            == (match crate::device::i2c_path(info.id) {
            Some(path) => path,
            None => "id "@ + info.id,
        }),
{
    let none = Seq::<char>::empty();
    if let Some(id) = info.manufacturer_id {
        let rest = monitor::display_ident(
            monitor::DisplayInfoView { manufacturer_id: None, ..info },
        );
        assert(monitor::display_ident(info) =~= id + " · "@ + rest);
    } else if let Some(number) = info.serial_number {
        let rest = monitor::display_ident(
            monitor::DisplayInfoView { serial_number: None, ..info },
        );
        assert(monitor::display_ident(info) =~= "S/N "@ + number + " · "@ + rest);
    } else {
        assert(monitor::display_ident(info) =~= match crate::device::i2c_path(info.id) {
            Some(path) => path,
            None => "id "@ + info.id,
        });
    }
}

/// A reload takes over all values as they were read, sliders and input, even those that could not
/// be read, and notes the errors behind those that are there.
pub proof fn law_reload_takes_over_values(m: monitor::MonitorView, fresh: monitor::MonitorView)
    ensures
        m.apply_reload(fresh).brightness == fresh.brightness,
        m.apply_reload(fresh).contrast == fresh.contrast,
        m.apply_reload(fresh).input == fresh.input,
        m.apply_reload(fresh).errors == monitor::with_errors(m.errors, fresh.errors),
        m.wf() ==> m.apply_reload(fresh).errors == newest(collapsed(m.errors + fresh.errors)),
        fresh.errors.len() == 0 ==> m.apply_reload(fresh).errors == m.errors,
{
    if m.wf() {
        law_newest_errors_are_kept(m.errors, fresh.errors);
    }
}

/// Brightness and contrast have a control each, and no other feature has one. To change the
/// control of one leaves all else as it is.
pub proof fn law_controls_by_feature(m: monitor::MonitorView, code: FeatureCode, c: Control)
    ensures
        code == 0x10 ==> m.control(code) == m.brightness && m.with_control(code, c) == (
        monitor::MonitorView { brightness: Some(c), ..m }),
        code == 0x12 ==> m.control(code) == m.contrast && m.with_control(code, c) == (
        monitor::MonitorView { contrast: Some(c), ..m }),
        code != 0x10 && code != 0x12 ==> m.control(code) is None && m.with_control(code, c) == m,
{
}

/// The confirmation of a brightness or contrast write changes nothing of its control but the
/// confirmed value, also where the slider has moved on or something else was sent meanwhile, and
/// nothing of the monitor but that control and the count of failures.
pub proof fn law_confirmation_changes_confirmed_value_only(
    m: monitor::MonitorView,
    value: u16,
    readback: Option<u8>,
)
    ensures
        ({
            let after = m.set_ok(0x10, value, readback);
            &&& m.brightness is None ==> after.brightness is None
            &&& (m.brightness matches Some(c) ==> {
                &&& after.brightness matches Some(d)
                &&& d.applied == value
                &&& d.value == c.value
                &&& d.max == c.max
                &&& d.last_sent_value == c.last_sent_value
                &&& d.last_sent_at == c.last_sent_at
            })
            &&& after == (monitor::MonitorView { brightness: after.brightness, failures: 0, ..m })
        }),
        ({
            let after = m.set_ok(0x12, value, readback);
            &&& m.contrast is None ==> after.contrast is None
            &&& (m.contrast matches Some(c) ==> {
                &&& after.contrast matches Some(d)
                &&& d.applied == value
                &&& d.value == c.value
                &&& d.max == c.max
                &&& d.last_sent_value == c.last_sent_value
                &&& d.last_sent_at == c.last_sent_at
            })
            &&& after == (monitor::MonitorView { contrast: after.contrast, failures: 0, ..m })
        }),
{
}

/// The confirmation of an input switch touches no slider. The monitor is at the input that it
/// reports, or, where it reports none, at the one whose code is the low byte of what was written;
/// nothing is left chosen. A report of another input is noted under both names. A write to a
/// feature that has neither slider nor input only shows that the monitor takes writes.
pub proof fn law_input_confirmation(
    m: monitor::MonitorView,
    code: FeatureCode,
    value: u16,
    readback: Option<u8>,
)
    ensures
        ({
            let after = m.set_ok(0x60, value, readback);
            let requested = (value % 256) as u8;
            &&& (readback matches Some(actual) ==> after.input == Some(actual))
            &&& readback is None ==> after.input == Some(requested)
            &&& after.pending_input is None
            &&& readback is None || readback == Some(requested) ==> after.errors == m.errors
            &&& (readback matches Some(actual) ==> actual != requested ==> after.errors
                == m.push_error(
                "input: asked for "@ + inputs::label_of(requested) + " but monitor reports "@
                    + inputs::label_of(actual),
            ).errors)
            &&& after == (monitor::MonitorView {
                input: after.input,
                pending_input: None,
                errors: after.errors,
                failures: 0,
                ..m
            })
        }),
        code != 0x10 && code != 0x12 && code != 0x60 ==> m.set_ok(code, value, readback) == (
        monitor::MonitorView { failures: 0, ..m }),
{
}

/// A failed write counts as one more failure, as far as the counter goes, and is noted with the
/// feature, the value and the cause. Its slider, and no other, goes back to the confirmed value
/// and forgets what was sent, but not when; the confirmed value and the range stay. The input and
/// what was chosen stay.
pub proof fn law_failure_report(
    m: monitor::MonitorView,
    code: FeatureCode,
    value: u16,
    err: Seq<char>,
)
    ensures
        ({
            let after = m.set_err(code, value, err);
            &&& m.failures < 255 ==> after.failures == m.failures + 1
            &&& m.failures == 255 ==> after.failures == 255
            &&& after.errors == m.push_error(
                crate::vcp::name_of(code) + ": could not set "@ + crate::text::decimal(
                    value as nat,
                ) + ": "@ + err,
            ).errors
            &&& code != 0x10 ==> after.brightness == m.brightness
            &&& code != 0x12 ==> after.contrast == m.contrast
            &&& code == 0x10 ==> reverted(m.brightness, after.brightness)
            &&& code == 0x12 ==> reverted(m.contrast, after.contrast)
            &&& after == (monitor::MonitorView {
                brightness: after.brightness,
                contrast: after.contrast,
                errors: after.errors,
                failures: after.failures,
                ..m
            })
        }),
{
}

/// Whether a slider, if there is one, has gone back to the confirmed value.
pub open spec fn reverted(before: Option<Control>, after: Option<Control>) -> bool {
    match (before, after) {
        (Some(c), Some(d)) => {
            &&& d.value == c.applied
            &&& d.applied == c.applied
            &&& d.max == c.max
            &&& d.last_sent_value is None
            &&& d.last_sent_at == c.last_sent_at
        },
        (None, None) => true,
        _ => false,
    }
}

/// The controls are locked out from the third failure in a row on. They can be used exactly if
/// they are not, and no search is under way.
pub proof fn law_usable_controls(m: monitor::MonitorView, scanning: bool)
    ensures
        m.locked_out() <==> m.failures >= 3,
        m.enabled(scanning) <==> !scanning && m.failures < 3,
{
}

/// The dropdown shows what was chosen, or else the current input, and nothing where the current
/// input is unknown. Then nothing can be chosen either. A choice changes nothing but what is
/// chosen, and what is chosen is what can be switched to.
pub proof fn law_dropdown(m: monitor::MonitorView, selected: u8)
    ensures
        m.input is None ==> m.selected_input() is None && m.switch_target() is None
            && m.select_input(selected) == m,
        (m.input matches Some(current) ==> {
            &&& (m.pending_input matches Some(chosen) ==> m.selected_input() == Some(chosen))
            &&& m.pending_input is None ==> m.selected_input() == Some(current)
            &&& m.switch_target() == m.pending_input
            &&& m.select_input(selected) == (monitor::MonitorView {
                pending_input: m.select_input(selected).pending_input,
                ..m
            })
            &&& selected == current ==> m.select_input(selected).pending_input is None
            &&& selected != current ==> m.select_input(selected).pending_input == Some(selected)
        }),
{
}

/// The inputs to choose from are those that the monitor advertises, or the generic ones where it
/// advertises none, as they are; and behind them the current one, under its usual name, exactly if
/// it is not among them.
pub proof fn law_inputs_to_choose_from(
    m: monitor::MonitorView,
    listed: Seq<inputs::InputOptionView>,
)
    requires
        m.inputs.len() > 0 ==> listed == m.inputs,
        m.inputs.len() == 0 ==> listed == inputs::generic_options(),
    ensures
        m.input is None ==> m.input_options() == listed,
        (m.input matches Some(cur) ==> (exists|i: int|
            0 <= i < listed.len() && (#[trigger] listed[i]).code == cur) ==> m.input_options()
            == listed),
        (m.input matches Some(cur) ==> (forall|i: int|
            0 <= i < listed.len() ==> (#[trigger] listed[i]).code != cur) ==> m.input_options()
            == listed + seq![
            inputs::InputOptionView { code: cur, label: inputs::label_of(cur) },
        ]),
{
    if let Some(cur) = m.input {
        let one = inputs::InputOptionView { code: cur, label: inputs::label_of(cur) };
        assert(listed.push(one) =~= listed + seq![one]);
    }
}

} // verus!
