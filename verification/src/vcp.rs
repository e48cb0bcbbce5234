//! VCP features of a monitor and the values it reports for them.

use crate::text;
use vstd::prelude::*;
use vstd::string::*;

verus! {

/// The code of a VCP feature.
pub type FeatureCode = u8;

/// MCCS: Luminance.
pub const VCP_BRIGHTNESS: FeatureCode = 0x10;

/// MCCS: Contrast.
pub const VCP_CONTRAST: FeatureCode = 0x12;

/// MCCS: Input Select (non-continuous, the value is the SL byte).
pub const VCP_INPUT_SOURCE: FeatureCode = 0x60;

/// The bytes of a monitor's reply to a feature request.
#[derive(Clone, Copy, Debug, PartialEq, Eq, Structural)]
pub struct VcpReply {
    /// The type of the value, continuous or non-continuous.
    pub ty: u8,
    /// The high byte of the maximum.
    pub mh: u8,
    /// The low byte of the maximum.
    pub ml: u8,
    /// The high byte of the value.
    pub sh: u8,
    /// The low byte of the value.
    pub sl: u8,
}

impl VcpReply {
    /// The largest value that the feature takes.
    pub open spec fn spec_maximum(self) -> int {
        256 * self.mh + self.ml
    }

    /// The value that the feature has.
    pub open spec fn spec_value(self) -> int {
        256 * self.sh + self.sl
    }

    /// Calls `ddc_hi::VcpValue::maximum` on the bytes of the reply. It puts the two bytes of
    /// the maximum together, the high byte in front.
    #[verifier::external_body]
    pub(crate) fn maximum(&self) -> (max: u16)
        ensures
            max == self.spec_maximum(),
    {
        ddc_hi::VcpValue { ty: self.ty, mh: self.mh, ml: self.ml, sh: self.sh, sl: self.sl }
            .maximum()
    }

    /// Calls `ddc_hi::VcpValue::value` on the bytes of the reply. It puts the two bytes of the
    /// value together, the high byte in front.
    #[verifier::external_body]
    pub(crate) fn value(&self) -> (value: u16)
        ensures
            value == self.spec_value(),
    {
        ddc_hi::VcpValue { ty: self.ty, mh: self.mh, ml: self.ml, sh: self.sh, sl: self.sl }
            .value()
    }
}

/// What a feature is called in messages to the user.
pub open spec fn name_of(code: FeatureCode) -> Seq<char> {
    if code == VCP_BRIGHTNESS {
        "brightness"@
    } else if code == VCP_CONTRAST {
        "contrast"@
    } else if code == VCP_INPUT_SOURCE {
        "input"@
    } else {
        "feature"@
    }
}

/// What a feature is called in messages to the user.
pub fn feature_name(code: FeatureCode) -> (name: &'static str)
    ensures
        name@ == name_of(code),
{
    match code {
        VCP_BRIGHTNESS => "brightness",
        VCP_CONTRAST => "contrast",
        VCP_INPUT_SOURCE => "input",
        _ => "feature",
    }
}

/// The text beside a slider that shows the number `shown`.
pub open spec fn value_label(shown: Seq<char>, max: u16) -> Seq<char> {
    if max == 100 {
        shown + "%"@
    } else {
        shown + " / "@ + text::decimal(max as nat)
    }
}

/// A percentage is shown exactly where the maximum is a hundred; else the maximum follows the
/// number.
pub proof fn law_value_label(shown: Seq<char>, max: u16)
    ensures
        max == 100 ==> value_label(shown, max) == shown + "%"@,
        max != 100 ==> value_label(shown, max) == shown + " / "@ + text::decimal(max as nat),
{
}

/// The text beside a slider that shows the number `shown`: a percentage where the maximum is
/// a hundred, and else the number and the maximum.
pub fn format_value(shown: &str, max: u16) -> (label: String)
    ensures
        label@ == value_label(shown@, max),
        max == 100 ==> label@ == shown@ + "%"@,
        max != 100 ==> label@ == shown@ + " / "@ + text::decimal(max as nat),
{
    let mut label = shown.to_string();
    if max == 100 {
        label.append("%");
    } else {
        label.append(" / ");
        text::push_decimal(&mut label, max as u64);
    }
    label
}

/// The three features that are dealt with have names of their own, and all others share one.
pub proof fn law_feature_names(code: FeatureCode)
    ensures
        code == 0x10 ==> name_of(code) == "brightness"@,
        code == 0x12 ==> name_of(code) == "contrast"@,
        code == 0x60 ==> name_of(code) == "input"@,
        code != 0x10 && code != 0x12 && code != 0x60 ==> name_of(code) == "feature"@,
{
}

} // verus!
