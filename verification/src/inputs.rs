//! Input sources of a monitor.

use crate::text;
use vstd::prelude::*;
use vstd::string::*;

verus! {

/// MCCS 2.x input-source codes. Used as the fallback list when the monitor's capabilities
/// cannot be read, and for labelling.
pub const INPUT_SOURCES: [(u8, &'static str); 20] = [
    (0x01, "VGA-1"),
    (0x02, "VGA-2"),
    (0x03, "DVI-1"),
    (0x04, "DVI-2"),
    (0x05, "Composite-1"),
    (0x06, "Composite-2"),
    (0x07, "S-Video-1"),
    (0x08, "S-Video-2"),
    (0x09, "Tuner-1"),
    (0x0A, "Tuner-2"),
    (0x0B, "Tuner-3"),
    (0x0C, "Component-1"),
    (0x0D, "Component-2"),
    (0x0E, "Component-3"),
    (0x0F, "DisplayPort-1"),
    (0x10, "DisplayPort-2"),
    (0x11, "HDMI-1"),
    (0x12, "HDMI-2"),
    (0x19, "USB-C-1"),
    (0x1B, "USB-C-2"),
];

/// An input that can be selected.
#[derive(Clone, Debug, PartialEq)]
pub struct InputOption {
    pub code: u8,
    pub label: String,
}

/// What an [`InputOption`] holds.
pub struct InputOptionView {
    pub code: u8,
    pub label: Seq<char>,
}

impl View for InputOption {
    type V = InputOptionView;

    open spec fn view(&self) -> InputOptionView {
        InputOptionView { code: self.code, label: self.label@ }
    }
}

/// What a list of options holds.
pub open spec fn options_view(options: Seq<InputOption>) -> Seq<InputOptionView> {
    options.map_values(|o: InputOption| o@)
}

/// Whether some option has the code `code`.
pub open spec fn has_code(options: Seq<InputOptionView>, code: u8) -> bool {
    exists|i: int| 0 <= i < options.len() && (#[trigger] options[i]).code == code
}

/// Whether entry `i` of the table is about `code`.
pub open spec fn is_source(i: int, code: u8) -> bool {
    0 <= i < INPUT_SOURCES@.len() && INPUT_SOURCES@[i].0 == code
}

/// The name of an input: the one in the table, or else its code in hexadecimal.
pub open spec fn label_of(code: u8) -> Seq<char> {
    if exists|i: int| is_source(i, code) {
        INPUT_SOURCES@[choose|i: int| is_source(i, code)].1@
    } else {
        "Unknown (0x"@ + text::hex_byte(code) + ")"@
    }
}

/// The whole table as options.
pub open spec fn generic_options() -> Seq<InputOptionView> {
    Seq::new(
        INPUT_SOURCES@.len(),
        |i: int| InputOptionView { code: INPUT_SOURCES@[i].0, label: INPUT_SOURCES@[i].1@ },
    )
}

/// No code stands in the table twice, and the label of each is the name beside it.
pub proof fn law_table_labels(i: int)
    requires
        0 <= i < INPUT_SOURCES@.len(),
    ensures
        forall|j: int| is_source(j, INPUT_SOURCES@[i].0) ==> j == i,
        label_of(INPUT_SOURCES@[i].0) == INPUT_SOURCES@[i].1@,
{
    assert forall|j: int| is_source(j, INPUT_SOURCES@[i].0) implies j == i by {
        assert(INPUT_SOURCES@[j].0 == INPUT_SOURCES@[i].0);
    }
    assert(is_source(i, INPUT_SOURCES@[i].0));
}

/// Different entries of the table have different names, all of them shorter than the label of a
/// code that is not in the table.
proof fn lemma_table_names()
    ensures
        forall|i: int|
            0 <= i < INPUT_SOURCES@.len() ==> (#[trigger] INPUT_SOURCES@[i]).1@.len() <= 13,
        forall|i: int, j: int|
            0 <= i < j < INPUT_SOURCES@.len() ==> (#[trigger] INPUT_SOURCES@[i]).1@ != (
            #[trigger] INPUT_SOURCES@[j]).1@,
{
    reveal_strlit("VGA-1");
    reveal_strlit("VGA-2");
    reveal_strlit("DVI-1");
    reveal_strlit("DVI-2");
    reveal_strlit("Composite-1");
    reveal_strlit("Composite-2");
    reveal_strlit("S-Video-1");
    reveal_strlit("S-Video-2");
    reveal_strlit("Tuner-1");
    reveal_strlit("Tuner-2");
    reveal_strlit("Tuner-3");
    reveal_strlit("Component-1");
    reveal_strlit("Component-2");
    reveal_strlit("Component-3");
    reveal_strlit("DisplayPort-1");
    reveal_strlit("DisplayPort-2");
    reveal_strlit("HDMI-1");
    reveal_strlit("HDMI-2");
    reveal_strlit("USB-C-1");
    reveal_strlit("USB-C-2");
    // Length, first letter, last digit and the sixth character tell the names apart.
    assert forall|i: int, j: int| 0 <= i < j < INPUT_SOURCES@.len() implies (
    #[trigger] INPUT_SOURCES@[i]).1@ != (#[trigger] INPUT_SOURCES@[j]).1@ by {
        let a = INPUT_SOURCES@[i].1@;
        let b = INPUT_SOURCES@[j].1@;
        assert(a.len() != b.len() || a[0] != b[0] || a.last() != b.last() || (a.len() == 11 && a[5]
            != b[5]));
    }
}

/// Two inputs never have the same label.
pub proof fn law_labels_are_distinct(a: u8, b: u8)
    requires
        a != b,
    ensures
        label_of(a) != label_of(b),
{
    lemma_table_names();
    reveal_strlit("Unknown (0x");
    reveal_strlit(")");
    let i = choose|i: int| is_source(i, a);
    let j = choose|j: int| is_source(j, b);
    let known_a = exists|i: int| is_source(i, a);
    let known_b = exists|j: int| is_source(j, b);
    if known_a && known_b {
        assert(i != j);
    } else if !known_a && !known_b {
        assert(label_of(a)[11] == text::upper_digit(a as int / 16));
        assert(label_of(a)[12] == text::upper_digit(a as int % 16));
        assert(label_of(b)[11] == text::upper_digit(b as int / 16));
        assert(label_of(b)[12] == text::upper_digit(b as int % 16));
    } else if known_a {
        assert(label_of(b).len() == 14);
    } else {
        assert(label_of(a).len() == 14);
    }
}

/// The name of the input with the given code.
pub fn input_label(code: u8) -> (label: String)
    ensures
        label@ == label_of(code),
        forall|i: int|
            0 <= i < INPUT_SOURCES@.len() && (#[trigger] INPUT_SOURCES@[i]).0 == code ==> label@
                == INPUT_SOURCES@[i].1@,
{
    let mut i: usize = 0;
    while i < INPUT_SOURCES.len()
        invariant
            i <= INPUT_SOURCES@.len(),
            forall|j: int| 0 <= j < i ==> !is_source(j, code),
        decreases INPUT_SOURCES@.len() - i,
    {
        if INPUT_SOURCES[i].0 == code {
            proof {
                law_table_labels(i as int);
            }
            return INPUT_SOURCES[i].1.to_string();
        }
        i = i + 1;
    }
    assert(forall|j: int|
        0 <= j < INPUT_SOURCES@.len() && (#[trigger] INPUT_SOURCES@[j]).0 == code ==> is_source(
            j,
            code,
        ));
    let mut label = "Unknown (0x".to_string();
    text::push_hex_byte(&mut label, code);
    label.append(")");
    label
}

/// The whole table as options.
pub(crate) fn generic_inputs() -> (options: Vec<InputOption>)
    ensures
        options_view(options@) == generic_options(),
{
    let mut options: Vec<InputOption> = Vec::new();
    let mut i: usize = 0;
    while i < INPUT_SOURCES.len()
        invariant
            i <= INPUT_SOURCES@.len(),
            options@.len() == i,
            forall|j: int| 0 <= j < i ==> (#[trigger] options@[j])@ == generic_options()[j],
        decreases INPUT_SOURCES@.len() - i,
    {
        options.push(
            InputOption { code: INPUT_SOURCES[i].0, label: INPUT_SOURCES[i].1.to_string() },
        );
        i = i + 1;
    }
    assert(options_view(options@) =~= generic_options());
    options
}

/// A copy of a list of options.
pub(crate) fn copy_options(options: &Vec<InputOption>) -> (copy: Vec<InputOption>)
    ensures
        options_view(copy@) == options_view(options@),
{
    let mut copy: Vec<InputOption> = Vec::new();
    let mut i: usize = 0;
    while i < options.len()
        invariant
            i <= options@.len(),
            copy@.len() == i,
            forall|j: int| 0 <= j < i ==> (#[trigger] copy@[j])@ == options@[j]@,
        decreases options@.len() - i,
    {
        copy.push(InputOption { code: options[i].code, label: options[i].label.clone() });
        i = i + 1;
    }
    assert(options_view(copy@) =~= options_view(options@));
    copy
}

/// Whether some option has the code `code`.
pub(crate) fn lists_code(options: &Vec<InputOption>, code: u8) -> (found: bool)
    ensures
        found == has_code(options_view(options@), code),
{
    let mut i: usize = 0;
    while i < options.len()
        invariant
            i <= options@.len(),
            forall|j: int| 0 <= j < i ==> (#[trigger] options@[j]).code != code,
        decreases options@.len() - i,
    {
        if options[i].code == code {
            assert(options_view(options@)[i as int].code == code);
            return true;
        }
        i = i + 1;
    }
    assert forall|j: int| 0 <= j < options@.len() implies (#[trigger] options_view(
        options@,
    )[j]).code != code by {
        assert(options@[j].code != code);
    }
    false
}

/// The name that the MCCS standard has for an input, if it has one.
pub open spec fn mccs_name(code: u8) -> Option<Seq<char>> {
    match code {
        0x01 => Some("VGA-1"@),
        0x02 => Some("VGA-2"@),
        0x03 => Some("DVI-1"@),
        0x04 => Some("DVI-2"@),
        0x05 => Some("Composite-1"@),
        0x06 => Some("Composite-2"@),
        0x07 => Some("S-Video-1"@),
        0x08 => Some("S-Video-2"@),
        0x09 => Some("Tuner-1"@),
        0x0A => Some("Tuner-2"@),
        0x0B => Some("Tuner-3"@),
        0x0C => Some("Component-1"@),
        0x0D => Some("Component-2"@),
        0x0E => Some("Component-3"@),
        0x0F => Some("DisplayPort-1"@),
        0x10 => Some("DisplayPort-2"@),
        0x11 => Some("HDMI-1"@),
        0x12 => Some("HDMI-2"@),
        0x19 => Some("USB-C-1"@),
        0x1B => Some("USB-C-2"@),
        _ => None,
    }
}

/// Every input has the name that the standard has for it. Any other is unknown, and its label
/// ends in its two hexadecimal digits.
pub proof fn law_labels_follow_the_standard(code: u8)
    ensures
        (mccs_name(code) matches Some(name) ==> label_of(code) == name),
        mccs_name(code) is None ==> label_of(code) == "Unknown (0x"@ + text::hex_byte(code)
            + ")"@,
{
    if exists|i: int| is_source(i, code) {
        let i = choose|i: int| is_source(i, code);
        law_table_labels(i);
    } else {
        assert(is_source(0, 0x01));
        assert(is_source(1, 0x02));
        assert(is_source(2, 0x03));
        assert(is_source(3, 0x04));
        assert(is_source(4, 0x05));
        assert(is_source(5, 0x06));
        assert(is_source(6, 0x07));
        assert(is_source(7, 0x08));
        assert(is_source(8, 0x09));
        assert(is_source(9, 0x0A));
        assert(is_source(10, 0x0B));
        assert(is_source(11, 0x0C));
        assert(is_source(12, 0x0D));
        assert(is_source(13, 0x0E));
        assert(is_source(14, 0x0F));
        assert(is_source(15, 0x10));
        assert(is_source(16, 0x11));
        assert(is_source(17, 0x12));
        assert(is_source(18, 0x19));
        assert(is_source(19, 0x1B));
    }
}

/// The generic list offers each input that the standard names, under its name, in the order of
/// the codes, and nothing else.
pub proof fn law_generic_list(code: u8)
    ensures
        has_code(generic_options(), code) <==> mccs_name(code) is Some,
        forall|i: int|
            0 <= i < generic_options().len() ==> mccs_name((#[trigger] generic_options()[i]).code)
                == Some(generic_options()[i].label),
        forall|i: int, j: int|
            0 <= i < j < generic_options().len() ==> (#[trigger] generic_options()[i]).code < (
            #[trigger] generic_options()[j]).code,
{
    assert forall|i: int| 0 <= i < generic_options().len() implies mccs_name(
        (#[trigger] generic_options()[i]).code,
    ) == Some(generic_options()[i].label) by {
        law_table_labels(i);
        law_labels_follow_the_standard(generic_options()[i].code);
    }
    if mccs_name(code) is Some {
        assert(exists|i: int| is_source(i, code)) by {
            assert(is_source(0, 0x01));
            assert(is_source(1, 0x02));
            assert(is_source(2, 0x03));
            assert(is_source(3, 0x04));
            assert(is_source(4, 0x05));
            assert(is_source(5, 0x06));
            assert(is_source(6, 0x07));
            assert(is_source(7, 0x08));
            assert(is_source(8, 0x09));
            assert(is_source(9, 0x0A));
            assert(is_source(10, 0x0B));
            assert(is_source(11, 0x0C));
            assert(is_source(12, 0x0D));
            assert(is_source(13, 0x0E));
            assert(is_source(14, 0x0F));
            assert(is_source(15, 0x10));
            assert(is_source(16, 0x11));
            assert(is_source(17, 0x12));
            assert(is_source(18, 0x19));
            assert(is_source(19, 0x1B));
        }
        let i = choose|i: int| is_source(i, code);
        assert(generic_options()[i].code == code);
    }
}

} // verus!
