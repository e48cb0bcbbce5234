//! Single transactions with a monitor: what their outcomes mean, and when to try again.

use crate::inputs;
use crate::inputs::InputOption;
use crate::vcp::{VcpReply, VCP_INPUT_SOURCE};
use std::collections::BTreeMap;
use vstd::prelude::*;
use vstd::string::*;

verus! {

/// How often a read is tried before it is given up. Reads fail transiently.
pub const READ_ATTEMPTS: u8 = 2;

/// What came of one attempt to read a feature.
#[derive(Debug)]
pub enum ReadOutcome {
    Value(VcpReply),
    /// The transaction failed, with the error as text.
    Failed(String),
    /// The protocol layer panicked on a malformed reply.
    Panicked,
}

/// What a [`ReadOutcome`] holds.
pub enum ReadOutcomeView {
    Value(VcpReply),
    Failed(Seq<char>),
    Panicked,
}

impl View for ReadOutcome {
    type V = ReadOutcomeView;

    open spec fn view(&self) -> ReadOutcomeView {
        match self {
            ReadOutcome::Value(v) => ReadOutcomeView::Value(*v),
            ReadOutcome::Failed(e) => ReadOutcomeView::Failed(e@),
            ReadOutcome::Panicked => ReadOutcomeView::Panicked,
        }
    }
}

/// What a finished read is worth: the reply, or the error as text.
pub open spec fn result_view(r: Result<VcpReply, String>) -> Result<VcpReply, Seq<char>> {
    match r {
        Ok(v) => Ok(v),
        Err(e) => Err(e@),
    }
}

impl ReadOutcomeView {
    /// The outcome of an attempt that is not followed by another.
    pub open spec fn result(self) -> Result<VcpReply, Seq<char>> {
        match self {
            ReadOutcomeView::Value(v) => Ok(v),
            ReadOutcomeView::Failed(e) => Err(e),
            ReadOutcomeView::Panicked => Err("DDC layer panicked on a malformed reply"@),
        }
    }
}

/// A read that is under way: the number of attempts that have failed.
#[derive(Clone, Copy, Debug, PartialEq, Eq, Structural)]
pub struct VcpRead {
    pub failed: u8,
}

/// What follows an attempt to read.
pub enum ReadStep {
    /// Try once more.
    Retry(VcpRead),
    Done(Result<VcpReply, String>),
}

/// What a [`ReadStep`] holds.
pub enum ReadStepView {
    Retry(VcpRead),
    Done(Result<VcpReply, Seq<char>>),
}

impl View for ReadStep {
    type V = ReadStepView;

    open spec fn view(&self) -> ReadStepView {
        match self {
            ReadStep::Retry(read) => ReadStepView::Retry(*read),
            ReadStep::Done(r) => ReadStepView::Done(result_view(*r)),
        }
    }
}

impl VcpRead {
    /// A read of which no attempt has been made.
    pub open spec fn spec_new() -> VcpRead {
        VcpRead { failed: 0 }
    }

    /// What follows an attempt with the given outcome.
    pub open spec fn after(self, outcome: ReadOutcomeView) -> ReadStepView {
        if outcome is Value || self.failed + 1 >= READ_ATTEMPTS {
            ReadStepView::Done(outcome.result())
        } else {
            ReadStepView::Retry(VcpRead { failed: (self.failed + 1) as u8 })
        }
    }

    /// A read of which no attempt has been made.
    pub fn new() -> (read: VcpRead)
        ensures
            read == VcpRead::spec_new(),
    {
        VcpRead { failed: 0 }
    }

    /// Takes the outcome of an attempt. The first reply ends the read, and so does the last
    /// failure that is borne with.
    pub fn step(self, outcome: ReadOutcome) -> (next: ReadStep)
        ensures
            next@ == self.after(outcome@),
    {
        match outcome {
            ReadOutcome::Value(v) => ReadStep::Done(Ok(v)),
            ReadOutcome::Failed(e) => {
                if self.failed >= READ_ATTEMPTS - 1 {
                    ReadStep::Done(Err(e))
                } else {
                    ReadStep::Retry(VcpRead { failed: self.failed + 1 })
                }
            },
            ReadOutcome::Panicked => {
                if self.failed >= READ_ATTEMPTS - 1 {
                    ReadStep::Done(Err("DDC layer panicked on a malformed reply".to_string()))
                } else {
                    ReadStep::Retry(VcpRead { failed: self.failed + 1 })
                }
            },
        }
    }
}

/// A read is tried twice: a first reply ends it, and after a first failure the second attempt
/// decides, whatever comes of it.
pub proof fn law_read_tries_twice(first: ReadOutcomeView, second: ReadOutcomeView)
    ensures
        first is Value ==> VcpRead::spec_new().after(first) == ReadStepView::Done(first.result()),
        first !is Value ==> (VcpRead::spec_new().after(first) matches ReadStepView::Retry(read)
            && read.after(second) == ReadStepView::Done(second.result())),
{
}

/// What came of one attempt to write a feature.
#[derive(Debug)]
pub enum WriteOutcome {
    Written,
    /// The transaction failed, with the error as text.
    Failed(String),
    /// The protocol layer panicked.
    Panicked,
}

/// What a [`WriteOutcome`] holds.
pub enum WriteOutcomeView {
    Written,
    Failed(Seq<char>),
    Panicked,
}

impl View for WriteOutcome {
    type V = WriteOutcomeView;

    open spec fn view(&self) -> WriteOutcomeView {
        match self {
            WriteOutcome::Written => WriteOutcomeView::Written,
            WriteOutcome::Failed(e) => WriteOutcomeView::Failed(e@),
            WriteOutcome::Panicked => WriteOutcomeView::Panicked,
        }
    }
}

impl WriteOutcomeView {
    /// The error that a write ended in, if it did.
    pub open spec fn error(self) -> Option<Seq<char>> {
        match self {
            WriteOutcomeView::Written => None,
            WriteOutcomeView::Failed(e) => Some(e),
            WriteOutcomeView::Panicked => Some("DDC layer panicked"@),
        }
    }
}

/// What a write is worth. It is not tried again.
pub fn write_vcp(outcome: WriteOutcome) -> (r: Result<(), String>)
    ensures
        r is Ok == outcome@.error() is None,
        r matches Err(e) ==> outcome@.error() == Some(e@),
{
    match outcome {
        WriteOutcome::Written => Ok(()),
        WriteOutcome::Failed(e) => Err(e),
        WriteOutcome::Panicked => Err("DDC layer panicked".to_string()),
    }
}

/// A feature in a monitor's capabilities: the values that it takes, and their names where the
/// monitor gives them.
#[derive(Debug)]
pub struct VcpDescriptor {
    pub values: BTreeMap<u8, Option<String>>,
}

/// The features that a monitor says it has.
#[derive(Debug)]
pub struct Capabilities {
    pub vcp_features: BTreeMap<u8, VcpDescriptor>,
}

/// The values of a feature and their names.
pub open spec fn names_view(m: Map<u8, Option<String>>) -> Map<u8, Option<Seq<char>>> {
    m.map_values(|n: Option<String>| crate::text::opt_view(n))
}

impl View for Capabilities {
    type V = Map<u8, Map<u8, Option<Seq<char>>>>;

    open spec fn view(&self) -> Map<u8, Map<u8, Option<Seq<char>>>> {
        self.vcp_features@.map_values(|d: VcpDescriptor| names_view(d.values@))
    }
}

/// The inputs with a code below `bound`, in the order of their codes, each under the name
/// that the monitor gives it or else under its usual name.
pub open spec fn inputs_below(
    names: Map<u8, Option<Seq<char>>>,
    bound: int,
) -> Seq<inputs::InputOptionView>
    decreases bound,
{
    if bound <= 0 {
        Seq::empty()
    } else {
        let code = (bound - 1) as u8;
        if names.contains_key(code) {
            inputs_below(names, bound - 1).push(named_input(names, code))
        } else {
            inputs_below(names, bound - 1)
        }
    }
}

/// An input under the name that the monitor gives it or else under its usual name.
pub open spec fn named_input(
    names: Map<u8, Option<Seq<char>>>,
    code: u8,
) -> inputs::InputOptionView {
    inputs::InputOptionView {
        code,
        label: match names[code] {
            Some(name) => name,
            None => inputs::label_of(code),
        },
    }
}

/// The inputs that a monitor advertises in its capabilities. There are none to speak of where
/// it lists no input values.
pub open spec fn advertised(
    caps: Map<u8, Map<u8, Option<Seq<char>>>>,
) -> Option<Seq<inputs::InputOptionView>> {
    if caps.contains_key(VCP_INPUT_SOURCE) && !caps[VCP_INPUT_SOURCE].is_empty() {
        Some(inputs_below(caps[VCP_INPUT_SOURCE], 256))
    } else {
        None
    }
}

/// No code from `low` up to `high` is listed, so nothing comes in between.
proof fn lemma_no_inputs_between(names: Map<u8, Option<Seq<char>>>, low: int, high: int)
    requires
        0 <= low <= high <= 256,
        forall|c: u8| low <= c < high ==> !names.contains_key(c),
    ensures
        inputs_below(names, low) == inputs_below(names, high),
    decreases high - low,
{
    if low < high {
        lemma_no_inputs_between(names, low, high - 1);
    }
}

/// The keys of a map of codes come in ascending order.
proof fn lemma_ascending(keys: Seq<u8>)
    requires
        vstd::std_specs::btree::increasing_seq(keys),
    ensures
        forall|i: int, j: int| 0 <= i < j < keys.len() ==> keys[i] < keys[j],
{
    broadcast use vstd::std_specs::btree::group_btree_axioms;
    broadcast use vstd::laws_cmp::group_laws_cmp;

    assert(vstd::laws_cmp::obeys_cmp::<u8>());
    assert forall|i: int, j: int| 0 <= i < j < keys.len() implies keys[i] < keys[j] by {
        assert(vstd::std_specs::cmp::OrdSpec::cmp_spec(&keys[i], &keys[j]) is Less);
    }
}

/// Between one listed code and the next there is no other.
proof fn lemma_next_input(
    m: Map<u8, Option<String>>,
    listed: Seq<(&u8, &Option<String>)>,
    n: int,
    bound: int,
)
    requires
        0 <= n < listed.len(),
        vstd::std_specs::btree::increasing_seq(
            listed.map_values(|kv: (&u8, &Option<String>)| *kv.0),
        ),
        forall|k: u8| #[trigger] m.contains_key(k) ==> listed.contains((&k, &m[k])),
        bound == (if n == 0 {
            0
        } else {
            *listed[n - 1].0 + 1
        }),
    ensures
        bound <= *listed[n].0,
        inputs_below(names_view(m), bound) == inputs_below(names_view(m), *listed[n].0 as int),
{
    let keys = listed.map_values(|kv: (&u8, &Option<String>)| *kv.0);
    lemma_ascending(keys);
    if n > 0 {
        assert(keys[n - 1] < keys[n]);
    }
    assert forall|c: u8| bound <= c < *listed[n].0 implies !names_view(m).contains_key(c) by {
        if m.contains_key(c) {
            let i = choose|i: int| 0 <= i < listed.len() && listed[i] == (&c, &m[c]);
            assert(keys[i] == c);
            if i < n {
                assert(keys[i] <= keys[n - 1]);
            } else {
                assert(keys[n] <= keys[i]);
            }
        }
    }
    lemma_no_inputs_between(names_view(m), bound, *listed[n].0 as int);
}

/// The inputs in a list of values and their names.
fn list_inputs(values: &BTreeMap<u8, Option<String>>) -> (options: Vec<InputOption>)
    ensures
        inputs::options_view(options@) == inputs_below(names_view(values@), 256),
{
    broadcast use vstd::std_specs::btree::group_btree_axioms;
    broadcast use vstd::laws_cmp::group_laws_cmp;

    let mut options: Vec<InputOption> = Vec::new();
    let ghost names = names_view(values@);
    // One more than the last code that was listed.
    let ghost mut bound: int = 0;
    assert(vstd::laws_cmp::obeys_cmp::<u8>());
    for kv in it: values.iter()
        invariant
            vstd::std_specs::btree::key_obeys_cmp_spec::<u8>(),
            names == names_view(values@),
            vstd::std_specs::btree::increasing_seq(
                it.seq().map_values(|kv: (&u8, &Option<String>)| *kv.0),
            ),
            forall|k: u8| #[trigger]
                values@.contains_key(k) ==> it.seq().contains((&k, &values@[k])),
            forall|i: int|
                0 <= i < it.seq().len() ==> values@.contains_key(*(#[trigger] it.seq()[i]).0)
                    && values@[*it.seq()[i].0] == *it.seq()[i].1,
            bound == (if it.index() == 0 {
                0
            } else {
                *it.seq()[it.index() - 1].0 + 1
            }),
            inputs::options_view(options@) == inputs_below(names, bound),
            forall|k: u8| #[trigger]
                values@.contains_key(k) && bound <= k ==> exists|i: int|
                    it.index() <= i < it.seq().len() && *(#[trigger] it.seq()[i]).0 == k,
    {
        let label = match kv.1 {
            Some(name) => name.clone(),
            None => inputs::input_label(*kv.0),
        };
        options.push(InputOption { code: *kv.0, label });
        proof {
            lemma_next_input(values@, it.seq(), it.index(), bound);
            bound = *kv.0 + 1;
        }
    }
    proof {
        assert(forall|k: u8| #[trigger] values@.contains_key(k) ==> k < bound);
        lemma_no_inputs_between(names, bound, 256);
    }
    options
}

/// What an optional list of options holds.
pub open spec fn opt_options_view(o: Option<Vec<InputOption>>) -> Option<
    Seq<inputs::InputOptionView>,
> {
    match o {
        Some(options) => Some(inputs::options_view(options@)),
        None => None,
    }
}

/// The input sources that a monitor advertises in its capabilities, in the order of their codes.
pub fn supported_inputs(caps: &Capabilities) -> (options: Option<Vec<InputOption>>)
    ensures
        opt_options_view(options) == advertised(caps@),
{
    broadcast use vstd::std_specs::btree::group_btree_axioms;
    broadcast use vstd::laws_cmp::group_laws_cmp;

    assert(vstd::laws_cmp::obeys_cmp::<u8>());
    match caps.vcp_features.get(&VCP_INPUT_SOURCE) {
        None => None,
        Some(desc) => {
            assert(caps@[VCP_INPUT_SOURCE].dom() =~= desc.values@.dom());
            if desc.values.is_empty() {
                None
            } else {
                Some(list_inputs(&desc.values))
            }
        },
    }
}

/// A read of the capabilities that is under way: the number of attempts that have failed.
#[derive(Clone, Copy, Debug, PartialEq, Eq, Structural)]
pub struct CapabilitiesRead {
    pub failed: u8,
}

/// What follows an attempt to read the capabilities.
pub enum CapabilitiesStep {
    /// Try once more.
    Retry(CapabilitiesRead),
    /// The inputs that the monitor advertises, if it could be found out.
    Done(Option<Vec<InputOption>>),
}

/// What a [`CapabilitiesStep`] holds.
pub enum CapabilitiesStepView {
    Retry(CapabilitiesRead),
    Done(Option<Seq<inputs::InputOptionView>>),
}

impl View for CapabilitiesStep {
    type V = CapabilitiesStepView;

    open spec fn view(&self) -> CapabilitiesStepView {
        match self {
            CapabilitiesStep::Retry(read) => CapabilitiesStepView::Retry(*read),
            CapabilitiesStep::Done(options) => CapabilitiesStepView::Done(
                opt_options_view(*options),
            ),
        }
    }
}

/// What one attempt to read the capabilities gave; `None` if it failed.
pub open spec fn caps_view(caps: Option<Capabilities>) -> Option<
    Map<u8, Map<u8, Option<Seq<char>>>>,
> {
    match caps {
        Some(c) => Some(c@),
        None => None,
    }
}

impl CapabilitiesRead {
    /// A read of which no attempt has been made.
    pub open spec fn spec_new() -> CapabilitiesRead {
        CapabilitiesRead { failed: 0 }
    }

    /// What follows an attempt with the given outcome.
    pub open spec fn after(
        self,
        outcome: Option<Map<u8, Map<u8, Option<Seq<char>>>>>,
    ) -> CapabilitiesStepView {
        match outcome {
            Some(caps) => CapabilitiesStepView::Done(advertised(caps)),
            None => if self.failed + 1 >= READ_ATTEMPTS {
                CapabilitiesStepView::Done(None)
            } else {
                CapabilitiesStepView::Retry(CapabilitiesRead { failed: (self.failed + 1) as u8 })
            },
        }
    }

    /// A read of which no attempt has been made.
    pub fn new() -> (read: CapabilitiesRead)
        ensures
            read == CapabilitiesRead::spec_new(),
    {
        CapabilitiesRead { failed: 0 }
    }

    /// Takes the outcome of an attempt; `None` if it failed. The multi-fragment capabilities
    /// read is the flakiest transaction of all, so it is not given up at once.
    pub fn step(self, outcome: Option<Capabilities>) -> (next: CapabilitiesStep)
        ensures
            next@ == self.after(caps_view(outcome)),
    {
        match outcome {
            Some(caps) => CapabilitiesStep::Done(supported_inputs(&caps)),
            None => {
                if self.failed >= READ_ATTEMPTS - 1 {
                    CapabilitiesStep::Done(None)
                } else {
                    CapabilitiesStep::Retry(CapabilitiesRead { failed: self.failed + 1 })
                }
            },
        }
    }
}

/// The capabilities are asked for twice: the first that are read decide, and without any there
/// is no list of inputs.
pub proof fn law_capabilities_tried_twice(
    first: Option<Map<u8, Map<u8, Option<Seq<char>>>>>,
    second: Option<Map<u8, Map<u8, Option<Seq<char>>>>>,
)
    ensures
        first matches Some(caps) ==> CapabilitiesRead::spec_new().after(first)
            == CapabilitiesStepView::Done(advertised(caps)),
        first is None ==> (CapabilitiesRead::spec_new().after(
            first,
        ) matches CapabilitiesStepView::Retry(read) && read.after(second)
            == CapabilitiesStepView::Done(
            match second {
                Some(caps) => advertised(caps),
                None => None,
            },
        )),
{
}

/// The list of advertised inputs is in the order of the codes, holds each code that the monitor
/// lists and no other, under the name that the monitor gives it or else its usual name.
pub proof fn law_advertised_inputs(caps: Map<u8, Map<u8, Option<Seq<char>>>>)
    requires
        advertised(caps) is Some,
    ensures
        advertised(caps)->0.len() > 0,
        forall|i: int, j: int|
            0 <= i < j < advertised(caps)->0.len() ==> (#[trigger] advertised(caps)->0[i]).code < (
            #[trigger] advertised(caps)->0[j]).code,
        forall|i: int|
            0 <= i < advertised(caps)->0.len() ==> {
                let o = #[trigger] advertised(caps)->0[i];
                caps[VCP_INPUT_SOURCE].contains_key(o.code) && o == named_input(
                    caps[VCP_INPUT_SOURCE],
                    o.code,
                )
            },
        forall|code: u8| #[trigger]
            caps[VCP_INPUT_SOURCE].contains_key(code) ==> inputs::has_code(
                advertised(caps)->0,
                code,
            ),
{
    let names = caps[VCP_INPUT_SOURCE];
    lemma_inputs_below(names, 256);
    let code = names.dom().choose();
    assert(names.contains_key(code)) by {
        if forall|c: u8| !names.contains_key(c) {
            assert(names.dom() =~= Set::<u8>::empty());
        }
    }
    assert(inputs::has_code(inputs_below(names, 256), code));
}

proof fn lemma_inputs_below(names: Map<u8, Option<Seq<char>>>, bound: int)
    requires
        0 <= bound <= 256,
    ensures
        forall|i: int|
            0 <= i < inputs_below(names, bound).len() ==> {
                let o = #[trigger] inputs_below(names, bound)[i];
                o.code < bound && names.contains_key(o.code) && o == named_input(names, o.code)
            },
        forall|i: int, j: int|
            0 <= i < j < inputs_below(names, bound).len() ==> (#[trigger] inputs_below(
                names,
                bound,
            )[i]).code < (#[trigger] inputs_below(names, bound)[j]).code,
        forall|code: u8| #[trigger]
            names.contains_key(code) && code < bound ==> inputs::has_code(
                inputs_below(names, bound),
                code,
            ),
    decreases bound,
{
    if bound > 0 {
        lemma_inputs_below(names, bound - 1);
        let shorter = inputs_below(names, bound - 1);
        let longer = inputs_below(names, bound);
        assert forall|code: u8| #[trigger]
            names.contains_key(code) && code < bound implies inputs::has_code(longer, code) by {
            if code < bound - 1 {
                let i = choose|i: int| 0 <= i < shorter.len() && (#[trigger] shorter[i]).code
                    == code;
                assert(longer[i] == shorter[i]);
            } else {
                assert(longer[longer.len() - 1].code == code);
            }
        }
        assert forall|i: int| 0 <= i < longer.len() implies {
            let o = #[trigger] longer[i];
            o.code < bound && names.contains_key(o.code) && o == named_input(names, o.code)
        } by {
            if i < shorter.len() {
                assert(longer[i] == shorter[i]);
            }
        }
        assert forall|i: int, j: int| 0 <= i < j < longer.len() implies (#[trigger] longer[i]).code
            < (#[trigger] longer[j]).code by {
            assert(longer[i] == shorter[i]);
            if j < shorter.len() {
                assert(longer[j] == shorter[j]);
            }
        }
    }
}

/// A reply ends a read at once and is what was read. Two attempts without one are what the second
/// came to: its error, or the word that the protocol layer panicked.
pub proof fn law_what_a_read_comes_to(first: ReadOutcomeView, second: ReadOutcomeView, v: VcpReply)
    requires
        first !is Value,
    ensures
        VcpRead::spec_new().after(ReadOutcomeView::Value(v)) == ReadStepView::Done(Ok(v)),
        (VcpRead::spec_new().after(first) matches ReadStepView::Retry(read) && read.after(second)
            == ReadStepView::Done(
            match second {
                ReadOutcomeView::Value(w) => Ok(w),
                ReadOutcomeView::Failed(e) => Err(e),
                ReadOutcomeView::Panicked => Err("DDC layer panicked on a malformed reply"@),
            },
        )),
{
}

/// A write has failed exactly if the transaction failed or the protocol layer panicked.
pub proof fn law_what_a_write_comes_to(e: Seq<char>)
    ensures
        WriteOutcomeView::Written.error() is None,
        WriteOutcomeView::Failed(e).error() == Some(e),
        WriteOutcomeView::Panicked.error() == Some("DDC layer panicked"@),
{
}

/// A monitor advertises inputs exactly if it lists a value for the input feature: each of the
/// values, once, in the order of the codes, under the name that the monitor gives it, or, where it
/// gives none, under the usual name.
pub proof fn law_every_listed_input_is_advertised(caps: Map<u8, Map<u8, Option<Seq<char>>>>)
    ensures
        advertised(caps) is Some <==> caps.contains_key(0x60) && exists|code: u8| #[trigger]
            caps[0x60].contains_key(code),
        (advertised(caps) matches Some(options) ==> {
            &&& forall|code: u8| #[trigger]
                caps[0x60].contains_key(code) ==> exists|i: int|
                    0 <= i < options.len() && (#[trigger] options[i]).code == code
            &&& forall|i: int|
                0 <= i < options.len() ==> caps[0x60].contains_key((#[trigger] options[i]).code)
            &&& forall|i: int|
                0 <= i < options.len() ==> (caps[0x60][(#[trigger] options[i]).code] matches Some(
                    name,
                ) ==> options[i].label == name)
            &&& forall|i: int|
                0 <= i < options.len() ==> caps[0x60][(#[trigger] options[i]).code] is None
                    ==> options[i].label == inputs::label_of(options[i].code)
            &&& forall|i: int, j: int|
                0 <= i < j < options.len() ==> (#[trigger] options[i]).code < (
                #[trigger] options[j]).code
        }),
{
    let names = caps[0x60];
    if caps.contains_key(0x60) {
        if exists|code: u8| #[trigger] names.contains_key(code) {
            let code = choose|code: u8| #[trigger] names.contains_key(code);
            assert(names.dom().contains(code));
            assert(!names.is_empty());
        } else {
            assert(names.dom() =~= Set::<u8>::empty());
        }
    }
    if advertised(caps) is Some {
        law_advertised_inputs(caps);
        let options = advertised(caps)->0;
        assert forall|code: u8| #[trigger] names.contains_key(code) implies exists|i: int|
            0 <= i < options.len() && (#[trigger] options[i]).code == code by {
            assert(inputs::has_code(options, code));
        }
    }
}

} // verus!
