//! What the UI reads of the layout views: one reading per control, with the
//! defaults it falls back to where the view publishes nothing, and the labels
//! kept alive for the UI.
use vstd::prelude::*;

use crate::float_bits::{F64Bits, ONE_BITS};
use crate::path_map::PathMap;
use crate::views::{Dial, LayoutsView, Timecode};

verus! {

/// The fader value of `path`, `0.0` where none is published.
pub open spec fn fader_or_zero(view: LayoutsView, path: Seq<char>) -> u64 {
    match view.fader_values().get(path) {
        Some(v) => v.bits,
        None => 0,
    }
}

/// The level of `path`, `0.0` where none is published.
pub open spec fn level_or_zero(view: LayoutsView, path: Seq<char>) -> u64 {
    match view.level_values().get(path) {
        Some(v) => v.bits,
        None => 0,
    }
}

/// The button state of `path`, released where none is published.
pub open spec fn button_or_released(view: LayoutsView, path: Seq<char>) -> bool {
    match view.button_values().get(path) {
        Some(v) => v,
        None => false,
    }
}

/// The dial of `path`, the default dial where none is published.
pub open spec fn dial_or_default(view: LayoutsView, path: Seq<char>) -> Dial {
    match view.dial_values().get(path) {
        Some(d) => d,
        None => Dial {
            value: F64Bits { bits: 0 },
            min: F64Bits { bits: 0 },
            max: F64Bits { bits: ONE_BITS },
            percentage: true,
        },
    }
}

/// The label text of `path`, empty where none is published.
pub open spec fn label_or_empty(view: LayoutsView, path: Seq<char>) -> Seq<char> {
    if view.label_values().dom().contains(path) {
        (*view.label_values()[path])@
    } else {
        Seq::empty()
    }
}

/// The step-sequencer state of `path`, all steps off on beat 0 where none is
/// published.
pub open spec fn steps_or_default(view: LayoutsView, path: Seq<char>) -> (Seq<bool>, u8) {
    match view.step_sequencer_values().get(path) {
        Some(s) => (s.steps@, s.beat),
        None => (Seq::new(16, |i: int| false), 0),
    }
}

/// Steps as bytes: 1 for a step that is on, 0 for one that is off.
pub open spec fn step_bytes(steps: Seq<bool>) -> Seq<u8> {
    steps.map_values(|on: bool| if on { 1u8 } else { 0u8 })
}

/// The fader value handed to the UI for `path`.
pub fn fader_reading(view: &LayoutsView, path: &String) -> (r: F64Bits)
    ensures
        r.bits == fader_or_zero(*view, path@),
{
    match view.get_fader_value(path) {
        Some(v) => v,
        None => F64Bits::zero(),
    }
}

/// The level handed to the UI for `path`.
pub fn level_reading(view: &LayoutsView, path: &String) -> (r: F64Bits)
    ensures
        r.bits == level_or_zero(*view, path@),
{
    match view.get_level_value(path) {
        Some(v) => v,
        None => F64Bits::zero(),
    }
}

/// The button state handed to the UI for `path`: 1 pressed, 0 released.
pub fn button_reading(view: &LayoutsView, path: &String) -> (r: u8)
    ensures
        r == (if button_or_released(*view, path@) { 1u8 } else { 0u8 }),
{
    match view.get_button_value(path) {
        Some(true) => 1,
        _ => 0,
    }
}

/// The timecode handed to the UI for `path`, zero where none is published.
pub fn clock_reading(view: &LayoutsView, path: &String) -> (r: Timecode)
    ensures
        r == (match view.clock_values().get(path@) {
            Some(t) => t,
            None => Timecode { hours: 0, minutes: 0, seconds: 0, frames: 0, negative: false },
        }),
{
    match view.get_clock_value(path) {
        Some(t) => t,
        None => Timecode { hours: 0, minutes: 0, seconds: 0, frames: 0, negative: false },
    }
}

/// A dial as the UI receives it.
#[derive(Clone, Copy, Debug, PartialEq)]
pub struct DialReading {
    pub value: F64Bits,
    pub min: F64Bits,
    pub max: F64Bits,
    pub is_percentage: u8,
}

/// The dial handed to the UI for `path`.
pub fn dial_reading(view: &LayoutsView, path: &String) -> (r: DialReading)
    ensures
        r.value == dial_or_default(*view, path@).value,
        r.min == dial_or_default(*view, path@).min,
        r.max == dial_or_default(*view, path@).max,
        r.is_percentage == (if dial_or_default(*view, path@).percentage { 1u8 } else { 0u8 }),
{
    let dial = match view.get_dial_value(path) {
        Some(d) => d,
        None => Dial::default(),
    };
    DialReading {
        value: dial.value,
        min: dial.min,
        max: dial.max,
        is_percentage: if dial.percentage { 1 } else { 0 },
    }
}

/// A control colour as the UI receives it; all zero where the control has
/// no colour.
#[derive(Clone, Copy, Debug, PartialEq)]
pub struct ControlColorReading {
    pub has_color: u8,
    pub color_red: F64Bits,
    pub color_green: F64Bits,
    pub color_blue: F64Bits,
}

/// The colour handed to the UI for the control at `path`.
pub fn control_color_reading(view: &LayoutsView, path: &String) -> (r: ControlColorReading)
    ensures
        match view.color_values().get(path@) {
            Some(c) => r.has_color == 1 && r.color_red == c.red && r.color_green == c.green
                && r.color_blue == c.blue,
            None => r.has_color == 0 && r.color_red.bits == 0 && r.color_green.bits == 0
                && r.color_blue.bits == 0,
        },
{
    match view.get_control_color(path) {
        Some(c) => ControlColorReading {
            has_color: 1,
            color_red: c.red,
            color_green: c.green,
            color_blue: c.blue,
        },
        None => ControlColorReading {
            has_color: 0,
            color_red: F64Bits::zero(),
            color_green: F64Bits::zero(),
            color_blue: F64Bits::zero(),
        },
    }
}

/// A step sequencer as the UI receives it: one byte per step, and the beat.
#[derive(Clone, Debug, PartialEq)]
pub struct FFIStepSequencerValue {
    pub value: Vec<u8>,
    pub beat: u8,
}

/// The steps of a sequencer as bytes.
fn steps_to_bytes(steps: &[bool; 16]) -> (r: Vec<u8>)
    ensures
        r@ == step_bytes(steps@),
{
    let mut r: Vec<u8> = Vec::new();
    let mut i: usize = 0;
    while i < 16
        invariant
            i <= 16,
            r@ == step_bytes(steps@.take(i as int)),
        decreases 16 - i,
    {
        r.push(if steps[i] { 1 } else { 0 });
        proof {
            assert(step_bytes(steps@.take(i + 1)) =~= step_bytes(steps@.take(i as int)).push(
                if steps@[i as int] { 1u8 } else { 0u8 },
            ));
        }
        i = i + 1;
    }
    proof {
        assert(steps@.take(16) =~= steps@);
    }
    r
}

/// The step sequencer handed to the UI for `path`.
pub fn step_sequencer_reading(view: &LayoutsView, path: &String) -> (r: FFIStepSequencerValue)
    ensures
        r.value@ == step_bytes(steps_or_default(*view, path@).0),
        r.beat == steps_or_default(*view, path@).1,
{
    match view.get_step_sequencer_value(path) {
        Some(state) => FFIStepSequencerValue { value: steps_to_bytes(&state.steps), beat: state.beat },
        None => {
            let steps = [false; 16];
            proof {
                assert(steps@ =~= Seq::new(16, |i: int| false));
            }
            FFIStepSequencerValue { value: steps_to_bytes(&steps), beat: 0 }
        },
    }
}

/// The label handed to the UI for `path`.
pub fn label_reading(view: &LayoutsView, path: &String) -> (r: String)
    ensures
        r@ == label_or_empty(*view, path@),
{
    match view.get_label_value(path) {
        Some(label) => {
            let text: &String = &label;
            text.clone()
        },
        None => String::new(),
    }
}

/// Everything the UI receives for one control of a batch read.
#[derive(Clone, Debug)]
pub struct LayoutReading {
    pub value: F64Bits,
    pub min: F64Bits,
    pub max: F64Bits,
    pub percentage: u8,
    pub has_color: u8,
    pub color_red: F64Bits,
    pub color_green: F64Bits,
    pub color_blue: F64Bits,
    /// The label to hand out, kept alive by the caller; `None`: no label.
    pub label: Option<String>,
    pub steps: Vec<u8>,
    pub beat: u8,
}

/// The content of a [`LayoutReading`], as plain values.
pub struct LayoutReadingModel {
    pub value: u64,
    pub min: u64,
    pub max: u64,
    pub percentage: u8,
    pub has_color: u8,
    pub color_red: u64,
    pub color_green: u64,
    pub color_blue: u64,
    pub label: Option<Seq<char>>,
    pub steps: Seq<u8>,
    pub beat: u8,
}

/// A reading with every number zero, no label and no steps.
pub open spec fn empty_reading() -> LayoutReadingModel {
    LayoutReadingModel {
        value: 0,
        min: 0,
        max: 0,
        percentage: 0,
        has_color: 0,
        color_red: 0,
        color_green: 0,
        color_blue: 0,
        label: None,
        steps: Seq::empty(),
        beat: 0,
    }
}

/// The requested kinds of value: 0 fader, 1 dial, 2 button (with its colour),
/// 3 label, 4 step sequencer, 5 level; any other kind reads as the empty
/// reading.
pub open spec fn expected_reading(view: LayoutsView, kind: u8, path: Seq<char>) -> LayoutReadingModel {
    if kind == 0 {
        LayoutReadingModel { value: fader_or_zero(view, path), ..empty_reading() }
    } else if kind == 1 {
        let d = dial_or_default(view, path);
        LayoutReadingModel {
            value: d.value.bits,
            min: d.min.bits,
            max: d.max.bits,
            percentage: if d.percentage { 1 } else { 0 },
            ..empty_reading()
        }
    } else if kind == 2 {
        let color = view.color_values().get(path);
        LayoutReadingModel {
            value: if button_or_released(view, path) { ONE_BITS } else { 0 },
            has_color: if color is Some { 1 } else { 0 },
            color_red: match color { Some(c) => c.red.bits, None => 0 },
            color_green: match color { Some(c) => c.green.bits, None => 0 },
            color_blue: match color { Some(c) => c.blue.bits, None => 0 },
            ..empty_reading()
        }
    } else if kind == 3 {
        LayoutReadingModel { label: Some(label_or_empty(view, path)), ..empty_reading() }
    } else if kind == 4 {
        let (steps, beat) = steps_or_default(view, path);
        LayoutReadingModel { steps: step_bytes(steps), beat, ..empty_reading() }
    } else if kind == 5 {
        LayoutReadingModel { value: level_or_zero(view, path), ..empty_reading() }
    } else {
        empty_reading()
    }
}

impl LayoutReading {
    /// The reading's content as plain values.
    pub open spec fn model(self) -> LayoutReadingModel {
        LayoutReadingModel {
            value: self.value.bits,
            min: self.min.bits,
            max: self.max.bits,
            percentage: self.percentage,
            has_color: self.has_color,
            color_red: self.color_red.bits,
            color_green: self.color_green.bits,
            color_blue: self.color_blue.bits,
            label: match self.label {
                Some(l) => Some(l@),
                None => None,
            },
            steps: self.steps@,
            beat: self.beat,
        }
    }

    /// A reading with every number zero, no label and no steps.
    pub fn empty() -> (r: LayoutReading)
        ensures
            r.model() == empty_reading(),
    {
        LayoutReading {
            value: F64Bits::zero(),
            min: F64Bits::zero(),
            max: F64Bits::zero(),
            percentage: 0,
            has_color: 0,
            color_red: F64Bits::zero(),
            color_green: F64Bits::zero(),
            color_blue: F64Bits::zero(),
            label: None,
            steps: Vec::new(),
            beat: 0,
        }
    }

    /// A reading that carries only `value`.
    pub fn number(value: F64Bits) -> (r: LayoutReading)
        ensures
            r.model() == (LayoutReadingModel { value: value.bits, ..empty_reading() }),
    {
        let mut r = LayoutReading::empty();
        r.value = value;
        r
    }
}

/// Reads one control of a batch: `kind` says which value, `path` which node.
pub fn read_layout_value(view: &LayoutsView, kind: u8, path: &String) -> (r: LayoutReading)
    ensures
        r.model() == expected_reading(*view, kind, path@),
{
    if kind == 0 {
        LayoutReading::number(fader_reading(view, path))
    } else if kind == 1 {
        let dial = dial_reading(view, path);
        let mut r = LayoutReading::empty();
        r.value = dial.value;
        r.min = dial.min;
        r.max = dial.max;
        r.percentage = dial.is_percentage;
        r
    } else if kind == 2 {
        let color = control_color_reading(view, path);
        let mut r = LayoutReading::empty();
        r.value = if button_reading(view, path) == 1 {
            F64Bits::one()
        } else {
            F64Bits::zero()
        };
        r.has_color = color.has_color;
        r.color_red = color.color_red;
        r.color_green = color.color_green;
        r.color_blue = color.color_blue;
        r
    } else if kind == 3 {
        let mut r = LayoutReading::empty();
        r.label = Some(label_reading(view, path));
        r
    } else if kind == 4 {
        let steps = step_sequencer_reading(view, path);
        let mut r = LayoutReading::empty();
        r.steps = steps.value;
        r.beat = steps.beat;
        r
    } else if kind == 5 {
        LayoutReading::number(level_reading(view, path))
    } else {
        LayoutReading::empty()
    }
}

/// One control of a batch read: which value (`kind`) of which node (`path`).
#[derive(Clone, Debug)]
pub struct LayoutReadRequest {
    pub path: String,
    pub kind: u8,
}

/// Reads a batch of controls, one reading per request, in order.
pub fn read_layout_values(view: &LayoutsView, requests: &Vec<LayoutReadRequest>) -> (r: Vec<
    LayoutReading,
>)
    ensures
        r@.len() == requests@.len(),
        forall|i: int|
            0 <= i < r@.len() ==> (#[trigger] r@[i]).model() == expected_reading(
                *view,
                requests@[i].kind,
                requests@[i].path@,
            ),
{
    let mut readings: Vec<LayoutReading> = Vec::new();
    let mut i: usize = 0;
    while i < requests.len()
        invariant
            i <= requests@.len(),
            readings@.len() == i,
            forall|k: int|
                0 <= k < i ==> (#[trigger] readings@[k]).model() == expected_reading(
                    *view,
                    requests@[k].kind,
                    requests@[k].path@,
                ),
        decreases requests.len() - i,
    {
        let request = &requests[i];
        readings.push(read_layout_value(view, request.kind, &request.path));
        i = i + 1;
    }
    readings
}

/// A handle on the layout views for the UI, which keeps each label it hands
/// out alive until the next label for the same path replaces it.
pub struct LayoutRef<V, L> {
    view: V,
    labels: PathMap<L>,
}

/// `label` is what `make` gave for a string holding `text`.
pub open spec fn made_from<L, F: Fn(String) -> L>(make: F, text: Seq<char>, label: L) -> bool {
    exists|t: String| t@ == text && #[trigger] make.ensures((t,), label)
}

/// Some request asks for the label of `path`.
pub open spec fn label_requested(requests: Seq<LayoutReadRequest>, path: Seq<char>) -> bool {
    exists|i: int| 0 <= i < requests.len() && #[trigger] requests[i].path@ == path && requests[i].kind == 3
}

impl<V, L> LayoutRef<V, L> {
    /// The views the handle reads.
    pub closed spec fn viewed(self) -> V {
        self.view
    }

    /// The labels kept alive, by path.
    pub closed spec fn stored_labels(self) -> Map<Seq<char>, L> {
        self.labels@
    }

    /// A handle on `view` that keeps no labels yet.
    pub fn new(view: V) -> (r: Self)
        ensures
            r.viewed() == view,
            r.stored_labels() == Map::<Seq<char>, L>::empty(),
    {
        LayoutRef { view, labels: PathMap::new() }
    }

    /// The views the handle reads.
    pub fn layouts_view(&self) -> (r: &V)
        ensures
            *r == self.viewed(),
    {
        &self.view
    }

    /// The label kept alive for `path`, if any.
    pub fn label(&self, path: &String) -> (r: Option<&L>)
        ensures
            match r {
                Some(l) => self.stored_labels().dom().contains(path@) && *l
                    == self.stored_labels()[path@],
                None => !self.stored_labels().dom().contains(path@),
            },
    {
        self.labels.get(path)
    }

    /// Reads the label of `path` in `view` and keeps what `make` gives for it
    /// alive as the label of `path`, releasing the one kept before.
    pub fn read_label_value<F: Fn(String) -> L>(&mut self, view: &LayoutsView, path: &String, make: F)
        requires
            forall|t: String| #[trigger] make.requires((t,)),
        ensures
            final(self).viewed() == old(self).viewed(),
            final(self).stored_labels() == old(self).stored_labels().insert(
                path@,
                final(self).stored_labels()[path@],
            ),
            made_from(make, label_or_empty(*view, path@), final(self).stored_labels()[path@]),
    {
        let text = label_reading(view, path);
        let ghost t = text;
        let label = make(text);
        proof {
            assert(make.ensures((t,), label));
        }
        self.labels.insert(path.clone(), label);
    }

    /// Reads a batch of controls, one reading per request in order, and keeps
    /// what `make` gives for each requested label alive as the label of its
    /// path.
    pub fn read_layout_values<F: Fn(String) -> L>(
        &mut self,
        view: &LayoutsView,
        requests: &Vec<LayoutReadRequest>,
        make: F,
    ) -> (r: Vec<LayoutReading>)
        requires
            forall|t: String| #[trigger] make.requires((t,)),
        ensures
            r@.len() == requests@.len(),
            forall|i: int|
                0 <= i < r@.len() ==> (#[trigger] r@[i]).model() == expected_reading(
                    *view,
                    requests@[i].kind,
                    requests@[i].path@,
                ),
            final(self).viewed() == old(self).viewed(),
            forall|p: Seq<char>|
                #[trigger] final(self).stored_labels().dom().contains(p) <==> (old(
                    self,
                ).stored_labels().dom().contains(p) || label_requested(requests@, p)),
            forall|p: Seq<char>|
                #[trigger] label_requested(requests@, p) ==> made_from(
                    make,
                    label_or_empty(*view, p),
                    final(self).stored_labels()[p],
                ),
            forall|p: Seq<char>|
                !label_requested(requests@, p) && old(self).stored_labels().dom().contains(p)
                    ==> #[trigger] final(self).stored_labels()[p] == old(self).stored_labels()[p],
    {
        let ghost start = self.labels@;
        let mut readings: Vec<LayoutReading> = Vec::new();
        let mut i: usize = 0;
        while i < requests.len()
            invariant
                i <= requests@.len(),
                forall|t: String| #[trigger] make.requires((t,)),
                readings@.len() == i,
                forall|k: int|
                    0 <= k < i ==> (#[trigger] readings@[k]).model() == expected_reading(
                        *view,
                        requests@[k].kind,
                        requests@[k].path@,
                    ),
                forall|p: Seq<char>|
                    #[trigger] self.labels@.dom().contains(p) <==> (start.dom().contains(p)
                        || label_requested(requests@.take(i as int), p)),
                forall|p: Seq<char>|
                    #[trigger] label_requested(requests@.take(i as int), p) ==> made_from(
                        make,
                        label_or_empty(*view, p),
                        self.labels@[p],
                    ),
                forall|p: Seq<char>|
                    !label_requested(requests@.take(i as int), p) && start.dom().contains(p)
                        ==> #[trigger] self.labels@[p] == start[p],
                self.view == old(self).view,
            decreases requests.len() - i,
        {
            let request = &requests[i];
            readings.push(read_layout_value(view, request.kind, &request.path));
            let ghost before = self.labels@;
            if request.kind == 3 {
                let text = label_reading(view, &request.path);
                let ghost t = text;
                let label = make(text);
                proof {
                    assert(make.ensures((t,), label));
                    assert(made_from(make, label_or_empty(*view, request.path@), label));
                }
                self.labels.insert(request.path.clone(), label);
            }
            proof {
                let prefix = requests@.take(i as int);
                let next = requests@.take(i + 1);
                assert forall|p: Seq<char>|
                    label_requested(next, p) <==> (label_requested(prefix, p) || (p
                        == requests@[i as int].path@ && requests@[i as int].kind == 3)) by {
                    if label_requested(next, p) {
                        let j = choose|j: int|
                            0 <= j < next.len() && #[trigger] next[j].path@ == p && next[j].kind == 3;
                        if j < i {
                            assert(prefix[j] == next[j]);
                        }
                    }
                    if label_requested(prefix, p) {
                        let j = choose|j: int|
                            0 <= j < prefix.len() && #[trigger] prefix[j].path@ == p && prefix[j].kind
                                == 3;
                        assert(next[j] == prefix[j]);
                    }
                    if p == requests@[i as int].path@ && requests@[i as int].kind == 3 {
                        assert(next[i as int].path@ == p);
                    }
                }
            }
            i = i + 1;
        }
        proof {
            assert(requests@.take(requests@.len() as int) =~= requests@);
        }
        readings
    }

    /// How many labels are kept alive: one per path that was read.
    pub fn label_count(&self) -> (r: usize)
        ensures
            r == self.stored_labels().dom().len(),
            self.stored_labels().dom().finite(),
    {
        self.labels.len()
    }
}

/// Storing a label for a path that already has one keeps the number of labels
/// kept alive unchanged; only a new path adds one. Reading the same controls
/// again and again thus keeps a bounded number of labels.
pub proof fn law_label_retention_bounded<L>(before: Map<Seq<char>, L>, path: Seq<char>, label: L)
    requires
        before.dom().finite(),
    ensures
        before.insert(path, label).dom().len() == (if before.dom().contains(path) {
            before.dom().len()
        } else {
            before.dom().len() + 1
        }),
{
    if before.dom().contains(path) {
        assert(before.insert(path, label).dom() =~= before.dom());
    }
}

/// Byte `i` of the steps handed to the UI is 1 exactly when step `i` is on and
/// 0 when it is off: one byte per step, in the order of the steps.
pub proof fn law_step_bytes_by_position(steps: Seq<bool>)
    ensures
        step_bytes(steps).len() == steps.len(),
        forall|i: int|
            0 <= i < steps.len() ==> #[trigger] step_bytes(steps)[i] == (if steps[i] {
                1u8
            } else {
                0u8
            }),
{
}

/// What a reading of each kind carries, in terms of the values the view
/// publishes at `path`: a fader (kind 0) or level (kind 5) its value, 0.0 where
/// none is published; a dial (kind 1) its value, lower bound, upper bound and
/// whether it is a percentage, the dial from 0.0 to 1.0 in percent where none
/// is published; a button (kind 2) 1.0 when pressed and 0.0 otherwise, with the
/// control's colour where it has one; a label (kind 3) its text, empty where
/// none is published; a step sequencer (kind 4) sixteen bytes, byte `i` 1
/// exactly when step `i` is on, and the beat, all off on beat 0 where none is
/// published. Any other kind reads as nothing.
pub proof fn law_reading_follows_published_values(view: LayoutsView, path: Seq<char>)
    ensures
        expected_reading(view, 0, path).value == (match view.fader_values().get(path) {
            Some(v) => v.bits,
            None => 0u64,
        }),
        expected_reading(view, 5, path).value == (match view.level_values().get(path) {
            Some(v) => v.bits,
            None => 0u64,
        }),
        view.dial_values().dom().contains(path) ==> {
            let d = view.dial_values()[path];
            let r = expected_reading(view, 1, path);
            &&& r.value == d.value.bits
            &&& r.min == d.min.bits
            &&& r.max == d.max.bits
            &&& r.percentage == (if d.percentage { 1u8 } else { 0u8 })
        },
        !view.dial_values().dom().contains(path) ==> {
            let r = expected_reading(view, 1, path);
            &&& r.value == 0
            &&& r.min == 0
            &&& r.max == 0x3ff0_0000_0000_0000u64
            &&& r.percentage == 1
        },
        expected_reading(view, 2, path).value == (if view.button_values().get(path) == Some(true) {
            0x3ff0_0000_0000_0000u64
        } else {
            0u64
        }),
        view.color_values().dom().contains(path) ==> {
            let c = view.color_values()[path];
            let r = expected_reading(view, 2, path);
            &&& r.has_color == 1
            &&& r.color_red == c.red.bits
            &&& r.color_green == c.green.bits
            &&& r.color_blue == c.blue.bits
        },
        !view.color_values().dom().contains(path) ==> {
            let r = expected_reading(view, 2, path);
            &&& r.has_color == 0
            &&& r.color_red == 0
            &&& r.color_green == 0
            &&& r.color_blue == 0
        },
        view.label_values().dom().contains(path) ==> expected_reading(view, 3, path).label == Some(
            (*view.label_values()[path])@,
        ),
        !view.label_values().dom().contains(path) ==> expected_reading(view, 3, path).label == Some(
            Seq::<char>::empty(),
        ),
        expected_reading(view, 4, path).steps.len() == 16,
        forall|i: int|
            0 <= i < 16 ==> #[trigger] expected_reading(view, 4, path).steps[i] == (match view.step_sequencer_values().get(path) {
                Some(s) => if s.steps[i] { 1u8 } else { 0u8 },
                None => 0u8,
            }),
        expected_reading(view, 4, path).beat == (match view.step_sequencer_values().get(path) {
            Some(s) => s.beat,
            None => 0u8,
        }),
        forall|kind: u8| kind > 5 ==> #[trigger] expected_reading(view, kind, path) == empty_reading(),
{
    let s = steps_or_default(view, path).0;
    assert(s.len() == 16);
    assert forall|i: int| 0 <= i < 16 implies #[trigger] expected_reading(view, 4, path).steps[i] == (match view.step_sequencer_values().get(path) {
        Some(st) => if st.steps[i] { 1u8 } else { 0u8 },
        None => 0u8,
    }) by {
        assert(step_bytes(s)[i] == (if s[i] { 1u8 } else { 0u8 }));
    }
}

} // verus!
