//! Views that publish the values of the layout controls, so that readers need
//! not reach into the pipeline.
use std::sync::Arc;

use vstd::prelude::*;

use crate::float_bits::{F64Bits, ONE_BITS, value_eq};
use crate::path_map::{PathMap, maps_equivalent};
use crate::value::ViewValue;

verus! {

/// The state of a dial: its value, its range and whether it shows as a
/// percentage.
#[derive(Clone, Copy, Debug, PartialEq)]
pub struct Dial {
    pub value: F64Bits,
    pub min: F64Bits,
    pub max: F64Bits,
    pub percentage: bool,
}

impl Default for Dial {
    /// Value `0.0` in the range `0.0..=1.0`, shown as a percentage.
    fn default() -> (r: Self)
        ensures
            r.value.bits == 0,
            r.min.bits == 0,
            r.max.bits == ONE_BITS,
            r.percentage,
    {
        Dial { value: F64Bits::zero(), min: F64Bits::zero(), max: F64Bits::one(), percentage: true }
    }
}

impl ViewValue for Dial {
    open spec fn same_as(self, other: Self) -> bool {
        &&& value_eq(self.value.bits, other.value.bits)
        &&& value_eq(self.min.bits, other.min.bits)
        &&& value_eq(self.max.bits, other.max.bits)
        &&& self.percentage == other.percentage
    }

    proof fn lemma_same_as_reflexive(self) {
    }

    fn equals(&self, other: &Self) -> (r: bool) {
        self.value.same_value(&other.value) && self.min.same_value(&other.min)
            && self.max.same_value(&other.max) && self.percentage == other.percentage
    }
}

/// The colour of a control.
#[derive(Clone, Copy, Debug, PartialEq)]
pub struct Color {
    pub red: F64Bits,
    pub green: F64Bits,
    pub blue: F64Bits,
}

impl ViewValue for Color {
    open spec fn same_as(self, other: Self) -> bool {
        &&& value_eq(self.red.bits, other.red.bits)
        &&& value_eq(self.green.bits, other.green.bits)
        &&& value_eq(self.blue.bits, other.blue.bits)
    }

    proof fn lemma_same_as_reflexive(self) {
    }

    fn equals(&self, other: &Self) -> (r: bool) {
        self.red.same_value(&other.red) && self.green.same_value(&other.green)
            && self.blue.same_value(&other.blue)
    }
}

/// A timecode position.
#[derive(Clone, Copy, Debug, Default, PartialEq, Eq, Structural)]
pub struct Timecode {
    pub hours: u64,
    pub minutes: u64,
    pub seconds: u64,
    pub frames: u64,
    pub negative: bool,
}

impl ViewValue for Timecode {
    open spec fn same_as(self, other: Self) -> bool {
        self == other
    }

    proof fn lemma_same_as_reflexive(self) {
    }

    fn equals(&self, other: &Self) -> (r: bool) {
        *self == *other
    }
}

/// The sixteen steps of a step sequencer and the beat it is on.
#[derive(Clone, Copy, Debug, PartialEq, Eq)]
pub struct StepSequencerState {
    pub steps: [bool; 16],
    pub beat: u8,
}

impl ViewValue for StepSequencerState {
    open spec fn same_as(self, other: Self) -> bool {
        &&& self.steps@ == other.steps@
        &&& self.beat == other.beat
    }

    proof fn lemma_same_as_reflexive(self) {
    }

    fn equals(&self, other: &Self) -> (r: bool) {
        if self.beat != other.beat {
            return false;
        }
        let mut i: usize = 0;
        while i < 16
            invariant
                i <= 16,
                forall|j: int| 0 <= j < i ==> self.steps@[j] == other.steps@[j],
            decreases 16 - i,
        {
            if self.steps[i] != other.steps[i] {
                return false;
            }
            i = i + 1;
        }
        assert(self.steps@ =~= other.steps@);
        true
    }
}

/// A read after a write gives back what was written: the written value itself,
/// or, where the write was skipped because nothing changed, a value equal to it.
pub proof fn law_read_after_write<V: ViewValue>(
    before: Map<Seq<char>, V>,
    values: Map<Seq<char>, V>,
    after: Map<Seq<char>, V>,
    written: bool,
    path: Seq<char>,
)
    requires
        written == !maps_equivalent(before, values),
        after == (if written { values } else { before }),
        values.dom().contains(path),
    ensures
        after.dom().contains(path),
        written ==> after[path] == values[path],
        !written ==> after[path].same_as(values[path]),
{
}

/// Writing the same values twice in a row writes at most once: the second
/// write finds nothing changed.
pub proof fn law_repeated_write_skips<V: ViewValue>(
    before: Map<Seq<char>, V>,
    values: Map<Seq<char>, V>,
    after: Map<Seq<char>, V>,
    written: bool,
)
    requires
        written == !maps_equivalent(before, values),
        after == (if written { values } else { before }),
    ensures
        maps_equivalent(after, values),
{
    if written {
        assert forall|k: Seq<char>| #[trigger] after.dom().contains(k) implies after[k].same_as(
            values[k],
        ) by {
            values[k].lemma_same_as_reflexive();
        }
    }
}

/// Two floats hold the same value when their patterns agree or both are
/// zeros (the sign bit aside, every bit clear).
pub proof fn law_float_sameness(a: F64Bits, b: F64Bits)
    ensures
        a.same_as(b) <==> (a.bits == b.bits || ((a.bits & 0x7fff_ffff_ffff_ffff) == 0 && (b.bits
            & 0x7fff_ffff_ffff_ffff) == 0)),
{
}

/// Two dials are the same exactly when value, lower bound, upper bound and
/// the percentage flag all agree (floats compared as values).
pub proof fn law_dial_sameness(a: Dial, b: Dial)
    ensures
        a.same_as(b) <==> ((a.value.bits == b.value.bits || ((a.value.bits & 0x7fff_ffff_ffff_ffff)
            == 0 && (b.value.bits & 0x7fff_ffff_ffff_ffff) == 0)) && (a.min.bits == b.min.bits || (
        (a.min.bits & 0x7fff_ffff_ffff_ffff) == 0 && (b.min.bits & 0x7fff_ffff_ffff_ffff) == 0))
            && (a.max.bits == b.max.bits || ((a.max.bits & 0x7fff_ffff_ffff_ffff) == 0 && (b.max.bits
            & 0x7fff_ffff_ffff_ffff) == 0)) && a.percentage == b.percentage),
{
}

/// Two colours are the same exactly when red, green and blue agree (as
/// values).
pub proof fn law_color_sameness(a: Color, b: Color)
    ensures
        a.same_as(b) <==> ((a.red.bits == b.red.bits || ((a.red.bits & 0x7fff_ffff_ffff_ffff) == 0
            && (b.red.bits & 0x7fff_ffff_ffff_ffff) == 0)) && (a.green.bits == b.green.bits || (
        (a.green.bits & 0x7fff_ffff_ffff_ffff) == 0 && (b.green.bits & 0x7fff_ffff_ffff_ffff) == 0))
            && (a.blue.bits == b.blue.bits || ((a.blue.bits & 0x7fff_ffff_ffff_ffff) == 0 && (
        b.blue.bits & 0x7fff_ffff_ffff_ffff) == 0))),
{
}

/// Two step-sequencer states are the same exactly when all sixteen steps and
/// the beat agree.
pub proof fn law_step_sequencer_sameness(a: StepSequencerState, b: StepSequencerState)
    ensures
        a.same_as(b) <==> ((forall|i: int| 0 <= i < 16 ==> a.steps@[i] == b.steps@[i]) && a.beat
            == b.beat),
{
    if (forall|i: int| 0 <= i < 16 ==> a.steps@[i] == b.steps@[i]) && a.beat == b.beat {
        assert(a.steps@ =~= b.steps@);
    }
}

/// Two timecodes are the same exactly when every field agrees; two button
/// states when they are equal; two labels when their texts are.
pub proof fn law_plain_sameness(
    a: Timecode,
    b: Timecode,
    x: bool,
    y: bool,
    l: Arc<String>,
    m: Arc<String>,
)
    ensures
        a.same_as(b) <==> (a.hours == b.hours && a.minutes == b.minutes && a.seconds == b.seconds
            && a.frames == b.frames && a.negative == b.negative),
        x.same_as(y) <==> x == y,
        l.same_as(m) <==> (*l)@ == (*m)@,
{
}

/// A new set of values in which some path holds a value that is not the same
/// as the one published there, or a path that is not published, or which lacks
/// a published path, is a change, so a write of it publishes it.
pub proof fn law_changed_value_is_a_change<V: ViewValue>(
    before: Map<Seq<char>, V>,
    values: Map<Seq<char>, V>,
    path: Seq<char>,
)
    requires
        (before.dom().contains(path) && values.dom().contains(path) && !before[path].same_as(
            values[path],
        )) || (before.dom().contains(path) != values.dom().contains(path)),
    ensures
        !maps_equivalent(before, values),
{
    if before.dom().contains(path) != values.dom().contains(path) {
        assert(before.dom().contains(path) != values.dom().contains(path));
    }
}

/// A write of step-sequencer states in which a published sequencer moved to
/// another beat reports a change and publishes the new beat, whether or not
/// its steps changed.
pub proof fn law_beat_change_is_published(
    before: Map<Seq<char>, StepSequencerState>,
    values: Map<Seq<char>, StepSequencerState>,
    after: Map<Seq<char>, StepSequencerState>,
    written: bool,
    path: Seq<char>,
)
    requires
        written == !maps_equivalent(before, values),
        after == (if written { values } else { before }),
        before.dom().contains(path),
        values.dom().contains(path),
        before[path].beat != values[path].beat,
    ensures
        written,
        after[path].beat == values[path].beat,
        after[path].steps@ == values[path].steps@,
{
    law_step_sequencer_sameness(before[path], values[path]);
    law_changed_value_is_a_change(before, values, path);
}

/// A write of dials in which a published dial's lower or upper bound holds
/// another value reports a change and publishes the new range.
pub proof fn law_dial_range_change_is_published(
    before: Map<Seq<char>, Dial>,
    values: Map<Seq<char>, Dial>,
    after: Map<Seq<char>, Dial>,
    written: bool,
    path: Seq<char>,
)
    requires
        written == !maps_equivalent(before, values),
        after == (if written { values } else { before }),
        before.dom().contains(path),
        values.dom().contains(path),
        before[path].min.bits != values[path].min.bits && !((before[path].min.bits
            & 0x7fff_ffff_ffff_ffff) == 0 && (values[path].min.bits & 0x7fff_ffff_ffff_ffff) == 0)
            || before[path].max.bits != values[path].max.bits && !((before[path].max.bits
            & 0x7fff_ffff_ffff_ffff) == 0 && (values[path].max.bits & 0x7fff_ffff_ffff_ffff) == 0),
    ensures
        written,
        after[path].min == values[path].min,
        after[path].max == values[path].max,
{
    law_dial_sameness(before[path], values[path]);
    law_changed_value_is_a_change(before, values, path);
}

impl<V: ViewValue> PathMap<V> {
    /// Replaces the map by `values` unless the two are equivalent; returns
    /// whether it replaced it.
    pub fn replace_if_changed(&mut self, values: PathMap<V>) -> (changed: bool)
        ensures
            changed == !maps_equivalent(old(self)@, values@),
            final(self)@ == (if changed { values@ } else { old(self)@ }),
    {
        if self.equivalent(&values) {
            false
        } else {
            *self = values;
            true
        }
    }
}

/// The published values of the layout controls, by node path.
#[derive(Clone)]
pub struct LayoutsView {
    faders: PathMap<F64Bits>,
    buttons: PathMap<bool>,
    dials: PathMap<Dial>,
    step_sequencers: PathMap<StepSequencerState>,
    labels: PathMap<Arc<String>>,
    colors: PathMap<Color>,
    clocks: PathMap<Timecode>,
    levels: PathMap<F64Bits>,
}

impl Default for LayoutsView {
    /// A view that publishes nothing.
    fn default() -> (r: Self)
        ensures
            r.is_empty(),
    {
        LayoutsView {
            faders: PathMap::new(),
            buttons: PathMap::new(),
            dials: PathMap::new(),
            step_sequencers: PathMap::new(),
            labels: PathMap::new(),
            colors: PathMap::new(),
            clocks: PathMap::new(),
            levels: PathMap::new(),
        }
    }
}

impl LayoutsView {
    /// Published fader values.
    pub closed spec fn fader_values(self) -> Map<Seq<char>, F64Bits> {
        self.faders@
    }

    /// Published button states.
    pub closed spec fn button_values(self) -> Map<Seq<char>, bool> {
        self.buttons@
    }

    /// Published dial states.
    pub closed spec fn dial_values(self) -> Map<Seq<char>, Dial> {
        self.dials@
    }

    /// Published step-sequencer states.
    pub closed spec fn step_sequencer_values(self) -> Map<Seq<char>, StepSequencerState> {
        self.step_sequencers@
    }

    /// Published labels.
    pub closed spec fn label_values(self) -> Map<Seq<char>, Arc<String>> {
        self.labels@
    }

    /// Published control colours.
    pub closed spec fn color_values(self) -> Map<Seq<char>, Color> {
        self.colors@
    }

    /// Published timecodes.
    pub closed spec fn clock_values(self) -> Map<Seq<char>, Timecode> {
        self.clocks@
    }

    /// Published levels.
    pub closed spec fn level_values(self) -> Map<Seq<char>, F64Bits> {
        self.levels@
    }

    /// Nothing is published.
    pub open spec fn is_empty(self) -> bool {
        &&& self.fader_values() == Map::<Seq<char>, F64Bits>::empty()
        &&& self.button_values() == Map::<Seq<char>, bool>::empty()
        &&& self.dial_values() == Map::<Seq<char>, Dial>::empty()
        &&& self.step_sequencer_values() == Map::<Seq<char>, StepSequencerState>::empty()
        &&& self.label_values() == Map::<Seq<char>, Arc<String>>::empty()
        &&& self.color_values() == Map::<Seq<char>, Color>::empty()
        &&& self.clock_values() == Map::<Seq<char>, Timecode>::empty()
        &&& self.level_values() == Map::<Seq<char>, F64Bits>::empty()
    }

    /// The published fader value of `path`.
    pub fn get_fader_value(&self, path: &String) -> (r: Option<F64Bits>)
        ensures
            r == self.fader_values().get(path@),
    {
        match self.faders.get(path) {
            Some(v) => Some(*v),
            None => None,
        }
    }

    /// Publishes `values` as the fader values unless they equal those already
    /// published; returns whether it wrote.
    pub fn write_fader_values(&mut self, values: PathMap<F64Bits>) -> (written: bool)
        ensures
            written == !maps_equivalent(old(self).fader_values(), values@),
            final(self).fader_values() == (if written {
                values@
            } else {
                old(self).fader_values()
            }),
            final(self).button_values() == old(self).button_values(),
            final(self).dial_values() == old(self).dial_values(),
            final(self).step_sequencer_values() == old(self).step_sequencer_values(),
            final(self).label_values() == old(self).label_values(),
            final(self).color_values() == old(self).color_values(),
            final(self).clock_values() == old(self).clock_values(),
            final(self).level_values() == old(self).level_values(),
    {
        self.faders.replace_if_changed(values)
    }

    /// The published dial state of `path`.
    pub fn get_dial_value(&self, path: &String) -> (r: Option<Dial>)
        ensures
            r == self.dial_values().get(path@),
    {
        match self.dials.get(path) {
            Some(v) => Some(*v),
            None => None,
        }
    }

    /// Publishes `values` as the dial states unless they equal those already
    /// published; returns whether it wrote.
    pub fn write_dial_values(&mut self, values: PathMap<Dial>) -> (written: bool)
        ensures
            written == !maps_equivalent(old(self).dial_values(), values@),
            final(self).dial_values() == (if written {
                values@
            } else {
                old(self).dial_values()
            }),
            final(self).fader_values() == old(self).fader_values(),
            final(self).button_values() == old(self).button_values(),
            final(self).step_sequencer_values() == old(self).step_sequencer_values(),
            final(self).label_values() == old(self).label_values(),
            final(self).color_values() == old(self).color_values(),
            final(self).clock_values() == old(self).clock_values(),
            final(self).level_values() == old(self).level_values(),
    {
        self.dials.replace_if_changed(values)
    }

    /// The published state of the button at `path`.
    pub fn get_button_value(&self, path: &String) -> (r: Option<bool>)
        ensures
            r == self.button_values().get(path@),
    {
        match self.buttons.get(path) {
            Some(v) => Some(*v),
            None => None,
        }
    }

    /// Publishes `values` as the button states unless they equal those already
    /// published; returns whether it wrote.
    pub fn write_button_values(&mut self, values: PathMap<bool>) -> (written: bool)
        ensures
            written == !maps_equivalent(old(self).button_values(), values@),
            final(self).button_values() == (if written {
                values@
            } else {
                old(self).button_values()
            }),
            final(self).fader_values() == old(self).fader_values(),
            final(self).dial_values() == old(self).dial_values(),
            final(self).step_sequencer_values() == old(self).step_sequencer_values(),
            final(self).label_values() == old(self).label_values(),
            final(self).color_values() == old(self).color_values(),
            final(self).clock_values() == old(self).clock_values(),
            final(self).level_values() == old(self).level_values(),
    {
        self.buttons.replace_if_changed(values)
    }

    /// The published label of `path`.
    pub fn get_label_value(&self, path: &String) -> (r: Option<Arc<String>>)
        ensures
            match r {
                Some(label) => self.label_values().dom().contains(path@) && label
                    == self.label_values()[path@],
                None => !self.label_values().dom().contains(path@),
            },
    {
        match self.labels.get(path) {
            Some(v) => Some(v.clone()),
            None => None,
        }
    }

    /// Publishes `values` as the labels unless they equal those already
    /// published; returns whether it wrote.
    pub fn write_label_values(&mut self, values: PathMap<Arc<String>>) -> (written: bool)
        ensures
            written == !maps_equivalent(old(self).label_values(), values@),
            final(self).label_values() == (if written {
                values@
            } else {
                old(self).label_values()
            }),
            final(self).fader_values() == old(self).fader_values(),
            final(self).button_values() == old(self).button_values(),
            final(self).dial_values() == old(self).dial_values(),
            final(self).step_sequencer_values() == old(self).step_sequencer_values(),
            final(self).color_values() == old(self).color_values(),
            final(self).clock_values() == old(self).clock_values(),
            final(self).level_values() == old(self).level_values(),
    {
        self.labels.replace_if_changed(values)
    }

    /// Publishes `values` as the timecodes unless they equal those already
    /// published; returns whether it wrote.
    pub fn write_clock_values(&mut self, values: PathMap<Timecode>) -> (written: bool)
        ensures
            written == !maps_equivalent(old(self).clock_values(), values@),
            final(self).clock_values() == (if written {
                values@
            } else {
                old(self).clock_values()
            }),
            final(self).fader_values() == old(self).fader_values(),
            final(self).button_values() == old(self).button_values(),
            final(self).dial_values() == old(self).dial_values(),
            final(self).step_sequencer_values() == old(self).step_sequencer_values(),
            final(self).label_values() == old(self).label_values(),
            final(self).color_values() == old(self).color_values(),
            final(self).level_values() == old(self).level_values(),
    {
        self.clocks.replace_if_changed(values)
    }

    /// The published timecode of `path`.
    pub fn get_clock_value(&self, path: &String) -> (r: Option<Timecode>)
        ensures
            r == self.clock_values().get(path@),
    {
        match self.clocks.get(path) {
            Some(v) => Some(*v),
            None => None,
        }
    }

    /// Publishes `values` as the control colours unless they equal those
    /// already published; returns whether it wrote.
    pub fn write_control_colors(&mut self, values: PathMap<Color>) -> (written: bool)
        ensures
            written == !maps_equivalent(old(self).color_values(), values@),
            final(self).color_values() == (if written {
                values@
            } else {
                old(self).color_values()
            }),
            final(self).fader_values() == old(self).fader_values(),
            final(self).button_values() == old(self).button_values(),
            final(self).dial_values() == old(self).dial_values(),
            final(self).step_sequencer_values() == old(self).step_sequencer_values(),
            final(self).label_values() == old(self).label_values(),
            final(self).clock_values() == old(self).clock_values(),
            final(self).level_values() == old(self).level_values(),
    {
        self.colors.replace_if_changed(values)
    }

    /// The published colour of the control at `path`.
    pub fn get_control_color(&self, path: &String) -> (r: Option<Color>)
        ensures
            r == self.color_values().get(path@),
    {
        match self.colors.get(path) {
            Some(v) => Some(*v),
            None => None,
        }
    }

    /// The published step-sequencer state of `path`.
    pub fn get_step_sequencer_value(&self, path: &String) -> (r: Option<StepSequencerState>)
        ensures
            r == self.step_sequencer_values().get(path@),
    {
        match self.step_sequencers.get(path) {
            Some(v) => Some(*v),
            None => None,
        }
    }

    /// Publishes `values` as the step-sequencer states unless they equal those
    /// already published; returns whether it wrote.
    pub fn write_step_sequencer_values(&mut self, values: PathMap<StepSequencerState>) -> (written:
        bool)
        ensures
            written == !maps_equivalent(old(self).step_sequencer_values(), values@),
            final(self).step_sequencer_values() == (if written {
                values@
            } else {
                old(self).step_sequencer_values()
            }),
            final(self).fader_values() == old(self).fader_values(),
            final(self).button_values() == old(self).button_values(),
            final(self).dial_values() == old(self).dial_values(),
            final(self).label_values() == old(self).label_values(),
            final(self).color_values() == old(self).color_values(),
            final(self).clock_values() == old(self).clock_values(),
            final(self).level_values() == old(self).level_values(),
    {
        self.step_sequencers.replace_if_changed(values)
    }

    /// The published level of `path`.
    pub fn get_level_value(&self, path: &String) -> (r: Option<F64Bits>)
        ensures
            r == self.level_values().get(path@),
    {
        match self.levels.get(path) {
            Some(v) => Some(*v),
            None => None,
        }
    }

    /// Publishes `values` as the levels unless they equal those already
    /// published; returns whether it wrote.
    pub fn write_level_values(&mut self, values: PathMap<F64Bits>) -> (written: bool)
        ensures
            written == !maps_equivalent(old(self).level_values(), values@),
            final(self).level_values() == (if written {
                values@
            } else {
                old(self).level_values()
            }),
            final(self).fader_values() == old(self).fader_values(),
            final(self).button_values() == old(self).button_values(),
            final(self).dial_values() == old(self).dial_values(),
            final(self).step_sequencer_values() == old(self).step_sequencer_values(),
            final(self).label_values() == old(self).label_values(),
            final(self).color_values() == old(self).color_values(),
            final(self).clock_values() == old(self).clock_values(),
    {
        self.levels.replace_if_changed(values)
    }
}

} // verus!
