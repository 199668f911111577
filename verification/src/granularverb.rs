//! The reverb unit: a feedback delay network coloured by a lowpass, laid
//! over the dry input.

use vstd::prelude::*;
use crate::feedback::{DelayWithFeedback, NetworkView};
use crate::lowpass::{Lowpass, LowpassView};
use crate::sample::{unity, Sample};

verus! {

/// The unit's delay as a share of the longest delay, and its filter's
/// coefficient: `GRAIN_NUM / GRAIN_DEN`.
pub const GRAIN_NUM: u32 = 4109589;

pub const GRAIN_DEN: u32 = 100000000;

/// The gain at length 0: `GAIN_FLOOR_NUM / GAIN_FLOOR_DEN`.
pub const GAIN_FLOOR_NUM: u32 = 9;

pub const GAIN_FLOOR_DEN: u32 = 10;

/// How much gain full length adds to the floor: `SPAN_NUM / SPAN_DEN`.
pub const SPAN_NUM: u32 = 9;

pub const SPAN_DEN: u32 = 100;

/// What a reverb unit holds: its network and its filter.
pub struct GranularverbView<S> {
    pub delay: NetworkView<S>,
    pub filter: LowpassView<S>,
}

/// The delay, in samples, of a unit made for `sample_rate`.
pub open spec fn grain_time<S: Sample>(sample_rate: S) -> int {
    S::ratio_spec(GRAIN_NUM, GRAIN_DEN).times_spec(
        sample_rate.minus_spec(unity::<S>()),
    ).to_index_spec() as int
}

/// The gain that a length stands for: the length times the span, plus the
/// floor. A unit is made with this gain and `set_length` sets it.
pub open spec fn length_gain<S: Sample>(length: S) -> S {
    length.times_spec(S::ratio_spec(SPAN_NUM, SPAN_DEN)).plus_spec(
        S::ratio_spec(GAIN_FLOOR_NUM, GAIN_FLOOR_DEN),
    )
}

impl<S: Sample> GranularverbView<S> {
    /// The network is well formed.
    pub open spec fn wf(self) -> bool {
        self.delay.wf()
    }

    /// A unit at rest.
    pub open spec fn at_rest(length: S, sample_rate: S) -> Self {
        GranularverbView {
            delay: NetworkView::<S>::silent(
                grain_time(sample_rate),
                length_gain(length),
                sample_rate.to_index_spec() as int,
            ),
            filter: LowpassView::<S>::at_rest(S::ratio_spec(GRAIN_NUM, GRAIN_DEN)),
        }
    }

    /// One sample through the unit: the network's output goes through the
    /// filter, and the input is added to what the filter gives out.
    pub open spec fn process(self, input: S) -> (Self, S) {
        let echoed = self.delay.process(input);
        let coloured = self.filter.process(echoed.1);
        (GranularverbView { delay: echoed.0, filter: coloured.0 }, coloured.1.plus_spec(input))
    }

    /// The unit with its network's gain set from `length`.
    pub open spec fn set_length(self, length: S) -> Self {
        GranularverbView { delay: self.delay.set_feedback(length_gain(length)), ..self }
    }
}

/// Making a unit and setting its length use one map from length to gain:
/// to set a fresh unit to the length it was made with changes nothing.
pub proof fn lemma_set_length_after_new<S: Sample>(length: S, sample_rate: S)
    ensures
        GranularverbView::<S>::at_rest(length, sample_rate).delay.feedback == length_gain(length),
        GranularverbView::<S>::at_rest(length, sample_rate).set_length(length)
            == GranularverbView::<S>::at_rest(length, sample_rate),
{
}

/// A reverb unit.
pub struct Granularverb<S: Sample> {
    delay: DelayWithFeedback<S>,
    filter: Lowpass<S>,
}

impl<S: Sample> Granularverb<S> {
    /// The unit as the contracts see it.
    pub closed spec fn view(&self) -> GranularverbView<S> {
        GranularverbView { delay: self.delay@, filter: self.filter@ }
    }

    /// The invariant of every unit: see [`GranularverbView::wf`].
    pub open spec fn wf(&self) -> bool {
        self@.wf()
    }

    /// A unit at rest for `sample_rate`, its gain set from `length`.
    pub fn new(length: S, sample_rate: S) -> (r: Self)
        requires
            sample_rate.to_index_spec() > 0,
        ensures
            r.wf(),
            r@ == GranularverbView::<S>::at_rest(length, sample_rate),
    {
        let grain = S::ratio(GRAIN_NUM, GRAIN_DEN);
        let time = grain.times(sample_rate.minus(S::ratio(1, 1))).to_index();
        let gain = length.times(S::ratio(SPAN_NUM, SPAN_DEN)).plus(
            S::ratio(GAIN_FLOOR_NUM, GAIN_FLOOR_DEN),
        );
        Granularverb {
            delay: DelayWithFeedback::new(time, gain, sample_rate),
            filter: Lowpass::new(grain),
        }
    }

    /// Pushes one sample through the unit.
    pub fn process(&mut self, input: S) -> (out: S)
        requires
            old(self).wf(),
        ensures
            final(self).wf(),
            final(self)@ == old(self)@.process(input).0,
            out == old(self)@.process(input).1,
    {
        let echoed = self.delay.process(input);
        self.filter.process(echoed).plus(input)
    }

    /// Sets the network's gain from `length`.
    pub fn set_length(&mut self, length: S)
        requires
            old(self).wf(),
        ensures
            final(self).wf(),
            final(self)@ == old(self)@.set_length(length),
    {
        let gain = length.times(S::ratio(SPAN_NUM, SPAN_DEN)).plus(
            S::ratio(GAIN_FLOOR_NUM, GAIN_FLOOR_DEN),
        );
        self.delay.set_feedback(gain);
    }

    /// The network's gain.
    pub fn feedback(&self) -> (r: S)
        ensures
            r == self@.delay.feedback,
    {
        self.delay.feedback()
    }
}

} // verus!
