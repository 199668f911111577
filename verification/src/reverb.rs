//! The effect graph: per channel a feedback delay network, a reverb unit and
//! an output filter, with wet/dry mixing and the three delay modes.

use vstd::prelude::*;
use crate::delay::{lemma_advanced, lemma_set_out_wf, lemma_set_time_delay};
use crate::feedback::{
    at_rest, lemma_rest_step, lemma_restart_idempotent, DelayWithFeedback, NetworkView,
};
use crate::granularverb::{Granularverb, GranularverbView};
use crate::lowpass::{Lowpass, LowpassView};
use crate::sample::{silence, unity, Sample};

verus! {

/// How the delay networks' cursors move from sample to sample.
#[derive(Clone, Copy, Debug, PartialEq, Eq)]
pub enum DelayMode {
    /// Read and write cursors in step.
    Normal,
    /// The forward lines' read cursors take one extra step per sample.
    DoubleInitial,
    /// The read cursors of forward and return lines take one extra step per
    /// sample.
    DoubleInitialAndFeedback,
}

/// The controls of the effect, each on its own scale: times, gains, mixes,
/// length and cutoff from 0 to 1, the mode selector from 0 up to 3.
pub struct ReverbModel<S> {
    pub delay_time: S,
    pub delay_feedback: S,
    pub delay_wet_dry: S,
    pub delay_mode: S,
    pub reverb_length: S,
    pub reverb_wet_dry: S,
    pub final_cutoff: S,
}

/// One control as it stands for one sample: its value, and whether it is on
/// the move.
pub struct Smoothed<S> {
    pub value: S,
    pub is_smoothing: bool,
}

/// The controls as they stand for one sample.
pub struct ReverbModelProcess<S> {
    pub delay_time: Smoothed<S>,
    pub delay_feedback: Smoothed<S>,
    pub delay_wet_dry: Smoothed<S>,
    pub delay_mode: Smoothed<S>,
    pub reverb_length: Smoothed<S>,
    pub reverb_wet_dry: Smoothed<S>,
    pub final_cutoff: Smoothed<S>,
}

impl<S: Sample> ReverbModel<S> {
    /// The controls of a fresh effect: longest delay, half feedback, even
    /// mixes, normal mode, half length, filter fully open.
    pub open spec fn initial() -> Self {
        ReverbModel {
            delay_time: S::ratio_spec(1, 1),
            delay_feedback: S::ratio_spec(1, 2),
            delay_wet_dry: S::ratio_spec(1, 2),
            delay_mode: S::ratio_spec(0, 1),
            reverb_length: S::ratio_spec(1, 2),
            reverb_wet_dry: S::ratio_spec(1, 2),
            final_cutoff: S::ratio_spec(1, 1),
        }
    }
}

impl<S: Sample> Default for ReverbModel<S> {
    fn default() -> (r: Self)
        ensures
            r == ReverbModel::<S>::initial(),
    {
        ReverbModel {
            delay_time: S::ratio(1, 1),
            delay_feedback: S::ratio(1, 2),
            delay_wet_dry: S::ratio(1, 2),
            delay_mode: S::ratio(0, 1),
            reverb_length: S::ratio(1, 2),
            reverb_wet_dry: S::ratio(1, 2),
            final_cutoff: S::ratio(1, 1),
        }
    }
}

/// The delay in samples that the control value `delay_time` stands for at
/// `sample_rate`: the control times one less than the sample rate, cut to a
/// whole number.
pub open spec fn delay_samples<S: Sample>(delay_time: S, sample_rate: S) -> int {
    delay_time.times_spec(sample_rate.minus_spec(unity::<S>())).to_index_spec() as int
}

/// The band that a mode selector falls in: below 1 normal, from 1 to below 2
/// the forward lines doubled, from 2 to below 3 both lines doubled, and no
/// band from 3 on or where the selector compares with nothing.
pub open spec fn classify_spec<S: Sample>(selector: S) -> Option<DelayMode> {
    if selector.lt_spec(unity::<S>()) {
        Some(DelayMode::Normal)
    } else if unity::<S>().le_spec(selector) && selector.lt_spec(S::ratio_spec(2, 1)) {
        Some(DelayMode::DoubleInitial)
    } else if S::ratio_spec(2, 1).le_spec(selector) && selector.lt_spec(S::ratio_spec(3, 1)) {
        Some(DelayMode::DoubleInitialAndFeedback)
    } else {
        None
    }
}

/// `wet * mix + (1 - mix) * dry`, as the delay stage blends.
pub open spec fn delay_mix<S: Sample>(wet: S, dry: S, mix: S) -> S {
    wet.times_spec(mix).plus_spec(unity::<S>().minus_spec(mix).times_spec(dry))
}

/// `mix * wet + (1 - mix) * dry`, as the reverb stage blends.
pub open spec fn reverb_mix<S: Sample>(wet: S, dry: S, mix: S) -> S {
    mix.times_spec(wet).plus_spec(unity::<S>().minus_spec(mix).times_spec(dry))
}

/// What one channel holds.
pub struct ChannelView<S> {
    pub delay: NetworkView<S>,
    pub reverb: GranularverbView<S>,
    pub filter: LowpassView<S>,
}

impl<S: Sample> ChannelView<S> {
    /// Network and reverb unit are well formed.
    pub open spec fn wf(self) -> bool {
        self.delay.wf() && self.reverb.wf()
    }

    /// A channel at rest for `sample_rate`, set from `model`.
    pub open spec fn at_rest(sample_rate: S, model: ReverbModel<S>) -> Self {
        ChannelView {
            delay: NetworkView::<S>::silent(
                delay_samples(model.delay_time, sample_rate),
                model.delay_feedback,
                sample_rate.to_index_spec() as int,
            ),
            reverb: GranularverbView::<S>::at_rest(model.reverb_length, sample_rate),
            filter: LowpassView::<S>::at_rest(model.final_cutoff),
        }
    }

    /// The channel with every control that is on the move applied: delay
    /// time, feedback gain, reverb length, output cutoff. A control at rest
    /// is left as it was set.
    pub open spec fn tuned(self, model: ReverbModelProcess<S>, sample_rate: S) -> Self {
        let timed = if model.delay_time.is_smoothing {
            self.delay.set_time(delay_samples(model.delay_time.value, sample_rate))
        } else {
            self.delay
        };
        ChannelView {
            delay: if model.delay_feedback.is_smoothing {
                timed.set_feedback(model.delay_feedback.value)
            } else {
                timed
            },
            reverb: if model.reverb_length.is_smoothing {
                self.reverb.set_length(model.reverb_length.value)
            } else {
                self.reverb
            },
            filter: if model.final_cutoff.is_smoothing {
                self.filter.set_a(model.final_cutoff.value)
            } else {
                self.filter
            },
        }
    }

    /// One sample through the channel: the delay network, blended with the
    /// input; the reverb unit, blended with what went into it; the output
    /// filter.
    pub open spec fn process(self, model: ReverbModelProcess<S>, input: S) -> (Self, S) {
        let echoed = self.delay.process(input);
        let delay_current = delay_mix(echoed.1, input, model.delay_wet_dry.value);
        let reverbed = self.reverb.process(delay_current);
        let reverb_current = reverb_mix(reverbed.1, delay_current, model.reverb_wet_dry.value);
        let filtered = self.filter.process(reverb_current);
        (ChannelView { delay: echoed.0, reverb: reverbed.0, filter: filtered.0 }, filtered.1)
    }

    /// The channel with its delay network restarted: see
    /// [`NetworkView::restart`].
    pub open spec fn restart(self, time: int) -> Self {
        ChannelView { delay: self.delay.restart(time), ..self }
    }

    /// The channel with its forward line's read cursor one slot further.
    pub open spec fn double_initial(self) -> Self {
        ChannelView { delay: self.delay.increment_out_initial(), ..self }
    }

    /// The channel with the read cursors of both lines one slot further.
    pub open spec fn double_initial_and_feedback(self) -> Self {
        ChannelView { delay: self.delay.increment_out_initial().increment_out_feedback(), ..self }
    }
}

/// What the effect holds.
pub struct ReverbView<S> {
    pub left: ChannelView<S>,
    pub right: ChannelView<S>,
    pub sample_rate: S,
    pub mode: DelayMode,
}

impl<S: Sample> ReverbView<S> {
    /// Both channels are well formed.
    pub open spec fn wf(self) -> bool {
        self.left.wf() && self.right.wf()
    }

    /// A fresh effect for `sample_rate`, set from `model`, in normal mode.
    pub open spec fn at_rest(sample_rate: S, model: ReverbModel<S>) -> Self {
        ReverbView {
            left: ChannelView::<S>::at_rest(sample_rate, model),
            right: ChannelView::<S>::at_rest(sample_rate, model),
            sample_rate,
            mode: DelayMode::Normal,
        }
    }

    /// The step into normal mode. From another mode both delay networks are
    /// restarted at the delay that `delay_time` stands for; in normal mode
    /// already, nothing changes.
    pub open spec fn enter_normal(self, delay_time: S) -> Self {
        if self.mode == DelayMode::Normal {
            self
        } else {
            ReverbView {
                left: self.left.restart(delay_samples(delay_time, self.sample_rate)),
                right: self.right.restart(delay_samples(delay_time, self.sample_rate)),
                mode: DelayMode::Normal,
                ..self
            }
        }
    }

    /// One sample's worth of the mode that doubles the forward lines.
    pub open spec fn double_initial(self) -> Self {
        ReverbView {
            left: self.left.double_initial(),
            right: self.right.double_initial(),
            mode: DelayMode::DoubleInitial,
            ..self
        }
    }

    /// One sample's worth of the mode that doubles both lines.
    pub open spec fn double_initial_and_feedback(self) -> Self {
        ReverbView {
            left: self.left.double_initial_and_feedback(),
            right: self.right.double_initial_and_feedback(),
            mode: DelayMode::DoubleInitialAndFeedback,
            ..self
        }
    }

    /// What a band does to the effect after a sample; no band, no change.
    pub open spec fn apply_mode(self, band: Option<DelayMode>, delay_time: S) -> Self {
        match band {
            Some(DelayMode::Normal) => self.enter_normal(delay_time),
            Some(DelayMode::DoubleInitial) => self.double_initial(),
            Some(DelayMode::DoubleInitialAndFeedback) => self.double_initial_and_feedback(),
            None => self,
        }
    }

    /// One sample through the effect: controls on the move are applied, each
    /// channel processes its input, then the selector's band acts on the
    /// delay networks. Gives the effect afterwards and the two outputs.
    pub open spec fn process_sample(self, model: ReverbModelProcess<S>, input: Seq<S>) -> (
        Self,
        Seq<S>,
    ) {
        let left = self.left.tuned(model, self.sample_rate).process(model, input[0]);
        let right = self.right.tuned(model, self.sample_rate).process(model, input[1]);
        (
            ReverbView { left: left.0, right: right.0, ..self }.apply_mode(
                classify_spec(model.delay_mode.value),
                model.delay_time.value,
            ),
            seq![left.1, right.1],
        )
    }
}

impl<S: Sample> ReverbView<S> {
    /// The effect after the first `m` frames: frame `i` is the controls
    /// `models[i]` and the two inputs `inputs[i]`.
    pub open spec fn at(
        self,
        models: Seq<ReverbModelProcess<S>>,
        inputs: Seq<Seq<S>>,
        m: int,
    ) -> Self
        decreases m,
    {
        if m <= 0 {
            self
        } else {
            self.at(models, inputs, m - 1).process_sample(models[m - 1], inputs[m - 1]).0
        }
    }

    /// All four delay lines have `size` slots.
    pub open spec fn lines_have(self, size: int) -> bool {
        &&& self.left.delay.initial_delay.len() == size
        &&& self.left.delay.feedback_delay.len() == size
        &&& self.right.delay.initial_delay.len() == size
        &&& self.right.delay.feedback_delay.len() == size
    }

    /// All four delay lines stand at delay `delay`.
    pub open spec fn lines_delay(self, delay: int) -> bool {
        &&& self.left.delay.initial_delay.delay() == delay
        &&& self.left.delay.feedback_delay.delay() == delay
        &&& self.right.delay.initial_delay.delay() == delay
        &&& self.right.delay.feedback_delay.delay() == delay
    }
}

/// A frame that leaves the delay networks to themselves: silence on both
/// channels, delay time and feedback gain at rest, and a selector in the
/// band of normal mode.
pub open spec fn quiet_frame<S: Sample>(model: ReverbModelProcess<S>, input: Seq<S>) -> bool {
    &&& input.len() == 2
    &&& input[0] == silence::<S>()
    &&& input[1] == silence::<S>()
    &&& !model.delay_time.is_smoothing
    &&& !model.delay_feedback.is_smoothing
    &&& classify_spec(model.delay_mode.value) == Some(DelayMode::Normal)
}

/// A fresh effect: normal mode, and four silent delay lines that share one
/// size, the whole samples of the sample rate, and one delay, the delay that
/// the model's delay time stands for, counted around the ring.
pub proof fn lemma_fresh_effect<S: Sample>(sample_rate: S, model: ReverbModel<S>)
    requires
        sample_rate.to_index_spec() > 0,
    ensures
        ReverbView::<S>::at_rest(sample_rate, model).wf(),
        ReverbView::<S>::at_rest(sample_rate, model).mode == DelayMode::Normal,
        ReverbView::<S>::at_rest(sample_rate, model).lines_have(sample_rate.to_index_spec() as int),
        ReverbView::<S>::at_rest(sample_rate, model).lines_delay(
            delay_samples(model.delay_time, sample_rate) % (sample_rate.to_index_spec() as int),
        ),
        0 <= delay_samples(model.delay_time, sample_rate) < sample_rate.to_index_spec()
            ==> ReverbView::<S>::at_rest(sample_rate, model).lines_delay(
            delay_samples(model.delay_time, sample_rate),
        ),
        ReverbView::<S>::at_rest(sample_rate, model).left.delay.initial_delay.holds_only(
            silence::<S>(),
        ),
        ReverbView::<S>::at_rest(sample_rate, model).left.delay.feedback_delay.holds_only(
            silence::<S>(),
        ),
        ReverbView::<S>::at_rest(sample_rate, model).right.delay.initial_delay.holds_only(
            silence::<S>(),
        ),
        ReverbView::<S>::at_rest(sample_rate, model).right.delay.feedback_delay.holds_only(
            silence::<S>(),
        ),
{
    let size = sample_rate.to_index_spec() as int;
    let ring = crate::buffer::BufferView::<S>::silent(size);
    let time = delay_samples(model.delay_time, sample_rate);
    lemma_set_out_wf(ring, ring.input - time);
    lemma_set_time_delay(ring, time);
    lemma_set_out_wf(ring, ring.input - crate::granularverb::grain_time(sample_rate));
}

/// A quiet frame moves nothing in a resting effect but the cursors. In
/// normal mode, with both delay networks at rest, after a quiet frame the
/// effect is in normal mode still, both networks are at rest still with all
/// four lines one slot further, and each network gave out silence.
pub proof fn lemma_quiet_frame<S: Sample>(
    v: ReverbView<S>,
    model: ReverbModelProcess<S>,
    input: Seq<S>,
)
    requires
        v.wf(),
        v.mode == DelayMode::Normal,
        at_rest(v.left.delay),
        at_rest(v.right.delay),
        quiet_frame(model, input),
    ensures
        v.process_sample(model, input).0.wf(),
        v.process_sample(model, input).0.mode == DelayMode::Normal,
        v.process_sample(model, input).0.sample_rate == v.sample_rate,
        at_rest(v.process_sample(model, input).0.left.delay),
        at_rest(v.process_sample(model, input).0.right.delay),
        v.process_sample(model, input).0.left.delay == v.left.delay.process(silence::<S>()).0,
        v.process_sample(model, input).0.right.delay == v.right.delay.process(silence::<S>()).0,
        v.left.tuned(model, v.sample_rate).delay.process(input[0]).1 == silence::<S>(),
        v.right.tuned(model, v.sample_rate).delay.process(input[1]).1 == silence::<S>(),
{
    lemma_rest_step(v.left.delay);
    lemma_rest_step(v.right.delay);
}

/// Quiet frames leave a resting effect at rest. In normal mode, with both
/// delay networks at rest, `m` quiet frames leave the mode, the gains and
/// the contents of all four lines as they were and move every cursor `m`
/// slots on.
pub proof fn lemma_quiet_frames<S: Sample>(
    v: ReverbView<S>,
    models: Seq<ReverbModelProcess<S>>,
    inputs: Seq<Seq<S>>,
    m: int,
)
    requires
        v.wf(),
        v.mode == DelayMode::Normal,
        at_rest(v.left.delay),
        at_rest(v.right.delay),
        0 <= m <= models.len(),
        models.len() == inputs.len(),
        forall|i: int| 0 <= i < m ==> quiet_frame(#[trigger] models[i], inputs[i]),
    ensures
        v.at(models, inputs, m).wf(),
        v.at(models, inputs, m).mode == DelayMode::Normal,
        v.at(models, inputs, m).sample_rate == v.sample_rate,
        at_rest(v.at(models, inputs, m).left.delay),
        at_rest(v.at(models, inputs, m).right.delay),
        v.at(models, inputs, m).left.delay.initial_delay == v.left.delay.initial_delay.advanced(m),
        v.at(models, inputs, m).left.delay.feedback_delay == v.left.delay.feedback_delay.advanced(
            m,
        ),
        v.at(models, inputs, m).right.delay.initial_delay == v.right.delay.initial_delay.advanced(
            m,
        ),
        v.at(models, inputs, m).right.delay.feedback_delay
            == v.right.delay.feedback_delay.advanced(m),
        v.at(models, inputs, m).left.delay.feedback == v.left.delay.feedback,
        v.at(models, inputs, m).right.delay.feedback == v.right.delay.feedback,
        v.at(models, inputs, m).left.delay.former_feedback == silence::<S>(),
        v.at(models, inputs, m).right.delay.former_feedback == silence::<S>(),
    decreases m,
{
    lemma_advanced(v.left.delay.initial_delay, 0, 0);
    lemma_advanced(v.left.delay.feedback_delay, 0, 0);
    lemma_advanced(v.right.delay.initial_delay, 0, 0);
    lemma_advanced(v.right.delay.feedback_delay, 0, 0);
    if m > 0 {
        lemma_quiet_frames(v, models, inputs, m - 1);
        let u = v.at(models, inputs, m - 1);
        assert(quiet_frame(models[m - 1], inputs[m - 1]));
        lemma_quiet_frame(u, models[m - 1], inputs[m - 1]);
        lemma_rest_step(u.left.delay);
        lemma_rest_step(u.right.delay);
        lemma_advanced(v.left.delay.initial_delay, m - 1, 1);
        lemma_advanced(v.left.delay.feedback_delay, m - 1, 1);
        lemma_advanced(v.right.delay.initial_delay, m - 1, 1);
        lemma_advanced(v.right.delay.feedback_delay, m - 1, 1);
    }
}

/// The step into normal mode holds through silence. Let an effect in
/// another mode step into normal mode, with the return lines' last outputs
/// silent and an arithmetic in which silence plus either gain times silence
/// is silence. Then feed it one full lap of quiet frames, as many as a line
/// has slots. Both delay networks give out silence on every frame, and at
/// the end they stand exactly where the step into normal mode left them: to
/// restart them once more changes nothing in the effect.
pub proof fn lemma_normal_holds_through_silence<S: Sample>(
    u: ReverbView<S>,
    delay_time: S,
    size: int,
    models: Seq<ReverbModelProcess<S>>,
    inputs: Seq<Seq<S>>,
)
    requires
        u.wf(),
        u.mode != DelayMode::Normal,
        u.lines_have(size),
        u.left.delay.former_feedback == silence::<S>(),
        u.right.delay.former_feedback == silence::<S>(),
        silence::<S>().plus_spec(u.left.delay.feedback.times_spec(silence::<S>())) == silence::<
            S,
        >(),
        silence::<S>().plus_spec(u.right.delay.feedback.times_spec(silence::<S>())) == silence::<
            S,
        >(),
        models.len() == size,
        inputs.len() == size,
        forall|i: int| 0 <= i < size ==> quiet_frame(#[trigger] models[i], inputs[i]),
    ensures
        forall|i: int|
            0 <= i < size ==> (#[trigger] u.enter_normal(delay_time).at(
                models,
                inputs,
                i,
            )).left.delay.process(silence::<S>()).1 == silence::<S>(),
        forall|i: int|
            0 <= i < size ==> (#[trigger] u.enter_normal(delay_time).at(
                models,
                inputs,
                i,
            )).right.delay.process(silence::<S>()).1 == silence::<S>(),
        u.enter_normal(delay_time).at(models, inputs, size).left.delay == (NetworkView {
            former_initial: silence::<S>(),
            ..u.enter_normal(delay_time).left.delay
        }),
        u.enter_normal(delay_time).at(models, inputs, size).right.delay == (NetworkView {
            former_initial: silence::<S>(),
            ..u.enter_normal(delay_time).right.delay
        }),
        u.enter_normal(delay_time).at(models, inputs, size).left.restart(
            delay_samples(delay_time, u.sample_rate),
        ) == u.enter_normal(delay_time).at(models, inputs, size).left,
        u.enter_normal(delay_time).at(models, inputs, size).right.restart(
            delay_samples(delay_time, u.sample_rate),
        ) == u.enter_normal(delay_time).at(models, inputs, size).right,
        u.enter_normal(delay_time).at(models, inputs, size).enter_normal(delay_time)
            == u.enter_normal(delay_time).at(models, inputs, size),
{
    let time = delay_samples(delay_time, u.sample_rate);
    let v = u.enter_normal(delay_time);
    lemma_restart_idempotent(u.left.delay, time);
    lemma_restart_idempotent(u.right.delay, time);
    assert(at_rest(v.left.delay));
    assert(at_rest(v.right.delay));
    assert forall|i: int| 0 <= i < size implies (#[trigger] v.at(
        models,
        inputs,
        i,
    )).left.delay.process(silence::<S>()).1 == silence::<S>() by {
        lemma_quiet_frames(v, models, inputs, i);
        lemma_rest_step(v.at(models, inputs, i).left.delay);
    }
    assert forall|i: int| 0 <= i < size implies (#[trigger] v.at(
        models,
        inputs,
        i,
    )).right.delay.process(silence::<S>()).1 == silence::<S>() by {
        lemma_quiet_frames(v, models, inputs, i);
        lemma_rest_step(v.at(models, inputs, i).right.delay);
    }
    lemma_quiet_frames(v, models, inputs, size);
    lemma_quiet_frames(v, models, inputs, size - 1);
    let w = v.at(models, inputs, size);
    let last = v.at(models, inputs, size - 1);
    lemma_quiet_frame(last, models[size - 1], inputs[size - 1]);
    lemma_rest_step(last.left.delay);
    lemma_rest_step(last.right.delay);
    lemma_advanced(v.left.delay.initial_delay, 0, 0);
    lemma_advanced(v.left.delay.feedback_delay, 0, 0);
    lemma_advanced(v.right.delay.initial_delay, 0, 0);
    lemma_advanced(v.right.delay.feedback_delay, 0, 0);
    assert(w.left.delay == (NetworkView { former_initial: silence::<S>(), ..v.left.delay }));
    assert(w.right.delay == (NetworkView { former_initial: silence::<S>(), ..v.right.delay }));
    lemma_restart_idempotent(v.left.delay, time);
    lemma_restart_idempotent(v.right.delay, time);
    assert(w.left.delay.restart(time) == w.left.delay);
    assert(w.right.delay.restart(time) == w.right.delay);
}

/// Entering normal mode twice is entering it once.
pub proof fn lemma_enter_normal_idempotent<S: Sample>(v: ReverbView<S>, delay_time: S)
    ensures
        v.enter_normal(delay_time).enter_normal(delay_time) == v.enter_normal(delay_time),
        v.enter_normal(delay_time).mode == DelayMode::Normal,
{
}

/// The band that a mode selector falls in: see [`classify_spec`].
pub fn classify<S: Sample>(selector: S) -> (band: Option<DelayMode>)
    ensures
        band == classify_spec(selector),
{
    let one = S::ratio(1, 1);
    let two = S::ratio(2, 1);
    let three = S::ratio(3, 1);
    if selector.lt(one) {
        Some(DelayMode::Normal)
    } else if one.le(selector) && selector.lt(two) {
        Some(DelayMode::DoubleInitial)
    } else if two.le(selector) && selector.lt(three) {
        Some(DelayMode::DoubleInitialAndFeedback)
    } else {
        None
    }
}

/// One channel of the effect.
pub struct Channel<S: Sample> {
    delay: DelayWithFeedback<S>,
    reverb: Granularverb<S>,
    filter: Lowpass<S>,
}

impl<S: Sample> Channel<S> {
    /// The channel as the contracts see it.
    pub closed spec fn view(&self) -> ChannelView<S> {
        ChannelView { delay: self.delay@, reverb: self.reverb@, filter: self.filter@ }
    }

    /// The invariant of every channel: see [`ChannelView::wf`].
    pub open spec fn wf(&self) -> bool {
        self@.wf()
    }

    /// A channel at rest for `sample_rate`, set from `model`.
    pub fn new(sample_rate: S, model: &ReverbModel<S>) -> (r: Self)
        requires
            sample_rate.to_index_spec() > 0,
        ensures
            r.wf(),
            r@ == ChannelView::<S>::at_rest(sample_rate, *model),
    {
        let time = model.delay_time.times(sample_rate.minus(S::ratio(1, 1))).to_index();
        Channel {
            delay: DelayWithFeedback::new(time, model.delay_feedback, sample_rate),
            reverb: Granularverb::new(model.reverb_length, sample_rate),
            filter: Lowpass::new(model.final_cutoff),
        }
    }

    /// Applies every control that is on the move.
    pub fn tune(&mut self, model: &ReverbModelProcess<S>, sample_rate: S)
        requires
            old(self).wf(),
        ensures
            final(self).wf(),
            final(self)@ == old(self)@.tuned(*model, sample_rate),
    {
        if model.delay_time.is_smoothing {
            let time = model.delay_time.value.times(sample_rate.minus(S::ratio(1, 1))).to_index();
            self.delay.set_time(time);
        }
        if model.delay_feedback.is_smoothing {
            self.delay.set_feedback(model.delay_feedback.value);
        }
        if model.reverb_length.is_smoothing {
            self.reverb.set_length(model.reverb_length.value);
        }
        if model.final_cutoff.is_smoothing {
            self.filter.set_a(model.final_cutoff.value);
        }
    }

    /// Pushes one sample through the channel.
    pub fn process(&mut self, model: &ReverbModelProcess<S>, input: S) -> (out: S)
        requires
            old(self).wf(),
        ensures
            final(self).wf(),
            final(self)@ == old(self)@.process(*model, input).0,
            out == old(self)@.process(*model, input).1,
    {
        let one = S::ratio(1, 1);
        let wet = model.delay_wet_dry.value;
        let delay_current = self.delay.process(input).times(wet).plus(
            one.minus(wet).times(input),
        );
        let mix = model.reverb_wet_dry.value;
        let reverb_current = mix.times(self.reverb.process(delay_current)).plus(
            one.minus(mix).times(delay_current),
        );
        self.filter.process(reverb_current)
    }

    /// Restarts the delay network: both lines silenced, their cursors put on
    /// slot 0, and the delay set to `time`.
    pub fn restart(&mut self, time: i32)
        requires
            old(self).wf(),
        ensures
            final(self).wf(),
            final(self)@ == old(self)@.restart(time as int),
    {
        self.delay.clear();
        self.delay.set_pos(0);
        self.delay.set_time(time);
    }

    /// Moves the forward line's read cursor one slot further.
    pub fn double_initial(&mut self)
        requires
            old(self).wf(),
        ensures
            final(self).wf(),
            final(self)@ == old(self)@.double_initial(),
    {
        self.delay.increment_out_initial();
    }

    /// Moves the read cursors of both lines one slot further.
    pub fn double_initial_and_feedback(&mut self)
        requires
            old(self).wf(),
        ensures
            final(self).wf(),
            final(self)@ == old(self)@.double_initial_and_feedback(),
    {
        self.delay.increment_out_initial();
        self.delay.increment_out_feedback();
    }

    /// The delay network.
    pub fn delay(&self) -> (r: &DelayWithFeedback<S>)
        requires
            self.wf(),
        ensures
            r.wf(),
            r@ == self@.delay,
    {
        &self.delay
    }

    /// The reverb unit.
    pub fn reverb(&self) -> (r: &Granularverb<S>)
        requires
            self.wf(),
        ensures
            r.wf(),
            r@ == self@.reverb,
    {
        &self.reverb
    }

    /// The output filter.
    pub fn filter(&self) -> (r: &Lowpass<S>)
        ensures
            r@ == self@.filter,
    {
        &self.filter
    }
}

/// The effect: two channels, the sample rate they were made for, and the
/// delay mode.
pub struct Reverb<S: Sample> {
    left: Channel<S>,
    right: Channel<S>,
    sample_rate: S,
    mode: DelayMode,
}

impl<S: Sample> Reverb<S> {
    /// The effect as the contracts see it.
    pub closed spec fn view(&self) -> ReverbView<S> {
        ReverbView {
            left: self.left@,
            right: self.right@,
            sample_rate: self.sample_rate,
            mode: self.mode,
        }
    }

    /// The invariant of every effect: see [`ReverbView::wf`].
    pub open spec fn wf(&self) -> bool {
        self@.wf()
    }

    /// A fresh effect. Every line gets as many slots as `sample_rate` has
    /// whole samples, so a sample rate below 1 is not taken.
    pub fn new(sample_rate: S, model: &ReverbModel<S>) -> (r: Self)
        requires
            sample_rate.to_index_spec() > 0,
        ensures
            r.wf(),
            r@ == ReverbView::<S>::at_rest(sample_rate, *model),
    {
        Reverb {
            left: Channel::new(sample_rate, model),
            right: Channel::new(sample_rate, model),
            sample_rate,
            mode: DelayMode::Normal,
        }
    }

    /// Pushes one sample per channel through the effect, left first.
    pub fn process_sample(&mut self, model: &ReverbModelProcess<S>, input: [S; 2]) -> (out: [S; 2])
        requires
            old(self).wf(),
        ensures
            final(self).wf(),
            final(self)@ == old(self)@.process_sample(*model, input@).0,
            out@ == old(self)@.process_sample(*model, input@).1,
    {
        self.left.tune(model, self.sample_rate);
        self.right.tune(model, self.sample_rate);
        let left = self.left.process(model, input[0]);
        let right = self.right.process(model, input[1]);
        self.apply_mode(classify(model.delay_mode.value), model.delay_time.value);
        [left, right]
    }

    /// Lets a band act on the delay networks; no band, no change.
    pub fn apply_mode(&mut self, band: Option<DelayMode>, delay_time: S)
        requires
            old(self).wf(),
        ensures
            final(self).wf(),
            final(self)@ == old(self)@.apply_mode(band, delay_time),
    {
        match band {
            Some(DelayMode::Normal) => self.enter_normal(delay_time),
            Some(DelayMode::DoubleInitial) => self.double_initial(),
            Some(DelayMode::DoubleInitialAndFeedback) => self.double_initial_and_feedback(),
            None => {},
        }
    }

    /// Steps into normal mode: from another mode both delay networks are
    /// restarted at the delay that `delay_time` stands for.
    pub fn enter_normal(&mut self, delay_time: S)
        requires
            old(self).wf(),
        ensures
            final(self).wf(),
            final(self)@ == old(self)@.enter_normal(delay_time),
    {
        match self.mode {
            DelayMode::Normal => {},
            _ => {
                self.mode = DelayMode::Normal;
                let time = delay_time.times(self.sample_rate.minus(S::ratio(1, 1))).to_index();
                self.left.restart(time);
                self.right.restart(time);
            },
        }
    }

    /// One sample in the mode that doubles the forward lines.
    pub fn double_initial(&mut self)
        requires
            old(self).wf(),
        ensures
            final(self).wf(),
            final(self)@ == old(self)@.double_initial(),
    {
        self.mode = DelayMode::DoubleInitial;
        self.left.double_initial();
        self.right.double_initial();
    }

    /// One sample in the mode that doubles both lines.
    pub fn double_initial_and_feedback(&mut self)
        requires
            old(self).wf(),
        ensures
            final(self).wf(),
            final(self)@ == old(self)@.double_initial_and_feedback(),
    {
        self.mode = DelayMode::DoubleInitialAndFeedback;
        self.left.double_initial_and_feedback();
        self.right.double_initial_and_feedback();
    }

    /// The delay mode.
    pub fn mode(&self) -> (r: DelayMode)
        ensures
            r == self@.mode,
    {
        self.mode
    }

    /// The left channel.
    pub fn left(&self) -> (r: &Channel<S>)
        requires
            self.wf(),
        ensures
            r.wf(),
            r@ == self@.left,
    {
        &self.left
    }

    /// The right channel.
    pub fn right(&self) -> (r: &Channel<S>)
        requires
            self.wf(),
        ensures
            r.wf(),
            r@ == self@.right,
    {
        &self.right
    }
}

} // verus!
