//! Feedback delay networks: a forward line whose output is returned to its
//! own input through a second line and a gain.

use vstd::prelude::*;
use crate::buffer::BufferView;
use crate::delay::{lemma_advanced, lemma_process, lemma_process_steady, Delay, RoundingErrorDelay};
use crate::sample::{silence, Sample};

verus! {

/// What a network holds: its two lines, the sample each line gave out last,
/// and the gain on the way back.
pub struct NetworkView<S> {
    pub initial_delay: BufferView<S>,
    pub feedback_delay: BufferView<S>,
    pub former_initial: S,
    pub former_feedback: S,
    pub feedback: S,
}

impl<S: Sample> NetworkView<S> {
    /// Both lines are well formed.
    pub open spec fn wf(self) -> bool {
        self.initial_delay.wf() && self.feedback_delay.wf()
    }

    /// A silent network of `size` slots per line, both lines retuned to `time`.
    pub open spec fn silent(time: int, feedback: S, size: int) -> Self {
        NetworkView {
            initial_delay: BufferView::<S>::silent(size).set_time(time),
            feedback_delay: BufferView::<S>::silent(size).set_time(time),
            former_initial: crate::sample::silence::<S>(),
            former_feedback: crate::sample::silence::<S>(),
            feedback,
        }
    }

    /// A silent network of `size` slots per line, both lines drifted by `time`.
    pub open spec fn silent_drifted(time: int, feedback: S, size: int) -> Self {
        NetworkView {
            initial_delay: BufferView::<S>::silent(size).drift(time),
            feedback_delay: BufferView::<S>::silent(size).drift(time),
            former_initial: crate::sample::silence::<S>(),
            former_feedback: crate::sample::silence::<S>(),
            feedback,
        }
    }

    /// What enters the forward line when `input` arrives: the input plus the
    /// gain times what the return line gave out last.
    pub open spec fn driven(self, input: S) -> S {
        input.plus_spec(self.feedback.times_spec(self.former_feedback))
    }

    /// One sample through the network. The forward line takes the driven
    /// input; the return line takes what the forward line gives out in this
    /// same step; both outputs are kept for the next step. Gives the network
    /// afterwards and the forward line's output.
    pub open spec fn process(self, input: S) -> (Self, S) {
        let forward = self.initial_delay.process(self.driven(input));
        let back = self.feedback_delay.process(forward.1);
        (
            NetworkView {
                initial_delay: forward.0,
                feedback_delay: back.0,
                former_initial: forward.1,
                former_feedback: back.1,
                feedback: self.feedback,
            },
            forward.1,
        )
    }

    /// Both lines retuned to read `time` slots behind their write cursors.
    pub open spec fn set_time(self, time: int) -> Self {
        NetworkView {
            initial_delay: self.initial_delay.set_time(time),
            feedback_delay: self.feedback_delay.set_time(time),
            ..self
        }
    }

    /// Both lines' read cursors moved back by `time` slots.
    pub open spec fn drift(self, time: int) -> Self {
        NetworkView {
            initial_delay: self.initial_delay.drift(time),
            feedback_delay: self.feedback_delay.drift(time),
            ..self
        }
    }

    /// The network with gain `feedback`.
    pub open spec fn set_feedback(self, feedback: S) -> Self {
        NetworkView { feedback, ..self }
    }

    /// Both lines silenced. Cursors, remembered outputs and gain stay.
    pub open spec fn clear(self) -> Self {
        NetworkView {
            initial_delay: self.initial_delay.fill(crate::sample::silence::<S>()),
            feedback_delay: self.feedback_delay.fill(crate::sample::silence::<S>()),
            ..self
        }
    }

    /// Both cursors of both lines on slot `index`.
    pub open spec fn set_pos(self, index: int) -> Self {
        NetworkView {
            initial_delay: self.initial_delay.set_pos(index),
            feedback_delay: self.feedback_delay.set_pos(index),
            ..self
        }
    }

    /// The network restarted: both lines silenced, their cursors put on slot
    /// 0, and the delay set to `time`. Remembered outputs and gain stay.
    pub open spec fn restart(self, time: int) -> Self {
        self.clear().set_pos(0).set_time(time)
    }

    /// The forward line's read cursor one slot further.
    pub open spec fn increment_out_initial(self) -> Self {
        NetworkView { initial_delay: self.initial_delay.increment_out(), ..self }
    }

    /// The return line's read cursor one slot further.
    pub open spec fn increment_out_feedback(self) -> Self {
        NetworkView { feedback_delay: self.feedback_delay.increment_out(), ..self }
    }

    /// The network after the first `m` samples of `inputs`.
    pub open spec fn at(self, inputs: Seq<S>, m: int) -> Self
        decreases m,
    {
        if m <= 0 {
            self
        } else {
            self.at(inputs, m - 1).process(inputs[m - 1]).0
        }
    }

    /// What the network gives out for sample `n` of `inputs`.
    pub open spec fn out(self, inputs: Seq<S>, n: int) -> S {
        self.at(inputs, n).process(inputs[n]).1
    }

    /// What the return line gives out in the step that takes sample `n`.
    pub open spec fn returned(self, inputs: Seq<S>, n: int) -> S {
        self.at(inputs, n + 1).former_feedback
    }

    /// What enters the forward line in the step that takes sample `n`.
    pub open spec fn driven_at(self, inputs: Seq<S>, n: int) -> S {
        self.at(inputs, n).driven(inputs[n])
    }
}

/// A fresh network: well formed, both lines silent, of one size and at one
/// delay, the time it was made with counted around the ring, and nothing
/// given out yet.
pub proof fn lemma_fresh_network<S: Sample>(time: int, feedback: S, size: int)
    requires
        0 < size <= i32::MAX,
    ensures
        NetworkView::<S>::silent(time, feedback, size).wf(),
        NetworkView::<S>::silent(time, feedback, size).initial_delay.len() == size,
        NetworkView::<S>::silent(time, feedback, size).feedback_delay.len() == size,
        NetworkView::<S>::silent(time, feedback, size).initial_delay.holds_only(silence::<S>()),
        NetworkView::<S>::silent(time, feedback, size).feedback_delay.holds_only(silence::<S>()),
        NetworkView::<S>::silent(time, feedback, size).initial_delay.delay() == time % size,
        NetworkView::<S>::silent(time, feedback, size).feedback_delay.delay() == time % size,
        0 <= time < size ==> NetworkView::<S>::silent(time, feedback, size).initial_delay.delay()
            == time,
        NetworkView::<S>::silent(time, feedback, size).former_feedback == silence::<S>(),
        NetworkView::<S>::silent(time, feedback, size).former_initial == silence::<S>(),
        NetworkView::<S>::silent(time, feedback, size).feedback == feedback,
{
    let ring = crate::buffer::BufferView::<S>::silent(size);
    crate::delay::lemma_set_out_wf(ring, ring.input - time);
    crate::delay::lemma_set_time_delay(ring, time);
}

/// Processing keeps the network well formed and changes neither the gain,
/// nor the size of a line, nor its delay.
pub proof fn lemma_network_steady<S: Sample>(v: NetworkView<S>, inputs: Seq<S>, m: int)
    requires
        v.wf(),
    ensures
        v.at(inputs, m).wf(),
        v.at(inputs, m).feedback == v.feedback,
        v.at(inputs, m).initial_delay.len() == v.initial_delay.len(),
        v.at(inputs, m).feedback_delay.len() == v.feedback_delay.len(),
        v.at(inputs, m).initial_delay.delay() == v.initial_delay.delay(),
        v.at(inputs, m).feedback_delay.delay() == v.feedback_delay.delay(),
    decreases m,
{
    if m > 0 {
        lemma_network_steady(v, inputs, m - 1);
        let u = v.at(inputs, m - 1);
        lemma_process(u.initial_delay, u.driven(inputs[m - 1]));
        lemma_process(u.feedback_delay, u.initial_delay.process(u.driven(inputs[m - 1])).1);
    }
}

/// After `m` samples the return line remembers the network's last outputs,
/// the newest first.
pub proof fn lemma_return_line_remembers<S: Sample>(
    v: NetworkView<S>,
    inputs: Seq<S>,
    m: int,
    k: int,
)
    requires
        v.wf(),
        0 <= k < m,
        k < v.feedback_delay.len(),
    ensures
        v.at(inputs, m).feedback_delay.past(k) == v.out(inputs, m - 1 - k),
    decreases m,
{
    lemma_network_steady(v, inputs, m - 1);
    let u = v.at(inputs, m - 1);
    let forward = u.initial_delay.process(u.driven(inputs[m - 1]));
    lemma_process(u.feedback_delay, forward.1);
    if k > 0 {
        lemma_return_line_remembers(v, inputs, m - 1, k - 1);
    }
}

/// After `m` samples the forward line remembers what was driven into it,
/// the newest first.
pub proof fn lemma_forward_line_remembers<S: Sample>(
    v: NetworkView<S>,
    inputs: Seq<S>,
    m: int,
    k: int,
)
    requires
        v.wf(),
        0 <= k < m,
        k < v.initial_delay.len(),
    ensures
        v.at(inputs, m).initial_delay.past(k) == v.driven_at(inputs, m - 1 - k),
    decreases m,
{
    lemma_network_steady(v, inputs, m - 1);
    let u = v.at(inputs, m - 1);
    lemma_process(u.initial_delay, u.driven(inputs[m - 1]));
    if k > 0 {
        lemma_forward_line_remembers(v, inputs, m - 1, k - 1);
    }
}

/// After `m` samples either line still holds, `m` places further back, what
/// it held before them.
pub proof fn lemma_lines_keep<S: Sample>(v: NetworkView<S>, inputs: Seq<S>, m: int, k: int)
    requires
        v.wf(),
        0 <= m <= k,
    ensures
        k < v.initial_delay.len() ==> v.at(inputs, m).initial_delay.past(k)
            == v.initial_delay.past(k - m),
        k < v.feedback_delay.len() ==> v.at(inputs, m).feedback_delay.past(k)
            == v.feedback_delay.past(k - m),
    decreases m,
{
    if m > 0 {
        lemma_network_steady(v, inputs, m - 1);
        lemma_lines_keep(v, inputs, m - 1, k - 1);
        let u = v.at(inputs, m - 1);
        let forward = u.initial_delay.process(u.driven(inputs[m - 1]));
        lemma_process(u.initial_delay, u.driven(inputs[m - 1]));
        lemma_process(u.feedback_delay, forward.1);
    }
}

/// Before the forward line's delay has passed, the network gives out what
/// that line held at the start; before the return line's delay has passed,
/// the return line gives out what it held at the start.
pub proof fn lemma_early_outputs<S: Sample>(v: NetworkView<S>, inputs: Seq<S>, n: int)
    requires
        v.wf(),
        0 <= n < inputs.len(),
    ensures
        n < v.initial_delay.delay() ==> v.out(inputs, n) == v.initial_delay.past(
            v.initial_delay.delay() - 1 - n,
        ),
        n < v.feedback_delay.delay() ==> v.returned(inputs, n) == v.feedback_delay.past(
            v.feedback_delay.delay() - 1 - n,
        ),
{
    lemma_network_steady(v, inputs, n);
    let u = v.at(inputs, n);
    let forward = u.initial_delay.process(u.driven(inputs[n]));
    lemma_process(u.initial_delay, u.driven(inputs[n]));
    lemma_process(u.feedback_delay, forward.1);
    lemma_process(v.initial_delay, inputs[n]);
    lemma_process(v.feedback_delay, inputs[n]);
    if n < v.initial_delay.delay() {
        lemma_lines_keep(v, inputs, n, v.initial_delay.delay() - 1);
    }
    if n < v.feedback_delay.delay() {
        lemma_lines_keep(v, inputs, n, v.feedback_delay.delay() - 1);
    }
}

/// The forward line gives out what was driven into it `initial_delay.delay()`
/// steps before.
pub proof fn lemma_out_is_driven<S: Sample>(v: NetworkView<S>, inputs: Seq<S>, n: int)
    requires
        v.wf(),
        v.initial_delay.delay() <= n < inputs.len(),
    ensures
        v.out(inputs, n) == v.driven_at(inputs, n - v.initial_delay.delay()),
{
    lemma_network_steady(v, inputs, n);
    let u = v.at(inputs, n);
    lemma_process(u.initial_delay, u.driven(inputs[n]));
    let d = v.initial_delay.delay();
    if d > 0 {
        lemma_forward_line_remembers(v, inputs, n, d - 1);
    }
}

/// The return line gives out what the network gave out
/// `feedback_delay.delay()` steps before.
pub proof fn lemma_returned_is_out<S: Sample>(v: NetworkView<S>, inputs: Seq<S>, n: int)
    requires
        v.wf(),
        v.feedback_delay.delay() <= n < inputs.len(),
    ensures
        v.returned(inputs, n) == v.out(inputs, n - v.feedback_delay.delay()),
{
    lemma_network_steady(v, inputs, n);
    let u = v.at(inputs, n);
    let forward = u.initial_delay.process(u.driven(inputs[n]));
    lemma_process(u.feedback_delay, forward.1);
    let d = v.feedback_delay.delay();
    if d > 0 {
        lemma_return_line_remembers(v, inputs, n, d - 1);
    }
}

/// When energy comes back. With the forward line at delay `a` and the return
/// line at delay `b`, every output from step `a + b + 1` on is the input of
/// `a` steps before plus the gain times the output of `a + b + 1` steps
/// before: what goes in once returns every `a + b + 1` steps, each time
/// multiplied by the gain once more. With both lines at one delay `d`, as
/// `set_time` leaves them, the period is `2 * d + 1`.
pub proof fn lemma_feedback_round_trip<S: Sample>(v: NetworkView<S>, inputs: Seq<S>, n: int)
    requires
        v.wf(),
        v.initial_delay.delay() + v.feedback_delay.delay() + 1 <= n < inputs.len(),
    ensures
        v.out(inputs, n) == inputs[n - v.initial_delay.delay()].plus_spec(
            v.feedback.times_spec(
                v.out(inputs, n - v.initial_delay.delay() - v.feedback_delay.delay() - 1),
            ),
        ),
{
    let a = v.initial_delay.delay();
    let b = v.feedback_delay.delay();
    lemma_process(v.initial_delay, inputs[0]);
    lemma_process(v.feedback_delay, inputs[0]);
    lemma_out_is_driven(v, inputs, n);
    lemma_network_steady(v, inputs, n - a);
    lemma_returned_is_out(v, inputs, n - a - 1);
    assert(v.at(inputs, n - a).former_feedback == v.returned(inputs, n - a - 1));
}

/// When the input arrives. With the forward line at delay `a`, every output
/// from step `a` on is the input of `a` steps before plus the gain times
/// what the return line had given out just before that input came in.
pub proof fn lemma_first_arrival<S: Sample>(v: NetworkView<S>, inputs: Seq<S>, n: int)
    requires
        v.wf(),
        v.initial_delay.delay() <= n < inputs.len(),
    ensures
        v.out(inputs, n) == inputs[n - v.initial_delay.delay()].plus_spec(
            v.feedback.times_spec(v.at(inputs, n - v.initial_delay.delay()).former_feedback),
        ),
{
    lemma_out_is_driven(v, inputs, n);
    lemma_network_steady(v, inputs, n - v.initial_delay.delay());
}

/// Restarting twice is restarting once.
pub proof fn lemma_restart_idempotent<S: Sample>(v: NetworkView<S>, time: int)
    requires
        v.wf(),
    ensures
        v.restart(time).wf(),
        v.restart(time).initial_delay.holds_only(silence::<S>()),
        v.restart(time).feedback_delay.holds_only(silence::<S>()),
        v.restart(time).restart(time) == v.restart(time),
{
    let r = v.restart(time);
    vstd::arithmetic::div_mod::lemma_mod_bound(0 - time, v.initial_delay.len());
    vstd::arithmetic::div_mod::lemma_mod_bound(0 - time, v.feedback_delay.len());
    crate::delay::lemma_wrap_one_lap(0, v.initial_delay.len());
    crate::delay::lemma_wrap_one_lap(0, v.feedback_delay.len());
    assert(r.restart(time).initial_delay.contents =~= r.initial_delay.contents);
    assert(r.restart(time).feedback_delay.contents =~= r.feedback_delay.contents);
}

/// Whether a network is at rest: both lines hold only silence, the return
/// line gave out silence last, and silence plus the gain times silence is
/// silence.
pub open spec fn at_rest<S: Sample>(v: NetworkView<S>) -> bool {
    &&& v.wf()
    &&& v.initial_delay.holds_only(silence::<S>())
    &&& v.feedback_delay.holds_only(silence::<S>())
    &&& v.former_feedback == silence::<S>()
    &&& silence::<S>().plus_spec(v.feedback.times_spec(silence::<S>())) == silence::<S>()
}

/// One silent sample through a network at rest: silence comes out, the
/// network is at rest still, and only the cursors have moved.
pub proof fn lemma_rest_step<S: Sample>(v: NetworkView<S>)
    requires
        at_rest(v),
    ensures
        at_rest(v.process(silence::<S>()).0),
        v.process(silence::<S>()).1 == silence::<S>(),
        v.process(silence::<S>()).0.initial_delay == v.initial_delay.advanced(1),
        v.process(silence::<S>()).0.feedback_delay == v.feedback_delay.advanced(1),
        v.process(silence::<S>()).0.feedback == v.feedback,
        v.process(silence::<S>()).0.former_initial == silence::<S>(),
{
    lemma_advanced(v.initial_delay, 1, 0);
    lemma_advanced(v.feedback_delay, 1, 0);
    lemma_process_steady(v.initial_delay, silence::<S>());
    lemma_process_steady(v.feedback_delay, silence::<S>());
}

/// A network at rest stays at rest. Where both lines hold only silence, the
/// return line gave out silence last, and silence plus the gain times
/// silence is silence, `m` silent inputs give `m` silent outputs and move
/// nothing but the cursors.
pub proof fn lemma_silence_in_silence_out<S: Sample>(v: NetworkView<S>, inputs: Seq<S>, m: int)
    requires
        v.wf(),
        v.initial_delay.holds_only(silence::<S>()),
        v.feedback_delay.holds_only(silence::<S>()),
        v.former_feedback == silence::<S>(),
        silence::<S>().plus_spec(v.feedback.times_spec(silence::<S>())) == silence::<S>(),
        0 <= m <= inputs.len(),
        forall|i: int| 0 <= i < m ==> inputs[i] == silence::<S>(),
    ensures
        v.at(inputs, m).initial_delay == v.initial_delay.advanced(m),
        v.at(inputs, m).feedback_delay == v.feedback_delay.advanced(m),
        v.at(inputs, m).former_feedback == silence::<S>(),
        v.at(inputs, m).feedback == v.feedback,
        m > 0 ==> v.at(inputs, m).former_initial == silence::<S>(),
        forall|n: int| 0 <= n < m ==> #[trigger] v.out(inputs, n) == silence::<S>(),
    decreases m,
{
    lemma_advanced(v.initial_delay, 0, 0);
    lemma_advanced(v.feedback_delay, 0, 0);
    if m > 0 {
        lemma_silence_in_silence_out(v, inputs, m - 1);
        let u = v.at(inputs, m - 1);
        lemma_advanced(v.initial_delay, m - 1, 1);
        lemma_advanced(v.feedback_delay, m - 1, 1);
        assert(u.driven(inputs[m - 1]) == silence::<S>());
        lemma_process_steady(u.initial_delay, silence::<S>());
        lemma_process_steady(u.feedback_delay, silence::<S>());
        assert(v.out(inputs, m - 1) == silence::<S>());
    }
}

/// A restart holds through silence. Restart a network whose return line gave
/// out silence last, in an arithmetic where silence plus the gain times
/// silence is silence; feed it one full lap of silence, as many samples as a
/// line has slots. Every output is silent, and a second restart finds both
/// lines, the return line's last output and the gain exactly as the first
/// restart left them.
pub proof fn lemma_restart_holds_through_silence<S: Sample>(
    v: NetworkView<S>,
    time: int,
    inputs: Seq<S>,
)
    requires
        v.wf(),
        v.initial_delay.len() == v.feedback_delay.len(),
        v.former_feedback == silence::<S>(),
        silence::<S>().plus_spec(v.feedback.times_spec(silence::<S>())) == silence::<S>(),
        inputs.len() == v.initial_delay.len(),
        forall|i: int| 0 <= i < inputs.len() ==> inputs[i] == silence::<S>(),
    ensures
        forall|n: int|
            0 <= n < inputs.len() ==> #[trigger] v.restart(time).out(inputs, n) == silence::<S>(),
        v.restart(time).at(inputs, inputs.len() as int).restart(time) == (NetworkView {
            former_initial: silence::<S>(),
            ..v.restart(time)
        }),
{
    let r = v.restart(time);
    let n = inputs.len() as int;
    lemma_restart_idempotent(v, time);
    lemma_silence_in_silence_out(r, inputs, n);
    lemma_advanced(r.initial_delay, 0, 0);
    lemma_advanced(r.feedback_delay, 0, 0);
    let end = r.at(inputs, n);
    let held = NetworkView { former_initial: silence::<S>(), ..r };
    assert(end == held);
    lemma_restart_idempotent(r, time);
    assert(held.restart(time).initial_delay == r.restart(time).initial_delay);
}

/// A feedback delay network over two [`Delay`] lines.
pub struct DelayWithFeedback<S: Sample> {
    initial_delay: Delay<S>,
    feedback_delay: Delay<S>,
    former_initial: S,
    former_feedback: S,
    feedback: S,
}

impl<S: Sample> DelayWithFeedback<S> {
    /// The network as the contracts see it.
    pub closed spec fn view(&self) -> NetworkView<S> {
        NetworkView {
            initial_delay: self.initial_delay@,
            feedback_delay: self.feedback_delay@,
            former_initial: self.former_initial,
            former_feedback: self.former_feedback,
            feedback: self.feedback,
        }
    }

    /// The invariant of every network: see [`NetworkView::wf`].
    pub open spec fn wf(&self) -> bool {
        self@.wf()
    }

    /// A silent network with both lines at delay `time`, gain `feedback`, and
    /// as many slots per line as `sample_rate` has whole samples.
    pub fn new(time: i32, feedback: S, sample_rate: S) -> (r: Self)
        requires
            sample_rate.to_index_spec() > 0,
        ensures
            r.wf(),
            r@ == NetworkView::<S>::silent(
                time as int,
                feedback,
                sample_rate.to_index_spec() as int,
            ),
    {
        DelayWithFeedback {
            initial_delay: Delay::new(time, sample_rate),
            feedback_delay: Delay::new(time, sample_rate),
            former_initial: S::ratio(0, 1),
            former_feedback: S::ratio(0, 1),
            feedback,
        }
    }

    /// Pushes one sample through the network and gives back the forward
    /// line's output.
    pub fn process(&mut self, input: S) -> (out: S)
        requires
            old(self).wf(),
        ensures
            final(self).wf(),
            final(self)@ == old(self)@.process(input).0,
            out == old(self)@.process(input).1,
    {
        let driven = input.plus(self.feedback.times(self.former_feedback));
        self.former_initial = self.initial_delay.process(driven);
        self.former_feedback = self.feedback_delay.process(self.former_initial);
        self.former_initial
    }

    /// Retunes both lines to delay `time`.
    pub fn set_time(&mut self, time: i32)
        requires
            old(self).wf(),
        ensures
            final(self).wf(),
            final(self)@ == old(self)@.set_time(time as int),
    {
        self.initial_delay.set_time(time);
        self.feedback_delay.set_time(time);
    }

    /// Sets the gain on the way back. No gain is refused.
    pub fn set_feedback(&mut self, feedback: S)
        requires
            old(self).wf(),
        ensures
            final(self).wf(),
            final(self)@ == old(self)@.set_feedback(feedback),
    {
        self.feedback = feedback;
    }

    /// Silences both lines. Cursors, delays, remembered outputs and gain stay.
    pub fn clear(&mut self)
        requires
            old(self).wf(),
        ensures
            final(self).wf(),
            final(self)@ == old(self)@.clear(),
    {
        self.initial_delay.clear();
        self.feedback_delay.clear();
    }

    /// Puts both cursors of both lines on slot `index`.
    pub fn set_pos(&mut self, index: i32)
        requires
            old(self).wf(),
        ensures
            final(self).wf(),
            final(self)@ == old(self)@.set_pos(index as int),
    {
        self.initial_delay.set_pos(index);
        self.feedback_delay.set_pos(index);
    }

    /// Moves the forward line's read cursor one slot further.
    pub fn increment_out_initial(&mut self)
        requires
            old(self).wf(),
        ensures
            final(self).wf(),
            final(self)@ == old(self)@.increment_out_initial(),
    {
        self.initial_delay.increment_out();
    }

    /// Moves the return line's read cursor one slot further.
    pub fn increment_out_feedback(&mut self)
        requires
            old(self).wf(),
        ensures
            final(self).wf(),
            final(self)@ == old(self)@.increment_out_feedback(),
    {
        self.feedback_delay.increment_out();
    }

    /// The forward line.
    pub fn initial_delay(&self) -> (r: &Delay<S>)
        requires
            self.wf(),
        ensures
            r.wf(),
            r@ == self@.initial_delay,
    {
        &self.initial_delay
    }

    /// The return line.
    pub fn feedback_delay(&self) -> (r: &Delay<S>)
        requires
            self.wf(),
        ensures
            r.wf(),
            r@ == self@.feedback_delay,
    {
        &self.feedback_delay
    }

    /// The gain on the way back.
    pub fn feedback(&self) -> (r: S)
        ensures
            r == self@.feedback,
    {
        self.feedback
    }
}

/// A feedback delay network over two [`RoundingErrorDelay`] lines.
pub struct RoundingErrorDelayWithFeedback<S: Sample> {
    initial_delay: RoundingErrorDelay<S>,
    feedback_delay: RoundingErrorDelay<S>,
    former_initial: S,
    former_feedback: S,
    feedback: S,
}

impl<S: Sample> RoundingErrorDelayWithFeedback<S> {
    /// The network as the contracts see it.
    pub closed spec fn view(&self) -> NetworkView<S> {
        NetworkView {
            initial_delay: self.initial_delay@,
            feedback_delay: self.feedback_delay@,
            former_initial: self.former_initial,
            former_feedback: self.former_feedback,
            feedback: self.feedback,
        }
    }

    /// The invariant of every network: see [`NetworkView::wf`].
    pub open spec fn wf(&self) -> bool {
        self@.wf()
    }

    /// A silent network with both lines nudged as [`RoundingErrorDelay::new`]
    /// nudges them, gain `feedback`, and as many slots per line as
    /// `sample_rate` has whole samples.
    pub fn new(time: i32, feedback: S, sample_rate: S) -> (r: Self)
        requires
            sample_rate.to_index_spec() > 0,
        ensures
            r.wf(),
            r@ == NetworkView::<S>::silent_drifted(
                crate::delay::INITIAL_NUDGES * time,
                feedback,
                sample_rate.to_index_spec() as int,
            ),
    {
        RoundingErrorDelayWithFeedback {
            initial_delay: RoundingErrorDelay::new(time, sample_rate),
            feedback_delay: RoundingErrorDelay::new(time, sample_rate),
            former_initial: S::ratio(0, 1),
            former_feedback: S::ratio(0, 1),
            feedback,
        }
    }

    /// Pushes one sample through the network and gives back the forward
    /// line's output.
    pub fn process(&mut self, input: S) -> (out: S)
        requires
            old(self).wf(),
        ensures
            final(self).wf(),
            final(self)@ == old(self)@.process(input).0,
            out == old(self)@.process(input).1,
    {
        let driven = input.plus(self.feedback.times(self.former_feedback));
        self.former_initial = self.initial_delay.process(driven);
        self.former_feedback = self.feedback_delay.process(self.former_initial);
        self.former_initial
    }

    /// Moves both lines' read cursors back by `time` slots.
    pub fn set_time(&mut self, time: i32)
        requires
            old(self).wf(),
        ensures
            final(self).wf(),
            final(self)@ == old(self)@.drift(time as int),
    {
        self.initial_delay.set_time(time);
        self.feedback_delay.set_time(time);
    }

    /// Sets the gain on the way back. No gain is refused.
    pub fn set_feedback(&mut self, feedback: S)
        requires
            old(self).wf(),
        ensures
            final(self).wf(),
            final(self)@ == old(self)@.set_feedback(feedback),
    {
        self.feedback = feedback;
    }

    /// The forward line.
    pub fn initial_delay(&self) -> (r: &RoundingErrorDelay<S>)
        requires
            self.wf(),
        ensures
            r.wf(),
            r@ == self@.initial_delay,
    {
        &self.initial_delay
    }

    /// The return line.
    pub fn feedback_delay(&self) -> (r: &RoundingErrorDelay<S>)
        requires
            self.wf(),
        ensures
            r.wf(),
            r@ == self@.feedback_delay,
    {
        &self.feedback_delay
    }
}

} // verus!
