//! Delay lines: a ring buffer read a chosen number of samples behind where it
//! is written. Two retuning strategies are kept apart: [`Delay`] places the
//! read cursor from the write cursor, [`RoundingErrorDelay`] nudges the read
//! cursor from where it stands.

use vstd::prelude::*;
use crate::buffer::{Buffer, BufferView};
use crate::sample::Sample;

verus! {

/// One call on a delay line, as the laws below count them.
pub enum DelayCall<S> {
    /// One sample pushed through the line.
    Process(S),
    /// The read cursor placed `time` slots behind the write cursor.
    SetTime(i32),
    /// The read cursor moved back by `time` slots from where it stood.
    Drift(i32),
    /// The read cursor moved one slot further.
    IncrementOut,
}

impl<S> BufferView<S> {
    /// The line retuned to read `time` slots behind the write cursor.
    pub open spec fn set_time(self, time: int) -> Self {
        self.set_out(self.input - time)
    }

    /// The line with its read cursor moved back by `time` slots.
    pub open spec fn drift(self, time: int) -> Self {
        self.set_out(self.output - time)
    }

    /// One sample through the line: `input` is written, the slot under the
    /// read cursor is read, both cursors advance. Gives the line afterwards
    /// and the sample read.
    pub open spec fn process(self, input: S) -> (Self, S) {
        (self.write(input).increment(), self.write(input).read())
    }

    /// How many slots the read cursor stands behind the write cursor.
    pub open spec fn delay(self) -> int {
        (self.input - self.output) % self.len()
    }

    /// The sample written `k + 1` calls of `process` ago, for `0 <= k < len`.
    pub open spec fn past(self, k: int) -> S {
        self.contents[(self.input - 1 - k) % self.len()]
    }

    /// The line with both cursors `steps` slots further and its slots as they
    /// are.
    pub open spec fn advanced(self, steps: int) -> Self {
        BufferView {
            contents: self.contents,
            input: (self.input + steps) % self.len(),
            output: (self.output + steps) % self.len(),
        }
    }

    /// Every slot holds `sample`.
    pub open spec fn holds_only(self, sample: S) -> bool {
        forall|i: int| 0 <= i < self.len() ==> self.contents[i] == sample
    }

    /// The line after one call.
    pub open spec fn apply(self, call: DelayCall<S>) -> Self {
        match call {
            DelayCall::Process(x) => self.process(x).0,
            DelayCall::SetTime(time) => self.set_time(time as int),
            DelayCall::Drift(time) => self.drift(time as int),
            DelayCall::IncrementOut => self.increment_out(),
        }
    }

    /// The line after a run of calls, first call first.
    pub open spec fn after(self, calls: Seq<DelayCall<S>>) -> Self
        decreases calls.len(),
    {
        if calls.len() == 0 {
            self
        } else {
            self.after(calls.drop_last()).apply(calls.last())
        }
    }
}

/// How many samples a run of calls pushes through the line.
pub open spec fn samples<S>(calls: Seq<DelayCall<S>>) -> int
    decreases calls.len(),
{
    if calls.len() == 0 {
        0
    } else {
        samples(calls.drop_last()) + if calls.last() is Process { 1int } else { 0int }
    }
}

/// Counting around a ring of `n` slots, one lap either way.
pub proof fn lemma_wrap_one_lap(x: int, n: int)
    requires
        0 < n,
        -n <= x < 2 * n,
    ensures
        x % n == if x < 0 {
            x + n
        } else if x < n {
            x
        } else {
            x - n
        },
{
    if x < 0 {
        vstd::arithmetic::div_mod::lemma_fundamental_div_mod_converse(x, n, -1, x + n);
    } else if x < n {
        vstd::arithmetic::div_mod::lemma_fundamental_div_mod_converse(x, n, 0, x);
    } else {
        vstd::arithmetic::div_mod::lemma_fundamental_div_mod_converse(x, n, 1, x - n);
    }
}

/// Moving the read cursor keeps it on a slot and touches nothing else.
pub proof fn lemma_set_out_wf<S>(v: BufferView<S>, index: int)
    requires
        v.wf(),
    ensures
        v.set_out(index).wf(),
        v.set_out(index).contents == v.contents,
        v.set_out(index).input == v.input,
{
    vstd::arithmetic::div_mod::lemma_mod_bound(index, v.len());
}

/// Retuning sets the delay: `set_time(time)` leaves the read cursor `time`
/// slots behind the write cursor, counted around the ring. For
/// `0 <= time < len` the delay is `time` itself.
pub proof fn lemma_set_time_delay<S>(v: BufferView<S>, time: int)
    requires
        v.wf(),
    ensures
        v.set_time(time).delay() == time % v.len(),
        0 <= time < v.len() ==> v.set_time(time).delay() == time,
{
    let n = v.len();
    vstd::arithmetic::div_mod::lemma_mod_bound(v.input - time, n);
    vstd::arithmetic::div_mod::lemma_sub_mod_noop_right(v.input, v.input - time, n);
    assert(v.input - (v.input - time) == time);
    if 0 <= time < n {
        lemma_wrap_one_lap(time, n);
    }
}

/// Drifting twice is drifting once by the sum.
pub proof fn lemma_drift_adds<S>(v: BufferView<S>, a: int, b: int)
    requires
        v.wf(),
    ensures
        v.drift(a).drift(b) == v.drift(a + b),
{
    let n = v.len();
    vstd::arithmetic::div_mod::lemma_sub_mod_noop(v.output - a, b, n);
    vstd::arithmetic::div_mod::lemma_sub_mod_noop(v.output - a - b, 0, n);
    vstd::arithmetic::div_mod::lemma_mod_twice(v.output - a, n);
    vstd::arithmetic::div_mod::lemma_sub_mod_noop((v.output - a) % n, b, n);
    assert(((v.output - a) % n - b) % n == (v.output - a - b) % n);
}

/// One sample through the line: what comes out, and what the line then
/// remembers. The output is the input itself at delay 0 and otherwise the
/// sample written `delay` calls before; the delay stays; every remembered
/// sample moves one place into the past.
pub proof fn lemma_process<S>(v: BufferView<S>, input: S)
    requires
        v.wf(),
    ensures
        v.process(input).0.wf(),
        v.process(input).0.len() == v.len(),
        v.process(input).0.delay() == v.delay(),
        0 <= v.delay() < v.len(),
        v.process(input).1 == if v.delay() == 0 {
            input
        } else {
            v.past(v.delay() - 1)
        },
        v.process(input).0.past(0) == input,
        forall|k: int| 1 <= k < v.len() ==> #[trigger] v.process(input).0.past(k) == v.past(k - 1),
{
    let n = v.len();
    let w = v.process(input).0;
    lemma_wrap_one_lap(v.input + 1, n);
    lemma_wrap_one_lap(v.output + 1, n);
    lemma_wrap_one_lap(v.input - v.output, n);
    lemma_wrap_one_lap(w.input - w.output, n);
    lemma_wrap_one_lap(w.input - 1, n);
    if v.delay() != 0 {
        lemma_wrap_one_lap(v.input - 1 - (v.delay() - 1), n);
    }
    assert forall|k: int| 1 <= k < n implies #[trigger] w.past(k) == v.past(k - 1) by {
        lemma_wrap_one_lap(w.input - 1 - k, n);
        lemma_wrap_one_lap(v.input - 1 - (k - 1), n);
    }
}

/// Both cursors stay on a slot through every run of calls, and the ring
/// keeps its size.
pub proof fn lemma_cursors_stay_in_range<S>(v: BufferView<S>, calls: Seq<DelayCall<S>>)
    requires
        v.wf(),
    ensures
        v.after(calls).wf(),
        v.after(calls).len() == v.len(),
    decreases calls.len(),
{
    if calls.len() > 0 {
        lemma_cursors_stay_in_range(v, calls.drop_last());
        let u = v.after(calls.drop_last());
        match calls.last() {
            DelayCall::Process(x) => {
                lemma_process(u, x);
            },
            DelayCall::SetTime(time) => {
                lemma_set_out_wf(u, u.input - time);
            },
            DelayCall::Drift(time) => {
                lemma_set_out_wf(u, u.output - time);
            },
            DelayCall::IncrementOut => {
                lemma_set_out_wf(u, u.output + 1);
            },
        }
    }
}

/// A run of calls moves every remembered sample into the past by the number
/// of samples pushed through, whatever retuning went on in between.
pub proof fn lemma_past_after<S>(v: BufferView<S>, calls: Seq<DelayCall<S>>, k: int)
    requires
        v.wf(),
        0 <= k,
        k + samples(calls) < v.len(),
    ensures
        0 <= samples(calls),
        v.after(calls).past(k + samples(calls)) == v.past(k),
    decreases calls.len(),
{
    if calls.len() > 0 {
        let head = calls.drop_last();
        lemma_samples_nonnegative(head);
        lemma_past_after(v, head, k);
        lemma_cursors_stay_in_range(v, head);
        let u = v.after(head);
        match calls.last() {
            DelayCall::Process(x) => {
                lemma_process(u, x);
                assert(u.process(x).0.past(k + samples(head) + 1) == u.past(k + samples(head)));
            },
            DelayCall::SetTime(time) => {},
            DelayCall::Drift(time) => {},
            DelayCall::IncrementOut => {},
        }
    }
}

/// A run of calls pushes no negative number of samples through.
pub proof fn lemma_samples_nonnegative<S>(calls: Seq<DelayCall<S>>)
    ensures
        0 <= samples(calls) <= calls.len(),
    decreases calls.len(),
{
    if calls.len() > 0 {
        lemma_samples_nonnegative(calls.drop_last());
    }
}

/// A sample comes back after exactly as many calls of `process` as the delay
/// in force when it is read. At delay 0 it comes back from the call that
/// takes it in. Otherwise: take `impulse` in, let any run of calls follow
/// (samples of any value, retuning of either kind, extra steps of the read
/// cursor, across the end of the ring or not); if the line then stands at a
/// delay one above the number of samples pushed through since, the next
/// sample processed gives `impulse` back.
pub proof fn lemma_impulse_returns<S>(
    v: BufferView<S>,
    impulse: S,
    calls: Seq<DelayCall<S>>,
    next: S,
)
    requires
        v.wf(),
    ensures
        v.delay() == 0 ==> v.process(impulse).1 == impulse,
        v.process(impulse).0.after(calls).delay() == samples(calls) + 1 ==> v.process(
            impulse,
        ).0.after(calls).process(next).1 == impulse,
{
    lemma_process(v, impulse);
    let primed = v.process(impulse).0;
    let line = primed.after(calls);
    lemma_cursors_stay_in_range(primed, calls);
    lemma_samples_nonnegative(calls);
    lemma_process(line, next);
    if line.delay() == samples(calls) + 1 {
        lemma_past_after(primed, calls, 0);
    }
}

/// Advancing by `a` steps and then by `b` is advancing by `a + b`; advancing
/// by no step, or by one full lap, changes nothing.
pub proof fn lemma_advanced<S>(v: BufferView<S>, a: int, b: int)
    requires
        v.wf(),
    ensures
        v.advanced(a).wf(),
        v.advanced(a).advanced(b) == v.advanced(a + b),
        v.advanced(0) == v,
        v.advanced(v.len()) == v,
{
    let n = v.len();
    vstd::arithmetic::div_mod::lemma_mod_bound(v.input + a, n);
    vstd::arithmetic::div_mod::lemma_mod_bound(v.output + a, n);
    vstd::arithmetic::div_mod::lemma_add_mod_noop(v.input + a, b, n);
    vstd::arithmetic::div_mod::lemma_add_mod_noop(v.output + a, b, n);
    vstd::arithmetic::div_mod::lemma_add_mod_noop((v.input + a) % n, b, n);
    vstd::arithmetic::div_mod::lemma_add_mod_noop((v.output + a) % n, b, n);
    vstd::arithmetic::div_mod::lemma_mod_twice(v.input + a, n);
    vstd::arithmetic::div_mod::lemma_mod_twice(v.output + a, n);
    assert(((v.input + a) % n + b) % n == (v.input + a + b) % n);
    assert(((v.output + a) % n + b) % n == (v.output + a + b) % n);
    lemma_wrap_one_lap(v.input, n);
    lemma_wrap_one_lap(v.output, n);
    lemma_wrap_one_lap(v.input + n, n);
    lemma_wrap_one_lap(v.output + n, n);
}

/// A line whose every slot holds `x` gives `x` out when `x` goes in, and
/// only its cursors move.
pub proof fn lemma_process_steady<S>(v: BufferView<S>, x: S)
    requires
        v.wf(),
        v.holds_only(x),
    ensures
        v.process(x).0 == v.advanced(1),
        v.process(x).1 == x,
{
    assert(v.contents.update(v.input, x) =~= v.contents);
}

/// A line whose every slot holds `x` stands where it stood after one full
/// lap of `x`: as many calls of `process` as it has slots.
pub proof fn lemma_steady_laps<S>(v: BufferView<S>, x: S, calls: Seq<DelayCall<S>>)
    requires
        v.wf(),
        v.holds_only(x),
        forall|i: int| 0 <= i < calls.len() ==> calls[i] == DelayCall::Process(x),
    ensures
        v.after(calls) == v.advanced(calls.len() as int),
        calls.len() == v.len() ==> v.after(calls) == v,
    decreases calls.len(),
{
    lemma_advanced(v, 0, 0);
    if calls.len() > 0 {
        let head = calls.drop_last();
        lemma_steady_laps(v, x, head);
        lemma_advanced(v, head.len() as int, 1);
        lemma_process_steady(v.advanced(head.len() as int), x);
        assert(calls.last() == DelayCall::Process(x));
    }
}

/// A delay line whose retuning places the read cursor from the write cursor.
pub struct Delay<S: Sample> {
    buffer: Buffer<S>,
}

impl<S: Sample> Delay<S> {
    /// The line as the contracts see it: its ring.
    pub closed spec fn view(&self) -> BufferView<S> {
        self.buffer@
    }

    /// The invariant of every line: see [`BufferView::wf`].
    pub open spec fn wf(&self) -> bool {
        self@.wf()
    }

    /// A silent line of as many slots as `sample_rate` has whole samples,
    /// reading `time` slots behind its write cursor.
    pub fn new(time: i32, sample_rate: S) -> (r: Self)
        requires
            sample_rate.to_index_spec() > 0,
        ensures
            r.wf(),
            r@ == BufferView::<S>::silent(sample_rate.to_index_spec() as int).set_time(time as int),
    {
        let size = sample_rate.to_index();
        let buffer = Buffer::new(size as usize);
        let mut result = Delay { buffer };
        result.set_time(time);
        result
    }

    /// Pushes one sample through the line and gives back the sample that the
    /// read cursor stands on.
    pub fn process(&mut self, input: S) -> (out: S)
        requires
            old(self).wf(),
        ensures
            final(self).wf(),
            final(self)@ == old(self)@.process(input).0,
            out == old(self)@.process(input).1,
            out == if old(self)@.delay() == 0 {
                input
            } else {
                old(self)@.past(old(self)@.delay() - 1)
            },
            final(self)@.delay() == old(self)@.delay(),
            final(self)@.past(0) == input,
    {
        proof {
            lemma_process(self@, input);
        }
        self.buffer.write(input);
        let out = self.buffer.read();
        self.buffer.increment();
        out
    }

    /// Retunes the line to read `time` slots behind its write cursor, counted
    /// around the ring.
    pub fn set_time(&mut self, time: i32)
        requires
            old(self).wf(),
        ensures
            final(self).wf(),
            final(self)@ == old(self)@.set_time(time as int),
            final(self)@.delay() == time as int % old(self)@.len(),
            0 <= time < old(self)@.len() ==> final(self)@.delay() == time,
    {
        proof {
            lemma_set_time_delay(self@, time as int);
        }
        let at = self.buffer.input() as i64 - time as i64;
        self.buffer.set_out(at);
    }

    /// Puts both cursors on slot `index`, counted around the ring.
    pub fn set_pos(&mut self, index: i32)
        requires
            old(self).wf(),
        ensures
            final(self).wf(),
            final(self)@ == old(self)@.set_pos(index as int),
    {
        self.buffer.set_pos(index);
    }

    /// Moves only the read cursor one slot further.
    pub fn increment_out(&mut self)
        requires
            old(self).wf(),
        ensures
            final(self).wf(),
            final(self)@ == old(self)@.increment_out(),
    {
        self.buffer.increment_out();
    }

    /// Silences every slot. Cursors and delay stay.
    pub fn clear(&mut self)
        requires
            old(self).wf(),
        ensures
            final(self).wf(),
            final(self)@ == old(self)@.fill(crate::sample::silence::<S>()),
    {
        self.buffer.clear();
    }

    /// The slot that the write cursor stands on.
    pub fn input(&self) -> (r: usize)
        requires
            self.wf(),
        ensures
            r == self@.input,
    {
        self.buffer.input()
    }

    /// The slot that the read cursor stands on.
    pub fn output(&self) -> (r: usize)
        requires
            self.wf(),
        ensures
            r == self@.output,
    {
        self.buffer.output()
    }

    /// Number of slots.
    pub fn len(&self) -> (r: usize)
        requires
            self.wf(),
        ensures
            r == self@.len(),
    {
        self.buffer.len()
    }
}

/// How often a drifting line is nudged when it is made.
pub const INITIAL_NUDGES: i32 = 50;

/// A delay line whose retuning nudges the read cursor from where it stands,
/// so that what earlier retunings left behind stays in the delay.
pub struct RoundingErrorDelay<S: Sample> {
    buffer: Buffer<S>,
}

impl<S: Sample> RoundingErrorDelay<S> {
    /// The line as the contracts see it: its ring.
    pub closed spec fn view(&self) -> BufferView<S> {
        self.buffer@
    }

    /// The invariant of every line: see [`BufferView::wf`].
    pub open spec fn wf(&self) -> bool {
        self@.wf()
    }

    /// A silent line of as many slots as `sample_rate` has whole samples,
    /// its read cursor nudged back by `time` slots [`INITIAL_NUDGES`] times.
    pub fn new(time: i32, sample_rate: S) -> (r: Self)
        requires
            sample_rate.to_index_spec() > 0,
        ensures
            r.wf(),
            r@ == BufferView::<S>::silent(sample_rate.to_index_spec() as int).drift(
                INITIAL_NUDGES * time,
            ),
    {
        let size = sample_rate.to_index();
        let buffer = Buffer::new(size as usize);
        let mut result = RoundingErrorDelay { buffer };
        let ghost start = result@;
        proof {
            lemma_wrap_one_lap(0, start.len());
            assert(start.drift(0) == start);
        }
        let mut x: i32 = 0;
        while x < INITIAL_NUDGES
            invariant
                0 <= x <= INITIAL_NUDGES,
                start.wf(),
                result.wf(),
                result@ == start.drift(x * time),
            decreases INITIAL_NUDGES - x,
        {
            proof {
                lemma_drift_adds(start, x * time, time as int);
                assert(x * time + time == (x + 1) * time) by (nonlinear_arith);
            }
            result.set_time(time);
            x += 1;
        }
        result
    }

    /// Pushes one sample through the line and gives back the sample that the
    /// read cursor stands on.
    pub fn process(&mut self, input: S) -> (out: S)
        requires
            old(self).wf(),
        ensures
            final(self).wf(),
            final(self)@ == old(self)@.process(input).0,
            out == old(self)@.process(input).1,
            out == if old(self)@.delay() == 0 {
                input
            } else {
                old(self)@.past(old(self)@.delay() - 1)
            },
            final(self)@.delay() == old(self)@.delay(),
            final(self)@.past(0) == input,
    {
        proof {
            lemma_process(self@, input);
        }
        self.buffer.write(input);
        let out = self.buffer.read();
        self.buffer.increment();
        out
    }

    /// Moves the read cursor back by `time` slots from where it stands,
    /// counted around the ring.
    pub fn set_time(&mut self, time: i32)
        requires
            old(self).wf(),
        ensures
            final(self).wf(),
            final(self)@ == old(self)@.drift(time as int),
    {
        let at = self.buffer.output() as i64 - time as i64;
        self.buffer.set_out(at);
    }

    /// The slot that the write cursor stands on.
    pub fn input(&self) -> (r: usize)
        requires
            self.wf(),
        ensures
            r == self@.input,
    {
        self.buffer.input()
    }

    /// The slot that the read cursor stands on.
    pub fn output(&self) -> (r: usize)
        requires
            self.wf(),
        ensures
            r == self@.output,
    {
        self.buffer.output()
    }

    /// Number of slots.
    pub fn len(&self) -> (r: usize)
        requires
            self.wf(),
        ensures
            r == self@.len(),
    {
        self.buffer.len()
    }
}

} // verus!
