//! What a silent feedback delay network answers to a single impulse: one
//! echo per round trip, each the one before times the gain.

use vstd::prelude::*;
use crate::buffer::BufferView;
use crate::feedback::{
    lemma_early_outputs, lemma_feedback_round_trip, lemma_first_arrival, NetworkView,
};
use crate::fixed::{cut, lemma_silence_and_unity, Fixed, SCALE};
use crate::sample::{silence, unity, Sample};

verus! {

/// The `k`-th echo of a unit impulse: unity multiplied `k` times by the gain.
pub open spec fn echo<S: Sample>(gain: S, k: nat) -> S
    decreases k,
{
    if k == 0 {
        unity::<S>()
    } else {
        gain.times_spec(echo(gain, (k - 1) as nat))
    }
}

/// Unity first, silence ever after.
pub open spec fn is_impulse<S: Sample>(inputs: Seq<S>) -> bool {
    &&& inputs.len() > 0
    &&& inputs[0] == unity::<S>()
    &&& forall|i: int| 1 <= i < inputs.len() ==> inputs[i] == silence::<S>()
}

/// What a silent network, both lines at delay `d`, gives out at step `n`
/// after an impulse at step 0: echo `k` at step `d + k * (2 * d + 1)`, and
/// silence at every other step.
pub open spec fn impulse_response<S: Sample>(gain: S, d: int, n: int) -> S {
    if n >= d && (n - d) % (2 * d + 1) == 0 {
        echo(gain, ((n - d) / (2 * d + 1)) as nat)
    } else {
        silence::<S>()
    }
}

/// The lines hold only silence and the return line gave out silence last.
pub open spec fn is_silent<S: Sample>(v: NetworkView<S>) -> bool {
    &&& v.wf()
    &&& v.initial_delay.holds_only(silence::<S>())
    &&& v.feedback_delay.holds_only(silence::<S>())
    &&& v.former_feedback == silence::<S>()
}

/// What the echoes ask of the arithmetic: the gain returns nothing of
/// silence, neither on top of silence nor on top of unity, and silence added
/// to an echo leaves the echo.
pub open spec fn carries_echoes<S: Sample>(gain: S) -> bool {
    &&& silence::<S>().plus_spec(gain.times_spec(silence::<S>())) == silence::<S>()
    &&& unity::<S>().plus_spec(gain.times_spec(silence::<S>())) == unity::<S>()
    &&& forall|k: nat| k >= 1 ==> silence::<S>().plus_spec(#[trigger] echo(gain, k)) == echo(gain, k)
}

/// A line that holds only silence remembers only silence.
pub proof fn lemma_silent_past<S: Sample>(line: BufferView<S>, k: int)
    requires
        line.wf(),
        line.holds_only(silence::<S>()),
    ensures
        line.past(k) == silence::<S>(),
{
    vstd::arithmetic::div_mod::lemma_mod_bound(line.input - 1 - k, line.len());
}

/// One period further on, the response is the gain times the response.
proof fn lemma_response_one_period_on<S: Sample>(gain: S, d: int, n: int)
    requires
        0 <= d,
        2 * d + 1 <= n,
        carries_echoes(gain),
    ensures
        impulse_response(gain, d, n) == silence::<S>().plus_spec(
            gain.times_spec(impulse_response(gain, d, n - 2 * d - 1)),
        ),
{
    let p = 2 * d + 1;
    let x = n - d;
    vstd::arithmetic::div_mod::lemma_mod_sub_multiples_vanish(x, p);
    vstd::arithmetic::div_mod::lemma_div_minus_one(x, p);
    assert(-p + x == n - p - d);
    if x < p {
        crate::delay::lemma_wrap_one_lap(x, p);
    } else {
        vstd::arithmetic::div_mod::lemma_div_pos_is_pos(x - p, p);
        if x % p == 0 {
            let k = (x / p) as nat;
            assert((x - p) / p == k - 1);
            assert(echo(gain, k) == gain.times_spec(echo(gain, (k - 1) as nat)));
        }
    }
}

/// The answer to an impulse. A silent network with both lines at delay `d`,
/// in an arithmetic that carries its echoes, gives the impulse back at step
/// `d` and an echo every `2 * d + 1` steps after that, each echo the one
/// before times the gain; at every other step it gives out silence.
pub proof fn lemma_impulse_response<S: Sample>(v: NetworkView<S>, inputs: Seq<S>, n: int)
    requires
        is_silent(v),
        v.initial_delay.delay() == v.feedback_delay.delay(),
        carries_echoes(v.feedback),
        is_impulse(inputs),
        0 <= n < inputs.len(),
    ensures
        v.out(inputs, n) == impulse_response(v.feedback, v.initial_delay.delay(), n),
    decreases n,
{
    let d = v.initial_delay.delay();
    let p = 2 * d + 1;
    let gain = v.feedback;
    crate::delay::lemma_process(v.initial_delay, inputs[0]);
    if n < d {
        lemma_early_outputs(v, inputs, n);
        lemma_silent_past(v.initial_delay, d - 1 - n);
    } else if n < d + p {
        lemma_first_arrival(v, inputs, n);
        let j = n - d;
        let before = v.at(inputs, j).former_feedback;
        assert(before == silence::<S>()) by {
            if j > 0 {
                if j - 1 < d {
                    lemma_early_outputs(v, inputs, j - 1);
                    lemma_silent_past(v.feedback_delay, d - 1 - (j - 1));
                } else {
                    crate::feedback::lemma_returned_is_out(v, inputs, j - 1);
                    lemma_early_outputs(v, inputs, j - 1 - d);
                    lemma_silent_past(v.initial_delay, d - 1 - (j - 1 - d));
                }
            }
        }
        if j == 0 {
            vstd::arithmetic::div_mod::lemma_div_of0(p);
            crate::delay::lemma_wrap_one_lap(0, p);
        } else {
            crate::delay::lemma_wrap_one_lap(j, p);
        }
    } else {
        lemma_feedback_round_trip(v, inputs, n);
        lemma_impulse_response(v, inputs, n - p);
        lemma_response_one_period_on(gain, d, n);
    }
}

/// Fixed point carries the echoes of every gain.
pub proof fn lemma_fixed_carries_echoes(gain: Fixed)
    ensures
        carries_echoes(gain),
{
    lemma_silence_and_unity(gain);
    lemma_silence_and_unity(unity::<Fixed>());
    assert forall|k: nat| k >= 1 implies silence::<Fixed>().plus_spec(#[trigger] echo(gain, k))
        == echo(gain, k) by {
        lemma_silence_and_unity(echo(gain, k));
    }
}

/// Echoes fade in fixed point. With a gain from 0 to 1, no echo is negative,
/// none is above unity, and none is above the echo before it.
pub proof fn lemma_echoes_fade(gain: Fixed, k: nat)
    requires
        0 <= gain.raw <= SCALE,
    ensures
        0 <= echo(gain, k + 1).raw <= echo(gain, k).raw <= SCALE,
    decreases k,
{
    lemma_silence_and_unity(gain);
    if k > 0 {
        lemma_echoes_fade(gain, (k - 1) as nat);
    }
    let e = echo(gain, k).raw as int;
    let g = gain.raw as int;
    let s = SCALE as int;
    assert(0 <= g * e <= s * e) by (nonlinear_arith)
        requires
            0 <= g <= s,
            0 <= e,
    ;
    vstd::arithmetic::div_mod::lemma_div_is_ordered(g * e, s * e, s);
    vstd::arithmetic::div_mod::lemma_div_multiples_vanish(e, s);
    vstd::arithmetic::div_mod::lemma_div_pos_is_pos(g * e, s);
    assert(cut(g * e, s) == (g * e) / s);
}

/// After an impulse nothing is louder than the impulse. In fixed point, with
/// a gain from 0 to 1, every output of a silent network fed an impulse is
/// the impulse response and lies from silence to unity.
pub proof fn lemma_impulse_stays_within_unity(
    v: NetworkView<Fixed>,
    inputs: Seq<Fixed>,
    n: int,
)
    requires
        is_silent(v),
        v.initial_delay.delay() == v.feedback_delay.delay(),
        0 <= v.feedback.raw <= SCALE,
        is_impulse(inputs),
        0 <= n < inputs.len(),
    ensures
        v.out(inputs, n) == impulse_response(v.feedback, v.initial_delay.delay(), n),
        0 <= v.out(inputs, n).raw <= SCALE,
{
    lemma_fixed_carries_echoes(v.feedback);
    lemma_impulse_response(v, inputs, n);
    lemma_silence_and_unity(v.feedback);
    let d = v.initial_delay.delay();
    if n >= d && (n - d) % (2 * d + 1) == 0 {
        crate::delay::lemma_process(v.initial_delay, inputs[0]);
        vstd::arithmetic::div_mod::lemma_div_pos_is_pos(n - d, 2 * d + 1);
        lemma_echoes_fade(v.feedback, ((n - d) / (2 * d + 1)) as nat);
    }
}

} // verus!
