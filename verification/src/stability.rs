//! How loud a feedback delay network can get in fixed point: with a gain
//! below unity, what stays within a bound going in stays within a bound
//! coming out, and a network that starts silent grows by one term of a
//! geometric sum per round trip.

use vstd::prelude::*;
use crate::buffer::BufferView;
use crate::echoes::{is_silent, lemma_silent_past};
use crate::feedback::{
    lemma_early_outputs, lemma_feedback_round_trip, lemma_first_arrival, lemma_returned_is_out,
    NetworkView,
};
use crate::fixed::{cut, saturate, Fixed, SCALE};
use crate::sample::{silence, Sample};

verus! {

/// `x` is no further from silence than `bound` steps.
pub open spec fn within(x: Fixed, bound: int) -> bool {
    -bound <= x.raw <= bound
}

/// No slot of the line is further from silence than `bound` steps.
pub open spec fn line_within(line: BufferView<Fixed>, bound: int) -> bool {
    forall|i: int| 0 <= i < line.len() ==> within(#[trigger] line.contents[i], bound)
}

/// Neither a slot of either line nor the return line's last output is
/// further from silence than `bound` steps.
pub open spec fn network_within(v: NetworkView<Fixed>, bound: int) -> bool {
    &&& line_within(v.initial_delay, bound)
    &&& line_within(v.feedback_delay, bound)
    &&& within(v.former_feedback, bound)
}

/// `bound` leaves room for an input of `level` on top of what the gain
/// returns of `bound`: `level <= (1 - gain) * bound`, in raw steps.
pub open spec fn leaves_room(gain: Fixed, level: int, bound: int) -> bool {
    &&& 0 <= gain.raw < SCALE
    &&& 0 <= level
    &&& level * SCALE <= (SCALE - gain.raw) * bound
}

/// Saturation brings a number no further from 0.
proof fn lemma_saturate_within(x: int, bound: int)
    requires
        -bound <= x <= bound,
    ensures
        -bound <= saturate(x) <= bound,
{
}

/// A product cut down by `s` is within `room` where the product of the
/// bounds is within `s * room`.
proof fn lemma_cut_within(g: int, y: int, s: int, bound: int, room: int)
    requires
        0 < s,
        0 <= g,
        -bound <= y <= bound,
        g * bound <= s * room,
    ensures
        -room <= cut(g * y, s) <= room,
{
    let p = g * y;
    assert(-(g * bound) <= p <= g * bound) by (nonlinear_arith)
        requires
            0 <= g,
            -bound <= y <= bound,
            p == g * y,
    ;
    let size = if p >= 0 { p } else { -p };
    let q = size / s;
    vstd::arithmetic::div_mod::lemma_fundamental_div_mod(size, s);
    vstd::arithmetic::div_mod::lemma_mod_bound(size, s);
    vstd::arithmetic::div_mod::lemma_div_pos_is_pos(size, s);
    assert(q <= room) by (nonlinear_arith)
        requires
            0 < s,
            0 <= q,
            size == s * q + size % s,
            0 <= size % s,
            size <= s * room,
    ;
}

/// What is driven into the forward line stays within the bound.
pub proof fn lemma_driven_within(v: NetworkView<Fixed>, input: Fixed, level: int, bound: int)
    requires
        leaves_room(v.feedback, level, bound),
        within(v.former_feedback, bound),
        within(input, level),
    ensures
        within(v.driven(input), bound),
{
    let s = SCALE as int;
    let g = v.feedback.raw as int;
    let room = bound - level;
    assert(g * bound <= s * room) by (nonlinear_arith)
        requires
            level * s <= (s - g) * bound,
            room == bound - level,
    ;
    lemma_cut_within(g, v.former_feedback.raw as int, s, bound, room);
    let returned = v.feedback.times_spec(v.former_feedback);
    lemma_saturate_within(cut(g * v.former_feedback.raw, s), room);
    assert(-room <= returned.raw <= room);
    lemma_saturate_within(input.raw + returned.raw, bound);
}

/// One sample keeps the network within the bound, and its output too.
pub proof fn lemma_step_within(v: NetworkView<Fixed>, input: Fixed, level: int, bound: int)
    requires
        v.wf(),
        leaves_room(v.feedback, level, bound),
        network_within(v, bound),
        within(input, level),
    ensures
        within(v.process(input).1, bound),
        network_within(v.process(input).0, bound),
        v.process(input).0.wf(),
        v.process(input).0.feedback == v.feedback,
{
    lemma_driven_within(v, input, level, bound);
    let driven = v.driven(input);
    crate::delay::lemma_process(v.initial_delay, driven);
    let forward = v.initial_delay.process(driven);
    assert(within(forward.1, bound)) by {
        let written = v.initial_delay.write(driven);
        assert(forward.1 == written.contents[v.initial_delay.output]);
        if v.initial_delay.output != v.initial_delay.input {
            assert(forward.1 == v.initial_delay.contents[v.initial_delay.output]);
        }
    }
    assert(line_within(forward.0, bound)) by {
        assert forall|i: int| 0 <= i < forward.0.len() implies within(
            #[trigger] forward.0.contents[i],
            bound,
        ) by {
            if i != v.initial_delay.input {
                assert(forward.0.contents[i] == v.initial_delay.contents[i]);
            }
        }
    }
    crate::delay::lemma_process(v.feedback_delay, forward.1);
    let back = v.feedback_delay.process(forward.1);
    assert(within(back.1, bound)) by {
        let written = v.feedback_delay.write(forward.1);
        assert(back.1 == written.contents[v.feedback_delay.output]);
        if v.feedback_delay.output != v.feedback_delay.input {
            assert(back.1 == v.feedback_delay.contents[v.feedback_delay.output]);
        }
    }
    assert(line_within(back.0, bound)) by {
        assert forall|i: int| 0 <= i < back.0.len() implies within(
            #[trigger] back.0.contents[i],
            bound,
        ) by {
            if i != v.feedback_delay.input {
                assert(back.0.contents[i] == v.feedback_delay.contents[i]);
            }
        }
    }
}

/// A gain below unity cannot run away. In fixed point, let the gain lie from
/// 0 to below 1, let every input stay within `level`, and let `bound` be at
/// least `level / (1 - gain)`. A network that starts within `bound` stays
/// within it for ever, and so does every output.
pub proof fn lemma_gain_below_unity_is_stable(
    v: NetworkView<Fixed>,
    inputs: Seq<Fixed>,
    level: int,
    bound: int,
    n: int,
)
    requires
        v.wf(),
        leaves_room(v.feedback, level, bound),
        network_within(v, bound),
        forall|i: int| 0 <= i < inputs.len() ==> within(#[trigger] inputs[i], level),
        0 <= n < inputs.len(),
    ensures
        within(v.out(inputs, n), bound),
        network_within(v.at(inputs, n), bound),
        network_within(v.at(inputs, n + 1), bound),
        v.at(inputs, n).wf(),
        v.at(inputs, n).feedback == v.feedback,
    decreases n,
{
    if n > 0 {
        lemma_gain_below_unity_is_stable(v, inputs, level, bound, n - 1);
        crate::feedback::lemma_network_steady(v, inputs, n);
    }
    lemma_step_within(v.at(inputs, n), inputs[n], level, bound);
}

/// A silent network is within every bound that is not negative.
pub proof fn lemma_silent_network_within(time: int, feedback: Fixed, size: int, bound: int)
    requires
        0 <= bound,
        0 < size,
    ensures
        network_within(NetworkView::<Fixed>::silent(time, feedback, size), bound),
{
    crate::fixed::lemma_silence_and_unity(feedback);
}

/// How far from silence an output can be after `trips` round trips of a
/// network that started silent, with inputs within `level`: `level` times
/// `1 + gain + ... + gain^trips`, summed as the arithmetic sums it, every
/// product cut to a whole step.
pub open spec fn partial_bound(gain: Fixed, level: int, trips: nat) -> int
    decreases trips,
{
    if trips == 0 {
        level
    } else {
        level + cut(gain.raw * partial_bound(gain, level, (trips - 1) as nat), SCALE as int)
    }
}

/// The bound grows with every round trip and never passes a bound that
/// leaves room: it stays at or below `level / (1 - gain)`.
pub proof fn lemma_partial_bound(gain: Fixed, level: int, bound: int, trips: nat)
    requires
        0 <= gain.raw,
        0 <= level,
    ensures
        level <= partial_bound(gain, level, trips) <= partial_bound(gain, level, trips + 1),
        leaves_room(gain, level, bound) ==> partial_bound(gain, level, trips) <= bound,
    decreases trips,
{
    let s = SCALE as int;
    let g = gain.raw as int;
    if trips > 0 {
        lemma_partial_bound(gain, level, bound, (trips - 1) as nat);
    }
    let here = partial_bound(gain, level, trips);
    assert(0 <= g * here) by (nonlinear_arith)
        requires
            0 <= g,
            0 <= here,
    ;
    vstd::arithmetic::div_mod::lemma_div_pos_is_pos(g * here, s);
    if trips > 0 {
        let before = partial_bound(gain, level, (trips - 1) as nat);
        assert(0 <= g * before <= g * here) by (nonlinear_arith)
            requires
                0 <= g,
                0 <= before <= here,
        ;
        vstd::arithmetic::div_mod::lemma_div_is_ordered(g * before, g * here, s);
        if leaves_room(gain, level, bound) {
            let room = bound - level;
            assert(g * bound <= s * room) by (nonlinear_arith)
                requires
                    level * s <= (s - g) * bound,
                    room == bound - level,
            ;
            lemma_cut_within(g, before, s, bound, room);
        }
    } else if leaves_room(gain, level, bound) {
        assert(level <= bound) by (nonlinear_arith)
            requires
                level * s <= (s - g) * bound,
                0 <= g < s,
                0 <= level,
        ;
    }
}

/// What the gain returns of a sample within `bound` is within the gain times
/// `bound`, cut to a whole step.
proof fn lemma_returned_within(gain: Fixed, y: Fixed, bound: int)
    requires
        0 <= gain.raw,
        within(y, bound),
    ensures
        within(gain.times_spec(y), cut(gain.raw * bound, SCALE as int)),
        0 <= cut(gain.raw * bound, SCALE as int),
{
    let s = SCALE as int;
    let g = gain.raw as int;
    let p = g * y.raw;
    assert(-(g * bound) <= p <= g * bound && 0 <= g * bound) by (nonlinear_arith)
        requires
            0 <= g,
            -bound <= y.raw <= bound,
            p == g * y.raw,
    ;
    let size = if p >= 0 { p } else { -p };
    vstd::arithmetic::div_mod::lemma_div_is_ordered(size, g * bound, s);
    vstd::arithmetic::div_mod::lemma_div_pos_is_pos(size, s);
    vstd::arithmetic::div_mod::lemma_div_pos_is_pos(g * bound, s);
    lemma_saturate_within(cut(p, s), cut(g * bound, s));
}

/// Until an output has come round, the return line has given out only
/// silence.
proof fn lemma_nothing_returned_yet(v: NetworkView<Fixed>, inputs: Seq<Fixed>, j: int)
    requires
        is_silent(v),
        v.initial_delay.delay() == v.feedback_delay.delay(),
        0 <= j <= 2 * v.initial_delay.delay(),
        j < inputs.len(),
    ensures
        v.at(inputs, j).former_feedback == silence::<Fixed>(),
{
    let d = v.initial_delay.delay();
    if j > 0 {
        if j - 1 < d {
            lemma_early_outputs(v, inputs, j - 1);
            lemma_silent_past(v.feedback_delay, d - 1 - (j - 1));
        } else {
            lemma_returned_is_out(v, inputs, j - 1);
            lemma_early_outputs(v, inputs, j - 1 - d);
            lemma_silent_past(v.initial_delay, d - 1 - (j - 1 - d));
        }
    }
}

/// Loudness grows one round trip at a time. A silent network with both lines
/// at delay `d` and a gain that is not negative, fed inputs within `level`,
/// gives out silence before step `d`; from then on, after `j` completed
/// round trips of `2 * d + 1` steps each, its output is within `level` times
/// `1 + gain + ... + gain^j`.
pub proof fn lemma_loudness_by_round_trips(
    v: NetworkView<Fixed>,
    inputs: Seq<Fixed>,
    level: int,
    n: int,
)
    requires
        is_silent(v),
        v.initial_delay.delay() == v.feedback_delay.delay(),
        0 <= v.feedback.raw,
        0 <= level,
        forall|i: int| 0 <= i < inputs.len() ==> within(#[trigger] inputs[i], level),
        0 <= n < inputs.len(),
    ensures
        n < v.initial_delay.delay() ==> v.out(inputs, n) == silence::<Fixed>(),
        n >= v.initial_delay.delay() ==> within(
            v.out(inputs, n),
            partial_bound(
                v.feedback,
                level,
                ((n - v.initial_delay.delay()) / (2 * v.initial_delay.delay() + 1)) as nat,
            ),
        ),
    decreases n,
{
    let d = v.initial_delay.delay();
    let p = 2 * d + 1;
    let gain = v.feedback;
    crate::delay::lemma_process(v.initial_delay, inputs[0]);
    crate::fixed::lemma_silence_and_unity(gain);
    if n < d {
        lemma_early_outputs(v, inputs, n);
        lemma_silent_past(v.initial_delay, d - 1 - n);
    } else if n < d + p {
        let j = n - d;
        lemma_first_arrival(v, inputs, n);
        lemma_nothing_returned_yet(v, inputs, j);
        crate::fixed::lemma_silence_and_unity(inputs[j]);
        vstd::arithmetic::div_mod::lemma_fundamental_div_mod_converse(j, p, 0, j);
    } else {
        let j = (n - d) / p;
        lemma_feedback_round_trip(v, inputs, n);
        lemma_loudness_by_round_trips(v, inputs, level, n - p);
        vstd::arithmetic::div_mod::lemma_div_minus_one(n - d, p);
        assert(-p + (n - d) == n - p - d);
        vstd::arithmetic::div_mod::lemma_div_pos_is_pos(n - p - d, p);
        let before = partial_bound(gain, level, (j - 1) as nat);
        lemma_partial_bound(gain, level, 0, (j - 1) as nat);
        lemma_returned_within(gain, v.out(inputs, n - p), before);
        lemma_saturate_within(
            inputs[n - d].raw + gain.times_spec(v.out(inputs, n - p)).raw,
            partial_bound(gain, level, j as nat),
        );
    }
}

} // verus!
