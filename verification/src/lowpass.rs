//! A one-pole lowpass: the mean of the present and the previous input,
//! blended with the previous output.

use vstd::prelude::*;
use crate::fixed::{lemma_half_of_double, lemma_silence_and_unity, Fixed};
use crate::sample::{silence, unity, Sample};

verus! {

/// What a filter holds: the input and the output of the step before, and the
/// coefficient `a`.
pub struct LowpassView<S> {
    pub former_input: S,
    pub former_output: S,
    pub a: S,
}

impl<S: Sample> LowpassView<S> {
    /// A filter at rest with coefficient `a`.
    pub open spec fn at_rest(a: S) -> Self {
        LowpassView {
            former_input: crate::sample::silence::<S>(),
            former_output: crate::sample::silence::<S>(),
            a,
        }
    }

    /// What the filter gives out for `input`:
    /// `(1 - a) * former_output + a * ((input + former_input) / 2)`.
    pub open spec fn output(self, input: S) -> S {
        unity::<S>().minus_spec(self.a).times_spec(self.former_output).plus_spec(
            self.a.times_spec(input.plus_spec(self.former_input).halved_spec()),
        )
    }

    /// One sample through the filter: the filter afterwards and its output.
    pub open spec fn process(self, input: S) -> (Self, S) {
        (
            LowpassView { former_input: input, former_output: self.output(input), a: self.a },
            self.output(input),
        )
    }

    /// The filter with coefficient `a`, its memory untouched.
    pub open spec fn set_a(self, a: S) -> Self {
        LowpassView { a, ..self }
    }

    /// The filter after the first `m` samples of `inputs`.
    pub open spec fn at(self, inputs: Seq<S>, m: int) -> Self
        decreases m,
    {
        if m <= 0 {
            self
        } else {
            self.at(inputs, m - 1).process(inputs[m - 1]).0
        }
    }

    /// What the filter gives out for sample `n` of `inputs`.
    pub open spec fn out(self, inputs: Seq<S>, n: int) -> S {
        self.at(inputs, n).process(inputs[n]).1
    }
}

/// What a closed filter asks of the arithmetic to hold `held` while `mean`
/// comes in: 1 less 0 is 1, 1 times `held` is `held`, 0 times `mean` is 0,
/// and `held` plus 0 is `held`.
pub open spec fn holds<S: Sample>(held: S, mean: S) -> bool {
    &&& unity::<S>().minus_spec(silence::<S>()) == unity::<S>()
    &&& unity::<S>().times_spec(held) == held
    &&& silence::<S>().times_spec(mean) == silence::<S>()
    &&& held.plus_spec(silence::<S>()) == held
}

/// What a fully open filter asks of the arithmetic to pass `mean` on while
/// it remembers `held`: 1 less 1 is 0, 0 times `held` is 0, 1 times `mean`
/// is `mean`, and 0 plus `mean` is `mean`.
pub open spec fn passes<S: Sample>(held: S, mean: S) -> bool {
    &&& unity::<S>().minus_spec(unity::<S>()) == silence::<S>()
    &&& silence::<S>().times_spec(held) == silence::<S>()
    &&& unity::<S>().times_spec(mean) == mean
    &&& silence::<S>().plus_spec(mean) == mean
}

impl<S: Sample> LowpassView<S> {
    /// The mean of the present and the previous input that the filter forms
    /// for sample `n` of `inputs`.
    pub open spec fn mean_at(self, inputs: Seq<S>, n: int) -> S {
        inputs[n].plus_spec(self.at(inputs, n).former_input).halved_spec()
    }
}

/// Every step leaves the coefficient alone and remembers its input.
pub proof fn lemma_filter_remembers<S: Sample>(v: LowpassView<S>, inputs: Seq<S>, n: int)
    requires
        0 <= n <= inputs.len(),
    ensures
        v.at(inputs, n).a == v.a,
        n >= 1 ==> v.at(inputs, n).former_input == inputs[n - 1],
        n >= 1 ==> v.at(inputs, n).former_output == v.out(inputs, n - 1),
    decreases n,
{
    if n > 0 {
        lemma_filter_remembers(v, inputs, n - 1);
    }
}

/// A closed filter holds its output. With coefficient 0, in an arithmetic
/// that [`holds`] the filter's previous output against every mean that comes
/// in, every output is that previous output, whatever the inputs; the
/// previous input follows the inputs all the same.
pub proof fn lemma_closed_filter_holds_where<S: Sample>(
    v: LowpassView<S>,
    inputs: Seq<S>,
    n: int,
)
    requires
        v.a == silence::<S>(),
        0 <= n < inputs.len(),
        forall|i: int| 0 <= i <= n ==> holds(v.former_output, #[trigger] v.mean_at(inputs, i)),
    ensures
        v.at(inputs, n).former_output == v.former_output,
        v.out(inputs, n) == v.former_output,
        v.at(inputs, n + 1).former_output == v.former_output,
        v.at(inputs, n + 1).former_input == inputs[n],
    decreases n,
{
    if n > 0 {
        lemma_closed_filter_holds_where(v, inputs, n - 1);
    }
    lemma_filter_remembers(v, inputs, n);
    assert(holds(v.former_output, v.mean_at(inputs, n)));
}

/// A fully open filter settles on a steady input. With coefficient 1 and a
/// steady input `level`, in an arithmetic that [`passes`] `level` on and in
/// which half of `level` plus `level` is `level`, every output from the
/// second on is `level`, whatever the filter remembered at the start.
pub proof fn lemma_open_filter_settles_where<S: Sample>(
    v: LowpassView<S>,
    level: S,
    inputs: Seq<S>,
    n: int,
)
    requires
        v.a == unity::<S>(),
        forall|i: int| 0 <= i < inputs.len() ==> inputs[i] == level,
        1 <= n < inputs.len(),
        passes(v.out(inputs, 0), level),
        passes(level, level),
        level.plus_spec(level).halved_spec() == level,
    ensures
        v.out(inputs, n) == level,
    decreases n,
{
    lemma_filter_remembers(v, inputs, n);
    if n > 1 {
        lemma_open_filter_settles_where(v, level, inputs, n - 1);
    }
}

/// A closed filter holds its output in fixed point. With coefficient 0 every
/// output is the output of the step before, whatever comes in, and the
/// previous input follows the inputs; a filter that starts at rest stays
/// silent for ever.
pub proof fn lemma_closed_filter_holds(v: LowpassView<Fixed>, inputs: Seq<Fixed>, n: int)
    requires
        v.a == silence::<Fixed>(),
        0 <= n < inputs.len(),
    ensures
        v.at(inputs, n).a == silence::<Fixed>(),
        v.at(inputs, n).former_output == v.former_output,
        v.out(inputs, n) == v.former_output,
        v.at(inputs, n + 1).former_output == v.former_output,
        v.at(inputs, n + 1).former_input == inputs[n],
        v == LowpassView::<Fixed>::at_rest(silence::<Fixed>()) ==> v.out(inputs, n) == silence::<
            Fixed,
        >(),
{
    assert forall|i: int| 0 <= i <= n implies holds(
        v.former_output,
        #[trigger] v.mean_at(inputs, i),
    ) by {
        lemma_silence_and_unity(v.former_output);
        lemma_silence_and_unity(v.mean_at(inputs, i));
        lemma_silence_and_unity(unity::<Fixed>());
    }
    lemma_closed_filter_holds_where(v, inputs, n);
    lemma_filter_remembers(v, inputs, n);
}

/// A fully open filter settles on a steady input in fixed point. With
/// coefficient 1 and whatever the filter remembers, a steady input `level`
/// comes out as `level` from the second sample on, as long as twice `level`
/// stays in range; a filter that starts at rest gives out half of `level`
/// first.
pub proof fn lemma_open_filter_settles(
    v: LowpassView<Fixed>,
    level: Fixed,
    inputs: Seq<Fixed>,
    n: int,
)
    requires
        v.a == unity::<Fixed>(),
        -0x4000_0000_0000_0000 <= level.raw < 0x4000_0000_0000_0000,
        forall|i: int| 0 <= i < inputs.len() ==> inputs[i] == level,
        1 <= n < inputs.len(),
    ensures
        v.out(inputs, n) == level,
        v == LowpassView::<Fixed>::at_rest(unity::<Fixed>()) ==> v.out(inputs, 0)
            == level.halved_spec(),
{
    lemma_silence_and_unity(unity::<Fixed>());
    lemma_silence_and_unity(v.out(inputs, 0));
    lemma_silence_and_unity(level);
    lemma_half_of_double(level);
    lemma_open_filter_settles_where(v, level, inputs, n);
    if v == LowpassView::<Fixed>::at_rest(unity::<Fixed>()) {
        lemma_silence_and_unity(silence::<Fixed>());
        lemma_silence_and_unity(level.halved_spec());
    }
}

/// A one-pole lowpass filter.
pub struct Lowpass<S: Sample> {
    former_input: S,
    former_output: S,
    a: S,
}

impl<S: Sample> Lowpass<S> {
    /// The filter as the contracts see it.
    pub closed spec fn view(&self) -> LowpassView<S> {
        LowpassView {
            former_input: self.former_input,
            former_output: self.former_output,
            a: self.a,
        }
    }

    /// A filter at rest with coefficient `a`.
    pub fn new(a: S) -> (r: Self)
        ensures
            r@ == LowpassView::<S>::at_rest(a),
    {
        Lowpass { former_input: S::ratio(0, 1), former_output: S::ratio(0, 1), a }
    }

    /// Pushes one sample through the filter.
    pub fn process(&mut self, input: S) -> (out: S)
        ensures
            final(self)@ == old(self)@.process(input).0,
            out == old(self)@.process(input).1,
    {
        let one = S::ratio(1, 1);
        let out = one.minus(self.a).times(self.former_output).plus(
            self.a.times(input.plus(self.former_input).halved()),
        );
        self.former_input = input;
        self.former_output = out;
        out
    }

    /// Sets the coefficient for the next sample. The memory stays.
    pub fn set_a(&mut self, a: S)
        ensures
            final(self)@ == old(self)@.set_a(a),
    {
        self.a = a;
    }

    /// The coefficient.
    pub fn a(&self) -> (r: S)
        ensures
            r == self@.a,
    {
        self.a
    }
}

} // verus!
