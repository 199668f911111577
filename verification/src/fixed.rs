//! Fixed-point samples: whole numbers of 2^-32, kept within 64 bits by
//! saturation.

use vstd::prelude::*;
use crate::sample::{silence, unity, Sample};

verus! {

/// How many steps of a [`Fixed`] make 1.
pub const SCALE: u64 = 0x1_0000_0000;

/// A sample in fixed point. `raw` counts steps of `1 / SCALE`.
#[derive(Clone, Copy, Debug, PartialEq, Eq)]
pub struct Fixed {
    pub raw: i64,
}

/// `x` kept within the range of an `i64`.
pub open spec fn saturate(x: int) -> i64 {
    if x < i64::MIN {
        i64::MIN
    } else if x > i64::MAX {
        i64::MAX
    } else {
        x as i64
    }
}

/// `x / d` cut towards zero, for a positive `d`.
pub open spec fn cut(x: int, d: int) -> int {
    if x >= 0 {
        x / d
    } else {
        -((-x) / d)
    }
}

/// The size of `x` without its sign.
fn magnitude(x: i64) -> (m: u128)
    ensures
        m == if x >= 0 {
            x as int
        } else {
            -(x as int)
        },
{
    if x >= 0 {
        x as u128
    } else {
        (-(x as i128)) as u128
    }
}

/// `m` with a sign, kept within the range of an `i64`.
fn saturated(m: u128, negative: bool) -> (r: i64)
    ensures
        r == saturate(
            if negative {
                -(m as int)
            } else {
                m as int
            },
        ),
{
    if negative {
        if m > 0x8000_0000_0000_0000u128 {
            i64::MIN
        } else {
            (-(m as i128)) as i64
        }
    } else {
        if m > 0x7fff_ffff_ffff_ffffu128 {
            i64::MAX
        } else {
            m as i64
        }
    }
}

/// `x / d` cut towards zero and kept within the range of an `i64`.
fn cut_by(x: i64, d: u64) -> (r: i64)
    requires
        d > 0,
    ensures
        r == cut(x as int, d as int),
{
    let m = magnitude(x) / (d as u128);
    proof {
        let size = if x >= 0 { x as int } else { -(x as int) };
        vstd::arithmetic::div_mod::lemma_div_nonincreasing(size, d as int);
        vstd::arithmetic::div_mod::lemma_div_pos_is_pos(size, d as int);
    }
    saturated(m, x < 0)
}

impl Sample for Fixed {
    open spec fn ratio_spec(num: u32, den: u32) -> Self {
        Fixed { raw: saturate((num * SCALE) / (den as int)) }
    }

    open spec fn plus_spec(self, rhs: Self) -> Self {
        Fixed { raw: saturate(self.raw + rhs.raw) }
    }

    open spec fn minus_spec(self, rhs: Self) -> Self {
        Fixed { raw: saturate(self.raw - rhs.raw) }
    }

    open spec fn times_spec(self, rhs: Self) -> Self {
        Fixed { raw: saturate(cut(self.raw * rhs.raw, SCALE as int)) }
    }

    open spec fn halved_spec(self) -> Self {
        Fixed { raw: cut(self.raw as int, 2) as i64 }
    }

    open spec fn lt_spec(self, rhs: Self) -> bool {
        self.raw < rhs.raw
    }

    open spec fn le_spec(self, rhs: Self) -> bool {
        self.raw <= rhs.raw
    }

    open spec fn to_index_spec(self) -> i32 {
        cut(self.raw as int, SCALE as int) as i32
    }

    fn ratio(num: u32, den: u32) -> (r: Self) {
        let wide: u128 = (num as u128) * (SCALE as u128);
        Fixed { raw: saturated(wide / (den as u128), false) }
    }

    fn plus(self, rhs: Self) -> (r: Self) {
        let sum: i128 = self.raw as i128 + rhs.raw as i128;
        Fixed { raw: saturated(if sum >= 0 { sum as u128 } else { (-sum) as u128 }, sum < 0) }
    }

    fn minus(self, rhs: Self) -> (r: Self) {
        let difference: i128 = self.raw as i128 - rhs.raw as i128;
        Fixed {
            raw: saturated(
                if difference >= 0 {
                    difference as u128
                } else {
                    (-difference) as u128
                },
                difference < 0,
            ),
        }
    }

    fn times(self, rhs: Self) -> (r: Self) {
        let a = magnitude(self.raw);
        let b = magnitude(rhs.raw);
        proof {
            lemma_product(self.raw as int, rhs.raw as int);
        }
        let m = (a * b) / (SCALE as u128);
        Fixed { raw: saturated(m, (self.raw < 0) != (rhs.raw < 0)) }
    }

    fn halved(self) -> (r: Self) {
        Fixed { raw: cut_by(self.raw, 2) }
    }

    fn lt(self, rhs: Self) -> (r: bool) {
        self.raw < rhs.raw
    }

    fn le(self, rhs: Self) -> (r: bool) {
        self.raw <= rhs.raw
    }

    fn to_index(self) -> (r: i32) {
        let whole = cut_by(self.raw, SCALE);
        proof {
            lemma_whole_fits(self.raw);
        }
        whole as i32
    }
}

/// The size of a product is the product of the sizes, and it fits in 128
/// bits where both factors fit in 64.
proof fn lemma_product(a: int, b: int)
    requires
        i64::MIN <= a <= i64::MAX,
        i64::MIN <= b <= i64::MAX,
    ensures
        (if a >= 0 { a } else { -a }) * (if b >= 0 { b } else { -b }) <= u128::MAX,
        (if a >= 0 { a } else { -a }) * (if b >= 0 { b } else { -b }) == if (a < 0) != (b < 0) {
            -(a * b)
        } else {
            a * b
        },
        (a < 0) != (b < 0) ==> a * b <= 0,
        (a < 0) == (b < 0) ==> a * b >= 0,
{
    let x = if a >= 0 { a } else { -a };
    let y = if b >= 0 { b } else { -b };
    assert(x * y <= 0x8000_0000_0000_0000 * 0x8000_0000_0000_0000) by (nonlinear_arith)
        requires
            0 <= x <= 0x8000_0000_0000_0000,
            0 <= y <= 0x8000_0000_0000_0000,
    ;
    assert((-a) * b == -(a * b)) by (nonlinear_arith);
    assert(a * (-b) == -(a * b)) by (nonlinear_arith);
    assert((-a) * (-b) == a * b) by (nonlinear_arith);
    assert(x * y >= 0) by (nonlinear_arith)
        requires
            0 <= x,
            0 <= y,
    ;
}

/// Cutting a whole multiple gives the multiple back.
pub proof fn lemma_cut_multiple(x: int, d: int)
    requires
        0 < d,
    ensures
        cut(d * x, d) == x,
        cut(x * d, d) == x,
{
    assert(x * d == d * x) by (nonlinear_arith);
    if x >= 0 {
        assert(d * x >= 0) by (nonlinear_arith)
            requires
                0 < d,
                0 <= x,
        ;
        vstd::arithmetic::div_mod::lemma_div_multiples_vanish(x, d);
    } else {
        assert(d * x < 0) by (nonlinear_arith)
            requires
                0 < d,
                x < 0,
        ;
        assert(-(d * x) == d * (-x)) by (nonlinear_arith);
        vstd::arithmetic::div_mod::lemma_div_multiples_vanish(-x, d);
    }
}

/// Silence and unity behave in fixed point as 0 and 1 do: adding or taking
/// away silence changes nothing, a sample less itself is silence, silence
/// times anything is silence, and unity times a sample is that sample.
pub proof fn lemma_silence_and_unity(x: Fixed)
    ensures
        silence::<Fixed>() == (Fixed { raw: 0 }),
        unity::<Fixed>() == (Fixed { raw: 0x1_0000_0000 }),
        silence::<Fixed>().plus_spec(x) == x,
        x.plus_spec(silence::<Fixed>()) == x,
        x.minus_spec(silence::<Fixed>()) == x,
        x.minus_spec(x) == silence::<Fixed>(),
        silence::<Fixed>().times_spec(x) == silence::<Fixed>(),
        x.times_spec(silence::<Fixed>()) == silence::<Fixed>(),
        unity::<Fixed>().times_spec(x) == x,
        x.times_spec(unity::<Fixed>()) == x,
        silence::<Fixed>().halved_spec() == silence::<Fixed>(),
{
    let s = SCALE as int;
    vstd::arithmetic::div_mod::lemma_div_basics(0 * s);
    vstd::arithmetic::div_mod::lemma_div_basics(1 * s);
    vstd::arithmetic::div_mod::lemma_div_of0(s);
    vstd::arithmetic::div_mod::lemma_div_of0(2);
    assert(0 * s == 0);
    assert(1 * s == s);
    assert(silence::<Fixed>().raw == 0);
    assert(unity::<Fixed>().raw == s);
    assert(0 * (x.raw as int) == 0) by (nonlinear_arith);
    assert((x.raw as int) * 0 == 0) by (nonlinear_arith);
    lemma_cut_multiple(x.raw as int, s);
}

/// In fixed point, silence plus any gain times silence is silence.
pub proof fn lemma_silence_returns_silent(gain: Fixed)
    ensures
        silence::<Fixed>().plus_spec(gain.times_spec(silence::<Fixed>())) == silence::<Fixed>(),
{
    lemma_silence_and_unity(gain);
    lemma_silence_and_unity(silence::<Fixed>());
}

/// Half of a sample added to itself is the sample, as long as the sum stays
/// in range.
pub proof fn lemma_half_of_double(x: Fixed)
    requires
        -0x4000_0000_0000_0000 <= x.raw < 0x4000_0000_0000_0000,
    ensures
        x.plus_spec(x).halved_spec() == x,
{
    lemma_cut_multiple(x.raw as int, 2);
}

/// The whole number of a fixed-point sample fits in 32 bits.
proof fn lemma_whole_fits(raw: i64)
    ensures
        i32::MIN <= cut(raw as int, SCALE as int) <= i32::MAX,
{
    let s = SCALE as int;
    if raw >= 0 {
        vstd::arithmetic::div_mod::lemma_div_is_ordered(raw as int, i64::MAX as int, s);
        vstd::arithmetic::div_mod::lemma_div_pos_is_pos(raw as int, s);
        vstd::arithmetic::div_mod::lemma_fundamental_div_mod_converse(
            i64::MAX as int,
            s,
            i32::MAX as int,
            s - 1,
        );
    } else {
        vstd::arithmetic::div_mod::lemma_div_is_ordered(-(raw as int), -(i64::MIN as int), s);
        vstd::arithmetic::div_mod::lemma_div_pos_is_pos(-(raw as int), s);
        vstd::arithmetic::div_mod::lemma_fundamental_div_mod_converse(
            -(i64::MIN as int),
            s,
            -(i32::MIN as int),
            0,
        );
    }
}

} // verus!
