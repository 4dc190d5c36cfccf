//! A signed binary fixed-point number with 32 fractional bits and saturating
//! arithmetic: the scalar that needs nothing but integers.

use crate::scalar::Scalar;
use crate::solver::{configuration_fault, step_count};
use crate::trajectory::{lemma_times_strictly_increasing, time_at, time_grid};
use vstd::prelude::*;

verus! {

/// The raw value that stands for one.
pub const ONE_RAW: i64 = 4294967296;

/// The number whose value is `raw / 2^32`.
#[derive(Clone, Copy, Debug, PartialEq, Eq, Structural)]
pub struct Fixed {
    pub raw: i64,
}

/// The nearest `i64` to `x`.
pub open spec fn saturate(x: int) -> i64 {
    if x < i64::MIN {
        i64::MIN
    } else if x > i64::MAX {
        i64::MAX
    } else {
        x as i64
    }
}

/// `|x|`.
pub open spec fn magnitude_spec(x: int) -> int {
    if x < 0 {
        -x
    } else {
        x
    }
}

/// `m` with the sign that `negative` says.
pub open spec fn signed_spec(negative: bool, m: int) -> int {
    if negative {
        -m
    } else {
        m
    }
}

/// `a * b / 2^32` on raw values, rounded towards zero.
pub open spec fn raw_product(a: int, b: int) -> int {
    signed_spec((a < 0) != (b < 0), (magnitude_spec(a) * magnitude_spec(b)) / (ONE_RAW as int))
}

/// `a * 2^32 / b` on raw values, rounded towards zero.
pub open spec fn raw_quotient(a: int, b: int) -> int
    recommends
        b != 0,
{
    signed_spec((a < 0) != (b < 0), (magnitude_spec(a) * ONE_RAW) / magnitude_spec(b))
}

fn magnitude(x: i64) -> (m: u128)
    ensures
        m == magnitude_spec(x as int),
{
    if x >= 0 {
        x as u128
    } else {
        let wide: i128 = -(x as i128);
        wide as u128
    }
}

fn saturate_signed(negative: bool, m: u128) -> (r: i64)
    ensures
        r == saturate(signed_spec(negative, m as int)),
{
    if negative {
        if m > 9223372036854775808u128 {
            i64::MIN
        } else {
            let wide: i128 = -(m as i128);
            wide as i64
        }
    } else {
        if m > 9223372036854775807u128 {
            i64::MAX
        } else {
            m as i64
        }
    }
}

fn saturate_wide(x: i128) -> (r: i64)
    ensures
        r == saturate(x as int),
{
    if x < -9223372036854775808i128 {
        i64::MIN
    } else if x > 9223372036854775807i128 {
        i64::MAX
    } else {
        x as i64
    }
}

impl Scalar for Fixed {
    open spec fn zero_spec() -> Self {
        Fixed { raw: 0 }
    }

    open spec fn ratio_spec(num: u32, den: u32) -> Option<Self> {
        if den == 0 || (num as int * ONE_RAW as int) / (den as int) > i64::MAX {
            None
        } else {
            Some(Fixed { raw: ((num as int * ONE_RAW as int) / (den as int)) as i64 })
        }
    }

    open spec fn add_spec(self, rhs: Self) -> Self {
        Fixed { raw: saturate(self.raw + rhs.raw) }
    }

    open spec fn sub_spec(self, rhs: Self) -> Self {
        Fixed { raw: saturate(self.raw - rhs.raw) }
    }

    open spec fn mul_spec(self, rhs: Self) -> Self {
        Fixed { raw: saturate(raw_product(self.raw as int, rhs.raw as int)) }
    }

    open spec fn div_spec(self, rhs: Self) -> Self {
        Fixed { raw: saturate(raw_quotient(self.raw as int, rhs.raw as int)) }
    }

    open spec fn neg_spec(self) -> Self {
        Fixed { raw: saturate(-self.raw) }
    }

    open spec fn abs_spec(self) -> Self {
        Fixed { raw: saturate(magnitude_spec(self.raw as int)) }
    }

    open spec fn lt_spec(self, rhs: Self) -> bool {
        self.raw < rhs.raw
    }

    open spec fn floor_spec(self) -> Option<usize> {
        if self.raw < 0 {
            None
        } else {
            Some((self.raw as int / ONE_RAW as int) as usize)
        }
    }

    open spec fn cos_spec(self) -> Option<Self> {
        None
    }

    open spec fn sin_spec(self) -> Option<Self> {
        None
    }

    proof fn lemma_add_zero(x: Self) {
    }

    proof fn lemma_zero_mul(x: Self) {
        assert(raw_product(0, x.raw as int) == 0) by {
            assert(magnitude_spec(0) * magnitude_spec(x.raw as int) == 0) by (nonlinear_arith)
                requires
                    magnitude_spec(0) == 0,
            ;
        }
    }

    proof fn lemma_sub_self(x: Self) {
    }

    proof fn lemma_abs_zero() {
    }

    proof fn lemma_abs_not_negative(x: Self) {
    }

    proof fn lemma_lt_irreflexive(x: Self) {
    }

    proof fn lemma_lt_transitive(x: Self, y: Self, z: Self) {
    }

    proof fn lemma_lt_cotransitive(x: Self, y: Self, z: Self) {
    }

    fn zero() -> (r: Self) {
        Fixed { raw: 0 }
    }

    fn from_ratio(num: u32, den: u32) -> (r: Option<Self>) {
        if den == 0 {
            None
        } else {
            let scaled: u64 = (num as u64) * 4294967296u64;
            let q: u64 = scaled / (den as u64);
            if q > 9223372036854775807u64 {
                None
            } else {
                Some(Fixed { raw: q as i64 })
            }
        }
    }

    fn add(self, rhs: Self) -> (r: Self) {
        Fixed { raw: saturate_wide(self.raw as i128 + rhs.raw as i128) }
    }

    fn sub(self, rhs: Self) -> (r: Self) {
        Fixed { raw: saturate_wide(self.raw as i128 - rhs.raw as i128) }
    }

    fn mul(self, rhs: Self) -> (r: Self) {
        let a: u128 = magnitude(self.raw);
        let b: u128 = magnitude(rhs.raw);
        assert(a * b <= 9223372036854775808 * 9223372036854775808) by (nonlinear_arith)
            requires
                a <= 9223372036854775808,
                b <= 9223372036854775808,
        ;
        let q: u128 = (a * b) / 4294967296u128;
        Fixed { raw: saturate_signed((self.raw < 0) != (rhs.raw < 0), q) }
    }

    fn div(self, rhs: Self) -> (r: Self) {
        let a: u128 = magnitude(self.raw);
        let b: u128 = magnitude(rhs.raw);
        let q: u128 = (a * 4294967296u128) / b;
        Fixed { raw: saturate_signed((self.raw < 0) != (rhs.raw < 0), q) }
    }

    fn neg(self) -> (r: Self) {
        Fixed { raw: saturate_wide(-(self.raw as i128)) }
    }

    fn abs(self) -> (r: Self) {
        Fixed { raw: saturate_signed(false, magnitude(self.raw)) }
    }

    fn lt(self, rhs: Self) -> (r: bool) {
        self.raw < rhs.raw
    }

    fn cos(self) -> (r: Option<Self>) {
        None
    }

    fn sin(self) -> (r: Option<Self>) {
        None
    }

    fn floor_to_usize(self) -> (r: Option<usize>) {
        if self.raw < 0 {
            None
        } else {
            let whole: i64 = self.raw / 4294967296i64;
            assert(whole < 2147483648);
            Some(whole as usize)
        }
    }
}

/// The whole steps of size `dt` in `end_time` do not lead past `end_time`.
proof fn lemma_steps_fit(dt: Fixed, end_time: Fixed)
    requires
        configuration_fault(dt, end_time) is None,
    ensures
        step_count(dt, end_time).unwrap() * dt.raw <= end_time.raw,
{
    let d = dt.raw as int;
    let e = end_time.raw as int;
    let one = ONE_RAW as int;
    let q = (e * one) / d;
    let capped = saturate(q) as int;
    let n = capped / one;
    assert(step_count(dt, end_time).unwrap() == n);
    assert(n * d <= e) by (nonlinear_arith)
        requires
            d > 0,
            e > 0,
            one > 0,
            q == (e * one) / d,
            0 <= capped <= q,
            n == capped / one,
    ;
}

/// On a grid whose steps fit below the largest raw value, the `k`-th sample
/// time is `k` times the step size, with nothing cut off.
proof fn lemma_time_at_is_multiple(dt: Fixed, k: nat)
    requires
        dt.raw > 0,
        k * dt.raw <= i64::MAX,
    ensures
        time_at(dt, k).raw == k * dt.raw,
    decreases k,
{
    if k > 0 {
        assert((k - 1) * dt.raw <= k * dt.raw) by (nonlinear_arith)
            requires
                dt.raw > 0,
                k > 0,
        ;
        lemma_time_at_is_multiple(dt, (k - 1) as nat);
        assert((k - 1) * dt.raw + dt.raw == k * dt.raw) by (nonlinear_arith);
    }
}

/// The sample times of a fixed-point grid that a solver accepts are
/// strictly increasing: they start at zero, and none of them is cut off at
/// the largest value.
pub proof fn lemma_fixed_times_strictly_increasing(dt: Fixed, end_time: Fixed)
    requires
        configuration_fault(dt, end_time) is None,
    ensures
        ({
            let steps = step_count(dt, end_time).unwrap() as nat;
            let times = time_grid(dt, steps);
            &&& times.len() == steps + 1
            &&& times[0] == Fixed::zero_spec()
            &&& forall|i: int, j: int| 0 <= i < j <= steps ==> (#[trigger] times[i]).lt_spec(#[trigger] times[j])
        }),
{
    let steps = step_count(dt, end_time).unwrap() as nat;
    lemma_steps_fit(dt, end_time);
    assert forall|k: nat| k < steps implies (#[trigger] time_at(dt, k)).lt_spec(time_at(dt, k + 1)) by {
        assert(k * dt.raw <= (k + 1) * dt.raw <= steps * dt.raw) by (nonlinear_arith)
            requires
                dt.raw > 0,
                k < steps,
        ;
        lemma_time_at_is_multiple(dt, k);
        lemma_time_at_is_multiple(dt, k + 1);
        assert(k * dt.raw < (k + 1) * dt.raw) by (nonlinear_arith)
            requires
                dt.raw > 0,
        ;
    }
    lemma_times_strictly_increasing(dt, steps);
}

} // verus!
