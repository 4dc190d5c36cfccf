//! The contract of a continuous extension of one completed step, and the
//! cubic interpolant that meets it.

use crate::equation::DifferentialEquation;
use crate::error::OdeError;
use crate::scalar::{le_spec, Scalar};
use crate::vector::zero_vector;
use vstd::prelude::*;

verus! {

/// Whether `t` lies in the interval `range`, ends included.
pub open spec fn covers<S: Scalar>(range: (S, S), t: S) -> bool {
    le_spec(range.0, t) && le_spec(t, range.1)
}

/// An interpolant of the solution inside the interval of the last completed
/// step. It is built from the data of that step and is not kept beyond it.
pub trait DenseOutput<S: Scalar> {
    /// The interval `(start, end)` of the step that the interpolant covers.
    spec fn range_spec(&self) -> (S, S);

    /// The interpolated state at time `t`.
    spec fn evaluate_spec(&self, t: S) -> Seq<S>;

    /// The state at time `t`. A query outside the covered interval is an
    /// error; it is never moved to the nearest end.
    fn evaluate(&self, t: S) -> (r: Result<Vec<S>, OdeError>)
        ensures
            match r {
                Ok(state) => covers(self.range_spec(), t) && state@ == self.evaluate_spec(t),
                Err(e) => !covers(self.range_spec(), t) && e == OdeError::OutsideValidRange,
            },
    ;

    /// The covered interval, its start not above its end.
    fn valid_range(&self) -> (r: (S, S))
        ensures
            r == self.range_spec(),
            le_spec(r.0, r.1),
    ;
}

/// The data of one completed step: its two ends, and the state and the
/// slope of the solution at each.
pub struct StepData<S> {
    pub start: S,
    pub end: S,
    pub from: Seq<S>,
    pub to: Seq<S>,
    pub slope_from: Seq<S>,
    pub slope_to: Seq<S>,
}

/// The constants two and three, as the scalar type has them.
pub open spec fn small_constants<S: Scalar>() -> Option<(S, S)> {
    match (S::ratio_spec(2, 1), S::ratio_spec(3, 1)) {
        (Some(two), Some(three)) => Some((two, three)),
        _ => None,
    }
}

/// The coefficient of `s^2` of the cubic through `y0` and `y1`, a distance
/// `h` apart, with the slopes `m0` and `m1`: `(3 (y1 - y0) / h - (2 m0 + m1)) / h`.
pub open spec fn quadratic_coefficient<S: Scalar>(y0: S, m0: S, y1: S, m1: S, h: S, two: S, three: S) -> S {
    three.mul_spec(y1.sub_spec(y0)).div_spec(h).sub_spec(two.mul_spec(m0).add_spec(m1)).div_spec(h)
}

/// The coefficient of `s^3` of the same cubic:
/// `((m0 + m1) - 2 (y1 - y0) / h) / h / h`.
pub open spec fn cubic_coefficient<S: Scalar>(y0: S, m0: S, y1: S, m1: S, h: S, two: S) -> S {
    m0.add_spec(m1).sub_spec(two.mul_spec(y1.sub_spec(y0)).div_spec(h)).div_spec(h).div_spec(h)
}

/// The cubic `y0 + s (m0 + s (b + s c))`.
pub open spec fn cubic_at<S: Scalar>(y0: S, m0: S, b: S, c: S, s: S) -> S {
    y0.add_spec(s.mul_spec(m0.add_spec(s.mul_spec(b.add_spec(s.mul_spec(c))))))
}

/// The value at time `t` of the cubic Hermite interpolant of `step`,
/// component by component.
pub open spec fn hermite_state<S: Scalar>(step: StepData<S>, t: S, two: S, three: S) -> Seq<S> {
    let h = step.end.sub_spec(step.start);
    let s = t.sub_spec(step.start);
    Seq::new(
        step.from.len(),
        |i: int|
            cubic_at(
                step.from[i],
                step.slope_from[i],
                quadratic_coefficient(step.from[i], step.slope_from[i], step.to[i], step.slope_to[i], h, two, three),
                cubic_coefficient(step.from[i], step.slope_from[i], step.to[i], step.slope_to[i], h, two),
                s,
            ),
    )
}

/// At the start of the step the interpolant is the state at the start.
pub proof fn lemma_hermite_starts_at_start<S: Scalar>(step: StepData<S>, two: S, three: S)
    ensures
        hermite_state(step, step.start, two, three) == step.from,
{
    S::lemma_sub_self(step.start);
    assert forall|i: int| 0 <= i < step.from.len() implies hermite_state(step, step.start, two, three)[i]
        == step.from[i] by {
        let h = step.end.sub_spec(step.start);
        let b = quadratic_coefficient(step.from[i], step.slope_from[i], step.to[i], step.slope_to[i], h, two, three);
        let c = cubic_coefficient(step.from[i], step.slope_from[i], step.to[i], step.slope_to[i], h, two);
        let zero = S::zero_spec();
        S::lemma_zero_mul(step.slope_from[i].add_spec(zero.mul_spec(b.add_spec(zero.mul_spec(c)))));
        S::lemma_add_zero(step.from[i]);
    }
    assert(hermite_state(step, step.start, two, three) =~= step.from);
}

/// The cubic Hermite interpolant of one step: it passes through the states
/// at the two ends with the slopes that the equation has there.
pub struct HermiteOutput<S: Scalar> {
    start: S,
    end: S,
    base: Vec<S>,
    linear: Vec<S>,
    quadratic: Vec<S>,
    cubic: Vec<S>,
    step: Ghost<StepData<S>>,
}

impl<S: Scalar> HermiteOutput<S> {
    #[verifier::type_invariant]
    spec fn well_formed(self) -> bool {
        &&& small_constants::<S>() is Some
        &&& self.start == self.step@.start
        &&& self.end == self.step@.end
        &&& self.start.lt_spec(self.end)
        &&& self.base@.len() == self.step@.from.len()
        &&& self.linear@.len() == self.base@.len()
        &&& self.quadratic@.len() == self.base@.len()
        &&& self.cubic@.len() == self.base@.len()
        &&& forall|i: int|
            #![trigger self.base@[i]]
            0 <= i < self.base@.len() ==> {
                let (two, three) = small_constants::<S>().unwrap();
                let data = self.step@;
                let h = data.end.sub_spec(data.start);
                &&& self.base@[i] == data.from[i]
                &&& self.linear@[i] == data.slope_from[i]
                &&& self.quadratic@[i] == quadratic_coefficient(
                    data.from[i],
                    data.slope_from[i],
                    data.to[i],
                    data.slope_to[i],
                    h,
                    two,
                    three,
                )
                &&& self.cubic@[i] == cubic_coefficient(
                    data.from[i],
                    data.slope_from[i],
                    data.to[i],
                    data.slope_to[i],
                    h,
                    two,
                )
            }
    }

    /// The step that the interpolant was built from.
    pub closed spec fn step_spec(self) -> StepData<S> {
        self.step@
    }

    /// Why no interpolant can be built, if none can: the scalar type lacks
    /// two or three, the step does not lead forward, or the equation and the
    /// two states disagree on the dimension.
    pub open spec fn new_fault(dimension: nat, t0: S, from: nat, t1: S, to: nat) -> Option<OdeError> {
        if S::ratio_spec(2, 1) is None {
            Some(OdeError::ConstantNotRepresentable { num: 2, den: 1 })
        } else if S::ratio_spec(3, 1) is None {
            Some(OdeError::ConstantNotRepresentable { num: 3, den: 1 })
        } else if !t0.lt_spec(t1) || !S::zero_spec().lt_spec(t1.sub_spec(t0)) {
            Some(OdeError::NonPositiveStep)
        } else if from != dimension {
            Some(OdeError::DimensionMismatch { expected: dimension as usize, found: from as usize })
        } else if to != dimension {
            Some(OdeError::DimensionMismatch { expected: dimension as usize, found: to as usize })
        } else {
            None
        }
    }

    /// The interpolant of the step of `equation` that led from the state
    /// `from` at time `t0` to the state `to` at time `t1`.
    pub fn new<E: DifferentialEquation<S>>(equation: &E, t0: S, from: &Vec<S>, t1: S, to: &Vec<S>) -> (r: Result<
        Self,
        OdeError,
    >)
        ensures
            match r {
                Ok(output) => {
                    &&& Self::new_fault(equation.dimension_spec(), t0, from@.len(), t1, to@.len()) is None
                    &&& output.step_spec() == (StepData {
                        start: t0,
                        end: t1,
                        from: from@,
                        to: to@,
                        slope_from: equation.evaluate_spec(t0, from@),
                        slope_to: equation.evaluate_spec(t1, to@),
                    })
                },
                Err(e) => Self::new_fault(equation.dimension_spec(), t0, from@.len(), t1, to@.len()) == Some(e),
            },
    {
        let two = match S::from_ratio(2, 1) {
            Some(c) => c,
            None => {
                return Err(OdeError::ConstantNotRepresentable { num: 2, den: 1 });
            },
        };
        let three = match S::from_ratio(3, 1) {
            Some(c) => c,
            None => {
                return Err(OdeError::ConstantNotRepresentable { num: 3, den: 1 });
            },
        };
        let h = t1.sub(t0);
        if !t0.lt(t1) || !S::zero().lt(h) {
            return Err(OdeError::NonPositiveStep);
        }
        let n = equation.dimension();
        if from.len() != n {
            return Err(OdeError::DimensionMismatch { expected: n, found: from.len() });
        }
        if to.len() != n {
            return Err(OdeError::DimensionMismatch { expected: n, found: to.len() });
        }
        proof {
            S::lemma_lt_irreflexive(S::zero_spec());
        }
        let mut linear = zero_vector::<S>(n);
        let mut slope_to = zero_vector::<S>(n);
        equation.evaluate(t0, from, &mut linear);
        equation.evaluate(t1, to, &mut slope_to);
        let ghost data = StepData {
            start: t0,
            end: t1,
            from: from@,
            to: to@,
            slope_from: linear@,
            slope_to: slope_to@,
        };
        let mut base: Vec<S> = Vec::with_capacity(n);
        let mut quadratic: Vec<S> = Vec::with_capacity(n);
        let mut cubic: Vec<S> = Vec::with_capacity(n);
        let mut i: usize = 0;
        while i < n
            invariant
                i <= n,
                from@.len() == n,
                to@.len() == n,
                linear@.len() == n,
                slope_to@.len() == n,
                base@.len() == i,
                quadratic@.len() == i,
                cubic@.len() == i,
                h == t1.sub_spec(t0),
                h != S::zero_spec(),
                data.from == from@,
                data.to == to@,
                data.slope_from == linear@,
                data.slope_to == slope_to@,
                forall|j: int|
                    #![trigger base@[j]]
                    0 <= j < i ==> {
                        &&& base@[j] == from@[j]
                        &&& quadratic@[j] == quadratic_coefficient(
                            from@[j],
                            linear@[j],
                            to@[j],
                            slope_to@[j],
                            h,
                            two,
                            three,
                        )
                        &&& cubic@[j] == cubic_coefficient(from@[j], linear@[j], to@[j], slope_to@[j], h, two)
                    },
            decreases n - i,
        {
            let rise = to[i].sub(from[i]);
            let b = three.mul(rise).div(h).sub(two.mul(linear[i]).add(slope_to[i])).div(h);
            let c = linear[i].add(slope_to[i]).sub(two.mul(rise).div(h)).div(h).div(h);
            base.push(from[i]);
            quadratic.push(b);
            cubic.push(c);
            i += 1;
        }
        Ok(HermiteOutput { start: t0, end: t1, base, linear, quadratic, cubic, step: Ghost(data) })
    }
}

impl<S: Scalar> DenseOutput<S> for HermiteOutput<S> {
    open spec fn range_spec(&self) -> (S, S) {
        (self.step_spec().start, self.step_spec().end)
    }

    open spec fn evaluate_spec(&self, t: S) -> Seq<S> {
        let (two, three) = small_constants::<S>().unwrap();
        hermite_state(self.step_spec(), t, two, three)
    }

    fn evaluate(&self, t: S) -> (r: Result<Vec<S>, OdeError>) {
        proof {
            use_type_invariant(self);
        }
        if t.lt(self.start) || self.end.lt(t) {
            return Err(OdeError::OutsideValidRange);
        }
        let s = t.sub(self.start);
        let n = self.base.len();
        let ghost (two, three) = small_constants::<S>().unwrap();
        let mut state: Vec<S> = Vec::with_capacity(n);
        let mut i: usize = 0;
        while i < n
            invariant
                i <= n,
                n == self.base@.len(),
                self.well_formed(),
                small_constants::<S>() == Some((two, three)),
                s == t.sub_spec(self.start),
                state@.len() == i,
                forall|j: int| 0 <= j < i ==> #[trigger] state@[j] == hermite_state(self.step@, t, two, three)[j],
            decreases n - i,
        {
            assert(self.base@[i as int] == self.step@.from[i as int]);
            let inner = self.quadratic[i].add(s.mul(self.cubic[i]));
            let value = self.base[i].add(s.mul(self.linear[i].add(s.mul(inner))));
            state.push(value);
            i += 1;
        }
        assert(state@ =~= hermite_state(self.step@, t, two, three));
        Ok(state)
    }

    fn valid_range(&self) -> (r: (S, S)) {
        proof {
            use_type_invariant(self);
            if self.end.lt_spec(self.start) {
                S::lemma_lt_transitive(self.start, self.end, self.start);
                S::lemma_lt_irreflexive(self.start);
            }
        }
        (self.start, self.end)
    }
}

} // verus!
