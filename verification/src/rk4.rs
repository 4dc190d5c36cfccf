//! The classical explicit Runge-Kutta method of order four.

use crate::equation::{field_of, DifferentialEquation};
use crate::error::OdeError;
use crate::integrator::Integrator;
use crate::scalar::Scalar;
use crate::vector::{assign_shifted, assign_sum, scale_in_place, scaled, sum, zero_vector, zeros};
use vstd::prelude::*;

verus! {

/// The three constants of the method, each as the scalar type rounds it.
pub struct Weights<S: Scalar> {
    pub half: S,
    pub third: S,
    pub sixth: S,
}

/// The constants of the method, where the scalar type has all three.
pub open spec fn weights_spec<S: Scalar>() -> Option<Weights<S>> {
    match (S::ratio_spec(1, 2), S::ratio_spec(1, 3), S::ratio_spec(1, 6)) {
        (Some(half), Some(third), Some(sixth)) => Some(Weights { half, third, sixth }),
        _ => None,
    }
}

/// One stage: the slope at `(t, state)`, times the step size.
pub open spec fn stage<S: Scalar>(field: spec_fn(S, Seq<S>) -> Seq<S>, t: S, state: Seq<S>, dt: S) -> Seq<S> {
    scaled(field(t, state), dt)
}

/// `k1/6 + k2/3 + k3/3 + k4/6`, summed from the left.
pub open spec fn weighted_sum<S: Scalar>(k1: Seq<S>, k2: Seq<S>, k3: Seq<S>, k4: Seq<S>, w: Weights<S>) -> Seq<S> {
    Seq::new(
        k1.len(),
        |i: int|
            k1[i].mul_spec(w.sixth).add_spec(k2[i].mul_spec(w.third)).add_spec(k3[i].mul_spec(w.third)).add_spec(
                k4[i].mul_spec(w.sixth),
            ),
    )
}

/// The state after one step, written out stage by stage.
pub open spec fn rk4_step<S: Scalar>(
    field: spec_fn(S, Seq<S>) -> Seq<S>,
    t: S,
    state: Seq<S>,
    dt: S,
    w: Weights<S>,
) -> Seq<S> {
    let t_mid = t.add_spec(dt.mul_spec(w.half));
    let k1 = stage(field, t, state, dt);
    let k2 = stage(field, t_mid, sum(state, scaled(k1, w.half)), dt);
    let k3 = stage(field, t_mid, sum(state, scaled(k2, w.half)), dt);
    let k4 = stage(field, t.add_spec(dt), sum(state, k3), dt);
    sum(state, weighted_sum(k1, k2, k3, k4, w))
}

/// Where the right-hand side is zero everywhere, a step of any size from any
/// time leaves the state as it is.
pub proof fn lemma_zero_equation_step_is_identity<S: Scalar, E: DifferentialEquation<S>>(
    equation: &E,
    t: S,
    state: Seq<S>,
    dt: S,
)
    requires
        weights_spec::<S>() is Some,
        state.len() == equation.dimension_spec(),
        forall|u: S, y: Seq<S>|
            y.len() == equation.dimension_spec() ==> #[trigger] equation.evaluate_spec(u, y) == zeros::<S>(
                equation.dimension_spec(),
            ),
    ensures
        RK4_Method::<S>::step_spec(field_of(equation), t, state, dt) == state,
{
    let w = weights_spec::<S>().unwrap();
    let field = field_of(equation);
    let n = state.len();
    let zero = zeros::<S>(n);
    let t_mid = t.add_spec(dt.mul_spec(w.half));
    S::lemma_zero_mul(dt);
    S::lemma_zero_mul(w.half);
    S::lemma_zero_mul(w.third);
    S::lemma_zero_mul(w.sixth);
    S::lemma_add_zero(S::zero_spec());
    assert forall|i: int| 0 <= i < n implies #[trigger] state[i].add_spec(S::zero_spec()) == state[i] by {
        S::lemma_add_zero(state[i]);
    }
    assert(scaled(zero, dt) =~= zero);
    assert(scaled(zero, w.half) =~= zero);
    assert(sum(state, zero) =~= state);
    let k1 = stage(field, t, state, dt);
    assert(k1 == zero);
    let k2 = stage(field, t_mid, sum(state, scaled(k1, w.half)), dt);
    assert(k2 == zero);
    let k3 = stage(field, t_mid, sum(state, scaled(k2, w.half)), dt);
    assert(k3 == zero);
    let k4 = stage(field, t.add_spec(dt), sum(state, k3), dt);
    assert(k4 == zero);
    assert(weighted_sum(k1, k2, k3, k4, w) =~= zero);
}

/// The Runge-Kutta stepper, with the scratch space for its four stages.
#[allow(non_camel_case_types)]
pub struct RK4_Method<S: Scalar> {
    weights: Weights<S>,
    temp: Vec<S>,
    k1: Vec<S>,
    k2: Vec<S>,
    k3: Vec<S>,
    k4: Vec<S>,
}

impl<S: Scalar> RK4_Method<S> {
    /// The failure of `new(state_size)`, if it fails: a size of zero, else
    /// the first of 1/2, 1/3 and 1/6 that the scalar type does not have.
    pub open spec fn new_fault(state_size: usize) -> Option<OdeError> {
        if state_size == 0 {
            Some(OdeError::ZeroDimension)
        } else if S::ratio_spec(1, 2) is None {
            Some(OdeError::ConstantNotRepresentable { num: 1, den: 2 })
        } else if S::ratio_spec(1, 3) is None {
            Some(OdeError::ConstantNotRepresentable { num: 1, den: 3 })
        } else if S::ratio_spec(1, 6) is None {
            Some(OdeError::ConstantNotRepresentable { num: 1, den: 6 })
        } else {
            None
        }
    }

    /// A stepper for states of `state_size` components, its scratch space
    /// zeroed.
    pub fn new(state_size: usize) -> (r: Result<Self, OdeError>)
        ensures
            match r {
                Ok(m) => Self::new_fault(state_size) is None && m.well_formed() && m.dimension_spec()
                    == state_size,
                Err(e) => Self::new_fault(state_size) == Some(e),
            },
    {
        if state_size == 0 {
            return Err(OdeError::ZeroDimension);
        }
        let half = match S::from_ratio(1, 2) {
            Some(c) => c,
            None => {
                return Err(OdeError::ConstantNotRepresentable { num: 1, den: 2 });
            },
        };
        let third = match S::from_ratio(1, 3) {
            Some(c) => c,
            None => {
                return Err(OdeError::ConstantNotRepresentable { num: 1, den: 3 });
            },
        };
        let sixth = match S::from_ratio(1, 6) {
            Some(c) => c,
            None => {
                return Err(OdeError::ConstantNotRepresentable { num: 1, den: 6 });
            },
        };
        Ok(
            RK4_Method {
                weights: Weights { half, third, sixth },
                temp: zero_vector(state_size),
                k1: zero_vector(state_size),
                k2: zero_vector(state_size),
                k3: zero_vector(state_size),
                k4: zero_vector(state_size),
            },
        )
    }

    /// The number of components that this stepper was sized for.
    pub fn state_size(&self) -> (n: usize)
        requires
            self.well_formed(),
        ensures
            n == self.dimension_spec(),
            n > 0,
    {
        self.temp.len()
    }
}

impl<S: Scalar> Integrator<S> for RK4_Method<S> {
    /// The scratch buffers all have the configured length, which is not
    /// zero, and the constants are those of the scalar type.
    closed spec fn well_formed(&self) -> bool {
        &&& self.temp@.len() > 0
        &&& self.k1@.len() == self.temp@.len()
        &&& self.k2@.len() == self.temp@.len()
        &&& self.k3@.len() == self.temp@.len()
        &&& self.k4@.len() == self.temp@.len()
        &&& weights_spec::<S>() == Some(self.weights)
    }

    closed spec fn dimension_spec(&self) -> nat {
        self.temp@.len()
    }

    open spec fn step_spec(field: spec_fn(S, Seq<S>) -> Seq<S>, t: S, state: Seq<S>, dt: S) -> Seq<S> {
        rk4_step(field, t, state, dt, weights_spec::<S>().unwrap())
    }

    fn step<E: DifferentialEquation<S>>(&mut self, equation: &E, t: S, state: &Vec<S>, dt: S) -> (r: Result<
        Vec<S>,
        OdeError,
    >) {
        let n = self.temp.len();
        let found = equation.dimension();
        if found != n {
            return Err(OdeError::DimensionMismatch { expected: n, found });
        }
        if state.len() != n {
            return Err(OdeError::DimensionMismatch { expected: n, found: state.len() });
        }
        let w = Weights { half: self.weights.half, third: self.weights.third, sixth: self.weights.sixth };
        let t_mid = t.add(dt.mul(w.half));

        equation.evaluate(t, state, &mut self.k1);
        scale_in_place(&mut self.k1, dt);
        assign_shifted(&mut self.temp, state, &self.k1, w.half);

        equation.evaluate(t_mid, &self.temp, &mut self.k2);
        scale_in_place(&mut self.k2, dt);
        assign_shifted(&mut self.temp, state, &self.k2, w.half);

        equation.evaluate(t_mid, &self.temp, &mut self.k3);
        scale_in_place(&mut self.k3, dt);
        assign_sum(&mut self.temp, state, &self.k3);

        equation.evaluate(t.add(dt), &self.temp, &mut self.k4);
        scale_in_place(&mut self.k4, dt);

        let mut result: Vec<S> = Vec::with_capacity(n);
        let mut i: usize = 0;
        while i < n
            invariant
                i <= n,
                state@.len() == n,
                self.k1@.len() == n,
                self.k2@.len() == n,
                self.k3@.len() == n,
                self.k4@.len() == n,
                self.temp@.len() == n,
                result@.len() == i,
                forall|j: int|
                    0 <= j < i ==> result@[j] == #[trigger] sum(
                        state@,
                        weighted_sum(self.k1@, self.k2@, self.k3@, self.k4@, w),
                    )[j],
            decreases n - i,
        {
            let increment = self.k1[i].mul(w.sixth).add(self.k2[i].mul(w.third)).add(self.k3[i].mul(w.third)).add(
                self.k4[i].mul(w.sixth),
            );
            result.push(state[i].add(increment));
            i += 1;
        }
        assert(result@ =~= sum(state@, weighted_sum(self.k1@, self.k2@, self.k3@, self.k4@, w)));
        Ok(result)
    }
}

} // verus!
