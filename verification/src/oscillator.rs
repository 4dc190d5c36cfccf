//! The undamped harmonic oscillator `x'' = -omega^2 x`, as the first-order
//! system `x' = v`, `v' = -omega^2 x`.

use crate::equation::DifferentialEquation;
use crate::scalar::Scalar;
use vstd::prelude::*;

verus! {

pub struct HarmonicOscillator<S: Scalar> {
    pub omega: S,
}

impl<S: Scalar> HarmonicOscillator<S> {
    /// The oscillator of angular frequency `omega`.
    pub fn new(omega: S) -> (r: Self)
        ensures
            r.omega == omega,
    {
        Self { omega }
    }

    /// The solution through `x = 1`, `v = 0` at time zero: `x = cos(omega t)`,
    /// `v = -sin(omega t)`, where the scalar type has a cosine and a sine
    /// for the phase `omega t`.
    pub open spec fn closed_form(self, t: S) -> Option<Seq<S>> {
        let phase = self.omega.mul_spec(t);
        match (phase.cos_spec(), phase.sin_spec()) {
            (Some(x), Some(s)) => Some(seq![x, s.neg_spec()]),
            _ => None,
        }
    }
}

impl<S: Scalar> DifferentialEquation<S> for HarmonicOscillator<S> {
    open spec fn dimension_spec(&self) -> nat {
        2
    }

    open spec fn evaluate_spec(&self, t: S, state: Seq<S>) -> Seq<S> {
        seq![state[1], self.omega.neg_spec().mul_spec(self.omega).mul_spec(state[0])]
    }

    open spec fn exact_spec(&self, t: S) -> Option<Seq<S>> {
        self.closed_form(t)
    }

    fn evaluate(&self, t: S, state: &Vec<S>, derivatives: &mut Vec<S>) {
        derivatives[0] = state[1];
        derivatives[1] = self.omega.neg().mul(self.omega).mul(state[0]);
        assert(derivatives@ =~= self.evaluate_spec(t, state@));
    }

    fn dimension(&self) -> (n: usize) {
        2
    }

    fn exact_solution(&self, t: S) -> (r: Option<Vec<S>>) {
        let phase = self.omega.mul(t);
        let x = match phase.cos() {
            Some(x) => x,
            None => {
                return None;
            },
        };
        let s = match phase.sin() {
            Some(s) => s,
            None => {
                return None;
            },
        };
        let mut exact: Vec<S> = Vec::with_capacity(2);
        exact.push(x);
        exact.push(s.neg());
        assert(exact@ =~= seq![x, s.neg_spec()]);
        Some(exact)
    }
}

} // verus!
