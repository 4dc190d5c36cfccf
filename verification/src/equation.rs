//! The contract of a system of first-order differential equations.

use crate::scalar::Scalar;
use vstd::prelude::*;

verus! {

/// A system `dy/dt = f(t, y)` of fixed dimension.
///
/// The right-hand side is a function of `(t, y)` alone: `evaluate_spec` names
/// it, and `evaluate` has to compute exactly that, so that a method which
/// evaluates it several times within one step sees one and the same function.
pub trait DifferentialEquation<S: Scalar> {
    /// The number of components of a state.
    spec fn dimension_spec(&self) -> nat;

    /// The time derivative of the state at `(t, state)`.
    spec fn evaluate_spec(&self, t: S, state: Seq<S>) -> Seq<S>;

    /// The closed-form solution at time `t`, where one is known.
    spec fn exact_spec(&self, t: S) -> Option<Seq<S>>;

    /// Writes the time derivative at `(t, state)` into `derivatives`.
    fn evaluate(&self, t: S, state: &Vec<S>, derivatives: &mut Vec<S>)
        requires
            state@.len() == self.dimension_spec(),
            old(derivatives)@.len() == self.dimension_spec(),
        ensures
            final(derivatives)@.len() == self.dimension_spec(),
            final(derivatives)@ == self.evaluate_spec(t, state@),
    ;

    fn dimension(&self) -> (n: usize)
        ensures
            n == self.dimension_spec(),
            n > 0,
    ;

    /// The closed-form solution at time `t`, or `None` where the equation
    /// has none to offer.
    fn exact_solution(&self, t: S) -> (r: Option<Vec<S>>)
        ensures
            match r {
                Some(v) => self.exact_spec(t) == Some(v@) && v@.len() == self.dimension_spec(),
                None => self.exact_spec(t) is None,
            },
    ;
}

/// The right-hand side of `equation` as a function of time and state.
pub open spec fn field_of<S: Scalar, E: DifferentialEquation<S>>(equation: &E) -> spec_fn(S, Seq<S>) -> Seq<S> {
    |t: S, state: Seq<S>| equation.evaluate_spec(t, state)
}

} // verus!
