//! The contract of a step strategy: one numerical method that carries a
//! state across one time interval.

use crate::equation::{field_of, DifferentialEquation};
use crate::error::OdeError;
use crate::scalar::Scalar;
use vstd::prelude::*;

verus! {

/// What `step` answers before it computes anything: the mismatch it reports,
/// if there is one. The equation is looked at first, then the state.
pub open spec fn dimension_fault(configured: nat, equation: nat, state: nat) -> Option<OdeError> {
    if equation != configured {
        Some(OdeError::DimensionMismatch { expected: configured as usize, found: equation as usize })
    } else if state != configured {
        Some(OdeError::DimensionMismatch { expected: configured as usize, found: state as usize })
    } else {
        None
    }
}

/// A numerical method for advancing a state by one step.
///
/// The method itself has no memory: `step_spec` names the new state as a
/// function of the equation's right-hand side, the time, the state and the
/// step size, and of nothing that an instance holds. What an instance holds
/// is its configured dimension and whatever scratch space it likes to reuse.
pub trait Integrator<S: Scalar> {
    /// What an instance keeps true of itself between calls.
    spec fn well_formed(&self) -> bool;

    /// The length of the states that this instance works on.
    spec fn dimension_spec(&self) -> nat;

    /// The state after one step of size `dt` from `state` at time `t`, for
    /// the equation whose right-hand side is `field`.
    spec fn step_spec(field: spec_fn(S, Seq<S>) -> Seq<S>, t: S, state: Seq<S>, dt: S) -> Seq<S>;

    /// Advances `state` from `t` to `t + dt`. Fails, before computing
    /// anything, where the equation or the state disagrees with the
    /// configured dimension.
    fn step<E: DifferentialEquation<S>>(&mut self, equation: &E, t: S, state: &Vec<S>, dt: S) -> (r: Result<
        Vec<S>,
        OdeError,
    >)
        requires
            old(self).well_formed(),
        ensures
            final(self).well_formed(),
            final(self).dimension_spec() == old(self).dimension_spec(),
            match r {
                Ok(next) => {
                    &&& dimension_fault(old(self).dimension_spec(), equation.dimension_spec(), state@.len()) is None
                    &&& next@.len() == state@.len()
                    &&& next@ == Self::step_spec(field_of(equation), t, state@, dt)
                },
                Err(e) => dimension_fault(old(self).dimension_spec(), equation.dimension_spec(), state@.len())
                    == Some(e),
            },
    ;
}

} // verus!
