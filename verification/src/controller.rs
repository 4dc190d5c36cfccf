//! The contract of a step-size controller, and the bookkeeping of an
//! adaptive integration that rests on it.

use crate::scalar::{le_spec, lemma_le_transitive, lemma_max_is_upper_bound, max_spec, Scalar};
use vstd::prelude::*;

verus! {

/// A policy that, after each attempted step, picks the next step size and
/// says whether the attempt stands.
///
/// The scaling is bounded on both sides: the next step size is above zero,
/// and it is not above the larger of the current one and
/// `growth_limit_spec` times the current one. An implementation documents
/// its policy; a typical one accepts a step whose error estimate is within a
/// tolerance and enlarges the step, and rejects one whose estimate is not
/// and shrinks it.
pub trait StepSizeController<S: Scalar>: Sized {
    /// What an instance keeps true of itself between calls.
    spec fn well_formed(&self) -> bool;

    /// The instance after it has decided on an attempt.
    spec fn after_spec(&self, error_estimate: S, current_dt: S) -> Self;

    /// The largest factor by which one decision enlarges the step size.
    spec fn growth_limit_spec(&self) -> S;

    /// The decision on an attempt, as the instance stands: the next step
    /// size, and whether the attempt is accepted.
    spec fn decision_spec(&self, error_estimate: S, current_dt: S) -> (S, bool);

    fn adjust_step(&mut self, error_estimate: S, current_dt: S) -> (r: (S, bool))
        requires
            old(self).well_formed(),
            S::zero_spec().lt_spec(current_dt),
        ensures
            final(self).well_formed(),
            final(self).growth_limit_spec() == old(self).growth_limit_spec(),
            *final(self) == old(self).after_spec(error_estimate, current_dt),
            r == old(self).decision_spec(error_estimate, current_dt),
            S::zero_spec().lt_spec(r.0),
            le_spec(r.0, max_spec(old(self).growth_limit_spec().mul_spec(current_dt), current_dt)),
    ;
}

/// The controller that holds the error estimate against one tolerance.
///
/// A step whose estimate is not above `tolerance` is accepted, and the next
/// one is tried with `growth` times its size. Any other step is rejected,
/// and tried again with `shrink` times its size. Where the scaled size is
/// not above zero, or is above `growth` times the current one, the step size
/// stays as it is.
pub struct ToleranceController<S: Scalar> {
    pub tolerance: S,
    pub growth: S,
    pub shrink: S,
}

impl<S: Scalar> ToleranceController<S> {
    pub fn new(tolerance: S, growth: S, shrink: S) -> (r: Self)
        ensures
            r.tolerance == tolerance,
            r.growth == growth,
            r.shrink == shrink,
    {
        ToleranceController { tolerance, growth, shrink }
    }

    /// Whether a step with this error estimate is accepted.
    pub open spec fn accepts(&self, error_estimate: S) -> bool {
        !self.tolerance.lt_spec(error_estimate)
    }

    /// The step size after a step of size `current_dt` with this error
    /// estimate.
    pub open spec fn next_size(&self, error_estimate: S, current_dt: S) -> S {
        let limit = self.growth.mul_spec(current_dt);
        let scaled = if self.accepts(error_estimate) {
            limit
        } else {
            self.shrink.mul_spec(current_dt)
        };
        if S::zero_spec().lt_spec(scaled) && !limit.lt_spec(scaled) {
            scaled
        } else {
            current_dt
        }
    }
}

impl<S: Scalar> StepSizeController<S> for ToleranceController<S> {
    open spec fn well_formed(&self) -> bool {
        true
    }

    open spec fn after_spec(&self, error_estimate: S, current_dt: S) -> Self {
        *self
    }

    open spec fn growth_limit_spec(&self) -> S {
        self.growth
    }

    open spec fn decision_spec(&self, error_estimate: S, current_dt: S) -> (S, bool) {
        (self.next_size(error_estimate, current_dt), self.accepts(error_estimate))
    }

    fn adjust_step(&mut self, error_estimate: S, current_dt: S) -> (r: (S, bool)) {
        let accepted = !self.tolerance.lt(error_estimate);
        let limit = self.growth.mul(current_dt);
        let scaled = if accepted {
            limit
        } else {
            self.shrink.mul(current_dt)
        };
        let usable = S::zero().lt(scaled) && !limit.lt(scaled);
        let next = if usable {
            scaled
        } else {
            current_dt
        };
        proof {
            lemma_max_is_upper_bound(limit, current_dt);
            if usable {
                lemma_le_transitive(next, limit, max_spec(limit, current_dt));
            }
        }
        (next, accepted)
    }
}

/// What follows from one decision of a controller.
#[derive(Debug, PartialEq, Eq)]
pub enum Attempt<S> {
    /// The step stands; the next one starts with `next_dt`.
    Accepted { next_dt: S },
    /// The step is discarded and tried again with `next_dt`.
    Retry { next_dt: S },
    /// The step is discarded and the retries are used up.
    GiveUp,
}

/// What follows from `decision` after `retries` retries of the current
/// step, where `max_rejections` rejections in a row are put up with.
pub open spec fn settle_spec<S>(decision: (S, bool), retries: usize, max_rejections: usize) -> Attempt<S> {
    if decision.1 {
        Attempt::Accepted { next_dt: decision.0 }
    } else if retries >= max_rejections {
        Attempt::GiveUp
    } else {
        Attempt::Retry { next_dt: decision.0 }
    }
}

/// Turns the decision of a controller into what the driving loop does next.
/// An acceptance always stands. A rejection is retried as long as fewer than
/// `max_rejections` retries have been spent on the step; the rejection after
/// that is final.
pub fn settle<S: Scalar>(decision: (S, bool), retries: usize, max_rejections: usize) -> (r: Attempt<S>)
    ensures
        r == settle_spec(decision, retries, max_rejections),
{
    if decision.1 {
        Attempt::Accepted { next_dt: decision.0 }
    } else if retries >= max_rejections {
        Attempt::GiveUp
    } else {
        Attempt::Retry { next_dt: decision.0 }
    }
}

} // verus!
