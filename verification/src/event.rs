//! The contract of an event detector.

use crate::scalar::Scalar;
use vstd::prelude::*;

verus! {

/// A condition on time and state that is looked at after each accepted
/// step. Where it turns from false to true, the crossing is located by a
/// refinement that is the detector's own business, and offered as the event
/// time. No event is `None`, never a failure.
pub trait EventDetector<S: Scalar> {
    /// Whether the condition holds at `(t, state)`.
    spec fn detect_spec(&self, t: S, state: Seq<S>) -> bool;

    /// The time of the located crossing, where there is one.
    spec fn event_time_spec(&self) -> Option<S>;

    fn detect(&self, t: S, state: &Vec<S>) -> (r: bool)
        ensures
            r == self.detect_spec(t, state@),
    ;

    fn get_event_time(&self) -> (r: Option<S>)
        ensures
            r == self.event_time_spec(),
    ;
}

} // verus!
