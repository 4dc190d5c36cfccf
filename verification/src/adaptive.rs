//! An adaptive integration as a machine that makes one attempt at a time.
//!
//! The machine is what `ODESolver::integrate_adaptive` runs: its contract
//! says that the recorded trajectory, the controller and the result are
//! those of the machine where it has come to rest.

use crate::controller::{settle_spec, Attempt, StepSizeController};
use crate::error::OdeError;
use crate::integrator::Integrator;
use crate::scalar::Scalar;
use crate::trajectory::doubling_estimate;
use vstd::prelude::*;

verus! {

/// What an adaptive run is given and never changes.
#[verifier::reject_recursive_types(S)]
pub struct Setup<S> {
    /// The right-hand side of the equation.
    pub field: spec_fn(S, Seq<S>) -> Seq<S>,
    /// The disagreement on the dimension, if there is one.
    pub fault: Option<OdeError>,
    /// The time at which the run is over.
    pub end_time: S,
    /// One half, as the scalar type has it.
    pub half: S,
    /// The number of retries that a step is allowed.
    pub max_rejections: usize,
}

/// Where an adaptive run stands between two attempts.
pub struct Run<S, C> {
    pub controller: C,
    /// The size of the next attempt.
    pub dt: S,
    /// The retries spent on the current step.
    pub retries: usize,
    pub times: Seq<S>,
    pub states: Seq<Seq<S>>,
    pub sizes: Seq<S>,
    /// How the run has ended, once it has.
    pub outcome: Option<Result<(), OdeError>>,
}

/// A run before its first attempt: the seed point is recorded, and the
/// first step is going to be tried with the nominal step size.
pub open spec fn seed_run<S: Scalar, C>(controller: C, timestep: S, initial: Seq<S>) -> Run<S, C> {
    Run {
        controller,
        dt: timestep,
        retries: 0,
        times: seq![S::zero_spec()],
        states: seq![initial],
        sizes: Seq::empty(),
        outcome: None,
    }
}

/// `run` with its end recorded.
pub open spec fn ended<S, C>(run: Run<S, C>, outcome: Result<(), OdeError>) -> Run<S, C> {
    Run { outcome: Some(outcome), ..run }
}

/// One attempt. A run that has ended stays as it is. A run whose last
/// sample time is not below the end time ends well. Otherwise the run
/// fails where the trajectory is full or the dimensions disagree; else the
/// step is tried, the controller decides on its error estimate, and the
/// step is recorded, tried again with another size, or given up.
pub open spec fn attempt<S: Scalar, I: Integrator<S>, C: StepSizeController<S>>(
    setup: Setup<S>,
    run: Run<S, C>,
) -> Run<S, C> {
    let t = run.times.last();
    let state = run.states.last();
    if run.outcome is Some {
        run
    } else if !t.lt_spec(setup.end_time) {
        ended(run, Ok(()))
    } else if run.times.len() >= usize::MAX {
        ended(run, Err(OdeError::TrajectoryFull))
    } else if setup.fault is Some {
        ended(run, Err(setup.fault.unwrap()))
    } else {
        let estimate = doubling_estimate::<S, I>(setup.field, t, state, run.dt, setup.half);
        let decision = run.controller.decision_spec(estimate, run.dt);
        let controller = run.controller.after_spec(estimate, run.dt);
        match settle_spec(decision, run.retries, setup.max_rejections) {
            Attempt::Accepted { next_dt } => Run {
                controller,
                dt: next_dt,
                retries: 0,
                times: run.times.push(t.add_spec(run.dt)),
                states: run.states.push(I::step_spec(setup.field, t, state, run.dt)),
                sizes: run.sizes.push(run.dt),
                outcome: None,
            },
            Attempt::Retry { next_dt } => Run {
                controller,
                dt: next_dt,
                retries: (run.retries + 1) as usize,
                ..run
            },
            Attempt::GiveUp => Run {
                controller,
                outcome: Some(
                    Err(
                        OdeError::NonConvergence {
                            step: run.sizes.len() as usize,
                            retries: setup.max_rejections,
                        },
                    ),
                ),
                ..run
            },
        }
    }
}

/// Whether `run` has ended with `result`, and holds this controller and
/// this trajectory.
pub open spec fn ends_as<S, C>(
    run: Run<S, C>,
    result: Result<(), OdeError>,
    controller: C,
    times: Seq<S>,
    states: Seq<Seq<S>>,
    sizes: Seq<S>,
) -> bool {
    &&& run.outcome == Some(result)
    &&& run.controller == controller
    &&& run.times == times
    &&& run.states == states
    &&& run.sizes == sizes
}

/// The run after `attempts` attempts from `start`.
pub open spec fn run_after<S: Scalar, I: Integrator<S>, C: StepSizeController<S>>(
    setup: Setup<S>,
    start: Run<S, C>,
    attempts: nat,
) -> Run<S, C>
    decreases attempts,
{
    if attempts == 0 {
        start
    } else {
        attempt::<S, I, C>(setup, run_after::<S, I, C>(setup, start, (attempts - 1) as nat))
    }
}

/// A run that has ended stays as it is, however many attempts follow: the
/// end of a run does not depend on when one looks.
pub proof fn lemma_ended_run_stays<S: Scalar, I: Integrator<S>, C: StepSizeController<S>>(
    setup: Setup<S>,
    start: Run<S, C>,
    attempts: nat,
    later: nat,
)
    requires
        attempts <= later,
        run_after::<S, I, C>(setup, start, attempts).outcome is Some,
    ensures
        run_after::<S, I, C>(setup, start, later) == run_after::<S, I, C>(setup, start, attempts),
    decreases later,
{
    if attempts < later {
        lemma_ended_run_stays::<S, I, C>(setup, start, attempts, (later - 1) as nat);
    }
}

} // verus!
