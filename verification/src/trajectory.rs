//! What a recorded trajectory is, as mathematics: the sample times and
//! states of a fixed grid, the steps of an adaptive run, and the reference
//! that goes with either.

use crate::accuracy::state_error;
use crate::equation::DifferentialEquation;
use crate::integrator::Integrator;
use crate::scalar::Scalar;
use vstd::prelude::*;

verus! {

/// The `i`-th sample time of a grid of step `dt` that starts at zero: `dt`
/// added `i` times, one after the other.
pub open spec fn time_at<S: Scalar>(dt: S, i: nat) -> S
    decreases i,
{
    if i == 0 {
        S::zero_spec()
    } else {
        time_at(dt, (i - 1) as nat).add_spec(dt)
    }
}

/// The state that the method of `I` reaches after `i` steps of size `dt`
/// from `initial`.
pub open spec fn state_at<S: Scalar, I: Integrator<S>>(
    field: spec_fn(S, Seq<S>) -> Seq<S>,
    initial: Seq<S>,
    dt: S,
    i: nat,
) -> Seq<S>
    decreases i,
{
    if i == 0 {
        initial
    } else {
        I::step_spec(field, time_at(dt, (i - 1) as nat), state_at::<S, I>(field, initial, dt, (i - 1) as nat), dt)
    }
}

/// The sample times `0, dt, .., steps * dt`.
pub open spec fn time_grid<S: Scalar>(dt: S, steps: nat) -> Seq<S> {
    Seq::new(steps + 1, |i: int| time_at(dt, i as nat))
}

/// The states at the sample times of `time_grid`.
pub open spec fn state_grid<S: Scalar, I: Integrator<S>>(
    field: spec_fn(S, Seq<S>) -> Seq<S>,
    initial: Seq<S>,
    dt: S,
    steps: nat,
) -> Seq<Seq<S>> {
    Seq::new(steps + 1, |i: int| state_at::<S, I>(field, initial, dt, i as nat))
}

/// `steps` times the step size `dt`.
pub open spec fn uniform_steps<S: Scalar>(dt: S, steps: nat) -> Seq<S> {
    Seq::new(steps, |i: int| dt)
}

/// The closed-form solution at every one of `times`, or `None` where the
/// equation has none at one of them.
pub open spec fn reference_along<S: Scalar, E: DifferentialEquation<S>>(equation: &E, times: Seq<S>) -> Option<
    Seq<Seq<S>>,
> {
    if forall|i: int| 0 <= i < times.len() ==> (#[trigger] equation.exact_spec(times[i])) is Some {
        Some(Seq::new(times.len(), |i: int| equation.exact_spec(times[i]).unwrap()))
    } else {
        None
    }
}

/// A trajectory that starts from `initial` at time zero and goes on step by
/// step: each sample lies one step of the method of `I`, of the size
/// recorded for it, after the one before.
pub open spec fn follows_steps<S: Scalar, I: Integrator<S>>(
    field: spec_fn(S, Seq<S>) -> Seq<S>,
    initial: Seq<S>,
    times: Seq<S>,
    states: Seq<Seq<S>>,
    sizes: Seq<S>,
) -> bool {
    &&& times.len() == sizes.len() + 1
    &&& states.len() == sizes.len() + 1
    &&& times[0] == S::zero_spec()
    &&& states[0] == initial
    &&& forall|i: int|
        0 <= i < sizes.len() ==> {
            &&& times[i + 1] == times[i].add_spec(#[trigger] sizes[i])
            &&& states[i + 1] == I::step_spec(field, times[i], states[i], sizes[i])
        }
}

/// The error estimate of step doubling: the largest distance, over the
/// components, between one step of size `dt` and two steps of half the
/// size.
pub open spec fn doubling_estimate<S: Scalar, I: Integrator<S>>(
    field: spec_fn(S, Seq<S>) -> Seq<S>,
    t: S,
    state: Seq<S>,
    dt: S,
    half: S,
) -> S {
    let h = dt.mul_spec(half);
    let full = I::step_spec(field, t, state, dt);
    let fine = I::step_spec(field, t.add_spec(h), I::step_spec(field, t, state, h), h);
    state_error(full, fine, full.len())
}

proof fn lemma_time_at_increases<S: Scalar>(dt: S, steps: nat, i: nat, j: nat)
    requires
        forall|k: nat| k < steps ==> (#[trigger] time_at(dt, k)).lt_spec(time_at(dt, k + 1)),
        i < j <= steps,
    ensures
        time_at(dt, i).lt_spec(time_at(dt, j)),
    decreases j,
{
    let before = (j - 1) as nat;
    assert(time_at(dt, before).lt_spec(time_at(dt, before + 1)));
    if i < before {
        lemma_time_at_increases(dt, steps, i, before);
        S::lemma_lt_transitive(time_at(dt, i), time_at(dt, before), time_at(dt, j));
    }
}

/// The sample times of a grid start at zero and number one more than the
/// steps. Where every single step moves the time forward, that is where
/// adding the step size to a sample time gives a larger one, they are
/// strictly increasing.
pub proof fn lemma_times_strictly_increasing<S: Scalar>(dt: S, steps: nat)
    requires
        forall|k: nat| k < steps ==> (#[trigger] time_at(dt, k)).lt_spec(time_at(dt, k + 1)),
    ensures
        time_grid(dt, steps).len() == steps + 1,
        time_grid(dt, steps)[0] == S::zero_spec(),
        forall|i: int, j: int|
            0 <= i < j <= steps ==> (#[trigger] time_grid(dt, steps)[i]).lt_spec(#[trigger] time_grid(dt, steps)[j]),
{
    assert forall|i: int, j: int| 0 <= i < j <= steps implies (#[trigger] time_grid(dt, steps)[i]).lt_spec(
        #[trigger] time_grid(dt, steps)[j],
    ) by {
        lemma_time_at_increases(dt, steps, i as nat, j as nat);
    }
}

/// A fixed grid is a trajectory that goes on step by step, all its steps
/// of one size.
pub proof fn lemma_grid_follows_steps<S: Scalar, I: Integrator<S>>(
    field: spec_fn(S, Seq<S>) -> Seq<S>,
    initial: Seq<S>,
    dt: S,
    steps: nat,
)
    ensures
        follows_steps::<S, I>(
            field,
            initial,
            time_grid(dt, steps),
            state_grid::<S, I>(field, initial, dt, steps),
            uniform_steps(dt, steps),
        ),
{
    let times = time_grid(dt, steps);
    let states = state_grid::<S, I>(field, initial, dt, steps);
    let sizes = uniform_steps(dt, steps);
    assert forall|i: int| 0 <= i < sizes.len() implies {
        &&& times[i + 1] == times[i].add_spec(#[trigger] sizes[i])
        &&& states[i + 1] == I::step_spec(field, times[i], states[i], sizes[i])
    } by {
        assert(time_at(dt, (i + 1) as nat) == time_at(dt, i as nat).add_spec(dt));
        assert(state_at::<S, I>(field, initial, dt, (i + 1) as nat) == I::step_spec(
            field,
            time_at(dt, i as nat),
            state_at::<S, I>(field, initial, dt, i as nat),
            dt,
        ));
    }
}

/// Recording one more sample extends the reference by the closed-form
/// solution at its time; where that is missing, or the reference was, there
/// is none.
pub proof fn lemma_reference_along_push<S: Scalar, E: DifferentialEquation<S>>(equation: &E, times: Seq<S>, t: S)
    ensures
        reference_along(equation, times.push(t)) == (match (reference_along(equation, times), equation.exact_spec(t)) {
            (Some(reference), Some(point)) => Some(reference.push(point)),
            _ => None,
        }),
{
    let longer = times.push(t);
    assert(longer[times.len() as int] == t);
    assert forall|i: int| 0 <= i < times.len() implies longer[i] == times[i] by {}
    match (reference_along(equation, times), equation.exact_spec(t)) {
        (Some(reference), Some(point)) => {
            assert forall|i: int| 0 <= i < longer.len() implies (#[trigger] equation.exact_spec(longer[i])) is Some by {
                if i < times.len() {
                    assert(equation.exact_spec(times[i]) is Some);
                }
            }
            assert(reference_along(equation, longer).unwrap() =~= reference.push(point));
        },
        (None, _) => {
            let i = choose|i: int| 0 <= i < times.len() && !((#[trigger] equation.exact_spec(times[i])) is Some);
            assert(equation.exact_spec(longer[i]) is None);
        },
        (_, None) => {
            assert(equation.exact_spec(longer[times.len() as int]) is None);
        },
    }
}

} // verus!
