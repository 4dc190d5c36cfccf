//! The driving loop: it owns a step strategy, walks it over a fixed grid and
//! records the trajectory, together with the closed-form solution where the
//! equation has one.

use crate::accuracy::{compute_max_absolute_error, max_absolute_error, state_max_error};
use crate::adaptive::{attempt, ends_as, run_after, seed_run, Run, Setup};
use crate::controller::{settle, Attempt, StepSizeController};
use crate::equation::{field_of, DifferentialEquation};
use crate::error::OdeError;
use crate::integrator::{dimension_fault, Integrator};
use crate::scalar::{abs_diff, abs_diff_spec, Scalar};
use crate::trajectory::{
    doubling_estimate, follows_steps, lemma_grid_follows_steps, lemma_reference_along_push, reference_along,
    state_at, state_grid, time_at, time_grid, uniform_steps,
};
use crate::vector::{advisory_capacity, copy_of, rows};
use vstd::prelude::*;

verus! {

/// The view of a reference trajectory.
pub open spec fn reference_view<S>(reference: Option<Vec<Vec<S>>>) -> Option<Seq<Seq<S>>> {
    match reference {
        Some(v) => Some(rows(v@)),
        None => None,
    }
}

/// The number of whole steps of size `timestep` in `end_time`.
pub open spec fn step_count<S: Scalar>(timestep: S, end_time: S) -> Option<usize> {
    end_time.div_spec(timestep).floor_spec()
}

/// Why a solver cannot be set up with this step size and duration, if it
/// cannot.
pub open spec fn configuration_fault<S: Scalar>(timestep: S, end_time: S) -> Option<OdeError> {
    if !S::zero_spec().lt_spec(timestep) {
        Some(OdeError::NonPositiveStep)
    } else if !S::zero_spec().lt_spec(end_time) {
        Some(OdeError::NonPositiveDuration)
    } else {
        match step_count(timestep, end_time) {
            Some(n) if n < usize::MAX => None,
            _ => Some(OdeError::StepCountOutOfRange),
        }
    }
}

/// The number of steps that `integrate` records: all of them, or none where
/// the first one already fails.
pub open spec fn recorded_steps(num_steps: usize, fault: Option<OdeError>) -> nat {
    if fault is Some {
        0
    } else {
        num_steps as nat
    }
}

/// Appends `point` to a reference trajectory. A point without a closed-form
/// solution leaves no reference at all, and none stays none.
fn extend_reference<S>(reference: Option<Vec<Vec<S>>>, point: Option<Vec<S>>) -> (r: Option<Vec<Vec<S>>>)
    ensures
        match (reference, point) {
            (Some(v), Some(p)) => r is Some && r.unwrap()@ == v@.push(p),
            _ => r is None,
        },
{
    match reference {
        Some(mut v) => match point {
            Some(p) => {
                v.push(p);
                Some(v)
            },
            None => None,
        },
        None => None,
    }
}

/// One attempt at a step: the state after a step of size `dt`, and the
/// step-doubling estimate of its error, for which two steps of half the
/// size are taken from the same start. The dimensions are checked as `step`
/// checks them.
pub fn tentative_step<S: Scalar, I: Integrator<S>, E: DifferentialEquation<S>>(
    integrator: &mut I,
    equation: &E,
    t: S,
    state: &Vec<S>,
    dt: S,
    half: S,
) -> (r: Result<(Vec<S>, S), OdeError>)
    requires
        old(integrator).well_formed(),
    ensures
        final(integrator).well_formed(),
        final(integrator).dimension_spec() == old(integrator).dimension_spec(),
        match r {
            Ok((next, estimate)) => {
                &&& dimension_fault(old(integrator).dimension_spec(), equation.dimension_spec(), state@.len()) is None
                &&& next@.len() == state@.len()
                &&& next@ == I::step_spec(field_of(equation), t, state@, dt)
                &&& estimate == doubling_estimate::<S, I>(field_of(equation), t, state@, dt, half)
            },
            Err(e) => dimension_fault(old(integrator).dimension_spec(), equation.dimension_spec(), state@.len())
                == Some(e),
        },
{
    let full = match integrator.step(equation, t, state, dt) {
        Ok(full) => full,
        Err(e) => {
            return Err(e);
        },
    };
    let h = dt.mul(half);
    let middle = match integrator.step(equation, t, state, h) {
        Ok(middle) => middle,
        Err(e) => {
            return Err(e);
        },
    };
    let fine = match integrator.step(equation, t.add(h), &middle, h) {
        Ok(fine) => fine,
        Err(e) => {
            return Err(e);
        },
    };
    let estimate = state_max_error(&full, &fine);
    Ok((full, estimate))
}

/// One line of the listing of a trajectory.
pub struct Sample<S> {
    pub time: S,
    /// The first component of the computed state.
    pub numerical: S,
    /// The first component of the closed-form solution, where there is one.
    pub exact: Option<S>,
    /// The distance between the two, where there are two.
    pub error: Option<S>,
}

/// The figures that a caller prints after an integration.
pub struct Report<S> {
    pub samples: Vec<Sample<S>>,
    pub max_error: Option<S>,
}

pub struct ODESolver<S: Scalar, I: Integrator<S>> {
    timestep: S,
    end_time: S,
    num_steps: usize,
    initial_state: Vec<S>,
    integrator: I,
    times: Vec<S>,
    positions: Vec<Vec<S>>,
    step_sizes: Vec<S>,
    exact_positions: Option<Vec<Vec<S>>>,
}

impl<S: Scalar, I: Integrator<S>> ODESolver<S, I> {
    /// The step strategy is in order, step size and duration are above
    /// zero, the step count leaves room for the seed point, and the
    /// trajectory is index-aligned: one state of the initial state's length
    /// per sample time, and as many reference states where there are any.
    pub closed spec fn well_formed(&self) -> bool {
        &&& self.integrator.well_formed()
        &&& self.num_steps < usize::MAX
        &&& S::zero_spec().lt_spec(self.timestep)
        &&& S::zero_spec().lt_spec(self.end_time)
        &&& self.times@.len() == self.positions@.len()
        &&& forall|i: int|
            0 <= i < self.positions@.len() ==> (#[trigger] self.positions@[i])@.len() == self.initial_state@.len()
        &&& match self.exact_positions {
            Some(reference) => reference@.len() == self.times@.len(),
            None => true,
        }
    }

    /// How many samples `get_numerical_values` lists: the first five, or
    /// all where there are fewer, or none where states have no component.
    pub open spec fn listed_samples(&self) -> nat {
        if self.initial_state_spec().len() == 0 {
            0
        } else if self.times_spec().len() < 5 {
            self.times_spec().len()
        } else {
            5
        }
    }

    /// The `i`-th entry of the listing: the sample time, the first component
    /// of the state, and where there is a reference for it, that and the
    /// distance between the two.
    pub open spec fn sample_spec(&self, i: int) -> Sample<S> {
        let numerical = self.states_spec()[i][0];
        let exact = match self.reference_spec() {
            Some(reference) if reference[i].len() > 0 => Some(reference[i][0]),
            _ => None,
        };
        Sample {
            time: self.times_spec()[i],
            numerical,
            exact,
            error: match exact {
                Some(e) => Some(abs_diff_spec(numerical, e)),
                None => None,
            },
        }
    }

    /// The largest deviation of the first component from the reference,
    /// where there is a reference that the trajectory can be held against.
    pub open spec fn max_error_spec(&self) -> Option<S> {
        match self.reference_spec() {
            Some(reference) => match max_absolute_error(self.states_spec(), reference, Some(0usize)) {
                Ok(e) => Some(e),
                Err(_) => None,
            },
            None => None,
        }
    }

    pub closed spec fn timestep_spec(&self) -> S {
        self.timestep
    }

    pub closed spec fn end_time_spec(&self) -> S {
        self.end_time
    }

    pub closed spec fn num_steps_spec(&self) -> usize {
        self.num_steps
    }

    pub closed spec fn initial_state_spec(&self) -> Seq<S> {
        self.initial_state@
    }

    /// The configured dimension of the step strategy.
    pub closed spec fn dimension_spec(&self) -> nat {
        self.integrator.dimension_spec()
    }

    /// The recorded sample times.
    pub closed spec fn times_spec(&self) -> Seq<S> {
        self.times@
    }

    /// The recorded states, one per sample time.
    pub closed spec fn states_spec(&self) -> Seq<Seq<S>> {
        rows(self.positions@)
    }

    /// The sizes of the recorded steps: the `i`-th led from sample `i` to
    /// sample `i + 1`.
    pub closed spec fn step_sizes_spec(&self) -> Seq<S> {
        self.step_sizes@
    }

    /// The recorded closed-form solution, one state per sample time, where
    /// there is one.
    pub closed spec fn reference_spec(&self) -> Option<Seq<Seq<S>>> {
        reference_view(self.exact_positions)
    }

    /// The step size, the duration, the step count, the initial state and
    /// the dimension of the strategy are those of `other`.
    pub open spec fn same_setup(&self, other: &Self) -> bool {
        &&& self.timestep_spec() == other.timestep_spec()
        &&& self.end_time_spec() == other.end_time_spec()
        &&& self.num_steps_spec() == other.num_steps_spec()
        &&& self.initial_state_spec() == other.initial_state_spec()
        &&& self.dimension_spec() == other.dimension_spec()
    }

    /// The recorded trajectory is that of `other`.
    pub open spec fn same_trajectory(&self, other: &Self) -> bool {
        &&& self.times_spec() == other.times_spec()
        &&& self.states_spec() == other.states_spec()
        &&& self.step_sizes_spec() == other.step_sizes_spec()
        &&& self.reference_spec() == other.reference_spec()
    }

    /// A solver that takes steps of size `timestep` until `end_time`, from
    /// `initial_state` at time zero. Both the step size and the duration
    /// have to be above zero, and the number of whole steps in the duration
    /// has to fit. That number is how many steps a fixed grid has; for an
    /// adaptive run it only says how much room to make for the trajectory.
    /// The trajectory is empty until an integration is run.
    pub fn new(timestep: S, end_time: S, initial_state: Vec<S>, integrator: I) -> (r: Result<Self, OdeError>)
        requires
            integrator.well_formed(),
        ensures
            match r {
                Ok(solver) => {
                    &&& configuration_fault(timestep, end_time) is None
                    &&& solver.well_formed()
                    &&& solver.timestep_spec() == timestep
                    &&& solver.end_time_spec() == end_time
                    &&& Some(solver.num_steps_spec()) == step_count(timestep, end_time)
                    &&& solver.initial_state_spec() == initial_state@
                    &&& solver.dimension_spec() == integrator.dimension_spec()
                    &&& solver.times_spec() == Seq::<S>::empty()
                    &&& solver.states_spec() == Seq::<Seq<S>>::empty()
                    &&& solver.step_sizes_spec() == Seq::<S>::empty()
                    &&& solver.reference_spec() is None
                },
                Err(e) => configuration_fault(timestep, end_time) == Some(e),
            },
    {
        let zero = S::zero();
        if !zero.lt(timestep) {
            return Err(OdeError::NonPositiveStep);
        }
        if !zero.lt(end_time) {
            return Err(OdeError::NonPositiveDuration);
        }
        proof {
            S::lemma_lt_irreflexive(zero);
        }
        let num_steps = match end_time.div(timestep).floor_to_usize() {
            Some(n) => n,
            None => {
                return Err(OdeError::StepCountOutOfRange);
            },
        };
        if num_steps == usize::MAX {
            return Err(OdeError::StepCountOutOfRange);
        }
        let solver = ODESolver {
            timestep,
            end_time,
            num_steps,
            initial_state,
            integrator,
            times: Vec::new(),
            positions: Vec::new(),
            step_sizes: Vec::new(),
            exact_positions: None,
        };
        assert(solver.states_spec() =~= Seq::<Seq<S>>::empty());
        Ok(solver)
    }

    /// Puts a trajectory in place of the recorded one.
    fn record(
        &mut self,
        times: Vec<S>,
        positions: Vec<Vec<S>>,
        step_sizes: Vec<S>,
        exact_positions: Option<Vec<Vec<S>>>,
    )
        requires
            old(self).well_formed(),
            times@.len() == positions@.len(),
            forall|i: int|
                0 <= i < positions@.len() ==> (#[trigger] positions@[i])@.len() == old(
                    self,
                ).initial_state_spec().len(),
            exact_positions is Some ==> exact_positions.unwrap()@.len() == times@.len(),
        ensures
            final(self).well_formed(),
            final(self).same_setup(old(self)),
            final(self).times_spec() == times@,
            final(self).states_spec() == rows(positions@),
            final(self).step_sizes_spec() == step_sizes@,
            final(self).reference_spec() == reference_view(exact_positions),
    {
        self.times = times;
        self.positions = positions;
        self.step_sizes = step_sizes;
        self.exact_positions = exact_positions;
    }

    /// Integrates `equation` over the grid. The trajectory is started
    /// afresh with the initial state at time zero; then, `num_steps` times,
    /// the strategy takes one step and the new point is recorded. The
    /// closed-form solution is recorded alongside where the equation has one
    /// at every sample time.
    ///
    /// The only failure is a disagreement on the dimension between the
    /// strategy, the equation and the initial state. It shows at the first
    /// step, and leaves the seed point in the trajectory.
    pub fn integrate<E: DifferentialEquation<S>>(&mut self, equation: &E) -> (r: Result<(), OdeError>)
        requires
            old(self).well_formed(),
        ensures
            final(self).well_formed(),
            final(self).same_setup(old(self)),
            ({
                let fault = dimension_fault(
                    old(self).dimension_spec(),
                    equation.dimension_spec(),
                    old(self).initial_state_spec().len(),
                );
                let steps = recorded_steps(old(self).num_steps_spec(), fault);
                let dt = old(self).timestep_spec();
                &&& r == (if old(self).num_steps_spec() > 0 && fault is Some {
                    Err::<(), OdeError>(fault.unwrap())
                } else {
                    Ok(())
                })
                &&& final(self).times_spec() == time_grid(dt, steps)
                &&& final(self).states_spec() == state_grid::<S, I>(
                    field_of(equation),
                    old(self).initial_state_spec(),
                    dt,
                    steps,
                )
                &&& final(self).step_sizes_spec() == uniform_steps(dt, steps)
                &&& final(self).reference_spec() == reference_along(equation, time_grid(dt, steps))
            }),
            follows_steps::<S, I>(
                field_of(equation),
                old(self).initial_state_spec(),
                final(self).times_spec(),
                final(self).states_spec(),
                final(self).step_sizes_spec(),
            ),
    {
        let dt = self.timestep;
        let n = self.num_steps;
        let ghost initial = self.initial_state@;
        let ghost field = field_of(equation);
        let ghost dimension = self.integrator.dimension_spec();
        let ghost fault = dimension_fault(dimension, equation.dimension_spec(), initial.len());
        proof {
            lemma_grid_follows_steps::<S, I>(field, initial, dt, recorded_steps(n, fault));
        }

        let mut t = S::zero();
        let mut state = copy_of(&self.initial_state);
        let room = advisory_capacity(n + 1);
        let mut times: Vec<S> = Vec::with_capacity(room);
        let mut positions: Vec<Vec<S>> = Vec::with_capacity(room);
        let mut sizes: Vec<S> = Vec::with_capacity(room);
        times.push(t);
        positions.push(copy_of(&state));
        let mut exact: Option<Vec<Vec<S>>> = extend_reference(
            Some(Vec::with_capacity(room)),
            equation.exact_solution(t),
        );
        proof {
            assert(times@ =~= time_grid(dt, 0));
            assert(times@ =~= Seq::<S>::empty().push(t));
            assert(rows(positions@) =~= state_grid::<S, I>(field, initial, dt, 0));
            assert(sizes@ =~= uniform_steps(dt, 0));
            lemma_reference_along_push(equation, Seq::<S>::empty(), t);
            assert(reference_along(equation, Seq::<S>::empty()) == Some(Seq::<Seq<S>>::empty()));
            if exact is Some {
                assert(rows(exact.unwrap()@) =~= Seq::<Seq<S>>::empty().push(equation.exact_spec(t).unwrap()));
            }
        }

        let mut i: usize = 0;
        while i < n
            invariant
                i <= n,
                n < usize::MAX,
                self.well_formed(),
                self.same_setup(old(self)),
                self.integrator.dimension_spec() == dimension,
                dt == old(self).timestep_spec(),
                n == old(self).num_steps_spec(),
                initial == old(self).initial_state_spec(),
                dimension == old(self).dimension_spec(),
                field == field_of(equation),
                fault == dimension_fault(dimension, equation.dimension_spec(), initial.len()),
                i > 0 ==> fault is None,
                t == time_at(dt, i as nat),
                state@ == state_at::<S, I>(field, initial, dt, i as nat),
                state@.len() == initial.len(),
                times@ == time_grid(dt, i as nat),
                rows(positions@) == state_grid::<S, I>(field, initial, dt, i as nat),
                sizes@ == uniform_steps(dt, i as nat),
                positions@.len() == i + 1,
                times@.len() == i + 1,
                forall|j: int| 0 <= j <= i ==> (#[trigger] positions@[j])@.len() == initial.len(),
                reference_view(exact) == reference_along(equation, times@),
                exact is Some ==> exact.unwrap()@.len() == i + 1,
            decreases n - i,
        {
            match self.integrator.step(equation, t, &state, dt) {
                Ok(next) => {
                    state = next;
                },
                Err(e) => {
                    self.record(times, positions, sizes, exact);
                    return Err(e);
                },
            }
            t = t.add(dt);
            let ghost recorded = positions@;
            let ghost sampled = times@;
            let ghost before = exact;
            times.push(t);
            positions.push(copy_of(&state));
            sizes.push(dt);
            exact = extend_reference(exact, equation.exact_solution(t));
            proof {
                let m = (i + 1) as nat;
                assert(times@ =~= time_grid(dt, m));
                assert forall|j: int| 0 <= j <= m implies #[trigger] rows(positions@)[j] == state_at::<S, I>(
                    field,
                    initial,
                    dt,
                    j as nat,
                ) by {
                    if j < m {
                        assert(rows(recorded)[j] == state_grid::<S, I>(field, initial, dt, i as nat)[j]);
                    }
                }
                assert(rows(positions@) =~= state_grid::<S, I>(field, initial, dt, m));
                assert(sizes@ =~= uniform_steps(dt, m));
                lemma_reference_along_push(equation, sampled, t);
                if exact is Some {
                    assert(rows(exact.unwrap()@) =~= rows(before.unwrap()@).push(equation.exact_spec(t).unwrap()));
                }
            }
            i += 1;
        }
        self.record(times, positions, sizes, exact);
        Ok(())
    }

    /// Integrates `equation` with a step size that `controller` adapts.
    ///
    /// The trajectory is started afresh with the initial state at time
    /// zero, and the first step is tried with the nominal step size. Each
    /// attempt is one step of the strategy together with its step-doubling
    /// error estimate; the controller sees the estimate and the step size,
    /// and `settle` says what follows from its answer. An accepted step is
    /// recorded and the next one starts with the size that the controller
    /// suggested. A rejected step is discarded: neither the time nor the
    /// trajectory moves, and the step is tried again with the size that the
    /// controller suggested. The run ends when a sample time is no longer
    /// below the end time.
    ///
    /// The run fails where the scalar type has no one half, where the
    /// dimensions disagree (which shows at the first attempt), where a step
    /// is rejected after `max_rejections` retries, and where the trajectory
    /// cannot hold another sample. Whatever was recorded until then stays.
    ///
    /// In the contract this is the machine of `adaptive`: the result, the
    /// controller and the trajectory are those of the run that has ended,
    /// after as many attempts as it took.
    pub fn integrate_adaptive<E: DifferentialEquation<S>, C: StepSizeController<S>>(
        &mut self,
        equation: &E,
        controller: &mut C,
        max_rejections: usize,
    ) -> (r: Result<(), OdeError>)
        requires
            old(self).well_formed(),
            old(controller).well_formed(),
        ensures
            final(self).well_formed(),
            final(self).same_setup(old(self)),
            final(controller).well_formed(),
            final(controller).growth_limit_spec() == old(controller).growth_limit_spec(),
            match S::ratio_spec(1, 2) {
                None => {
                    &&& r == Err::<(), OdeError>(OdeError::ConstantNotRepresentable { num: 1, den: 2 })
                    &&& final(self).same_trajectory(old(self))
                },
                Some(half) => {
                    let fault = dimension_fault(
                        old(self).dimension_spec(),
                        equation.dimension_spec(),
                        old(self).initial_state_spec().len(),
                    );
                    let times = final(self).times_spec();
                    let sizes = final(self).step_sizes_spec();
                    let end_time = old(self).end_time_spec();
                    let setup = Setup { field: field_of(equation), fault, end_time, half, max_rejections };
                    let start = seed_run(
                        *old(controller),
                        old(self).timestep_spec(),
                        old(self).initial_state_spec(),
                    );
                    &&& exists|attempts: nat|
                        ends_as(
                            #[trigger] run_after::<S, I, C>(setup, start, attempts),
                            r,
                            *final(controller),
                            times,
                            final(self).states_spec(),
                            sizes,
                        )
                    &&& follows_steps::<S, I>(
                        field_of(equation),
                        old(self).initial_state_spec(),
                        times,
                        final(self).states_spec(),
                        sizes,
                    )
                    &&& forall|i: int| 0 <= i < sizes.len() ==> S::zero_spec().lt_spec(#[trigger] sizes[i])
                    &&& forall|i: int| 0 <= i < sizes.len() ==> (#[trigger] times[i]).lt_spec(end_time)
                    &&& final(self).reference_spec() == reference_along(equation, times)
                    &&& match r {
                        Ok(_) => fault is None && !times.last().lt_spec(end_time),
                        Err(e) => if fault is Some {
                            e == fault.unwrap() && sizes.len() == 0
                        } else {
                            ||| e == (OdeError::NonConvergence { step: sizes.len() as usize, retries: max_rejections })
                            ||| e == OdeError::TrajectoryFull && times.len() == usize::MAX
                        },
                    }
                },
            },
    {
        let half = match S::from_ratio(1, 2) {
            Some(half) => half,
            None => {
                return Err(OdeError::ConstantNotRepresentable { num: 1, den: 2 });
            },
        };
        let end_time = self.end_time;
        let ghost initial = self.initial_state@;
        let ghost field = field_of(equation);
        let ghost dimension = self.integrator.dimension_spec();
        let ghost fault = dimension_fault(dimension, equation.dimension_spec(), initial.len());
        let ghost limit = controller.growth_limit_spec();
        let ghost setup = Setup { field, fault, end_time, half, max_rejections };
        let ghost start = seed_run(*controller, self.timestep, initial);
        let ghost mut attempts: nat = 0;

        let mut t = S::zero();
        let mut dt = self.timestep;
        let mut retries: usize = 0;
        let mut state = copy_of(&self.initial_state);
        let room = advisory_capacity(self.num_steps + 1);
        let mut times: Vec<S> = Vec::with_capacity(room);
        let mut positions: Vec<Vec<S>> = Vec::with_capacity(room);
        let mut sizes: Vec<S> = Vec::with_capacity(room);
        times.push(t);
        positions.push(copy_of(&state));
        let mut exact: Option<Vec<Vec<S>>> = extend_reference(
            Some(Vec::with_capacity(room)),
            equation.exact_solution(t),
        );
        proof {
            assert(times@ =~= Seq::<S>::empty().push(t));
            lemma_reference_along_push(equation, Seq::<S>::empty(), t);
            assert(reference_along(equation, Seq::<S>::empty()) == Some(Seq::<Seq<S>>::empty()));
            if exact is Some {
                assert(rows(exact.unwrap()@) =~= Seq::<Seq<S>>::empty().push(equation.exact_spec(t).unwrap()));
            }
            assert(times@ =~= start.times);
            assert(rows(positions@) =~= start.states);
            assert(sizes@ =~= start.sizes);
        }

        while t.lt(end_time)
            invariant
                self.well_formed(),
                setup == (Setup { field, fault, end_time, half, max_rejections }),
                start == seed_run(*old(controller), old(self).timestep_spec(), initial),
                run_after::<S, I, C>(setup, start, attempts) == (Run {
                    controller: *controller,
                    dt,
                    retries,
                    times: times@,
                    states: rows(positions@),
                    sizes: sizes@,
                    outcome: None,
                }),
                self.same_setup(old(self)),
                self.integrator.dimension_spec() == dimension,
                controller.well_formed(),
                controller.growth_limit_spec() == limit,
                limit == old(controller).growth_limit_spec(),
                end_time == old(self).end_time_spec(),
                initial == old(self).initial_state_spec(),
                dimension == old(self).dimension_spec(),
                field == field_of(equation),
                fault == dimension_fault(dimension, equation.dimension_spec(), initial.len()),
                S::ratio_spec(1, 2) == Some(half),
                S::zero_spec().lt_spec(dt),
                retries <= max_rejections,
                sizes@.len() > 0 || retries > 0 ==> fault is None,
                times@.len() == sizes@.len() + 1,
                positions@.len() == times@.len(),
                t == times@.last(),
                state@ == rows(positions@).last(),
                state@.len() == initial.len(),
                follows_steps::<S, I>(field, initial, times@, rows(positions@), sizes@),
                forall|j: int| 0 <= j < sizes@.len() ==> S::zero_spec().lt_spec(#[trigger] sizes@[j]),
                forall|j: int| 0 <= j < sizes@.len() ==> (#[trigger] times@[j]).lt_spec(end_time),
                forall|j: int| 0 <= j < positions@.len() ==> (#[trigger] positions@[j])@.len() == initial.len(),
                reference_view(exact) == reference_along(equation, times@),
                exact is Some ==> exact.unwrap()@.len() == times@.len(),
            decreases usize::MAX - times@.len(), max_rejections - retries,
        {
            let ghost run = run_after::<S, I, C>(setup, start, attempts);
            let ghost next_run = run_after::<S, I, C>(setup, start, attempts + 1);
            assert(next_run == attempt::<S, I, C>(setup, run));
            if times.len() == usize::MAX {
                self.record(times, positions, sizes, exact);
                return Err(OdeError::TrajectoryFull);
            }
            let (next, estimate) = match tentative_step(&mut self.integrator, equation, t, &state, dt, half) {
                Ok(tried) => tried,
                Err(e) => {
                    self.record(times, positions, sizes, exact);
                    return Err(e);
                },
            };
            match settle(controller.adjust_step(estimate, dt), retries, max_rejections) {
                Attempt::Accepted { next_dt } => {
                    let ghost sampled = times@;
                    let ghost recorded = rows(positions@);
                    let ghost taken = sizes@;
                    let ghost before = exact;
                    t = t.add(dt);
                    state = copy_of(&next);
                    times.push(t);
                    positions.push(next);
                    sizes.push(dt);
                    exact = extend_reference(exact, equation.exact_solution(t));
                    dt = next_dt;
                    retries = 0;
                    proof {
                        assert(rows(positions@) =~= recorded.push(state@));
                        assert forall|j: int| 0 <= j < sizes@.len() implies {
                            &&& times@[j + 1] == times@[j].add_spec(#[trigger] sizes@[j])
                            &&& rows(positions@)[j + 1] == I::step_spec(
                                field,
                                times@[j],
                                rows(positions@)[j],
                                sizes@[j],
                            )
                        } by {
                            if j < taken.len() {
                                assert(sampled[j + 1] == sampled[j].add_spec(taken[j]));
                                assert(recorded[j + 1] == I::step_spec(field, sampled[j], recorded[j], taken[j]));
                            }
                        }
                        assert forall|j: int| 0 <= j < sizes@.len() implies S::zero_spec().lt_spec(
                            #[trigger] sizes@[j],
                        ) by {
                            if j < taken.len() {
                                assert(S::zero_spec().lt_spec(taken[j]));
                            }
                        }
                        assert forall|j: int| 0 <= j < sizes@.len() implies (#[trigger] times@[j]).lt_spec(
                            end_time,
                        ) by {
                            if j < taken.len() {
                                assert(sampled[j].lt_spec(end_time));
                            }
                        }
                        lemma_reference_along_push(equation, sampled, t);
                        if exact is Some {
                            assert(rows(exact.unwrap()@) =~= rows(before.unwrap()@).push(
                                equation.exact_spec(t).unwrap(),
                            ));
                        }
                        assert(times@ =~= next_run.times);
                        assert(sizes@ =~= next_run.sizes);
                        attempts = attempts + 1;
                    }
                },
                Attempt::Retry { next_dt } => {
                    dt = next_dt;
                    retries = retries + 1;
                    proof {
                        attempts = attempts + 1;
                    }
                },
                Attempt::GiveUp => {
                    let step = sizes.len();
                    self.record(times, positions, sizes, exact);
                    return Err(OdeError::NonConvergence { step, retries: max_rejections });
                },
            }
        }
        proof {
            let run = run_after::<S, I, C>(setup, start, attempts);
            assert(run_after::<S, I, C>(setup, start, attempts + 1) == attempt::<S, I, C>(setup, run));
        }
        self.record(times, positions, sizes, exact);
        Ok(())
    }

    /// The recorded sample times.
    pub fn times(&self) -> (r: &Vec<S>)
        ensures
            r@ == self.times_spec(),
    {
        &self.times
    }

    /// The recorded states, index-aligned with `times`.
    pub fn states(&self) -> (r: &Vec<Vec<S>>)
        ensures
            rows(r@) == self.states_spec(),
    {
        &self.positions
    }

    /// The sizes of the recorded steps, one fewer than there are samples.
    pub fn step_sizes(&self) -> (r: &Vec<S>)
        ensures
            r@ == self.step_sizes_spec(),
    {
        &self.step_sizes
    }

    /// The recorded closed-form solution, index-aligned with `times`, where
    /// the equation supplied one.
    pub fn reference_states(&self) -> (r: Option<&Vec<Vec<S>>>)
        ensures
            match r {
                Some(v) => self.reference_spec() == Some(rows(v@)),
                None => self.reference_spec() is None,
            },
    {
        self.exact_positions.as_ref()
    }

    /// The first samples of the trajectory, each with its reference value and
    /// its error where there is a reference, and the largest error of the
    /// first component over the whole trajectory.
    pub fn get_numerical_values(&self) -> (report: Report<S>)
        requires
            self.well_formed(),
        ensures
            report.samples@.len() == self.listed_samples(),
            forall|i: int| 0 <= i < report.samples@.len() ==> #[trigger] report.samples@[i] == self.sample_spec(i),
            report.max_error == self.max_error_spec(),
    {
        let mut samples: Vec<Sample<S>> = Vec::new();
        let shown: usize = if self.initial_state.len() == 0 {
            0
        } else if self.times.len() < 5 {
            self.times.len()
        } else {
            5
        };
        let mut i: usize = 0;
        while i < shown
            invariant
                i <= shown,
                shown == self.listed_samples(),
                shown <= self.times@.len(),
                self.initial_state@.len() > 0 || shown == 0,
                self.well_formed(),
                samples@.len() == i,
                forall|j: int| 0 <= j < i ==> #[trigger] samples@[j] == self.sample_spec(j),
            decreases shown - i,
        {
            let numerical = self.positions[i][0];
            let exact = match &self.exact_positions {
                Some(reference) => {
                    if reference[i].len() > 0 {
                        Some(reference[i][0])
                    } else {
                        None
                    }
                },
                None => None,
            };
            let error = match exact {
                Some(e) => Some(abs_diff(numerical, e)),
                None => None,
            };
            samples.push(Sample { time: self.times[i], numerical, exact, error });
            i += 1;
        }
        let max_error = match &self.exact_positions {
            Some(reference) => match self.mae_calculate(&self.positions, Some(reference)) {
                Ok(e) => Some(e),
                Err(_) => None,
            },
            None => None,
        };
        Report { samples, max_error }
    }

    /// The largest absolute error of the first component of `positions`
    /// against `exact_positions`, sample by sample; zero where there is
    /// nothing to hold them against. The two have to be index-aligned.
    pub fn mae_calculate(&self, positions: &Vec<Vec<S>>, exact_positions: Option<&Vec<Vec<S>>>) -> (r: Result<
        S,
        OdeError,
    >)
        ensures
            r == (match exact_positions {
                Some(reference) => max_absolute_error(rows(positions@), rows(reference@), Some(0usize)),
                None => Ok(S::zero_spec()),
            }),
    {
        match exact_positions {
            Some(reference) => compute_max_absolute_error(positions, reference, Some(0)),
            None => Ok(S::zero()),
        }
    }

    /// The number of steps that `integrate` takes.
    pub fn num_steps(&self) -> (n: usize)
        ensures
            n == self.num_steps_spec(),
    {
        self.num_steps
    }
}

} // verus!
