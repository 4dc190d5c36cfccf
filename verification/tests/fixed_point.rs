use ode_solver::vector::{
    advisory_capacity, assign_shifted, assign_sum, copy_of, scale_in_place, zero_vector, PREALLOCATION_LIMIT,
};
use ode_solver::{
    compute_max_absolute_error, settle, tentative_step, Attempt, DenseOutput, DifferentialEquation, ErrorKind,
    Fixed, HarmonicOscillator, HermiteOutput, Integrator, ODESolver, OdeError, RK4_Method, Scalar,
    StepSizeController, ToleranceController,
};

const ONE: i64 = 4294967296;

fn fx(raw: i64) -> Fixed {
    Fixed { raw }
}

fn ratio(num: u32, den: u32) -> Fixed {
    Fixed::from_ratio(num, den).unwrap()
}

/// `dx/dt = 1`, with the closed form `x(t) = t`.
struct UnitSlope;

impl DifferentialEquation<Fixed> for UnitSlope {
    fn dimension_spec(&self) -> vstd::prelude::nat {
        unreachable!()
    }

    fn evaluate_spec(&self, _t: Fixed, _state: vstd::seq::Seq<Fixed>) -> vstd::seq::Seq<Fixed> {
        unreachable!()
    }

    fn exact_spec(&self, _t: Fixed) -> Option<vstd::seq::Seq<Fixed>> {
        unreachable!()
    }

    fn evaluate(&self, _t: Fixed, _state: &Vec<Fixed>, derivatives: &mut Vec<Fixed>) {
        derivatives[0] = fx(ONE);
    }

    fn dimension(&self) -> usize {
        1
    }

    fn exact_solution(&self, t: Fixed) -> Option<Vec<Fixed>> {
        Some(vec![t])
    }
}

/// An equation of three components whose derivative is zero everywhere.
struct Still;

impl DifferentialEquation<Fixed> for Still {
    fn dimension_spec(&self) -> vstd::prelude::nat {
        unreachable!()
    }

    fn evaluate_spec(&self, _t: Fixed, _state: vstd::seq::Seq<Fixed>) -> vstd::seq::Seq<Fixed> {
        unreachable!()
    }

    fn exact_spec(&self, _t: Fixed) -> Option<vstd::seq::Seq<Fixed>> {
        unreachable!()
    }

    fn evaluate(&self, _t: Fixed, _state: &Vec<Fixed>, derivatives: &mut Vec<Fixed>) {
        for d in derivatives.iter_mut() {
            *d = Fixed::zero();
        }
    }

    fn dimension(&self) -> usize {
        3
    }

    fn exact_solution(&self, _t: Fixed) -> Option<Vec<Fixed>> {
        None
    }
}

#[test]
fn fixed_constants_have_their_exact_raw_values() {
    assert_eq!(Fixed::zero(), fx(0));
    assert_eq!(Fixed::from_ratio(1, 2), Some(fx(2147483648)));
    assert_eq!(Fixed::from_ratio(1, 3), Some(fx(1431655765)));
    assert_eq!(Fixed::from_ratio(1, 6), Some(fx(715827882)));
    assert_eq!(Fixed::from_ratio(7, 1), Some(fx(7 * ONE)));
    assert_eq!(Fixed::from_ratio(2147483647, 1), Some(fx(2147483647 * ONE)));
    assert_eq!(Fixed::from_ratio(4294967295, 2), Some(fx(i64::MAX - ONE / 2 + 1)));
    assert_eq!(Fixed::from_ratio(2147483648, 1), None);
    assert_eq!(Fixed::from_ratio(4294967295, 1), None);
    assert_eq!(Fixed::from_ratio(3, 0), None);
}

#[test]
fn fixed_addition_and_subtraction_saturate() {
    assert_eq!(fx(3 * ONE).add(fx(-5 * ONE)), fx(-2 * ONE));
    assert_eq!(fx(3 * ONE).sub(fx(-5 * ONE)), fx(8 * ONE));
    assert_eq!(fx(i64::MAX).add(fx(1)), fx(i64::MAX));
    assert_eq!(fx(i64::MIN).add(fx(-1)), fx(i64::MIN));
    assert_eq!(fx(i64::MIN).sub(fx(1)), fx(i64::MIN));
    assert_eq!(fx(i64::MAX).sub(fx(-1)), fx(i64::MAX));
    assert_eq!(fx(i64::MIN).neg(), fx(i64::MAX));
    assert_eq!(fx(i64::MIN).abs(), fx(i64::MAX));
    assert_eq!(fx(-7).abs(), fx(7));
    assert_eq!(fx(7).neg(), fx(-7));
}

#[test]
fn fixed_product_rounds_towards_zero() {
    assert_eq!(ratio(3, 2).mul(ratio(5, 2)), ratio(15, 4));
    assert_eq!(ratio(3, 2).neg().mul(ratio(5, 2)), ratio(15, 4).neg());
    assert_eq!(fx(1).mul(fx(1)), fx(0));
    assert_eq!(fx(-1).mul(fx(1)), fx(0));
    assert_eq!(fx(3).mul(ratio(1, 2)), fx(1));
    assert_eq!(fx(-3).mul(ratio(1, 2)), fx(-1));
    assert_eq!(fx(i64::MAX).mul(fx(2 * ONE)), fx(i64::MAX));
    assert_eq!(fx(i64::MIN).mul(fx(2 * ONE)), fx(i64::MIN));
    assert_eq!(fx(i64::MIN).mul(fx(i64::MIN)), fx(i64::MAX));
}

#[test]
fn fixed_quotient_rounds_towards_zero() {
    assert_eq!(fx(ONE).div(fx(4 * ONE)), ratio(1, 4));
    assert_eq!(fx(ONE).div(fx(3 * ONE)), fx(1431655765));
    assert_eq!(fx(-ONE).div(fx(3 * ONE)), fx(-1431655765));
    assert_eq!(fx(ONE).div(fx(-3 * ONE)), fx(-1431655765));
    assert_eq!(fx(-ONE).div(fx(-3 * ONE)), fx(1431655765));
    assert_eq!(fx(ONE).div(fx(1)), fx(i64::MAX));
    assert_eq!(fx(-ONE).div(fx(1)), fx(i64::MIN));
}

#[test]
fn fixed_order_and_floor() {
    assert!(fx(-1).lt(fx(0)));
    assert!(!fx(0).lt(fx(0)));
    assert!(!fx(1).lt(fx(0)));
    assert_eq!(fx(0).floor_to_usize(), Some(0));
    assert_eq!(fx(ONE - 1).floor_to_usize(), Some(0));
    assert_eq!(fx(ONE).floor_to_usize(), Some(1));
    assert_eq!(ratio(7, 2).floor_to_usize(), Some(3));
    assert_eq!(fx(i64::MAX).floor_to_usize(), Some(2147483647));
    assert_eq!(fx(-1).floor_to_usize(), None);
}

#[test]
fn fixed_has_no_trigonometry() {
    assert_eq!(fx(ONE).cos(), None);
    assert_eq!(fx(ONE).sin(), None);
}

#[test]
fn fixed_obeys_the_scalar_laws_on_samples() {
    let samples = [i64::MIN, -3 * ONE, -1, 0, 1, ONE, i64::MAX];
    for &a in samples.iter() {
        let x = fx(a);
        assert_eq!(x.add(Fixed::zero()), x);
        assert_eq!(Fixed::zero().mul(x), Fixed::zero());
        assert_eq!(x.sub(x), Fixed::zero());
        assert!(!x.abs().lt(Fixed::zero()));
        assert!(!x.lt(x));
    }
    assert_eq!(Fixed::zero().abs(), Fixed::zero());
}

#[test]
fn stepper_of_dimension_zero_is_rejected() {
    let r = RK4_Method::<Fixed>::new(0);
    assert!(matches!(r, Err(OdeError::ZeroDimension)));
    assert_eq!(OdeError::ZeroDimension.kind(), ErrorKind::PreconditionViolation);
}

#[test]
fn stepper_reports_its_size() {
    let rk4 = RK4_Method::<Fixed>::new(4).unwrap();
    assert_eq!(rk4.state_size(), 4);
}

#[test]
fn step_rejects_a_state_of_the_wrong_length() {
    let mut rk4 = RK4_Method::<Fixed>::new(1).unwrap();
    let r = rk4.step(&UnitSlope, Fixed::zero(), &vec![fx(0), fx(0)], ratio(1, 4));
    assert_eq!(r, Err(OdeError::DimensionMismatch { expected: 1, found: 2 }));
    let r = rk4.step(&UnitSlope, Fixed::zero(), &vec![], ratio(1, 4));
    assert_eq!(r, Err(OdeError::DimensionMismatch { expected: 1, found: 0 }));
}

#[test]
fn step_rejects_an_equation_of_another_dimension() {
    let mut rk4 = RK4_Method::<Fixed>::new(2).unwrap();
    let r = rk4.step(&Still, Fixed::zero(), &vec![fx(0), fx(0)], ratio(1, 4));
    assert_eq!(r, Err(OdeError::DimensionMismatch { expected: 2, found: 3 }));
}

#[test]
fn step_of_unit_slope_has_its_exact_raw_value() {
    // Each stage is dt = 2^30 raw. The weights 1/6 and 1/3 are rounded down,
    // and so is each product: 178956970 + 357913941 + 357913941 + 178956970.
    let mut rk4 = RK4_Method::<Fixed>::new(1).unwrap();
    let next = rk4.step(&UnitSlope, Fixed::zero(), &vec![fx(5 * ONE)], ratio(1, 4)).unwrap();
    assert_eq!(next, vec![fx(5 * ONE + 1073741822)]);
}

#[test]
fn step_is_repeatable() {
    let oscillator = HarmonicOscillator::new(ratio(3, 1));
    let mut rk4 = RK4_Method::<Fixed>::new(2).unwrap();
    let state = vec![fx(ONE), fx(0)];
    let first = rk4.step(&oscillator, ratio(1, 7), &state, ratio(1, 100)).unwrap();
    let again = rk4.step(&oscillator, ratio(1, 7), &state, ratio(1, 100)).unwrap();
    assert_eq!(first, again);
    assert_ne!(first, state);
    let mut fresh = RK4_Method::<Fixed>::new(2).unwrap();
    assert_eq!(fresh.step(&oscillator, ratio(1, 7), &state, ratio(1, 100)).unwrap(), first);
}

#[test]
fn zero_equation_leaves_the_state_alone() {
    let mut rk4 = RK4_Method::<Fixed>::new(3).unwrap();
    let state = vec![fx(ONE), fx(-17), fx(i64::MAX)];
    for &(t, dt) in [(0, ONE), (5 * ONE, -ONE), (i64::MAX, i64::MAX), (-3, 1)].iter() {
        let next = rk4.step(&Still, fx(t), &state, fx(dt)).unwrap();
        assert_eq!(next, state);
    }
}

#[test]
fn oscillator_derivative_has_its_exact_value() {
    let oscillator = HarmonicOscillator::new(ratio(3, 1));
    assert_eq!(oscillator.dimension(), 2);
    let mut d = vec![fx(0), fx(0)];
    oscillator.evaluate(fx(0), &vec![ratio(1, 2), ratio(7, 1)], &mut d);
    // dx/dt = v = 7, dv/dt = -9 * 1/2
    assert_eq!(d, vec![ratio(7, 1), ratio(9, 2).neg()]);
    assert_eq!(oscillator.exact_solution(fx(ONE)), None);
}

#[test]
fn solver_rejects_a_step_size_that_is_not_positive() {
    for &raw in [0, -1, -ONE].iter() {
        let rk4 = RK4_Method::<Fixed>::new(1).unwrap();
        let r = ODESolver::new(fx(raw), fx(ONE), vec![fx(0)], rk4);
        assert!(matches!(r, Err(OdeError::NonPositiveStep)));
    }
    assert_eq!(OdeError::NonPositiveStep.kind(), ErrorKind::Configuration);
}

#[test]
fn solver_rejects_a_duration_that_is_not_positive() {
    for &raw in [0, -1, -ONE].iter() {
        let rk4 = RK4_Method::<Fixed>::new(1).unwrap();
        let r = ODESolver::new(fx(ONE), fx(raw), vec![fx(0)], rk4);
        assert!(matches!(r, Err(OdeError::NonPositiveDuration)));
    }
    assert_eq!(OdeError::NonPositiveDuration.kind(), ErrorKind::Configuration);
}

#[test]
fn solver_counts_the_whole_steps_in_the_duration() {
    let rk4 = RK4_Method::<Fixed>::new(1).unwrap();
    let solver = ODESolver::new(ratio(1, 4), ratio(9, 8), vec![fx(0)], rk4).unwrap();
    assert_eq!(solver.num_steps(), 4);
    assert!(solver.times().is_empty());
    assert!(solver.states().is_empty());
    assert!(solver.reference_states().is_none());
    let rk4 = RK4_Method::<Fixed>::new(1).unwrap();
    let solver = ODESolver::new(fx(ONE), ratio(1, 2), vec![fx(0)], rk4).unwrap();
    assert_eq!(solver.num_steps(), 0);
}

#[test]
fn times_start_at_zero_and_increase_strictly() {
    let rk4 = RK4_Method::<Fixed>::new(1).unwrap();
    let mut solver = ODESolver::new(ratio(1, 4), ratio(5, 2), vec![fx(0)], rk4).unwrap();
    assert_eq!(solver.integrate(&UnitSlope), Ok(()));
    let times = solver.times();
    assert_eq!(times.len(), solver.num_steps() + 1);
    assert_eq!(times.len(), 11);
    assert_eq!(times[0], Fixed::zero());
    for i in 0..times.len() {
        assert_eq!(times[i], fx(i as i64 * (ONE / 4)));
    }
    for i in 1..times.len() {
        assert!(times[i - 1].lt(times[i]));
    }
    assert_eq!(solver.states().len(), times.len());
}

#[test]
fn trajectory_and_reference_of_unit_slope() {
    let rk4 = RK4_Method::<Fixed>::new(1).unwrap();
    let mut solver = ODESolver::new(ratio(1, 4), fx(ONE), vec![fx(0)], rk4).unwrap();
    assert_eq!(solver.integrate(&UnitSlope), Ok(()));
    let states = solver.states();
    assert_eq!(states.len(), 5);
    for i in 0..5 {
        assert_eq!(states[i], vec![fx(i as i64 * 1073741822)]);
    }
    let reference = solver.reference_states().unwrap();
    assert_eq!(reference.len(), 5);
    for i in 0..5 {
        assert_eq!(reference[i], vec![fx(i as i64 * (ONE / 4))]);
    }
    // Each step falls two raw units short of a quarter.
    assert_eq!(solver.mae_calculate(states, Some(reference)), Ok(fx(8)));
    assert_eq!(compute_max_absolute_error(states, reference, None), Ok(fx(8)));
}

#[test]
fn integrating_twice_starts_afresh() {
    let rk4 = RK4_Method::<Fixed>::new(1).unwrap();
    let mut solver = ODESolver::new(ratio(1, 4), fx(ONE), vec![fx(0)], rk4).unwrap();
    solver.integrate(&UnitSlope).unwrap();
    let first: Vec<Vec<Fixed>> = solver.states().clone();
    solver.integrate(&UnitSlope).unwrap();
    assert_eq!(solver.states(), &first);
    assert_eq!(solver.times().len(), 5);
}

#[test]
fn reference_is_absent_where_the_equation_has_none() {
    let rk4 = RK4_Method::<Fixed>::new(2).unwrap();
    let mut solver = ODESolver::new(ratio(1, 100), ratio(1, 10), vec![fx(ONE), fx(0)], rk4).unwrap();
    let oscillator = HarmonicOscillator::new(ratio(2, 1));
    assert_eq!(solver.integrate(&oscillator), Ok(()));
    assert_eq!(solver.times().len(), 11);
    assert!(solver.reference_states().is_none());
    let report = solver.get_numerical_values();
    assert_eq!(report.samples.len(), 5);
    assert!(report.max_error.is_none());
    for (i, sample) in report.samples.iter().enumerate() {
        assert_eq!(sample.time, solver.times()[i]);
        assert_eq!(sample.numerical, solver.states()[i][0]);
        assert!(sample.exact.is_none());
        assert!(sample.error.is_none());
    }
}

#[test]
fn integrate_reports_a_mismatch_and_keeps_the_seed() {
    let rk4 = RK4_Method::<Fixed>::new(2).unwrap();
    let mut solver = ODESolver::new(ratio(1, 4), fx(ONE), vec![fx(7), fx(9)], rk4).unwrap();
    let r = solver.integrate(&UnitSlope);
    assert_eq!(r, Err(OdeError::DimensionMismatch { expected: 2, found: 1 }));
    assert_eq!(r.unwrap_err().kind(), ErrorKind::PreconditionViolation);
    assert_eq!(solver.times(), &vec![Fixed::zero()]);
    assert_eq!(solver.states(), &vec![vec![fx(7), fx(9)]]);

    let rk4 = RK4_Method::<Fixed>::new(1).unwrap();
    let mut solver = ODESolver::new(ratio(1, 4), fx(ONE), vec![fx(7), fx(9)], rk4).unwrap();
    let r = solver.integrate(&UnitSlope);
    assert_eq!(r, Err(OdeError::DimensionMismatch { expected: 1, found: 2 }));
    assert_eq!(solver.times().len(), 1);
}

#[test]
fn report_lists_the_first_five_samples() {
    let rk4 = RK4_Method::<Fixed>::new(1).unwrap();
    let mut solver = ODESolver::new(ratio(1, 4), ratio(2, 1), vec![fx(0)], rk4).unwrap();
    solver.integrate(&UnitSlope).unwrap();
    let report = solver.get_numerical_values();
    assert_eq!(report.samples.len(), 5);
    for (i, sample) in report.samples.iter().enumerate() {
        let i = i as i64;
        assert_eq!(sample.time, fx(i * (ONE / 4)));
        assert_eq!(sample.numerical, fx(i * 1073741822));
        assert_eq!(sample.exact, Some(fx(i * (ONE / 4))));
        assert_eq!(sample.error, Some(fx(2 * i)));
    }
    assert_eq!(report.max_error, Some(fx(16)));
}

#[test]
fn report_of_a_short_trajectory_lists_what_there_is() {
    let rk4 = RK4_Method::<Fixed>::new(1).unwrap();
    let mut solver = ODESolver::new(ratio(1, 4), ratio(1, 2), vec![fx(0)], rk4).unwrap();
    let report = solver.get_numerical_values();
    assert!(report.samples.is_empty());
    assert!(report.max_error.is_none());
    solver.integrate(&UnitSlope).unwrap();
    let report = solver.get_numerical_values();
    assert_eq!(report.samples.len(), 3);
    assert_eq!(report.max_error, Some(fx(4)));
}

#[test]
fn error_of_identical_trajectories_is_exactly_zero() {
    let a = vec![vec![fx(ONE), fx(-5)], vec![fx(i64::MAX), fx(i64::MIN)], vec![fx(0), fx(3)]];
    let b = a.clone();
    assert_eq!(compute_max_absolute_error(&a, &b, None), Ok(Fixed::zero()));
    assert_eq!(compute_max_absolute_error(&a, &b, Some(0)), Ok(Fixed::zero()));
    assert_eq!(compute_max_absolute_error(&a, &b, Some(1)), Ok(Fixed::zero()));
    let empty: Vec<Vec<Fixed>> = Vec::new();
    assert_eq!(compute_max_absolute_error(&empty, &empty, None), Ok(Fixed::zero()));
}

#[test]
fn error_is_the_largest_deviation_not_a_mean() {
    let a = vec![vec![fx(10), fx(0)], vec![fx(20), fx(-100)], vec![fx(30), fx(5)]];
    let b = vec![vec![fx(11), fx(0)], vec![fx(17), fx(50)], vec![fx(30), fx(9)]];
    assert_eq!(compute_max_absolute_error(&a, &b, None), Ok(fx(150)));
    assert_eq!(compute_max_absolute_error(&a, &b, Some(0)), Ok(fx(3)));
    assert_eq!(compute_max_absolute_error(&a, &b, Some(1)), Ok(fx(150)));
    assert_eq!(compute_max_absolute_error(&b, &a, Some(0)), Ok(fx(3)));
}

#[test]
fn error_of_mismatched_lengths_is_rejected() {
    let a = vec![vec![fx(1)], vec![fx(2)], vec![fx(3)]];
    let b = vec![vec![fx(1)], vec![fx(2)]];
    let r = compute_max_absolute_error(&a, &b, None);
    assert_eq!(r, Err(OdeError::LengthMismatch { trajectory: 3, reference: 2 }));
    assert_eq!(r.unwrap_err().kind(), ErrorKind::PreconditionViolation);
    let r = compute_max_absolute_error(&b, &a, Some(0));
    assert_eq!(r, Err(OdeError::LengthMismatch { trajectory: 2, reference: 3 }));
    let empty: Vec<Vec<Fixed>> = Vec::new();
    let r = compute_max_absolute_error(&a, &empty, None);
    assert_eq!(r, Err(OdeError::LengthMismatch { trajectory: 3, reference: 0 }));
}

#[test]
fn error_of_misaligned_states_is_rejected() {
    let a = vec![vec![fx(1), fx(2)], vec![fx(3), fx(4)]];
    let b = vec![vec![fx(1), fx(2)], vec![fx(3)]];
    let r = compute_max_absolute_error(&a, &b, None);
    assert_eq!(r, Err(OdeError::DimensionMismatch { expected: 2, found: 1 }));
    let r = compute_max_absolute_error(&a, &b, Some(0));
    assert_eq!(r, Err(OdeError::DimensionMismatch { expected: 2, found: 1 }));
    let r = compute_max_absolute_error(&a, &a, Some(2));
    assert_eq!(r, Err(OdeError::ComponentOutOfRange { component: 2, dimension: 2 }));
    assert_eq!(r.unwrap_err().kind(), ErrorKind::PreconditionViolation);
}

#[test]
fn mae_without_a_reference_is_zero() {
    let rk4 = RK4_Method::<Fixed>::new(1).unwrap();
    let solver = ODESolver::new(ratio(1, 4), fx(ONE), vec![fx(0)], rk4).unwrap();
    let positions = vec![vec![fx(5)], vec![fx(6)]];
    assert_eq!(solver.mae_calculate(&positions, None), Ok(Fixed::zero()));
    let short = vec![vec![fx(5)]];
    let r = solver.mae_calculate(&positions, Some(&short));
    assert_eq!(r, Err(OdeError::LengthMismatch { trajectory: 2, reference: 1 }));
}

#[test]
fn every_error_has_its_kind() {
    assert_eq!(OdeError::StepCountOutOfRange.kind(), ErrorKind::Configuration);
    assert_eq!(OdeError::ConstantNotRepresentable { num: 1, den: 6 }.kind(), ErrorKind::Configuration);
    assert_eq!(OdeError::OutsideValidRange.kind(), ErrorKind::PreconditionViolation);
    assert_eq!(OdeError::LengthMismatch { trajectory: 1, reference: 2 }.kind(), ErrorKind::PreconditionViolation);
    assert_eq!(OdeError::ComponentOutOfRange { component: 1, dimension: 1 }.kind(), ErrorKind::PreconditionViolation);
    assert_eq!(OdeError::NonConvergence { step: 3, retries: 9 }.kind(), ErrorKind::NonConvergence);
    assert_eq!(OdeError::TrajectoryFull.kind(), ErrorKind::NonConvergence);
}

/// Accepts every attempt and keeps the step size.
struct Steady;

impl StepSizeController<Fixed> for Steady {
    fn well_formed(&self) -> bool {
        unreachable!()
    }

    fn after_spec(&self, _error_estimate: Fixed, _current_dt: Fixed) -> Self {
        unreachable!()
    }

    fn growth_limit_spec(&self) -> Fixed {
        unreachable!()
    }

    fn decision_spec(&self, _error_estimate: Fixed, _current_dt: Fixed) -> (Fixed, bool) {
        unreachable!()
    }

    fn adjust_step(&mut self, _error_estimate: Fixed, current_dt: Fixed) -> (Fixed, bool) {
        (current_dt, true)
    }
}

#[test]
fn settle_accepts_retries_or_gives_up() {
    let d = ratio(1, 8);
    assert_eq!(settle((d, true), 0, 0), Attempt::Accepted { next_dt: d });
    assert_eq!(settle((d, true), 9, 3), Attempt::Accepted { next_dt: d });
    assert_eq!(settle((d, false), 0, 3), Attempt::Retry { next_dt: d });
    assert_eq!(settle((d, false), 2, 3), Attempt::Retry { next_dt: d });
    assert_eq!(settle((d, false), 3, 3), Attempt::GiveUp);
    assert_eq!(settle((d, false), 4, 3), Attempt::GiveUp);
    assert_eq!(settle((d, false), 0, 0), Attempt::GiveUp);
    assert_eq!(settle((d, false), usize::MAX - 1, usize::MAX), Attempt::Retry { next_dt: d });
    assert_eq!(settle((d, false), usize::MAX, usize::MAX), Attempt::GiveUp);
}

#[test]
fn tentative_step_of_unit_slope_has_its_exact_estimate() {
    // One step of a quarter adds 1073741822 raw; each of two steps of an
    // eighth adds 89478485 + 178956970 + 178956970 + 89478485.
    let mut rk4 = RK4_Method::<Fixed>::new(1).unwrap();
    let (next, estimate) =
        tentative_step(&mut rk4, &UnitSlope, Fixed::zero(), &vec![fx(0)], ratio(1, 4), ratio(1, 2)).unwrap();
    assert_eq!(next, vec![fx(1073741822)]);
    assert_eq!(estimate, fx(1073741822 - 2 * 536870910));
}

#[test]
fn adaptive_run_with_a_steady_controller_is_the_fixed_grid() {
    let rk4 = RK4_Method::<Fixed>::new(1).unwrap();
    let mut solver = ODESolver::new(ratio(1, 4), fx(ONE), vec![fx(0)], rk4).unwrap();
    solver.integrate(&UnitSlope).unwrap();
    let times = solver.times().clone();
    let states = solver.states().clone();
    let sizes = solver.step_sizes().clone();
    assert_eq!(sizes, vec![ratio(1, 4); 4]);
    assert_eq!(solver.integrate_adaptive(&UnitSlope, &mut Steady, 0), Ok(()));
    assert_eq!(solver.times(), &times);
    assert_eq!(solver.states(), &states);
    assert_eq!(solver.step_sizes(), &sizes);
    assert_eq!(solver.reference_states().unwrap().len(), 5);
    assert_eq!(solver.num_steps(), 4);
}

#[test]
fn tolerance_controller_accepts_within_the_tolerance_and_grows() {
    let mut controller = ToleranceController::new(fx(10), ratio(3, 2), ratio(1, 2));
    assert_eq!(controller.adjust_step(fx(9), fx(ONE)), (ratio(3, 2), true));
    assert_eq!(controller.adjust_step(fx(10), fx(ONE)), (ratio(3, 2), true));
    assert_eq!(controller.adjust_step(fx(0), ratio(1, 4)), (ratio(3, 8), true));
    assert_eq!(controller.tolerance, fx(10));
    assert_eq!(controller.growth, ratio(3, 2));
    assert_eq!(controller.shrink, ratio(1, 2));
}

#[test]
fn tolerance_controller_rejects_above_the_tolerance_and_shrinks() {
    let mut controller = ToleranceController::new(fx(10), ratio(3, 2), ratio(1, 2));
    assert_eq!(controller.adjust_step(fx(11), fx(ONE)), (ratio(1, 2), false));
    assert_eq!(controller.adjust_step(fx(i64::MAX), ratio(1, 4)), (ratio(1, 8), false));
}

#[test]
fn tolerance_controller_never_suggests_zero_or_too_much() {
    // Half of the smallest step size rounds to zero: the size stays.
    let mut controller = ToleranceController::new(fx(10), ratio(3, 2), ratio(1, 2));
    assert_eq!(controller.adjust_step(fx(11), fx(1)), (fx(1), false));
    // One and a half times the smallest step size rounds to itself.
    assert_eq!(controller.adjust_step(fx(0), fx(1)), (fx(1), true));
    // A shrink factor above the growth factor is not followed.
    let mut odd = ToleranceController::new(fx(10), ratio(3, 2), ratio(2, 1));
    assert_eq!(odd.adjust_step(fx(11), fx(ONE)), (fx(ONE), false));
    // A negative growth factor is not followed either.
    let mut negative = ToleranceController::new(fx(10), ratio(3, 2).neg(), ratio(1, 2));
    assert_eq!(negative.adjust_step(fx(0), fx(ONE)), (fx(ONE), true));
    assert_eq!(negative.adjust_step(fx(11), fx(ONE)), (fx(ONE), false));
}

#[test]
fn adaptive_run_with_the_tolerance_controller() {
    // Rounding makes a step of a quarter fall two raw units short, and each
    // of its halves too: the estimate of an attempt is two raw units.
    let rk4 = RK4_Method::<Fixed>::new(1).unwrap();
    let mut solver = ODESolver::new(ratio(1, 4), ratio(1, 2), vec![fx(0)], rk4).unwrap();
    let mut controller = ToleranceController::new(fx(2), ratio(2, 1), ratio(1, 2));
    assert_eq!(solver.integrate_adaptive(&UnitSlope, &mut controller, 0), Ok(()));
    let sizes = solver.step_sizes();
    let times = solver.times();
    assert_eq!(sizes, &vec![ratio(1, 4), ratio(1, 2)]);
    assert_eq!(times, &vec![fx(0), ratio(1, 4), ratio(3, 4)]);
    assert_eq!(solver.states(), &vec![vec![fx(0)], vec![fx(1073741822)], vec![fx(1073741822 + 2147483646)]]);
    let mut fresh = RK4_Method::<Fixed>::new(1).unwrap();
    for i in 0..sizes.len() {
        let expected = fresh.step(&UnitSlope, times[i], &solver.states()[i], sizes[i]).unwrap();
        assert_eq!(solver.states()[i + 1], expected);
    }
    assert_eq!(solver.reference_states().unwrap(), &vec![vec![fx(0)], vec![ratio(1, 4)], vec![ratio(3, 4)]]);

    let mut strict = ToleranceController::new(fx(1), ratio(2, 1), ratio(1, 2));
    let r = solver.integrate_adaptive(&UnitSlope, &mut strict, 3);
    assert_eq!(r, Err(OdeError::NonConvergence { step: 0, retries: 3 }));
    assert_eq!(solver.times(), &vec![fx(0)]);
    assert!(solver.step_sizes().is_empty());
}

#[test]
fn hermite_output_of_unit_slope_is_the_straight_line() {
    let from = vec![fx(3 * ONE)];
    let to = vec![fx(5 * ONE)];
    let output = HermiteOutput::new(&UnitSlope, fx(ONE), &from, fx(3 * ONE), &to).unwrap();
    assert_eq!(output.valid_range(), (fx(ONE), fx(3 * ONE)));
    // Rise 2 over a span of 2 with slopes 1: both higher coefficients are zero.
    assert_eq!(output.evaluate(fx(ONE)), Ok(vec![fx(3 * ONE)]));
    assert_eq!(output.evaluate(fx(2 * ONE)), Ok(vec![fx(4 * ONE)]));
    assert_eq!(output.evaluate(ratio(5, 2)), Ok(vec![ratio(9, 2)]));
    assert_eq!(output.evaluate(fx(3 * ONE)), Ok(vec![fx(5 * ONE)]));
    assert_eq!(output.evaluate(fx(ONE - 1)), Err(OdeError::OutsideValidRange));
    assert_eq!(output.evaluate(fx(3 * ONE + 1)), Err(OdeError::OutsideValidRange));
}

#[test]
fn hermite_output_needs_a_step_that_leads_forward() {
    let state = vec![fx(0)];
    let r = HermiteOutput::new(&UnitSlope, fx(ONE), &state, fx(ONE), &state);
    assert!(matches!(r, Err(OdeError::NonPositiveStep)));
    let r = HermiteOutput::new(&UnitSlope, fx(i64::MIN), &state, fx(i64::MAX), &state);
    assert!(r.is_ok());
    let r = HermiteOutput::new(&UnitSlope, fx(0), &vec![fx(0), fx(0)], fx(ONE), &state);
    assert!(matches!(r, Err(OdeError::DimensionMismatch { expected: 1, found: 2 })));
}

#[test]
fn room_is_made_for_what_is_asked_up_to_the_limit() {
    assert_eq!(PREALLOCATION_LIMIT, 65536);
    assert_eq!(advisory_capacity(0), 0);
    assert_eq!(advisory_capacity(201), 201);
    assert_eq!(advisory_capacity(65536), 65536);
    assert_eq!(advisory_capacity(65537), 65536);
    assert_eq!(advisory_capacity(usize::MAX), 65536);
}

#[test]
fn vectors_are_combined_component_by_component() {
    assert_eq!(zero_vector::<Fixed>(3), vec![fx(0); 3]);
    assert_eq!(zero_vector::<Fixed>(0), Vec::<Fixed>::new());
    assert_eq!(zero_vector::<Fixed>(70000).len(), 70000);
    let a = vec![fx(ONE), fx(-2 * ONE), fx(7)];
    let b = vec![fx(4 * ONE), fx(6 * ONE), fx(i64::MAX)];
    assert_eq!(copy_of(&a), a);
    let mut out = vec![fx(0); 3];
    assign_sum(&mut out, &a, &b);
    assert_eq!(out, vec![fx(5 * ONE), fx(4 * ONE), fx(i64::MAX)]);
    assign_shifted(&mut out, &a, &b, ratio(1, 2));
    assert_eq!(out, vec![fx(3 * ONE), fx(ONE), fx(7 + i64::MAX / 2)]);
    scale_in_place(&mut out, ratio(3, 1).neg());
    assert_eq!(out, vec![fx(-9 * ONE), fx(-3 * ONE), fx(i64::MIN)]);
}
