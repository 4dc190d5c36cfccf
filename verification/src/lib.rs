//! A small numerical kernel for ordinary differential equations.
//!
//! An equation is anything that implements `DifferentialEquation`; a step
//! strategy is an `Integrator`, of which `RK4_Method`, the classical
//! Runge-Kutta method of order four, is the one that comes with the crate.
//! `ODESolver` drives a strategy over a fixed grid, or over steps that a
//! `StepSizeController` adapts, and records the trajectory together with the
//! closed-form solution where the equation has one.
//! `compute_max_absolute_error` measures the one against the other.
//! `DenseOutput` and `EventDetector` are the contracts of two more extension
//! points.
//!
//! Every component is generic over a `Scalar`. The contracts say which
//! expression over the scalar's own operations a computation evaluates, so
//! they hold of any arithmetic, rounding included. `Fixed` is a scalar made
//! of integers alone.

pub mod accuracy;
pub mod adaptive;
pub mod controller;
pub mod dense;
pub mod equation;
pub mod error;
pub mod event;
pub mod fixed;
pub mod integrator;
pub mod oscillator;
pub mod rk4;
pub mod scalar;
pub mod solver;
pub mod trajectory;
pub mod vector;

pub use accuracy::compute_max_absolute_error;
pub use controller::{settle, Attempt, StepSizeController, ToleranceController};
pub use dense::{DenseOutput, HermiteOutput};
pub use equation::DifferentialEquation;
pub use error::{ErrorKind, OdeError};
pub use event::EventDetector;
pub use fixed::Fixed;
pub use integrator::Integrator;
pub use oscillator::HarmonicOscillator;
pub use rk4::RK4_Method;
pub use scalar::Scalar;
pub use solver::{tentative_step, ODESolver, Report, Sample};
