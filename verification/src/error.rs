//! What can go wrong, and the three families the failures fall into.

use vstd::prelude::*;

verus! {

/// The family of a failure.
#[derive(Clone, Copy, Debug, PartialEq, Eq, Structural)]
pub enum ErrorKind {
    /// A component was set up with values it cannot work with.
    Configuration,
    /// A call was made with arguments that do not fit together.
    PreconditionViolation,
    /// An adaptive integration gave up on finding an acceptable step.
    NonConvergence,
}

#[derive(Clone, Copy, Debug, PartialEq, Eq, Structural)]
pub enum OdeError {
    /// The nominal step size is not above zero.
    NonPositiveStep,
    /// The integration duration is not above zero.
    NonPositiveDuration,
    /// The number of nominal steps has no `usize` that can also count the
    /// seed point.
    StepCountOutOfRange,
    /// The scalar type cannot represent the constant `num / den`.
    ConstantNotRepresentable { num: u32, den: u32 },
    /// A step strategy was asked to work on states of length zero.
    ZeroDimension,
    /// A state or an equation has `found` components where `expected` were
    /// configured.
    DimensionMismatch { expected: usize, found: usize },
    /// Two trajectories that have to be index-aligned differ in length.
    LengthMismatch { trajectory: usize, reference: usize },
    /// The chosen component does not exist in a state of `dimension`
    /// components.
    ComponentOutOfRange { component: usize, dimension: usize },
    /// A dense-output query lies outside the interval of the step.
    OutsideValidRange,
    /// The trajectory cannot hold another sample.
    TrajectoryFull,
    /// The step-size controller rejected the step after sample `step` once
    /// more after `retries` retries, and no more are allowed.
    NonConvergence { step: usize, retries: usize },
}

impl OdeError {
    pub open spec fn kind_spec(self) -> ErrorKind {
        match self {
            OdeError::NonPositiveStep => ErrorKind::Configuration,
            OdeError::NonPositiveDuration => ErrorKind::Configuration,
            OdeError::StepCountOutOfRange => ErrorKind::Configuration,
            OdeError::ConstantNotRepresentable { .. } => ErrorKind::Configuration,
            OdeError::ZeroDimension => ErrorKind::PreconditionViolation,
            OdeError::DimensionMismatch { .. } => ErrorKind::PreconditionViolation,
            OdeError::LengthMismatch { .. } => ErrorKind::PreconditionViolation,
            OdeError::ComponentOutOfRange { .. } => ErrorKind::PreconditionViolation,
            OdeError::OutsideValidRange => ErrorKind::PreconditionViolation,
            OdeError::TrajectoryFull => ErrorKind::NonConvergence,
            OdeError::NonConvergence { .. } => ErrorKind::NonConvergence,
        }
    }

    pub fn kind(&self) -> (k: ErrorKind)
        ensures
            k == self.kind_spec(),
    {
        match self {
            OdeError::NonPositiveStep => ErrorKind::Configuration,
            OdeError::NonPositiveDuration => ErrorKind::Configuration,
            OdeError::StepCountOutOfRange => ErrorKind::Configuration,
            OdeError::ConstantNotRepresentable { .. } => ErrorKind::Configuration,
            OdeError::ZeroDimension => ErrorKind::PreconditionViolation,
            OdeError::DimensionMismatch { .. } => ErrorKind::PreconditionViolation,
            OdeError::LengthMismatch { .. } => ErrorKind::PreconditionViolation,
            OdeError::ComponentOutOfRange { .. } => ErrorKind::PreconditionViolation,
            OdeError::OutsideValidRange => ErrorKind::PreconditionViolation,
            OdeError::TrajectoryFull => ErrorKind::NonConvergence,
            OdeError::NonConvergence { .. } => ErrorKind::NonConvergence,
        }
    }
}

} // verus!
