//! The largest deviation of a trajectory from a reference: the maximum norm
//! of the difference, not a mean.

use crate::error::OdeError;
use crate::scalar::{
    abs_diff, abs_diff_spec, le_spec, lemma_le_transitive, lemma_max_is_upper_bound, max, max_spec, Scalar,
};
use crate::vector::rows;
use vstd::prelude::*;

verus! {

/// The largest `|x[c] - y[c]|` over the first `n` components, zero for none.
pub open spec fn state_error<S: Scalar>(x: Seq<S>, y: Seq<S>, n: nat) -> S
    decreases n,
{
    if n == 0 {
        S::zero_spec()
    } else {
        max_spec(state_error(x, y, (n - 1) as nat), abs_diff_spec(x[n - 1], y[n - 1]))
    }
}

/// The deviation at one sample: that of the chosen component, or the
/// largest over all components where none is chosen.
pub open spec fn point_error<S: Scalar>(x: Seq<S>, y: Seq<S>, component: Option<usize>) -> S {
    match component {
        Some(c) => abs_diff_spec(x[c as int], y[c as int]),
        None => state_error(x, y, x.len()),
    }
}

/// The largest deviation over the first `n` samples, zero for none.
pub open spec fn trajectory_error<S: Scalar>(
    xs: Seq<Seq<S>>,
    ys: Seq<Seq<S>>,
    component: Option<usize>,
    n: nat,
) -> S
    decreases n,
{
    if n == 0 {
        S::zero_spec()
    } else {
        max_spec(
            trajectory_error(xs, ys, component, (n - 1) as nat),
            point_error(xs[n - 1], ys[n - 1], component),
        )
    }
}

/// What is wrong with one pair of states, if anything: they differ in
/// length, or they lack the chosen component.
pub open spec fn point_fault(x: nat, y: nat, component: Option<usize>) -> Option<OdeError> {
    if x != y {
        Some(OdeError::DimensionMismatch { expected: x as usize, found: y as usize })
    } else {
        match component {
            Some(c) if c >= x => Some(OdeError::ComponentOutOfRange { component: c, dimension: x as usize }),
            _ => None,
        }
    }
}

/// The fault of the first faulty pair among the first `n` samples.
pub open spec fn first_fault<S>(xs: Seq<Seq<S>>, ys: Seq<Seq<S>>, component: Option<usize>, n: nat) -> Option<
    OdeError,
>
    decreases n,
{
    if n == 0 {
        None
    } else {
        match first_fault(xs, ys, component, (n - 1) as nat) {
            Some(e) => Some(e),
            None => point_fault(xs[n - 1].len(), ys[n - 1].len(), component),
        }
    }
}

/// Why two trajectories cannot be compared, if they cannot: they differ in
/// length, or one of their pairs of states is faulty.
pub open spec fn alignment_fault<S>(xs: Seq<Seq<S>>, ys: Seq<Seq<S>>, component: Option<usize>) -> Option<OdeError> {
    if xs.len() != ys.len() {
        Some(OdeError::LengthMismatch { trajectory: xs.len() as usize, reference: ys.len() as usize })
    } else {
        first_fault(xs, ys, component, xs.len())
    }
}

/// What `compute_max_absolute_error` returns: the fault where the two cannot
/// be compared, else the largest deviation over all samples.
pub open spec fn max_absolute_error<S: Scalar>(xs: Seq<Seq<S>>, ys: Seq<Seq<S>>, component: Option<usize>) -> Result<
    S,
    OdeError,
> {
    match alignment_fault(xs, ys, component) {
        Some(e) => Err(e),
        None => Ok(trajectory_error(xs, ys, component, xs.len())),
    }
}

/// The deviation of a trajectory from itself is zero.
proof fn lemma_error_of_identical_is_zero<S: Scalar>(xs: Seq<Seq<S>>, component: Option<usize>, n: nat)
    requires
        n <= xs.len(),
    ensures
        trajectory_error(xs, xs, component, n) == S::zero_spec(),
    decreases n,
{
    S::lemma_lt_irreflexive(S::zero_spec());
    S::lemma_abs_zero();
    if n > 0 {
        lemma_error_of_identical_is_zero(xs, component, (n - 1) as nat);
        let x = xs[n - 1];
        match component {
            Some(c) => {
                S::lemma_sub_self(x[c as int]);
            },
            None => {
                lemma_state_error_of_identical_is_zero(x, x.len());
            },
        }
    }
}

proof fn lemma_identical_are_aligned<S>(xs: Seq<Seq<S>>, component: Option<usize>, n: nat)
    requires
        n <= xs.len(),
        component is Some ==> forall|i: int| 0 <= i < xs.len() ==> component.unwrap() < (#[trigger] xs[i]).len(),
    ensures
        first_fault(xs, xs, component, n) is None,
    decreases n,
{
    if n > 0 {
        lemma_identical_are_aligned(xs, component, (n - 1) as nat);
        assert(component is Some ==> component.unwrap() < xs[n - 1].len());
    }
}

/// The largest absolute error of a trajectory against itself is exactly
/// zero: over all components, and over any one component that every state
/// has.
pub proof fn lemma_identical_trajectories_have_no_error<S: Scalar>(xs: Seq<Seq<S>>, component: Option<usize>)
    requires
        component is Some ==> forall|i: int| 0 <= i < xs.len() ==> component.unwrap() < (#[trigger] xs[i]).len(),
    ensures
        max_absolute_error(xs, xs, component) == Ok::<S, OdeError>(S::zero_spec()),
{
    lemma_identical_are_aligned(xs, component, xs.len());
    lemma_error_of_identical_is_zero(xs, component, xs.len());
}

proof fn lemma_state_error_of_identical_is_zero<S: Scalar>(x: Seq<S>, n: nat)
    requires
        n <= x.len(),
    ensures
        state_error(x, x, n) == S::zero_spec(),
    decreases n,
{
    S::lemma_lt_irreflexive(S::zero_spec());
    S::lemma_abs_zero();
    if n > 0 {
        lemma_state_error_of_identical_is_zero(x, (n - 1) as nat);
        S::lemma_sub_self(x[n - 1]);
    }
}

proof fn lemma_state_error_bounds<S: Scalar>(x: Seq<S>, y: Seq<S>, n: nat, c: int)
    requires
        0 <= c < n,
    ensures
        le_spec(abs_diff_spec(x[c], y[c]), state_error(x, y, n)),
    decreases n,
{
    let rest = state_error(x, y, (n - 1) as nat);
    let last = abs_diff_spec(x[n - 1], y[n - 1]);
    lemma_max_is_upper_bound(rest, last);
    if c < n - 1 {
        lemma_state_error_bounds(x, y, (n - 1) as nat, c);
        lemma_le_transitive(abs_diff_spec(x[c], y[c]), rest, state_error(x, y, n));
    }
}

/// No sample deviates by more than the trajectory error: at every one of
/// the first `n` samples, the deviation of the chosen component, or of any
/// component where none is chosen, is not above it.
pub proof fn lemma_error_bounds_every_sample<S: Scalar>(
    xs: Seq<Seq<S>>,
    ys: Seq<Seq<S>>,
    component: Option<usize>,
    n: nat,
    i: int,
    c: int,
)
    requires
        0 <= i < n,
        match component {
            Some(chosen) => c == chosen,
            None => 0 <= c < xs[i].len(),
        },
    ensures
        le_spec(abs_diff_spec(xs[i][c], ys[i][c]), trajectory_error(xs, ys, component, n)),
    decreases n,
{
    let rest = trajectory_error(xs, ys, component, (n - 1) as nat);
    let last = point_error(xs[n - 1], ys[n - 1], component);
    let deviation = abs_diff_spec(xs[i][c], ys[i][c]);
    lemma_max_is_upper_bound(rest, last);
    if i < n - 1 {
        lemma_error_bounds_every_sample(xs, ys, component, (n - 1) as nat, i, c);
        lemma_le_transitive(deviation, rest, trajectory_error(xs, ys, component, n));
    } else {
        if component is None {
            lemma_state_error_bounds(xs[i], ys[i], xs[i].len(), c);
            lemma_le_transitive(deviation, last, trajectory_error(xs, ys, component, n));
        }
    }
}

/// The largest `|x[c] - y[c]|` over all components of two states of equal
/// length.
pub(crate) fn state_max_error<S: Scalar>(x: &Vec<S>, y: &Vec<S>) -> (r: S)
    requires
        x@.len() == y@.len(),
    ensures
        r == state_error(x@, y@, x@.len()),
{
    let mut worst = S::zero();
    let mut c: usize = 0;
    while c < x.len()
        invariant
            c <= x@.len(),
            x@.len() == y@.len(),
            worst == state_error(x@, y@, c as nat),
        decreases x@.len() - c,
    {
        worst = max(worst, abs_diff(x[c], y[c]));
        c += 1;
    }
    worst
}

/// The maximum, over all samples, of the absolute difference between a
/// trajectory and a reference: of the chosen component where `component`
/// names one, of all components where it is `None`.
///
/// The two have to be index-aligned: of equal length, with states of equal
/// length at each index, long enough for the chosen component. The first
/// violation found, lengths first and then sample by sample, is the error.
/// Nothing is silently truncated.
pub fn compute_max_absolute_error<S: Scalar>(
    trajectory: &Vec<Vec<S>>,
    reference: &Vec<Vec<S>>,
    component: Option<usize>,
) -> (r: Result<S, OdeError>)
    ensures
        r == max_absolute_error(rows(trajectory@), rows(reference@), component),
        rows(trajectory@) == rows(reference@) && r is Ok ==> r == Ok::<S, OdeError>(S::zero_spec()),
{
    let ghost xs = rows(trajectory@);
    let ghost ys = rows(reference@);
    if trajectory.len() != reference.len() {
        return Err(OdeError::LengthMismatch { trajectory: trajectory.len(), reference: reference.len() });
    }
    let n = trajectory.len();
    let mut worst = S::zero();
    let mut i: usize = 0;
    while i < n
        invariant
            i <= n,
            n == trajectory@.len(),
            n == reference@.len(),
            xs == rows(trajectory@),
            ys == rows(reference@),
            first_fault(xs, ys, component, i as nat) is None,
            worst == trajectory_error(xs, ys, component, i as nat),
        decreases n - i,
    {
        let x = &trajectory[i];
        let y = &reference[i];
        assert(xs[i as int] == x@ && ys[i as int] == y@);
        if x.len() != y.len() {
            proof {
                lemma_first_fault_stays(xs, ys, component, (i + 1) as nat, n as nat);
            }
            return Err(OdeError::DimensionMismatch { expected: x.len(), found: y.len() });
        }
        let deviation = match component {
            Some(c) => {
                if c >= x.len() {
                    proof {
                        lemma_first_fault_stays(xs, ys, component, (i + 1) as nat, n as nat);
                    }
                    return Err(OdeError::ComponentOutOfRange { component: c, dimension: x.len() });
                }
                abs_diff(x[c], y[c])
            },
            None => state_max_error(x, y),
        };
        worst = max(worst, deviation);
        i += 1;
    }
    proof {
        if xs == ys {
            lemma_error_of_identical_is_zero(xs, component, n as nat);
        }
    }
    Ok(worst)
}

/// Once a fault has been found among the first `m` samples, it is the fault
/// of every longer prefix.
proof fn lemma_first_fault_stays<S>(xs: Seq<Seq<S>>, ys: Seq<Seq<S>>, component: Option<usize>, m: nat, n: nat)
    requires
        m <= n,
        first_fault(xs, ys, component, m) is Some,
    ensures
        first_fault(xs, ys, component, n) == first_fault(xs, ys, component, m),
    decreases n,
{
    if m < n {
        lemma_first_fault_stays(xs, ys, component, m, (n - 1) as nat);
    }
}

} // verus!
