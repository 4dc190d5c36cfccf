//! Element-wise arithmetic on states, as sequences in contracts and as
//! in-place loops in code.

use crate::scalar::Scalar;
use vstd::prelude::*;

verus! {

/// Every component of `v` times `c`.
pub open spec fn scaled<S: Scalar>(v: Seq<S>, c: S) -> Seq<S> {
    Seq::new(v.len(), |i: int| v[i].mul_spec(c))
}

/// The component-wise sum `a + b`, as long as `a`.
pub open spec fn sum<S: Scalar>(a: Seq<S>, b: Seq<S>) -> Seq<S> {
    Seq::new(a.len(), |i: int| a[i].add_spec(b[i]))
}

/// `n` zeros.
pub open spec fn zeros<S: Scalar>(n: nat) -> Seq<S> {
    Seq::new(n, |i: int| S::zero_spec())
}

/// The views of the rows of a trajectory.
pub open spec fn rows<S>(v: Seq<Vec<S>>) -> Seq<Seq<S>> {
    Seq::new(v.len(), |i: int| v[i]@)
}

/// The largest number of elements that room is made for ahead of time.
pub const PREALLOCATION_LIMIT: usize = 65536;

/// The room to make ahead of time for `n` elements to come: for all of
/// them, up to the limit. Beyond it a vector grows as it is filled.
pub fn advisory_capacity(n: usize) -> (c: usize)
    ensures
        c == if n <= PREALLOCATION_LIMIT {
            n
        } else {
            PREALLOCATION_LIMIT
        },
{
    if n <= PREALLOCATION_LIMIT {
        n
    } else {
        PREALLOCATION_LIMIT
    }
}

/// A vector of `n` zeros.
pub fn zero_vector<S: Scalar>(n: usize) -> (r: Vec<S>)
    ensures
        r@ == zeros::<S>(n as nat),
{
    let mut r: Vec<S> = Vec::with_capacity(advisory_capacity(n));
    let mut i: usize = 0;
    while i < n
        invariant
            i <= n,
            r@ == zeros::<S>(i as nat),
        decreases n - i,
    {
        r.push(S::zero());
        assert(r@ =~= zeros::<S>((i + 1) as nat));
        i += 1;
    }
    r
}

/// A copy of `v`.
pub fn copy_of<S: Scalar>(v: &Vec<S>) -> (r: Vec<S>)
    ensures
        r@ == v@,
{
    let mut r: Vec<S> = Vec::with_capacity(v.len());
    let mut i: usize = 0;
    while i < v.len()
        invariant
            i <= v.len(),
            r@ == v@.take(i as int),
        decreases v.len() - i,
    {
        r.push(v[i]);
        assert(r@ =~= v@.take(i + 1));
        i += 1;
    }
    assert(v@.take(v.len() as int) =~= v@);
    r
}

/// Multiplies every component of `v` by `c`, in place.
pub fn scale_in_place<S: Scalar>(v: &mut Vec<S>, c: S)
    ensures
        final(v)@ == scaled(old(v)@, c),
{
    let ghost before = v@;
    let n = v.len();
    let mut i: usize = 0;
    while i < n
        invariant
            i <= n,
            v@.len() == n,
            before.len() == n,
            forall|j: int| 0 <= j < i ==> v@[j] == #[trigger] before[j].mul_spec(c),
            forall|j: int| i <= j < n ==> v@[j] == before[j],
        decreases n - i,
    {
        let x = v[i];
        v[i] = x.mul(c);
        i += 1;
    }
    assert(v@ =~= scaled(before, c));
}

/// Writes `base + k * c` into `out`, component by component.
pub fn assign_shifted<S: Scalar>(out: &mut Vec<S>, base: &Vec<S>, k: &Vec<S>, c: S)
    requires
        old(out)@.len() == base@.len(),
        k@.len() == base@.len(),
    ensures
        final(out)@ == sum(base@, scaled(k@, c)),
{
    let n = base.len();
    let mut i: usize = 0;
    while i < n
        invariant
            i <= n,
            out@.len() == n,
            base@.len() == n,
            k@.len() == n,
            forall|j: int| 0 <= j < i ==> out@[j] == #[trigger] base@[j].add_spec(k@[j].mul_spec(c)),
        decreases n - i,
    {
        out[i] = base[i].add(k[i].mul(c));
        i += 1;
    }
    assert(out@ =~= sum(base@, scaled(k@, c)));
}

/// Writes `a + b` into `out`, component by component.
pub fn assign_sum<S: Scalar>(out: &mut Vec<S>, a: &Vec<S>, b: &Vec<S>)
    requires
        old(out)@.len() == a@.len(),
        b@.len() == a@.len(),
    ensures
        final(out)@ == sum(a@, b@),
{
    let n = a.len();
    let mut i: usize = 0;
    while i < n
        invariant
            i <= n,
            out@.len() == n,
            a@.len() == n,
            b@.len() == n,
            forall|j: int| 0 <= j < i ==> out@[j] == #[trigger] a@[j].add_spec(b@[j]),
        decreases n - i,
    {
        out[i] = a[i].add(b[i]);
        i += 1;
    }
    assert(out@ =~= sum(a@, b@));
}

} // verus!
