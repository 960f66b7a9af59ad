//! Proved statements about whole pull sequences.
//!
//! The contracts on [`ExclusiveRange::next`], [`InclusiveRange::next`] and
//! [`UnboundedRange::next`] each pin down a single pull. The lemmas here
//! chain those single steps: what a bounded range does once its guard has
//! failed, that an unbounded range yields on every pull, and which values a
//! run of pulls produces when cursor and step are machine integers.

use vstd::prelude::*;

use crate::num::RangeNum;
use crate::ranges::ExclusiveRange;
use crate::ranges::InclusiveRange;
use crate::ranges::UnboundedRange;

verus! {

/// Exhaustion is terminal for an exclusive range: once the guard has
/// failed, a pull yields no value, leaves the range unchanged, and the
/// range it leaves behind is exhausted in turn.
pub proof fn lemma_exclusive_exhausted_terminal<T: RangeNum<S>, S: Copy>(r: ExclusiveRange<T, S>)
    requires
        r.is_exhausted(),
    ensures
        r.pull_spec() == (r, None::<T>),
        r.pull_spec().0.is_exhausted(),
{
}

/// An exhausted exclusive range stays put under any number of pulls and
/// yields no value at all.
pub proof fn lemma_exclusive_exhausted_pull_n<T: RangeNum<S>, S: Copy>(
    r: ExclusiveRange<T, S>,
    n: nat,
)
    requires
        r.is_exhausted(),
    ensures
        r.pull_n_spec(n) == (r, Seq::<T>::empty()),
    decreases n,
{
    if n > 0 {
        lemma_exclusive_exhausted_pull_n(r, (n - 1) as nat);
    }
}

/// Exhaustion is terminal for an inclusive range: once the guard has
/// failed, a pull yields no value, leaves the range unchanged, and the
/// range it leaves behind is exhausted in turn.
pub proof fn lemma_inclusive_exhausted_terminal<T: RangeNum<S>, S: Copy>(r: InclusiveRange<T, S>)
    requires
        r.is_exhausted(),
    ensures
        r.pull_spec() == (r, None::<T>),
        r.pull_spec().0.is_exhausted(),
{
}

/// An exhausted inclusive range stays put under any number of pulls and
/// yields no value at all.
pub proof fn lemma_inclusive_exhausted_pull_n<T: RangeNum<S>, S: Copy>(
    r: InclusiveRange<T, S>,
    n: nat,
)
    requires
        r.is_exhausted(),
    ensures
        r.pull_n_spec(n) == (r, Seq::<T>::empty()),
    decreases n,
{
    if n > 0 {
        lemma_inclusive_exhausted_pull_n(r, (n - 1) as nat);
    }
}

/// An unbounded range never signals end-of-sequence: a run of `n` pulls
/// yields exactly `n` values, whatever the cursor and the step are.
pub proof fn lemma_unbounded_always_yields<T: RangeNum<S>, S: Copy>(
    r: UnboundedRange<T, S>,
    n: nat,
)
    ensures
        r.pull_n_spec(n).1.len() == n,
    decreases n,
{
    if n > 0 {
        lemma_unbounded_always_yields(r.pull_spec().0, (n - 1) as nat);
    }
}

/// A step that leaves the cursor in place never exhausts an exclusive
/// range: every pull yields the cursor again and the range never changes.
/// For a machine-integer cursor this is the case of a zero step.
pub proof fn lemma_exclusive_fixed_cursor_never_exhausts<T: RangeNum<S>, S: Copy>(
    r: ExclusiveRange<T, S>,
    n: nat,
)
    requires
        !r.is_exhausted(),
        r.start.advanced(r.step) == r.start,
    ensures
        ({
            let (rest, vals) = r.pull_n_spec(n);
            &&& rest == r
            &&& vals.len() == n
            &&& (forall|i: int| 0 <= i < n ==> vals[i] == r.start)
        }),
    decreases n,
{
    if n > 0 {
        assert(r.pull_spec().0 == r);
        lemma_exclusive_fixed_cursor_never_exhausts(r, (n - 1) as nat);
    }
}

/// An exclusive range over `i32` with a positive step yields exactly the
/// arithmetic progression `start, start + step, start + 2 * step, ...` for
/// as long as it stays strictly below `stop`, and is exhausted afterwards.
/// `n` is the number of values below `stop`, and `m >= n` pulls are taken,
/// so the run crosses the boundary and the extra pulls yield nothing.
pub proof fn lemma_exclusive_arithmetic_progression(
    r: ExclusiveRange<i32, i32>,
    n: nat,
    m: nat,
)
    requires
        r.step > 0,
        n <= m,
        r.start + n * r.step <= i32::MAX,
        n > 0 ==> r.start + (n - 1) * r.step < r.stop,
        r.start + n * r.step >= r.stop,
    ensures
        ({
            let (rest, vals) = r.pull_n_spec(m);
            &&& vals.len() == n
            &&& (forall|i: int| 0 <= i < n ==> vals[i] as int == r.start + i * r.step)
            &&& rest.is_exhausted()
            &&& rest.start as int == r.start + n * r.step
            &&& rest.stop == r.stop
            &&& rest.step == r.step
        }),
    decreases m,
{
    if n == 0 {
        lemma_exclusive_exhausted_pull_n(r, m);
    } else {
        assert((n - 1) * r.step >= 0 && (n - 1) * r.step <= n * r.step
            && r.step + (n - 1) * r.step == n * r.step) by (nonlinear_arith)
            requires r.step > 0, n >= 1,
        ;
        let once = r.pull_spec().0;
        assert(once.start as int == r.start + r.step);
        assert((n - 2) * r.step + r.step == (n - 1) * r.step) by (nonlinear_arith);
        lemma_exclusive_arithmetic_progression(once, (n - 1) as nat, (m - 1) as nat);
        let (rest, vals) = r.pull_n_spec(m);
        let (_, tail) = once.pull_n_spec((m - 1) as nat);
        assert forall|i: int| 0 <= i < n implies vals[i] as int == r.start + i * r.step by {
            if i > 0 {
                assert(tail[i - 1] as int == once.start + (i - 1) * r.step);
                assert((i - 1) * r.step + r.step == i * r.step) by (nonlinear_arith);
            }
        }
    }
}

/// An inclusive range over `i32` with a positive step yields exactly the
/// arithmetic progression `start, start + step, start + 2 * step, ...` for
/// as long as it stays at or below `stop` (so a value landing exactly on
/// `stop` is still yielded), and is exhausted afterwards. `n` is the number
/// of values at or below `stop`, and `m >= n` pulls are taken.
pub proof fn lemma_inclusive_arithmetic_progression(
    r: InclusiveRange<i32, i32>,
    n: nat,
    m: nat,
)
    requires
        r.step > 0,
        n <= m,
        r.start + n * r.step <= i32::MAX,
        n > 0 ==> r.start + (n - 1) * r.step <= r.stop,
        r.start + n * r.step > r.stop,
    ensures
        ({
            let (rest, vals) = r.pull_n_spec(m);
            &&& vals.len() == n
            &&& (forall|i: int| 0 <= i < n ==> vals[i] as int == r.start + i * r.step)
            &&& rest.is_exhausted()
            &&& rest.start as int == r.start + n * r.step
            &&& rest.stop == r.stop
            &&& rest.step == r.step
        }),
    decreases m,
{
    if n == 0 {
        lemma_inclusive_exhausted_pull_n(r, m);
    } else {
        assert((n - 1) * r.step >= 0 && (n - 1) * r.step <= n * r.step
            && r.step + (n - 1) * r.step == n * r.step) by (nonlinear_arith)
            requires r.step > 0, n >= 1,
        ;
        let once = r.pull_spec().0;
        assert(once.start as int == r.start + r.step);
        assert((n - 2) * r.step + r.step == (n - 1) * r.step) by (nonlinear_arith);
        lemma_inclusive_arithmetic_progression(once, (n - 1) as nat, (m - 1) as nat);
        let (rest, vals) = r.pull_n_spec(m);
        let (_, tail) = once.pull_n_spec((m - 1) as nat);
        assert forall|i: int| 0 <= i < n implies vals[i] as int == r.start + i * r.step by {
            if i > 0 {
                assert(tail[i - 1] as int == once.start + (i - 1) * r.step);
                assert((i - 1) * r.step + r.step == i * r.step) by (nonlinear_arith);
            }
        }
    }
}

/// An unbounded range over `i32` with a non-negative step yields the
/// arithmetic progression `start, start + step, start + 2 * step, ...` on
/// every pull, for as long as the sums stay within the machine limits.
pub proof fn lemma_unbounded_arithmetic_progression(r: UnboundedRange<i32, i32>, n: nat)
    requires
        r.step >= 0,
        r.start + n * r.step <= i32::MAX,
    ensures
        ({
            let (rest, vals) = r.pull_n_spec(n);
            &&& vals.len() == n
            &&& (forall|i: int| 0 <= i < n ==> vals[i] as int == r.start + i * r.step)
            &&& rest.start as int == r.start + n * r.step
            &&& rest.step == r.step
        }),
    decreases n,
{
    if n > 0 {
        assert((n - 1) * r.step >= 0 && (n - 1) * r.step <= n * r.step
            && r.step + (n - 1) * r.step == n * r.step) by (nonlinear_arith)
            requires r.step >= 0, n >= 1,
        ;
        let once = r.pull_spec().0;
        assert(once.start as int == r.start + r.step);
        lemma_unbounded_arithmetic_progression(once, (n - 1) as nat);
        let (rest, vals) = r.pull_n_spec(n);
        let (_, tail) = once.pull_n_spec((n - 1) as nat);
        assert forall|i: int| 0 <= i < n implies vals[i] as int == r.start + i * r.step by {
            if i > 0 {
                assert(tail[i - 1] as int == once.start + (i - 1) * r.step);
                assert((i - 1) * r.step + r.step == i * r.step) by (nonlinear_arith);
            }
        }
    }
}

} // verus!
