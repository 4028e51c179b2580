//! The escape-time kernel: how many steps an orbit takes before it escapes,
//! capped by an iteration budget.

use vstd::prelude::*;

verus! {

/// `orbit` is the run of the kernel from `start` under a budget of `max` steps:
/// each point is `next` of the one before, every point before the last stayed
/// inside, and the run ends because the last point escaped or the budget is spent.
/// The escape time of the run is `orbit.len() - 1`.
pub open spec fn is_escape_run<S, E: Fn(S) -> bool, N: Fn(S) -> S>(
    escaped: E,
    next: N,
    start: S,
    max: nat,
    orbit: Seq<S>,
) -> bool {
    &&& 1 <= orbit.len() <= max + 1
    &&& orbit[0] == start
    &&& forall|i: int|
        0 <= i < orbit.len() - 1 ==> #[trigger] next.ensures((orbit[i],), orbit[i + 1])
    &&& forall|i: int|
        0 <= i < orbit.len() - 1 ==> #[trigger] escaped.ensures((orbit[i],), false)
    &&& orbit.len() == max + 1 || escaped.ensures((orbit.last(),), true)
}

/// A one-argument function whose result is fixed by its argument.
pub open spec fn is_deterministic<A, R, F: Fn(A) -> R>(f: F) -> bool {
    forall|a: A, r1: R, r2: R|
        #[trigger] f.ensures((a,), r1) && #[trigger] f.ensures((a,), r2) ==> r1 == r2
}

/// Counts the steps of the orbit from `start` until `escaped` holds of its
/// current point, stopping after `max` steps.
pub fn escape_time<S: Copy, E: Fn(S) -> bool, N: Fn(S) -> S>(
    start: S,
    escaped: &E,
    next: &N,
    max: u32,
) -> (r: u32)
    requires
        forall|s: S| escaped.requires((s,)),
        forall|s: S| next.requires((s,)),
    ensures
        r <= max,
        exists|orbit: Seq<S>|
            is_escape_run(*escaped, *next, start, max as nat, orbit) && orbit.len() == r + 1,
{
    let mut z = start;
    let mut iteration: u32 = 0;
    let ghost mut orbit = seq![start];
    loop
        invariant
            forall|s: S| escaped.requires((s,)),
            forall|s: S| next.requires((s,)),
            iteration <= max,
            orbit.len() == iteration + 1,
            orbit[0] == start,
            orbit.last() == z,
            forall|i: int|
                0 <= i < orbit.len() - 1 ==> #[trigger] next.ensures((orbit[i],), orbit[i + 1]),
            forall|i: int|
                0 <= i < orbit.len() - 1 ==> #[trigger] escaped.ensures((orbit[i],), false),
        ensures
            iteration <= max,
            is_escape_run(*escaped, *next, start, max as nat, orbit),
            orbit.len() == iteration + 1,
        decreases max - iteration,
    {
        if iteration >= max {
            break;
        }
        if escaped(z) {
            break;
        }
        let z_next = next(z);
        proof {
            orbit = orbit.push(z_next);
        }
        z = z_next;
        iteration = iteration + 1;
    }
    iteration
}

/// Two runs from one start, with a deterministic step, pass through the same
/// points for as long as both go on.
pub proof fn lemma_runs_share_prefix<S, E: Fn(S) -> bool, N: Fn(S) -> S>(
    escaped: E,
    next: N,
    start: S,
    max1: nat,
    orbit1: Seq<S>,
    max2: nat,
    orbit2: Seq<S>,
    k: int,
)
    requires
        is_deterministic(next),
        is_escape_run(escaped, next, start, max1, orbit1),
        is_escape_run(escaped, next, start, max2, orbit2),
        0 <= k < orbit1.len(),
        k < orbit2.len(),
    ensures
        forall|i: int| 0 <= i <= k ==> orbit1[i] == orbit2[i],
    decreases k,
{
    if k > 0 {
        lemma_runs_share_prefix(escaped, next, start, max1, orbit1, max2, orbit2, k - 1);
        let j = k - 1;
        assert(next.ensures((orbit1[j],), orbit1[j + 1]));
        assert(next.ensures((orbit2[j],), orbit2[j + 1]));
    }
}

/// Raising the iteration budget, all else fixed, never lowers the escape time:
/// with deterministic closures, a run under `max1` is no longer than one under
/// any `max2 >= max1`.
pub proof fn lemma_budget_monotone<S, E: Fn(S) -> bool, N: Fn(S) -> S>(
    escaped: E,
    next: N,
    start: S,
    max1: nat,
    orbit1: Seq<S>,
    max2: nat,
    orbit2: Seq<S>,
)
    requires
        is_deterministic(escaped),
        is_deterministic(next),
        max1 <= max2,
        is_escape_run(escaped, next, start, max1, orbit1),
        is_escape_run(escaped, next, start, max2, orbit2),
    ensures
        orbit1.len() <= orbit2.len(),
{
    if orbit1.len() > orbit2.len() {
        let k = orbit2.len() - 1;
        lemma_runs_share_prefix(escaped, next, start, max1, orbit1, max2, orbit2, k);
        assert(escaped.ensures((orbit1[k],), false));
        assert(escaped.ensures((orbit2[k],), true));
    }
}

/// The escape time is a function of the start and the budget: with
/// deterministic closures, two runs under one budget have the same length.
pub proof fn lemma_escape_time_deterministic<S, E: Fn(S) -> bool, N: Fn(S) -> S>(
    escaped: E,
    next: N,
    start: S,
    max: nat,
    orbit1: Seq<S>,
    orbit2: Seq<S>,
)
    requires
        is_deterministic(escaped),
        is_deterministic(next),
        is_escape_run(escaped, next, start, max, orbit1),
        is_escape_run(escaped, next, start, max, orbit2),
    ensures
        orbit1.len() == orbit2.len(),
{
    lemma_budget_monotone(escaped, next, start, max, orbit1, max, orbit2);
    lemma_budget_monotone(escaped, next, start, max, orbit2, max, orbit1);
}

} // verus!
