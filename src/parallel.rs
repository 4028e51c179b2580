//! The row-parallel evaluator: rows are independent, so each is handed to the
//! worker pool as one unit of work and written into its own slot.

use vstd::prelude::*;

use rayon::iter::{IndexedParallelIterator, IntoParallelRefMutIterator, ParallelIterator};

use crate::grid::{evaluate_row, is_grid, is_pixel_count, is_row, kernel_callable, GridSpec, Kernel};

verus! {

/// rayon's worker pool, carried through as an opaque value.
#[verifier::external_type_specification]
#[verifier::external_body]
pub struct ExThreadPool(rayon::ThreadPool);

/// Relies on rayon's `ThreadPool::install`: it runs `op` once, inside the
/// pool, and returns what `op` returned.
pub assume_specification<OP, R>[ rayon::ThreadPool::install ](
    pool: &rayon::ThreadPool,
    op: OP,
) -> (r: R)
    where
        OP: FnOnce() -> R + Send,
        R: Send,
    requires
        op.requires(()),
    ensures
        op.ensures((), r),
;

/// Replaces `row` with the escape times of row `py`.
pub(crate) fn fill_row<S: Copy, O: Fn(u32, u32) -> S, E: Fn(S) -> bool, N: Fn(S) -> S>(
    row: &mut Vec<u32>,
    py: usize,
    spec: &GridSpec,
    kernel: &Kernel<O, E, N>,
)
    requires
        py < spec.height,
        kernel_callable(*spec, *kernel),
    ensures
        is_row(*spec, *kernel, py as u32, final(row)@),
{
    *row = evaluate_row(spec, kernel, py as u32);
}

/// Relies on rayon's `par_iter_mut().enumerate().for_each`: the closure is
/// called once for each element, with that element's index, and may write it
/// in place; the call returns after every element is done.
#[verifier::external_body]
fn fill_rows_parallel<
    S: Copy,
    O: Fn(u32, u32) -> S + Sync,
    E: Fn(S) -> bool + Sync,
    N: Fn(S) -> S + Sync,
>(rows: &mut Vec<Vec<u32>>, spec: &GridSpec, kernel: &Kernel<O, E, N>)
    requires
        old(rows).len() == spec.height,
        kernel_callable(*spec, *kernel),
    ensures
        final(rows).len() == old(rows).len(),
        forall|py: int|
            0 <= py < final(rows).len() ==> is_row(*spec, *kernel, py as u32, #[trigger] final(rows)[py]@),
{
    rows.par_iter_mut().enumerate().for_each(|(py, row)| fill_row(row, py, spec, kernel));
}

/// Evaluates every pixel of `spec` on `pool`, one row per unit of work. The
/// result is the same grid the sequential evaluator describes, and the call
/// returns only once every row is written.
pub fn evaluate_grid_parallel<
    S: Copy,
    O: Fn(u32, u32) -> S + Sync,
    E: Fn(S) -> bool + Sync,
    N: Fn(S) -> S + Sync,
>(spec: &GridSpec, kernel: &Kernel<O, E, N>, pool: &rayon::ThreadPool) -> (grid: Vec<Vec<u32>>)
    requires
        kernel_callable(*spec, *kernel),
    ensures
        is_grid(*spec, *kernel, grid@),
        grid.len() == spec.height,
        forall|py: int| 0 <= py < grid.len() ==> #[trigger] grid[py].len() == spec.width,
        forall|py: int, px: int|
            0 <= py < grid.len() && 0 <= px < grid[py].len() ==> #[trigger] grid[py][px]
                <= spec.max_iterations,
{
    let mut rows: Vec<Vec<u32>> = Vec::new();
    let mut py: u32 = 0;
    while py < spec.height
        invariant
            py <= spec.height,
            rows.len() == py,
        decreases spec.height - py,
    {
        rows.push(Vec::new());
        py = py + 1;
    }
    let fill_all = move || -> (filled: Vec<Vec<u32>>)
        ensures
            is_grid(*spec, *kernel, filled@),
        {
            let mut rows = rows;
            fill_rows_parallel(&mut rows, spec, kernel);
            rows
        };
    let grid = pool.install(fill_all);
    proof {
        assert forall|py: int, px: int|
            0 <= py < grid.len() && 0 <= px < grid[py].len() implies #[trigger] grid[py][px]
            <= spec.max_iterations by {
            assert(is_row(*spec, *kernel, py as u32, grid@[py]@));
            assert(is_pixel_count(
                *kernel,
                spec.max_iterations as nat,
                px as u32,
                py as u32,
                grid@[py]@[px],
            ));
        }
    }
    grid
}

} // verus!
