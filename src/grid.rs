//! Rasterising the kernel: one escape time per pixel, scanned row by row.

use vstd::prelude::*;

use crate::escape::{escape_time, is_deterministic, is_escape_run, lemma_budget_monotone};

verus! {

/// The integer part of a grid description: the raster's size and the
/// iteration budget. Where each pixel lands in the plane is the business of
/// the kernel's `start` closure.
#[derive(Clone, Copy, Debug, PartialEq, Eq)]
pub struct GridSpec {
    pub width: u32,
    pub height: u32,
    pub max_iterations: u32,
}

/// What the evaluator needs of the plane: `start` maps a pixel `(px, py)` to
/// the first point of its orbit, `escaped` tells whether a point has left the
/// escape radius, and `step` applies the recurrence once.
pub struct Kernel<O, E, N> {
    pub start: O,
    pub escaped: E,
    pub step: N,
}

/// The kernel may be called on every pixel of `spec` and on every orbit point.
pub open spec fn kernel_callable<S, O: Fn(u32, u32) -> S, E: Fn(S) -> bool, N: Fn(S) -> S>(
    spec: GridSpec,
    kernel: Kernel<O, E, N>,
) -> bool {
    &&& forall|px: u32, py: u32|
        px < spec.width && py < spec.height ==> #[trigger] kernel.start.requires((px, py))
    &&& forall|s: S| #[trigger] kernel.escaped.requires((s,))
    &&& forall|s: S| #[trigger] kernel.step.requires((s,))
}

/// A two-argument function whose result is fixed by its arguments.
pub open spec fn is_deterministic2<A, B, R, F: Fn(A, B) -> R>(f: F) -> bool {
    forall|a: A, b: B, r1: R, r2: R|
        #[trigger] f.ensures((a, b), r1) && #[trigger] f.ensures((a, b), r2) ==> r1 == r2
}

/// Every closure of the kernel is deterministic.
pub open spec fn kernel_deterministic<S, O: Fn(u32, u32) -> S, E: Fn(S) -> bool, N: Fn(S) -> S>(
    kernel: Kernel<O, E, N>,
) -> bool {
    &&& is_deterministic2(kernel.start)
    &&& is_deterministic(kernel.escaped)
    &&& is_deterministic(kernel.step)
}

/// `count` is the escape time of pixel `(px, py)` under budget `max`: it is
/// within the budget, and it is the length, less one, of a run that begins at
/// the point `start` gives the pixel.
pub open spec fn is_pixel_count<S, O: Fn(u32, u32) -> S, E: Fn(S) -> bool, N: Fn(S) -> S>(
    kernel: Kernel<O, E, N>,
    max: nat,
    px: u32,
    py: u32,
    count: u32,
) -> bool {
    &&& count <= max
    &&& exists|orbit: Seq<S>|
        #[trigger] is_escape_run(kernel.escaped, kernel.step, orbit[0], max, orbit)
            && kernel.start.ensures((px, py), orbit[0]) && orbit.len() == count + 1
}

/// `row` holds the escape time of each pixel of row `py`, in column order.
pub open spec fn is_row<S, O: Fn(u32, u32) -> S, E: Fn(S) -> bool, N: Fn(S) -> S>(
    spec: GridSpec,
    kernel: Kernel<O, E, N>,
    py: u32,
    row: Seq<u32>,
) -> bool {
    &&& row.len() == spec.width
    &&& forall|px: int|
        0 <= px < row.len() ==> is_pixel_count(
            kernel,
            spec.max_iterations as nat,
            px as u32,
            py,
            #[trigger] row[px],
        )
}

/// `grid` holds the rows of `spec` in order, indexed `[py][px]`.
pub open spec fn is_grid<S, O: Fn(u32, u32) -> S, E: Fn(S) -> bool, N: Fn(S) -> S>(
    spec: GridSpec,
    kernel: Kernel<O, E, N>,
    grid: Seq<Vec<u32>>,
) -> bool {
    &&& grid.len() == spec.height
    &&& forall|py: int| 0 <= py < grid.len() ==> is_row(spec, kernel, py as u32, #[trigger] grid[py]@)
}

/// The escape time of one pixel.
pub fn evaluate<S: Copy, O: Fn(u32, u32) -> S, E: Fn(S) -> bool, N: Fn(S) -> S>(
    px: u32,
    py: u32,
    spec: &GridSpec,
    kernel: &Kernel<O, E, N>,
) -> (r: u32)
    requires
        px < spec.width,
        py < spec.height,
        kernel_callable(*spec, *kernel),
    ensures
        r <= spec.max_iterations,
        is_pixel_count(*kernel, spec.max_iterations as nat, px, py, r),
{
    let z0 = (kernel.start)(px, py);
    escape_time(z0, &kernel.escaped, &kernel.step, spec.max_iterations)
}

/// The escape times of row `py`, column by column.
pub fn evaluate_row<S: Copy, O: Fn(u32, u32) -> S, E: Fn(S) -> bool, N: Fn(S) -> S>(
    spec: &GridSpec,
    kernel: &Kernel<O, E, N>,
    py: u32,
) -> (row: Vec<u32>)
    requires
        py < spec.height,
        kernel_callable(*spec, *kernel),
    ensures
        is_row(*spec, *kernel, py, row@),
{
    let mut row: Vec<u32> = Vec::new();
    let mut px: u32 = 0;
    while px < spec.width
        invariant
            py < spec.height,
            kernel_callable(*spec, *kernel),
            px <= spec.width,
            row.len() == px,
            forall|i: int|
                0 <= i < row.len() ==> is_pixel_count(
                    *kernel,
                    spec.max_iterations as nat,
                    i as u32,
                    py,
                    #[trigger] row@[i],
                ),
        decreases spec.width - px,
    {
        let count = evaluate(px, py, spec, kernel);
        row.push(count);
        px = px + 1;
    }
    row
}

/// Evaluates every pixel of `spec`, scanning rows `0..height` and, within a
/// row, columns `0..width`. The result is indexed `[py][px]`.
pub fn evaluate_grid<S: Copy, O: Fn(u32, u32) -> S, E: Fn(S) -> bool, N: Fn(S) -> S>(
    spec: &GridSpec,
    kernel: &Kernel<O, E, N>,
) -> (grid: Vec<Vec<u32>>)
    requires
        kernel_callable(*spec, *kernel),
    ensures
        is_grid(*spec, *kernel, grid@),
        grid.len() == spec.height,
        forall|py: int| 0 <= py < grid.len() ==> #[trigger] grid[py].len() == spec.width,
        forall|py: int, px: int|
            0 <= py < grid.len() && 0 <= px < grid[py].len() ==> #[trigger] grid[py][px]
                <= spec.max_iterations,
{
    let mut grid: Vec<Vec<u32>> = Vec::new();
    let mut py: u32 = 0;
    while py < spec.height
        invariant
            kernel_callable(*spec, *kernel),
            py <= spec.height,
            grid.len() == py,
            forall|i: int| 0 <= i < grid.len() ==> is_row(*spec, *kernel, i as u32, #[trigger] grid@[i]@),
        decreases spec.height - py,
    {
        let row = evaluate_row(spec, kernel, py);
        grid.push(row);
        py = py + 1;
    }
    proof {
        assert forall|py: int, px: int|
            0 <= py < grid.len() && 0 <= px < grid[py].len() implies #[trigger] grid[py][px]
            <= spec.max_iterations by {
            assert(is_row(*spec, *kernel, py as u32, grid@[py]@));
            assert(is_pixel_count(*kernel, spec.max_iterations as nat, px as u32, py as u32, grid@[py]@[px]));
        }
    }
    grid
}

/// With a deterministic kernel, a pixel's escape time under a budget is never
/// lower than under a smaller budget.
pub proof fn lemma_pixel_budget_monotone<S, O: Fn(u32, u32) -> S, E: Fn(S) -> bool, N: Fn(S) -> S>(
    kernel: Kernel<O, E, N>,
    max1: nat,
    max2: nat,
    px: u32,
    py: u32,
    count1: u32,
    count2: u32,
)
    requires
        kernel_deterministic(kernel),
        max1 <= max2,
        is_pixel_count(kernel, max1, px, py, count1),
        is_pixel_count(kernel, max2, px, py, count2),
    ensures
        count1 <= count2,
{
    let orbit1 = choose|orbit: Seq<S>|
        #[trigger] is_escape_run(kernel.escaped, kernel.step, orbit[0], max1, orbit)
            && kernel.start.ensures((px, py), orbit[0]) && orbit.len() == count1 + 1;
    let orbit2 = choose|orbit: Seq<S>|
        #[trigger] is_escape_run(kernel.escaped, kernel.step, orbit[0], max2, orbit)
            && kernel.start.ensures((px, py), orbit[0]) && orbit.len() == count2 + 1;
    assert(orbit1[0] == orbit2[0]);
    lemma_budget_monotone(kernel.escaped, kernel.step, orbit1[0], max1, orbit1, max2, orbit2);
}

/// Raising the iteration budget while holding the rest of the grid fixed never
/// lowers any pixel's escape time, for a deterministic kernel.
pub proof fn lemma_grid_budget_monotone<S, O: Fn(u32, u32) -> S, E: Fn(S) -> bool, N: Fn(S) -> S>(
    kernel: Kernel<O, E, N>,
    spec1: GridSpec,
    spec2: GridSpec,
    grid1: Seq<Vec<u32>>,
    grid2: Seq<Vec<u32>>,
)
    requires
        kernel_deterministic(kernel),
        spec1.width == spec2.width,
        spec1.height == spec2.height,
        spec1.max_iterations <= spec2.max_iterations,
        is_grid(spec1, kernel, grid1),
        is_grid(spec2, kernel, grid2),
    ensures
        grid1.len() == grid2.len(),
        forall|py: int| 0 <= py < grid1.len() ==> #[trigger] grid1[py]@.len() == grid2[py]@.len(),
        forall|py: int, px: int|
            0 <= py < grid1.len() && 0 <= px < grid1[py]@.len() ==> #[trigger] grid1[py]@[px]
                <= grid2[py]@[px],
{
    assert forall|py: int| 0 <= py < grid1.len() implies #[trigger] grid1[py]@.len()
        == grid2[py]@.len() by {
        assert(is_row(spec1, kernel, py as u32, grid1[py]@));
        assert(is_row(spec2, kernel, py as u32, grid2[py]@));
    }
    assert forall|py: int, px: int|
        0 <= py < grid1.len() && 0 <= px < grid1[py]@.len() implies #[trigger] grid1[py]@[px]
        <= grid2[py]@[px] by {
        assert(is_row(spec1, kernel, py as u32, grid1[py]@));
        assert(is_row(spec2, kernel, py as u32, grid2[py]@));
        lemma_pixel_budget_monotone(
            kernel,
            spec1.max_iterations as nat,
            spec2.max_iterations as nat,
            px as u32,
            py as u32,
            grid1[py]@[px],
            grid2[py]@[px],
        );
    }
}

/// Any two grids evaluated for one `spec` with one deterministic kernel are
/// equal cell for cell. This covers repeated sequential evaluations, and the
/// parallel evaluator against the sequential one whatever the worker pool.
pub proof fn lemma_grids_agree<S, O: Fn(u32, u32) -> S, E: Fn(S) -> bool, N: Fn(S) -> S>(
    kernel: Kernel<O, E, N>,
    spec: GridSpec,
    grid1: Seq<Vec<u32>>,
    grid2: Seq<Vec<u32>>,
)
    requires
        kernel_deterministic(kernel),
        is_grid(spec, kernel, grid1),
        is_grid(spec, kernel, grid2),
    ensures
        grid1.len() == grid2.len(),
        forall|py: int| 0 <= py < grid1.len() ==> #[trigger] grid1[py]@ == grid2[py]@,
{
    lemma_grid_budget_monotone(kernel, spec, spec, grid1, grid2);
    lemma_grid_budget_monotone(kernel, spec, spec, grid2, grid1);
    assert forall|py: int| 0 <= py < grid1.len() implies #[trigger] grid1[py]@ == grid2[py]@ by {
        assert(grid1[py]@ =~= grid2[py]@);
    }
}

} // verus!
