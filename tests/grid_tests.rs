use mandelbrot::{evaluate, evaluate_grid, evaluate_grid_parallel, GridSpec, Kernel};

type Point = (f64, f64, f64, f64);

fn plane(
    spec: GridSpec,
    x_range: (f64, f64),
    y_range: (f64, f64),
) -> Kernel<impl Fn(u32, u32) -> Point + Sync, impl Fn(Point) -> bool + Sync, impl Fn(Point) -> Point + Sync>
{
    let width = spec.width as f64;
    let height = spec.height as f64;
    Kernel {
        start: move |px: u32, py: u32| {
            let x0 = px as f64 * (x_range.1 - x_range.0) / width + x_range.0;
            let y0 = py as f64 * (y_range.1 - y_range.0) / height + y_range.0;
            (0.0, 0.0, x0, y0)
        },
        escaped: |z: Point| !(z.0 * z.0 + z.1 * z.1 <= 4.0),
        step: |z: Point| (z.0 * z.0 - z.1 * z.1 + z.2, 2.0 * z.0 * z.1 + z.3, z.2, z.3),
    }
}

fn direct(spec: GridSpec, xlim: (f64, f64), ylim: (f64, f64)) -> Vec<Vec<u32>> {
    let (width, height, max_iter) = (spec.width, spec.height, spec.max_iterations);
    let mut result = vec![vec![0u32; width as usize]; height as usize];
    for py in 0..height {
        for px in 0..width {
            let x0 = px as f64 * (xlim.1 - xlim.0) / width as f64 + xlim.0;
            let y0 = py as f64 * (ylim.1 - ylim.0) / height as f64 + ylim.0;
            let mut x = 0.0;
            let mut y = 0.0;
            let mut iteration = 0;
            while x * x + y * y <= 4.0 && iteration < max_iter {
                let xtemp = x * x - y * y + x0;
                y = 2.0 * x * y + y0;
                x = xtemp;
                iteration += 1;
            }
            result[py as usize][px as usize] = iteration;
        }
    }
    result
}

const X_RANGE: (f64, f64) = (-2.0, 1.0);
const Y_RANGE: (f64, f64) = (-1.0, 1.0);

fn spec(width: u32, height: u32, max_iterations: u32) -> GridSpec {
    GridSpec { width, height, max_iterations }
}

fn pool(threads: usize) -> rayon::ThreadPool {
    rayon::ThreadPoolBuilder::new().num_threads(threads).build().unwrap()
}

#[test]
fn origin_of_plane_never_escapes() {
    let s = spec(300, 200, 100);
    let k = plane(s, X_RANGE, Y_RANGE);
    // Pixel (200, 100) maps to exactly 0 + 0i.
    assert_eq!(evaluate(200, 100, &s, &k), 100);
    let grid = evaluate_grid(&s, &k);
    assert_eq!(grid[100][200], 100);
}

#[test]
fn far_corner_escapes_quickly() {
    let s = spec(300, 200, 100);
    let k = plane(s, X_RANGE, Y_RANGE);
    assert!(evaluate(299, 199, &s, &k) <= 2);
    // A plane whose first pixel is exactly 2 + 2i.
    let far = plane(s, (2.0, 3.0), (2.0, 3.0));
    assert_eq!(evaluate(0, 0, &s, &far), 1);
}

#[test]
fn first_pixel_is_lower_left_corner() {
    // Pixel (0, 0) maps to -2 - i, which leaves radius 2 after one step.
    let s = spec(800, 600, 100);
    let k = plane(s, X_RANGE, Y_RANGE);
    assert_eq!(evaluate(0, 0, &s, &k), 1);
}

#[test]
fn grid_matches_scalar_loop() {
    let s = spec(120, 80, 100);
    let grid = evaluate_grid(&s, &plane(s, X_RANGE, Y_RANGE));
    assert_eq!(grid, direct(s, X_RANGE, Y_RANGE));
}

#[test]
fn sequential_is_deterministic() {
    let s = spec(90, 60, 100);
    let k = plane(s, X_RANGE, Y_RANGE);
    assert_eq!(evaluate_grid(&s, &k), evaluate_grid(&s, &k));
}

#[test]
fn parallel_matches_sequential_on_one_thread() {
    let s = spec(90, 60, 100);
    let k = plane(s, X_RANGE, Y_RANGE);
    assert_eq!(evaluate_grid_parallel(&s, &k, &pool(1)), evaluate_grid(&s, &k));
}

#[test]
fn parallel_matches_sequential_on_two_threads() {
    let s = spec(90, 60, 100);
    let k = plane(s, X_RANGE, Y_RANGE);
    assert_eq!(evaluate_grid_parallel(&s, &k, &pool(2)), evaluate_grid(&s, &k));
}

#[test]
fn parallel_matches_sequential_on_many_threads() {
    let s = spec(90, 60, 100);
    let k = plane(s, X_RANGE, Y_RANGE);
    assert_eq!(evaluate_grid_parallel(&s, &k, &pool(64)), evaluate_grid(&s, &k));
}

#[test]
fn parallel_matches_scalar_loop() {
    let s = spec(150, 100, 1000);
    let grid = evaluate_grid_parallel(&s, &plane(s, X_RANGE, Y_RANGE), &pool(4));
    assert_eq!(grid, direct(s, X_RANGE, Y_RANGE));
}

#[test]
fn counts_stay_within_budget() {
    let s = spec(80, 60, 50);
    let grid = evaluate_grid(&s, &plane(s, X_RANGE, Y_RANGE));
    assert!(grid.iter().flatten().all(|&c| c <= 50));
    assert!(grid.iter().flatten().any(|&c| c == 50));
    assert!(grid.iter().flatten().any(|&c| c < 50));
}

#[test]
fn grid_has_height_rows_of_width_cells() {
    let s = spec(37, 23, 20);
    let k = plane(s, X_RANGE, Y_RANGE);
    for grid in [evaluate_grid(&s, &k), evaluate_grid_parallel(&s, &k, &pool(2))] {
        assert_eq!(grid.len(), 23);
        assert!(grid.iter().all(|row| row.len() == 37));
    }
}

#[test]
fn one_by_one_grid() {
    let s = spec(1, 1, 100);
    let k = plane(s, X_RANGE, Y_RANGE);
    let grid = evaluate_grid(&s, &k);
    assert_eq!(grid, vec![vec![1]]);
    assert_eq!(evaluate_grid_parallel(&s, &k, &pool(2)), grid);
}

#[test]
fn larger_budget_never_lowers_a_count() {
    let low = spec(80, 60, 50);
    let high = spec(80, 60, 100);
    let a = evaluate_grid(&low, &plane(low, X_RANGE, Y_RANGE));
    let b = evaluate_grid(&high, &plane(high, X_RANGE, Y_RANGE));
    for py in 0..60 {
        for px in 0..80 {
            assert!(a[py][px] <= b[py][px]);
        }
    }
    assert_ne!(a, b);
}
