use mandelbrot::escape_time;

fn count_from(start: u32, threshold: u32, max: u32) -> u32 {
    let escaped = move |s: u32| s >= threshold;
    let step = |s: u32| s.saturating_add(1);
    escape_time(start, &escaped, &step, max)
}

#[test]
fn escape_time_counts_steps_before_escape() {
    assert_eq!(count_from(0, 3, 10), 3);
}

#[test]
fn escape_time_stops_at_budget() {
    assert_eq!(count_from(0, 3, 2), 2);
    assert_eq!(count_from(0, 1000, 100), 100);
}

#[test]
fn escape_time_zero_budget() {
    assert_eq!(count_from(0, 3, 0), 0);
}

#[test]
fn escape_time_immediate_escape() {
    assert_eq!(count_from(5, 3, 10), 0);
}

#[test]
fn escape_time_budget_never_lowers_count() {
    for max in 0..20u32 {
        assert!(count_from(0, 7, max) <= count_from(0, 7, max + 1));
    }
}

#[test]
fn escape_time_on_complex_orbit() {
    // c = 1 + i: z1 = 1 + i, z2 = 1 + 3i, which lies outside radius 2.
    let escaped = |z: (f64, f64)| !(z.0 * z.0 + z.1 * z.1 <= 4.0);
    let step = |z: (f64, f64)| (z.0 * z.0 - z.1 * z.1 + 1.0, 2.0 * z.0 * z.1 + 1.0);
    assert_eq!(escape_time((0.0, 0.0), &escaped, &step, 100), 2);
    // c = 0 never escapes.
    let still = |z: (f64, f64)| (z.0 * z.0 - z.1 * z.1, 2.0 * z.0 * z.1);
    assert_eq!(escape_time((0.0, 0.0), &escaped, &still, 100), 100);
}

