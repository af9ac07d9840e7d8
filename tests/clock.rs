use bl602_wifi::clock::{millis_sum, MonotonicClock, TICK_MS};

#[test]
fn clock_starts_at_zero() {
    let c = MonotonicClock::new();
    assert_eq!(c.elapsed_ms, 0);
    assert_eq!(c.now(0), 0);
    assert_eq!(c.now(7), 7);
}

#[test]
fn clock_advances_by_tick_per_interrupt() {
    let mut c = MonotonicClock::new();
    for _ in 0..5 {
        c.on_tick();
    }
    assert_eq!(c.elapsed_ms, 5 * TICK_MS);
    assert_eq!(c.elapsed_ms, 100);
    assert_eq!(c.now(3), 103);
}

#[test]
fn clock_reads_are_monotonic_across_ticks() {
    let mut c = MonotonicClock::new();
    let t1 = c.now(15);
    c.on_tick();
    let t2 = c.now(0);
    assert!(t2 >= t1);
    c.on_tick();
    c.on_tick();
    let t3 = c.now(4);
    assert!(t3 >= t2 + 2 * TICK_MS);
}

#[test]
fn clock_wraps_at_u32_max() {
    let mut c = MonotonicClock { elapsed_ms: u32::MAX - 5 };
    c.on_tick();
    assert_eq!(c.elapsed_ms, 14);
}

#[test]
fn millis_sum_adds_and_wraps() {
    assert_eq!(millis_sum(1000, 1500), 2500);
    assert_eq!(millis_sum(u32::MAX, 1), 0);
    assert_eq!(millis_sum(u32::MAX - 1, 1), u32::MAX);
}
