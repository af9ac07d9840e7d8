use bl602_wifi::timers::{TimerTable, TIMER_SLOTS};

#[test]
fn two_timers_fire_on_their_own_periods() {
    let mut t = TimerTable::new();
    let now = 0u32;
    assert_eq!(t.register(1, 1000, now + 1000), Some(0));
    assert_eq!(t.register(2, 1500, now + 1500), Some(1));
    assert_eq!(t.poll_once(1000), vec![1]);
    assert_eq!(t.poll_once(1500), vec![2]);
    assert_eq!(t.poll_once(2000), vec![1]);
    assert_eq!(t.poll_once(3000), vec![1, 2]);
}

#[test]
fn timer_fires_twice_over_two_and_a_half_periods() {
    let mut t = TimerTable::new();
    let start = 5000u32;
    t.register(9, 1000, start + 1000).unwrap();
    let mut fire_times = Vec::new();
    for now in [start + 500, start + 1500, start + 2500] {
        for _ in t.poll_once(now) {
            fire_times.push(now);
        }
    }
    assert_eq!(fire_times.len(), 2);
    assert!(fire_times.windows(2).all(|w| w[0] <= w[1]));
    assert_eq!(fire_times, vec![start + 1500, start + 2500]);
}

#[test]
fn timer_fires_once_per_poll_without_catch_up() {
    let mut t = TimerTable::new();
    t.register(4, 100, 100).unwrap();
    assert_eq!(t.poll_once(10_000), vec![4]);
    assert_eq!(t.poll_once(10_000), Vec::<usize>::new());
    assert_eq!(t.poll_once(10_099), Vec::<usize>::new());
    assert_eq!(t.poll_once(10_100), vec![4]);
}

#[test]
fn disabled_timer_never_fires() {
    let mut t = TimerTable::new();
    t.register(3, 1000, 0).unwrap();
    assert_eq!(t.poll_once(u32::MAX), Vec::<usize>::new());
}

#[test]
fn timer_table_full_refuses_registration() {
    let mut t = TimerTable::new();
    for n in 0..TIMER_SLOTS {
        assert_eq!(t.register(n, 10, 10), Some(n));
    }
    assert_eq!(t.register(99, 10, 10), None);
    let fired = t.poll_once(10);
    assert_eq!(fired, (0..TIMER_SLOTS).collect::<Vec<usize>>());
}

#[test]
fn timer_next_fire_wraps_with_the_clock() {
    let mut t = TimerTable::new();
    t.register(1, 100, u32::MAX - 10).unwrap();
    assert_eq!(t.poll_once(u32::MAX - 10), vec![1]);
    assert_eq!(t.poll_once(88), Vec::<usize>::new());
    assert_eq!(t.poll_once(89), vec![1]);
}
