use patoka::timer::Timer;

/// An actor with an interval timer and a timeout timer on a clock of
/// milliseconds: each interval firing counts and restarts both timers; it
/// stops at `lifetime`. Returns the number of interval and timeout firings.
fn run_actor(interval: u64, timeout: u64, lifetime: u64) -> (usize, usize) {
    let mut interval_timer = Timer::new();
    let mut timeout_timer = Timer::new();
    interval_timer.start(0, interval);
    timeout_timer.start(0, timeout);
    let mut intervals = 0;
    let mut timeouts = 0;
    loop {
        let next = [interval_timer.deadline, timeout_timer.deadline]
            .into_iter()
            .flatten()
            .min();
        let now = match next {
            Some(t) if t < lifetime => t,
            _ => break,
        };
        if interval_timer.fire(now) {
            intervals += 1;
            interval_timer.reset(now);
            timeout_timer.reset(now);
        }
        if timeout_timer.fire(now) {
            timeouts += 1;
        }
    }
    (intervals, timeouts)
}

#[test]
fn test_interval_timer() {
    let (intervals, timeouts) = run_actor(500, 2000, 3200);
    assert_eq!(intervals, 6);
    assert_eq!(timeouts, 0);
}

#[test]
fn test_timeout_timer() {
    let (intervals, timeouts) = run_actor(2000, 1000, 1200);
    assert_eq!(intervals, 0);
    assert_eq!(timeouts, 1);
}

#[test]
fn timer_reset_and_cancel() {
    let mut t = Timer::new_s(2);
    assert_eq!(t.duration, Some(2000));
    assert!(!t.is_due(5000));
    t.reset(100);
    assert_eq!(t.deadline, Some(2100));
    assert!(!t.fire(2099));
    assert!(t.fire(2100));
    assert_eq!(t.deadline, None);
    t.reset(3000);
    t.cancel();
    assert!(!t.is_due(10_000));
    let mut u = Timer::new();
    u.reset(10);
    assert_eq!(u.deadline, None);
    assert_eq!(Timer::new_ms(250).duration, Some(250));
}
