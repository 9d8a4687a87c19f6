use tomato::timer::{Tick, Timer, TimerError, TimerState};

fn run_steady(duration: u64, interval: u64, readings: u64) -> Vec<u64> {
    let mut t = Timer::new(duration, interval);
    t.start().unwrap();
    let mut ticks = Vec::new();
    for k in 1..=readings {
        if t.is_finished() {
            break;
        }
        match t.on_clock(Some(k * interval)) {
            Ok(tick) => ticks.push(tick.elapsed),
            Err(e) => panic!("unexpected {:?}", e),
        }
    }
    ticks
}

#[test]
fn steady_clock_uneven_division() {
    // ceil(5 / 2) = 3 ticks; the last one is past the duration.
    assert_eq!(run_steady(5, 2, 10), vec![2, 4, 6]);
}

#[test]
fn steady_clock_even_division() {
    // ceil(4 / 2) + 1 = 3 ticks.
    assert_eq!(run_steady(4, 2, 10), vec![2, 4, 6]);
}

#[test]
fn steady_clock_one_second() {
    assert_eq!(run_steady(3, 1, 10), vec![1, 2, 3, 4]);
}

#[test]
fn new_timer_defaults_to_one_second() {
    let t = Timer::new(10, 0);
    assert_eq!(t.tick_interval, 1);
    assert_eq!(t.state, TimerState::Idle);
    assert_eq!(t.last_elapsed, 0);
}

#[test]
fn starts_only_once() {
    let mut t = Timer::new(10, 1);
    assert_eq!(t.start(), Ok(()));
    assert_eq!(t.start(), Err(TimerError::AlreadyStarted));
    assert_eq!(t.state, TimerState::Running);
}

#[test]
fn reading_before_start_is_refused() {
    let mut t = Timer::new(10, 1);
    assert_eq!(t.on_clock(Some(1)), Err(TimerError::NotRunning));
    assert_eq!(t.state, TimerState::Idle);
}

#[test]
fn unreadable_clock_is_fatal() {
    let mut t = Timer::new(10, 1);
    t.start().unwrap();
    assert_eq!(t.on_clock(Some(1)), Ok(Tick { elapsed: 1 }));
    assert_eq!(t.on_clock(None), Err(TimerError::ClockFailure));
    assert!(t.is_finished());
    assert_eq!(t.on_clock(Some(5)), Err(TimerError::NotRunning));
}

#[test]
fn clock_going_backwards_is_fatal() {
    let mut t = Timer::new(10, 1);
    t.start().unwrap();
    assert_eq!(t.on_clock(Some(3)), Ok(Tick { elapsed: 3 }));
    assert_eq!(t.on_clock(Some(2)), Err(TimerError::ClockFailure));
    assert!(t.is_finished());
}

#[test]
fn clock_standing_still_is_fatal() {
    let mut t = Timer::new(10, 1);
    t.start().unwrap();
    assert_eq!(t.on_clock(Some(3)), Ok(Tick { elapsed: 3 }));
    assert_eq!(t.on_clock(Some(3)), Err(TimerError::ClockFailure));
}

#[test]
fn ticks_follow_the_true_elapsed_time() {
    // A late wake-up shows in the tick: no drift from counting intervals.
    let mut t = Timer::new(10, 2);
    t.start().unwrap();
    assert_eq!(t.on_clock(Some(2)), Ok(Tick { elapsed: 2 }));
    assert_eq!(t.on_clock(Some(5)), Ok(Tick { elapsed: 5 }));
    assert_eq!(t.last_elapsed, 5);
    assert!(!t.is_finished());
    assert_eq!(t.on_clock(Some(11)), Ok(Tick { elapsed: 11 }));
    assert!(t.is_finished());
}
