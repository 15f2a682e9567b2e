use osaka::time::{sleep, sleep_until, Clock, Duration, SimTime, Sleep, SleepIds, TimeDriver};
use std::sync::{Arc, Mutex};
use std::task::{Wake, Waker};

struct CountingWaker {
    wakes: Arc<Mutex<usize>>,
}

impl Wake for CountingWaker {
    fn wake(self: Arc<Self>) {
        *self.wakes.lock().unwrap() += 1;
    }
}

fn counting_waker() -> (Waker, Arc<Mutex<usize>>) {
    let wakes = Arc::new(Mutex::new(0));
    (Waker::from(Arc::new(CountingWaker { wakes: wakes.clone() })), wakes)
}

fn at(secs: u64) -> SimTime {
    SimTime::zero() + Duration::from_secs(secs)
}

#[test]
fn simtime_differences() {
    let a = at(5);
    let b = at(3);
    assert_eq!(a.duration_diff(b), Duration::from_secs(2));
    assert_eq!(b.duration_diff(a), Duration::from_secs(2));
    assert_eq!(a.duration_since(b), Duration::from_secs(2));
    assert_eq!(b.checked_duration_since(a), None);
    assert_eq!(b.saturating_duration_since(a), Duration::zero());
    assert_eq!(b.elapsed(a), Duration::from_secs(2));
    assert_eq!(a - b, Duration::from_secs(2));
}

#[test]
fn simtime_duration_since_later_is_zero() {
    let a = at(5);
    let b = at(3);
    assert_eq!(b.duration_since(a), Duration::zero());
    assert_eq!(b - a, Duration::zero());
    assert_eq!(a.elapsed(b), Duration::zero());
}

#[test]
fn simtime_approximate_equality() {
    let a = at(1);
    assert!(a.eq_approx(a + Duration::from_nanos(9)));
    assert!(!a.eq_approx(a + Duration::from_nanos(10)));
    assert!((a + Duration::from_nanos(9)).eq_approx(a));
}

#[test]
fn simtime_moves_within_bounds() {
    assert_eq!(at(1).checked_add(Duration::from_secs(2)), Some(at(3)));
    assert_eq!(SimTime::max().checked_add(Duration::from_nanos(1)), None);
    assert_eq!(at(3).checked_sub(Duration::from_secs(2)), Some(at(1)));
    assert_eq!(at(1).checked_sub(Duration::from_secs(2)), None);
    assert_eq!(at(3) - Duration::from_secs(3), SimTime::min());
    assert_eq!(SimTime::default(), SimTime::zero());
    assert!(at(1) < at(2));
    assert_eq!(at(7).as_duration(), Duration::from_secs(7));
    let _clock = Clock::new();
}

#[test]
fn sleep_deadlines() {
    let mut ids = SleepIds::new(7);
    let s = sleep(at(2), Duration::from_secs(3), &mut ids);
    assert_eq!(s.deadline(), at(5));
    assert_eq!(s.id(), 7);
    let far = sleep(at(2), Duration::max(), &mut ids);
    assert_eq!(far.deadline(), SimTime::max());
    assert_eq!(far.id(), 8);
    let farther = Sleep::far_future(&mut ids);
    assert_eq!(farther.deadline(), SimTime::max());
    assert_eq!(farther.id(), 9);
    let until = sleep_until(at(4), &mut ids);
    assert_eq!(until.id(), 10);
    assert!(!until.is_elapsed(at(3)));
    assert!(until.is_elapsed(at(4)));
    assert!(until.is_elapsed(at(5)));
}

#[test]
fn driver_wakes_sleepers_due_now() {
    let mut ids = SleepIds::new(0);
    let mut driver = TimeDriver::new();
    assert_eq!(driver.next_wakeup(), None);
    let (waker, wakes) = counting_waker();
    let s = sleep_until(at(1), &mut ids);
    assert!(s.poll(&mut driver, at(0), waker.clone()).is_pending());
    // Registering the same sleeper twice keeps one entry.
    assert!(s.poll(&mut driver, at(0), waker.clone()).is_pending());
    assert_eq!(driver.next_wakeup(), Some(at(1)));
    assert!(driver.take_timestep(at(0)).is_empty());
    let woken = driver.take_timestep(at(1));
    assert_eq!(woken.len(), 1);
    for w in woken {
        w.wake();
    }
    assert_eq!(*wakes.lock().unwrap(), 1);
    assert_eq!(driver.next_wakeup(), None);
    assert!(s.poll(&mut driver, at(1), waker.clone()).is_ready());
}

#[test]
fn driver_reports_the_earliest_deadline() {
    let mut driver = TimeDriver::new();
    let mut ids = SleepIds::new(0);
    let (waker, _) = counting_waker();
    let early = sleep_until(at(2), &mut ids);
    let late = sleep_until(at(5), &mut ids);
    let _ = late.poll(&mut driver, at(0), waker.clone());
    let _ = early.poll(&mut driver, at(0), waker.clone());
    assert_eq!(driver.next_wakeup(), Some(at(2)));
    // Only the sleeper due at 2 s is woken; the later one stays.
    assert_eq!(driver.take_timestep(at(2)).len(), 1);
    assert_eq!(driver.next_wakeup(), Some(at(5)));
    assert_eq!(driver.take_timestep(at(5)).len(), 1);
    assert_eq!(driver.next_wakeup(), None);
}

#[test]
fn timestep_wakes_every_sleeper_due_now() {
    let mut driver = TimeDriver::new();
    let mut ids = SleepIds::new(0);
    let (waker, wakes) = counting_waker();
    let a = sleep_until(at(5), &mut ids);
    let b = sleep_until(at(5), &mut ids);
    let c = sleep_until(at(SimTime::max().as_duration().as_secs()), &mut ids);
    let _ = a.poll(&mut driver, at(0), waker.clone());
    let _ = c.poll(&mut driver, at(0), waker.clone());
    let _ = b.poll(&mut driver, at(0), waker.clone());
    assert_eq!(driver.next_wakeup(), Some(at(5)));
    for w in driver.take_timestep(at(5)) {
        w.wake();
    }
    assert_eq!(*wakes.lock().unwrap(), 2);
    assert!(driver.next_wakeup().unwrap() > at(5));
}

#[test]
fn reset_moves_the_deadline() {
    let mut ids = SleepIds::new(0);
    let mut driver = TimeDriver::new();
    let (waker, _) = counting_waker();
    let mut s = sleep_until(at(2), &mut ids);
    let _ = s.poll(&mut driver, at(0), waker.clone());
    s.reset(&mut driver, at(6));
    assert_eq!(s.deadline(), at(6));
    assert_eq!(driver.next_wakeup(), Some(at(6)));
}

#[test]
fn sleep_test_scenario_one_sleeper_per_event() {
    let mut ids = SleepIds::new(0);
    // The loop of a simulation: a task sleeps for one second after each
    // packet; the next event is inserted at the driver's next wakeup.
    let mut driver = TimeDriver::new();
    let (waker, wakes) = counting_waker();
    let mut now = at(1);
    let s = sleep(now, Duration::from_secs(1), &mut ids);
    assert!(s.poll(&mut driver, now, waker.clone()).is_pending());
    let next = driver.next_wakeup().unwrap();
    assert_eq!(next, at(2));
    now = next;
    for w in driver.take_timestep(now) {
        w.wake();
    }
    assert_eq!(*wakes.lock().unwrap(), 1);
    assert!(s.poll(&mut driver, now, waker.clone()).is_ready());
    assert_eq!(driver.next_wakeup(), None);
}

#[test]
fn going_forward_and_back_returns() {
    let t = at(7) + Duration::from_nanos(3);
    let d = Duration::new(12, 999_999_999);
    assert_eq!((t + d) - d, t);
    assert_eq!((t + d).checked_sub(d), Some(t));
    assert_eq!((t + d) - t, d);
}

#[test]
fn sleep_ids_differ_and_wrap() {
    let mut ids = SleepIds::new(usize::MAX);
    let a = sleep_until(at(1), &mut ids);
    let b = sleep_until(at(1), &mut ids);
    assert_eq!(a.id(), usize::MAX);
    assert_eq!(b.id(), 0);
    assert_ne!(a.id(), b.id());
}

#[test]
fn registering_keeps_the_given_waker() {
    let mut driver = TimeDriver::new();
    let mut ids = SleepIds::new(0);
    let (first, first_wakes) = counting_waker();
    let (second, second_wakes) = counting_waker();
    let s = sleep_until(at(3), &mut ids);
    assert!(s.poll(&mut driver, at(0), first).is_pending());
    // Polling again keeps the handle registered first.
    assert!(s.poll(&mut driver, at(1), second).is_pending());
    for w in driver.take_timestep(at(3)) {
        w.wake();
    }
    assert_eq!(*first_wakes.lock().unwrap(), 1);
    assert_eq!(*second_wakes.lock().unwrap(), 0);
}
