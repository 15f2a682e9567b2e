use osaka::sync::batch_semaphore::{Acquire, Semaphore as RawSemaphore, Waiter};
use osaka::sync::{Semaphore, TryAcquireError};
use std::sync::{Arc, Mutex};
use osaka::task_waker::Poll;
use std::task::{Wake, Waker};

struct CountingWaker {
    wakes: Arc<Mutex<usize>>,
}

impl Wake for CountingWaker {
    fn wake(self: Arc<Self>) {
        *self.wakes.lock().unwrap() += 1;
    }
}

/// Wakes the handles the semaphore gave back, and tells how many there were.
fn wake_all(wakers: Vec<Waker>) -> usize {
    let n = wakers.len();
    for w in wakers {
        w.wake();
    }
    n
}

fn counting_waker() -> (Waker, Arc<Mutex<usize>>) {
    let wakes = Arc::new(Mutex::new(0));
    (Waker::from(Arc::new(CountingWaker { wakes: wakes.clone() })), wakes)
}

#[test]
fn try_acquire_until_empty() {
    let mut semaphore = Semaphore::new(2);
    let permit_1 = semaphore.try_acquire().unwrap();
    assert_eq!(semaphore.available_permits(), 1);
    let permit_2 = semaphore.try_acquire().unwrap();
    assert_eq!(semaphore.available_permits(), 0);
    let permit_3 = semaphore.try_acquire();
    assert_eq!(permit_3.err(), Some(TryAcquireError::NoPermits));
    wake_all(semaphore.release_permit(permit_1));
    assert_eq!(semaphore.available_permits(), 1);
    wake_all(semaphore.release_permit(permit_2));
    assert_eq!(semaphore.available_permits(), 2);
}

#[test]
fn try_acquire_many_needs_enough() {
    let mut semaphore = Semaphore::new(4);
    let permit_1 = semaphore.try_acquire_many(3).unwrap();
    assert_eq!(permit_1.num_permits(), 3);
    assert_eq!(semaphore.available_permits(), 1);
    let permit_2 = semaphore.try_acquire_many(2);
    assert_eq!(permit_2.err(), Some(TryAcquireError::NoPermits));
}

#[test]
fn owned_permits_count_the_same() {
    let mut semaphore = Semaphore::new(2);
    let permit_1 = semaphore.try_acquire_owned().unwrap();
    assert_eq!(semaphore.available_permits(), 1);
    let _permit_2 = semaphore.try_acquire_owned().unwrap();
    assert_eq!(semaphore.available_permits(), 0);
    assert_eq!(semaphore.try_acquire_owned().err(), Some(TryAcquireError::NoPermits));
    wake_all(semaphore.release_owned_permit(permit_1));
    let permit_3 = semaphore.try_acquire_many_owned(1).unwrap();
    assert_eq!(permit_3.num_permits(), 1);
    assert_eq!(semaphore.try_acquire_many_owned(1).err(), Some(TryAcquireError::NoPermits));
}

#[test]
fn forget_keeps_permits_away() {
    let mut semaphore = Semaphore::new(3);
    let permit = semaphore.try_acquire_many(2).unwrap();
    permit.forget();
    assert_eq!(semaphore.available_permits(), 1);
}

#[test]
fn closed_semaphore_refuses() {
    let mut semaphore = Semaphore::new(1);
    assert!(!semaphore.is_closed());
    wake_all(semaphore.close());
    assert!(semaphore.is_closed());
    assert_eq!(semaphore.try_acquire().err(), Some(TryAcquireError::Closed));
    assert!(TryAcquireError::Closed.is_closed());
    assert!(TryAcquireError::NoPermits.is_no_permits());
}

#[test]
fn acquire_waits_and_fails_on_close() {
    let mut semaphore = Semaphore::new(1);
    let (waker, wakes) = counting_waker();
    let mut acquire = semaphore.start_acquire(2);
    assert!(semaphore.poll_acquire(&mut acquire, waker.clone()).is_pending());
    assert_eq!(semaphore.available_permits(), 0);
    wake_all(semaphore.close());
    assert_eq!(*wakes.lock().unwrap(), 1);
    match semaphore.poll_acquire(&mut acquire, waker.clone()) {
        Poll::Ready(Err(_)) => {}
        _ => panic!("a closed semaphore hands out no permits"),
    }
}

#[test]
fn waiters_are_served_oldest_first() {
    let mut semaphore = Semaphore::new(1);
    let (waker_a, wakes_a) = counting_waker();
    let (waker_b, wakes_b) = counting_waker();
    let mut first = semaphore.start_acquire(2);
    let mut second = semaphore.start_acquire(1);
    assert!(semaphore.poll_acquire(&mut first, waker_a.clone()).is_pending());
    assert!(semaphore.poll_acquire(&mut second, waker_b.clone()).is_pending());
    // The first waiter took the one permit and still needs one more.
    wake_all(semaphore.add_permits(1));
    assert_eq!(*wakes_a.lock().unwrap(), 1);
    assert_eq!(*wakes_b.lock().unwrap(), 0);
    match semaphore.poll_acquire(&mut first, waker_a.clone()) {
        Poll::Ready(Ok(p)) => assert_eq!(p.num_permits(), 2),
        _ => panic!("the first waiter has all its permits"),
    }
    assert!(semaphore.poll_acquire(&mut second, waker_b.clone()).is_pending());
    wake_all(semaphore.add_permits(3));
    assert_eq!(*wakes_b.lock().unwrap(), 1);
    assert_eq!(semaphore.available_permits(), 2);
    assert!(semaphore.poll_acquire(&mut second, waker_b.clone()).is_ready());
}

#[test]
fn cancelled_acquire_gives_back_what_it_received() {
    let mut semaphore = Semaphore::new(2);
    let (waker, _) = counting_waker();
    let mut acquire = semaphore.start_acquire(5);
    assert!(semaphore.poll_acquire(&mut acquire, waker.clone()).is_pending());
    assert_eq!(semaphore.available_permits(), 0);
    wake_all(semaphore.cancel_acquire(acquire));
    assert_eq!(semaphore.available_permits(), 2);
}

#[test]
fn acquire_with_enough_permits_completes_at_once() {
    let mut semaphore = Semaphore::new(5);
    let (waker, wakes) = counting_waker();
    let mut acquire = semaphore.start_acquire(3);
    match semaphore.poll_acquire(&mut acquire, waker.clone()) {
        Poll::Ready(Ok(p)) => assert_eq!(p.num_permits(), 3),
        _ => panic!("enough permits were available"),
    }
    assert_eq!(semaphore.available_permits(), 2);
    assert_eq!(*wakes.lock().unwrap(), 0);
}

#[test]
fn const_new_masks_permits() {
    let semaphore = Semaphore::const_new(7);
    assert_eq!(semaphore.available_permits(), 7);
    let masked = Semaphore::const_new(usize::MAX);
    assert_eq!(masked.available_permits(), usize::MAX >> 3);
}

#[test]
fn waiter_takes_what_it_needs() {
    let mut waiter = Waiter::new(7, 5);
    let mut n = 3;
    assert!(!waiter.assign_permits(&mut n));
    assert_eq!(n, 0);
    let mut m = 4;
    assert!(waiter.assign_permits(&mut m));
    assert_eq!(m, 2);
}

#[test]
fn raw_semaphore_release_serves_waiters() {
    let mut semaphore = RawSemaphore::new(0);
    let (waker, wakes) = counting_waker();
    let mut acquire = Acquire::new(&mut semaphore, 2);
    assert!(acquire.poll(&mut semaphore, waker.clone()).is_pending());
    wake_all(semaphore.release(5));
    assert_eq!(*wakes.lock().unwrap(), 1);
    assert_eq!(semaphore.available_permits(), 3);
    assert!(acquire.poll(&mut semaphore, waker.clone()).is_ready());
    assert_eq!(semaphore.try_acquire(3), Ok(()));
    assert_eq!(semaphore.try_acquire(1), Err(TryAcquireError::NoPermits));
}

#[test]
fn error_messages() {
    assert_eq!(TryAcquireError::Closed.message(), "semaphore closed");
    assert_eq!(TryAcquireError::NoPermits.message(), "no permits available");
    let mut semaphore = Semaphore::new(0);
    wake_all(semaphore.close());
    let (waker, _) = counting_waker();
    let mut acquire = semaphore.start_acquire(1);
    match semaphore.poll_acquire(&mut acquire, waker.clone()) {
        Poll::Ready(Err(e)) => assert_eq!(e.message(), "semaphore closed"),
        _ => panic!("a closed semaphore hands out no permits"),
    }
}

#[test]
fn new_acquisitions_do_not_overtake_waiters() {
    let mut semaphore = Semaphore::new(1);
    let (waker_a, _) = counting_waker();
    let (waker_b, _) = counting_waker();
    let mut big = semaphore.start_acquire(3);
    assert!(semaphore.poll_acquire(&mut big, waker_a.clone()).is_pending());
    wake_all(semaphore.add_permits(1));
    assert_eq!(semaphore.available_permits(), 0);
    assert_eq!(semaphore.try_acquire().err(), Some(TryAcquireError::NoPermits));
    let mut small = semaphore.start_acquire(1);
    assert!(semaphore.poll_acquire(&mut small, waker_b.clone()).is_pending());
    wake_all(semaphore.add_permits(1));
    assert!(semaphore.poll_acquire(&mut big, waker_a.clone()).is_ready());
    assert!(semaphore.poll_acquire(&mut small, waker_b.clone()).is_pending());
}

#[test]
fn served_and_closed_waiters_are_handed_back_to_be_woken() {
    let mut semaphore = Semaphore::new(0);
    let (waker_a, wakes_a) = counting_waker();
    let (waker_b, wakes_b) = counting_waker();
    let (waker_c, wakes_c) = counting_waker();
    let mut a = semaphore.start_acquire(1);
    let mut b = semaphore.start_acquire(1);
    let mut c = semaphore.start_acquire(5);
    assert!(semaphore.poll_acquire(&mut a, waker_a).is_pending());
    assert!(semaphore.poll_acquire(&mut b, waker_b).is_pending());
    assert!(semaphore.poll_acquire(&mut c, waker_c).is_pending());
    // Two permits serve the two oldest waiters, oldest first.
    let served = semaphore.add_permits(2);
    assert_eq!(served.len(), 2);
    assert_eq!(wake_all(served), 2);
    assert_eq!(*wakes_a.lock().unwrap(), 1);
    assert_eq!(*wakes_b.lock().unwrap(), 1);
    assert_eq!(*wakes_c.lock().unwrap(), 0);
    // Closing hands back the handle of the waiter that is left.
    assert_eq!(wake_all(semaphore.close()), 1);
    assert_eq!(*wakes_c.lock().unwrap(), 1);
    assert_eq!(*wakes_a.lock().unwrap(), 1);
}

#[test]
fn cancelled_waiter_passes_its_permits_on() {
    let mut semaphore = Semaphore::new(1);
    let (waker_a, _) = counting_waker();
    let (waker_b, wakes_b) = counting_waker();
    let mut a = semaphore.start_acquire(2);
    let mut b = semaphore.start_acquire(1);
    assert!(semaphore.poll_acquire(&mut a, waker_a).is_pending());
    assert!(semaphore.poll_acquire(&mut b, waker_b).is_pending());
    assert_eq!(semaphore.held_permits(&a), 1);
    assert_eq!(semaphore.held_permits(&b), 0);
    // The first waiter gives up; the one permit it held serves the second.
    assert_eq!(wake_all(semaphore.cancel_acquire(a)), 1);
    assert_eq!(*wakes_b.lock().unwrap(), 1);
    let (again, _) = counting_waker();
    assert!(semaphore.poll_acquire(&mut b, again).is_ready());
}

#[test]
fn permits_may_reach_the_maximum() {
    let mut semaphore = Semaphore::new(1);
    assert!(semaphore.add_permits((usize::MAX >> 3) - 1).is_empty());
    assert_eq!(semaphore.available_permits(), usize::MAX >> 3);
}

#[test]
fn closed_exactly_after_close_and_for_good() {
    let mut semaphore = Semaphore::new(2);
    assert!(!semaphore.is_closed());
    let permit = semaphore.try_acquire().unwrap();
    wake_all(semaphore.add_permits(1));
    assert!(!semaphore.is_closed());
    wake_all(semaphore.close());
    assert!(semaphore.is_closed());
    wake_all(semaphore.release_permit(permit));
    wake_all(semaphore.add_permits(1));
    assert!(semaphore.is_closed());
    assert_eq!(semaphore.try_acquire().err(), Some(TryAcquireError::Closed));
    assert!(semaphore.is_closed());
}

#[test]
fn added_permits_may_exceed_the_maximum_where_waiters_take_them() {
    let mut semaphore = Semaphore::new(0);
    let (waker, wakes) = counting_waker();
    let mut big = semaphore.start_acquire(10);
    assert!(semaphore.poll_acquire(&mut big, waker).is_pending());
    let max = usize::MAX >> 3;
    assert_eq!(semaphore.unclaimed_permits(max + 5), max - 5);
    assert_eq!(wake_all(semaphore.add_permits(max + 5)), 1);
    assert_eq!(*wakes.lock().unwrap(), 1);
    assert_eq!(semaphore.available_permits(), max - 5);
}

#[test]
fn repolled_waiter_keeps_or_replaces_its_waker() {
    let mut semaphore = Semaphore::new(0);
    let (first, first_wakes) = counting_waker();
    let (second, second_wakes) = counting_waker();
    let mut a = semaphore.start_acquire(1);
    assert!(semaphore.poll_acquire(&mut a, first.clone()).is_pending());
    // A handle that wakes the same task leaves the stored one in place.
    assert!(semaphore.poll_acquire(&mut a, first).is_pending());
    // A handle of another task replaces it.
    assert!(semaphore.poll_acquire(&mut a, second).is_pending());
    assert_eq!(wake_all(semaphore.add_permits(1)), 1);
    assert_eq!(*first_wakes.lock().unwrap(), 0);
    assert_eq!(*second_wakes.lock().unwrap(), 1);
}
