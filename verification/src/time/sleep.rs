//! Waiting until a deadline of the simulation time.
use vstd::prelude::*;
use crate::task_waker::Poll;
use crate::time::{Duration, SimTime};
use crate::time::driver::TimeDriver;
use crate::time::duration::max_nanos;

verus! {

/// A wait that completes once the simulation time reaches its deadline.
#[derive(Debug)]
pub struct Sleep {
    deadline: SimTime,
    id: usize,
}

/// The number of different values of a `usize`.
pub open spec fn usize_values() -> nat {
    (usize::MAX + 1) as nat
}

/// The id that a counter of waits starting at `first` hands out after it has
/// handed out `k` ids: it moves on by one each time, wrapping around.
pub open spec fn nth_sleep_id(first: usize, k: nat) -> usize {
    ((first + k) % (usize_values() as int)) as usize
}

/// The counter from which waits take their ids, in order, wrapping around.
pub struct SleepIds {
    next: usize,
    first: Ghost<usize>,
    taken: Ghost<nat>,
}

impl SleepIds {
    /// The next id is the one after all those handed out so far.
    #[verifier::type_invariant]
    closed spec fn inv(self) -> bool {
        self.next == nth_sleep_id(self.first@, self.taken@)
    }

    /// The first id the counter hands out.
    pub closed spec fn first(self) -> usize {
        self.first@
    }

    /// The number of ids handed out so far.
    pub closed spec fn taken(self) -> nat {
        self.taken@
    }

    /// A counter whose first id is `first`.
    pub fn new(first: usize) -> (c: SleepIds)
        ensures
            c.first() == first,
            c.taken() == 0,
    {
        proof {
            vstd::arithmetic::div_mod::lemma_small_mod(first as nat, usize_values());
        }
        SleepIds { next: first, first: Ghost(first), taken: Ghost(0) }
    }

    /// Hands out the next id.
    pub fn take(&mut self) -> (id: usize)
        ensures
            id == nth_sleep_id(old(self).first(), old(self).taken()),
            final(self).first() == old(self).first(),
            final(self).taken() == old(self).taken() + 1,
    {
        proof {
            use_type_invariant(&*self);
        }
        let id: usize = self.next;
        let ghost first: usize = self.first@;
        let ghost k: nat = self.taken@;
        proof {
            vstd::arithmetic::div_mod::lemma_add_mod_noop(first + k, 1, usize_values() as int);
            vstd::arithmetic::div_mod::lemma_small_mod(1, usize_values());
        }
        *self = SleepIds { next: id.wrapping_add(1), first: Ghost(first), taken: Ghost(k + 1) };
        id
    }
}

/// Waits take different ids as long as fewer than `usize::MAX + 1` of them
/// take an id from one counter: the `i`-th and the `j`-th id differ.
pub proof fn law_sleep_ids_distinct(first: usize, i: nat, j: nat)
    requires
        i < j < usize_values(),
    ensures
        nth_sleep_id(first, i) != nth_sleep_id(first, j),
{
    let m: int = usize_values() as int;
    let a: int = first + i;
    let b: int = first + j;
    vstd::arithmetic::div_mod::lemma_fundamental_div_mod(a, m);
    vstd::arithmetic::div_mod::lemma_fundamental_div_mod(b, m);
    if a % m == b % m {
        assert(false) by (nonlinear_arith)
            requires
                a == m * (a / m) + a % m,
                b == m * (b / m) + b % m,
                a % m == b % m,
                0 < b - a < m,
                m > 0,
        ;
    }
}

/// A wait until `deadline`, with the next id of `ids`.
pub fn sleep_until(deadline: SimTime, ids: &mut SleepIds) -> (s: Sleep)
    ensures
        s.spec_deadline() == deadline,
        s.spec_id() == nth_sleep_id(old(ids).first(), old(ids).taken()),
        final(ids).first() == old(ids).first(),
        final(ids).taken() == old(ids).taken() + 1,
{
    Sleep::new_timeout(deadline, ids)
}

/// A wait for `duration` from `now`, with the next id of `ids`; where that
/// point is not representable, the wait lasts until the latest
/// representable point.
pub fn sleep(now: SimTime, duration: Duration, ids: &mut SleepIds) -> (s: Sleep)
    ensures
        s.spec_id() == nth_sleep_id(old(ids).first(), old(ids).taken()),
        final(ids).first() == old(ids).first(),
        final(ids).taken() == old(ids).taken() + 1,
        s.spec_deadline()@ == if now@ + duration@ <= max_nanos() {
            now@ + duration@
        } else {
            max_nanos()
        },
{
    match now.checked_add(duration) {
        Some(deadline) => Sleep::new_timeout(deadline, ids),
        None => Sleep::far_future(ids),
    }
}

impl Sleep {
    /// The deadline of the wait.
    pub closed spec fn spec_deadline(self) -> SimTime {
        self.deadline
    }

    /// The id of the wait.
    pub closed spec fn spec_id(self) -> usize {
        self.id
    }

    /// A wait until `deadline`, with the next id of `ids`.
    pub fn new_timeout(deadline: SimTime, ids: &mut SleepIds) -> (s: Sleep)
        ensures
            s.spec_deadline() == deadline,
            s.spec_id() == nth_sleep_id(old(ids).first(), old(ids).taken()),
            final(ids).first() == old(ids).first(),
            final(ids).taken() == old(ids).taken() + 1,
    {
        let id: usize = ids.take();
        Sleep { deadline, id }
    }

    /// A wait until the latest representable point of time, with the next id
    /// of `ids`.
    pub fn far_future(ids: &mut SleepIds) -> (s: Sleep)
        ensures
            s.spec_deadline()@ == max_nanos(),
            s.spec_id() == nth_sleep_id(old(ids).first(), old(ids).taken()),
            final(ids).first() == old(ids).first(),
            final(ids).taken() == old(ids).taken() + 1,
    {
        Self::new_timeout(SimTime::max(), ids)
    }

    /// The deadline of the wait.
    pub fn deadline(&self) -> (t: SimTime)
        ensures
            t == self.spec_deadline(),
    {
        self.deadline
    }

    /// The id of the wait.
    pub fn id(&self) -> (i: usize)
        ensures
            i == self.spec_id(),
    {
        self.id
    }

    /// Whether the deadline has been reached at `now`.
    pub fn is_elapsed(&self, now: SimTime) -> (b: bool)
        ensures
            b == (self.spec_deadline()@ <= now@),
    {
        self.deadline <= now
    }

    /// Moves the deadline of the wait to `deadline`, in the wait and in the
    /// timer `driver`.
    pub fn reset(&mut self, driver: &mut TimeDriver, deadline: SimTime)
        ensures
            final(self).spec_deadline() == deadline,
            final(self).spec_id() == old(self).spec_id(),
            final(driver).sleepers().len() == old(driver).sleepers().len(),
            forall|i: int|
                0 <= i < old(driver).sleepers().len() ==> #[trigger] final(driver).sleepers()[i]
                    == if old(driver).sleepers()[i].1 == old(self).spec_id() {
                    (deadline@, old(self).spec_id(), old(driver).sleepers()[i].2)
                } else {
                    old(driver).sleepers()[i]
                },
    {
        driver.reset_sleeper(self.id, deadline);
        self.deadline = deadline;
    }

    /// Polls the wait at the simulation time `now`: it is complete once the
    /// deadline is reached; otherwise it registers with the timer `driver`
    /// to be woken through `waker`, unless it is registered already.
    pub fn poll(&self, driver: &mut TimeDriver, now: SimTime, waker: std::task::Waker) -> (r:
        Poll<()>)
        ensures
            r is Ready <==> self.spec_deadline()@ <= now@,
            r is Ready ==> final(driver).sleepers() == old(driver).sleepers(),
            r is Pending ==> crate::time::driver::has_id(final(driver).sleepers(), self.spec_id()),
            r is Pending && crate::time::driver::has_id(old(driver).sleepers(), self.spec_id())
                ==> final(driver).sleepers() == old(driver).sleepers(),
            r is Pending && !crate::time::driver::has_id(old(driver).sleepers(), self.spec_id())
                ==> final(driver).sleepers() == old(driver).sleepers().push(
                (self.spec_deadline()@, self.spec_id(), waker),
            ),
    {
        if self.deadline > now {
            driver.wake_sleeper(self, now, waker);
            proof {
                let f = driver.sleepers();
                let o = old(driver).sleepers();
                if crate::time::driver::has_id(o, self.spec_id()) {
                    let i = choose|i: int| 0 <= i < o.len() && #[trigger] o[i].1 == self.spec_id();
                    assert(f[i].1 == self.spec_id());
                } else {
                    assert(f =~= o.push((self.spec_deadline()@, self.spec_id(), waker)));
                    assert(f[f.len() - 1].1 == self.spec_id());
                }
            }
            Poll::Pending
        } else {
            Poll::Ready(())
        }
    }
}

} // verus!
