//! A counting semaphore for tasks, handing out permits that are given back
//! when the holder is done.
use vstd::prelude::*;
use crate::task_waker::{spec_will_wake, Poll};
use crate::sync::batch_semaphore as ll;
use crate::sync::batch_semaphore::{distribute, some_wakers, Acquire, AcquireError, Queue, TryAcquireError};

verus! {

/// A counting semaphore. It keeps a number of permits; an acquisition takes
/// permits, and the holder of a permit gives it back when it is done with
/// it. Permits are handed to waiting acquisitions in the order in which they
/// started to wait.
#[derive(Debug)]
pub struct Semaphore {
    ll_sem: ll::Semaphore,
}

/// Permits taken from a [`Semaphore`], to be given back with
/// [`Semaphore::release_permit`] or given up with [`SemaphorePermit::forget`].
#[derive(Debug)]
pub struct SemaphorePermit {
    permits: usize,
}

/// Permits taken from a [`Semaphore`] that the holder may keep apart from the
/// semaphore, to be given back with [`Semaphore::release_owned_permit`] or
/// given up with [`OwnedSemaphorePermit::forget`].
#[derive(Debug)]
pub struct OwnedSemaphorePermit {
    permits: usize,
}

impl SemaphorePermit {
    /// The number of permits held.
    pub closed spec fn count(self) -> nat {
        self.permits as nat
    }

    /// The number of permits held.
    pub fn num_permits(&self) -> (n: usize)
        ensures
            n == self.count(),
    {
        self.permits
    }

    /// Gives the permits up without giving them back to the semaphore, which
    /// then has that many permits fewer.
    pub fn forget(self) {
    }
}

impl OwnedSemaphorePermit {
    /// The number of permits held.
    pub closed spec fn count(self) -> nat {
        self.permits as nat
    }

    /// The number of permits held.
    pub fn num_permits(&self) -> (n: usize)
        ensures
            n == self.count(),
    {
        self.permits
    }

    /// Gives the permits up without giving them back to the semaphore, which
    /// then has that many permits fewer.
    pub fn forget(self) {
    }
}

impl Semaphore {
    /// The invariant of the semaphore.
    pub closed spec fn wf(self) -> bool {
        self.ll_sem.wf()
    }

    /// The number of available permits.
    pub closed spec fn permits(self) -> nat {
        self.ll_sem.permits()
    }

    /// Whether the semaphore has been closed.
    pub closed spec fn is_closed_spec(self) -> bool {
        self.ll_sem.is_closed_spec()
    }

    /// The waiting acquisitions, newest first.
    pub closed spec fn queue(self) -> Queue {
        self.ll_sem.queue()
    }

    /// The handles stored with the waiting acquisitions, newest first,
    /// alongside [`Semaphore::queue`].
    pub closed spec fn wakers(self) -> Seq<Option<std::task::Waker>> {
        self.ll_sem.wakers()
    }

    /// The id that the next acquisition gets.
    pub closed spec fn next_id(self) -> u64 {
        self.ll_sem.next_id()
    }

    /// The counting semaphore that does the work.
    pub closed spec fn inner(self) -> ll::Semaphore {
        self.ll_sem
    }

    /// Creates a semaphore with `permits` permits, which must stay below the
    /// maximum.
    pub fn new(permits: usize) -> (s: Semaphore)
        requires
            permits < ll::Semaphore::MAX_PERMIT,
        ensures
            s.wf(),
            s.permits() == permits,
            !s.is_closed_spec(),
            s.queue().len() == 0,
    {
        Semaphore { ll_sem: ll::Semaphore::new(permits) }
    }

    /// Creates a semaphore with `permits` permits, of which only the bits
    /// that the maximum holds are kept.
    pub fn const_new(permits: usize) -> (s: Semaphore)
        ensures
            s.wf(),
            s.permits() == permits & ll::Semaphore::MAX_PERMIT,
            !s.is_closed_spec(),
            s.queue().len() == 0,
    {
        Semaphore { ll_sem: ll::Semaphore::const_new(permits) }
    }

    /// The number of available permits.
    pub fn available_permits(&self) -> (n: usize)
        requires
            self.wf(),
        ensures
            n == self.permits(),
            n > 0 ==> self.queue().len() == 0,
    {
        self.ll_sem.available_permits()
    }

    /// The number of the `n` permits that would be left once the waiting
    /// acquisitions took what they need, oldest first: what adding `n`
    /// permits adds to the available ones.
    pub fn unclaimed_permits(&self, n: usize) -> (r: usize)
        requires
            self.wf(),
        ensures
            r == distribute(self.queue(), n as nat).1,
    {
        self.ll_sem.unclaimed_permits(n)
    }

    /// Adds `n` permits: waiting acquisitions are served first, oldest
    /// first, and the rest become available. The permits must not exceed
    /// the maximum. The handles of the acquisitions that now have all their
    /// permits are given back, oldest first, for the caller to wake.
    pub fn add_permits(&mut self, n: usize) -> (wakers: Vec<std::task::Waker>)
        requires
            old(self).wf(),
            old(self).permits() + distribute(old(self).queue(), n as nat).1 <= ll::Semaphore::MAX_PERMIT,
        ensures
            final(self).wf(),
            final(self).queue() == distribute(old(self).queue(), n as nat).0,
            final(self).permits() == old(self).permits() + distribute(old(self).queue(), n as nat).1,
            final(self).wakers() == old(self).wakers().take(final(self).queue().len() as int),
            wakers@ == some_wakers(
                old(self).wakers().subrange(
                    final(self).queue().len() as int,
                    old(self).queue().len() as int,
                ).reverse(),
            ),
            final(self).is_closed_spec() == old(self).is_closed_spec(),
    {
        self.ll_sem.release(n)
    }

    /// Takes one permit at once, or tells why it cannot: the semaphore is
    /// closed, or no permit is available.
    pub fn try_acquire(&mut self) -> (r: Result<SemaphorePermit, TryAcquireError>)
        requires
            old(self).wf(),
        ensures
            final(self).wf(),
            final(self).is_closed_spec() == old(self).is_closed_spec(),
            final(self).queue() == old(self).queue(),
            final(self).wakers() == old(self).wakers(),
            old(self).is_closed_spec() ==> r matches Err(TryAcquireError::Closed),
            !old(self).is_closed_spec() && old(self).permits() == 0 ==> r matches Err(
                TryAcquireError::NoPermits,
            ),
            r is Ok <==> !old(self).is_closed_spec() && 1 <= old(self).permits(),
            r matches Ok(p) ==> p.count() == 1 && final(self).permits() == old(self).permits() - 1,
            r is Err ==> final(self).permits() == old(self).permits(),
    {
        proof {
            ll::lemma_max_permit();
        }
        match self.ll_sem.try_acquire(1) {
            Ok(_) => Ok(SemaphorePermit { permits: 1 }),
            Err(e) => Err(e),
        }
    }

    /// Takes `n` permits at once, or tells why it cannot: the semaphore is
    /// closed, or fewer than `n` permits are available.
    pub fn try_acquire_many(&mut self, n: usize) -> (r: Result<SemaphorePermit, TryAcquireError>)
        requires
            old(self).wf(),
            n < ll::Semaphore::MAX_PERMIT,
        ensures
            final(self).wf(),
            final(self).is_closed_spec() == old(self).is_closed_spec(),
            final(self).queue() == old(self).queue(),
            final(self).wakers() == old(self).wakers(),
            old(self).is_closed_spec() ==> r matches Err(TryAcquireError::Closed),
            !old(self).is_closed_spec() && old(self).permits() < n ==> r matches Err(
                TryAcquireError::NoPermits,
            ),
            r is Ok <==> !old(self).is_closed_spec() && n <= old(self).permits(),
            r matches Ok(p) ==> p.count() == n && final(self).permits() == old(self).permits() - n,
            r is Err ==> final(self).permits() == old(self).permits(),
    {
        match self.ll_sem.try_acquire(n) {
            Ok(_) => Ok(SemaphorePermit { permits: n }),
            Err(e) => Err(e),
        }
    }

    /// Takes one permit at once as an owned permit, or tells why it cannot:
    /// the semaphore is closed, or no permit is available.
    pub fn try_acquire_owned(&mut self) -> (r: Result<OwnedSemaphorePermit, TryAcquireError>)
        requires
            old(self).wf(),
        ensures
            final(self).wf(),
            final(self).is_closed_spec() == old(self).is_closed_spec(),
            final(self).queue() == old(self).queue(),
            final(self).wakers() == old(self).wakers(),
            old(self).is_closed_spec() ==> r matches Err(TryAcquireError::Closed),
            !old(self).is_closed_spec() && old(self).permits() == 0 ==> r matches Err(
                TryAcquireError::NoPermits,
            ),
            r is Ok <==> !old(self).is_closed_spec() && 1 <= old(self).permits(),
            r matches Ok(p) ==> p.count() == 1 && final(self).permits() == old(self).permits() - 1,
            r is Err ==> final(self).permits() == old(self).permits(),
    {
        proof {
            ll::lemma_max_permit();
        }
        match self.ll_sem.try_acquire(1) {
            Ok(_) => Ok(OwnedSemaphorePermit { permits: 1 }),
            Err(e) => Err(e),
        }
    }

    /// Takes `n` permits at once as an owned permit, or tells why it cannot:
    /// the semaphore is closed, or fewer than `n` permits are available.
    pub fn try_acquire_many_owned(&mut self, n: usize) -> (r: Result<
        OwnedSemaphorePermit,
        TryAcquireError,
    >)
        requires
            old(self).wf(),
            n < ll::Semaphore::MAX_PERMIT,
        ensures
            final(self).wf(),
            final(self).is_closed_spec() == old(self).is_closed_spec(),
            final(self).queue() == old(self).queue(),
            final(self).wakers() == old(self).wakers(),
            old(self).is_closed_spec() ==> r matches Err(TryAcquireError::Closed),
            !old(self).is_closed_spec() && old(self).permits() < n ==> r matches Err(
                TryAcquireError::NoPermits,
            ),
            r is Ok <==> !old(self).is_closed_spec() && n <= old(self).permits(),
            r matches Ok(p) ==> p.count() == n && final(self).permits() == old(self).permits() - n,
            r is Err ==> final(self).permits() == old(self).permits(),
    {
        match self.ll_sem.try_acquire(n) {
            Ok(_) => Ok(OwnedSemaphorePermit { permits: n }),
            Err(e) => Err(e),
        }
    }

    /// Closes the semaphore: it hands out no permits any more, and every
    /// waiting acquisition leaves the queue and fails when it is polled
    /// again. The handles stored with the waiting acquisitions are given
    /// back, oldest first, for the caller to wake.
    pub fn close(&mut self) -> (wakers: Vec<std::task::Waker>)
        requires
            old(self).wf(),
        ensures
            final(self).wf(),
            final(self).is_closed_spec(),
            final(self).queue().len() == 0,
            final(self).wakers().len() == 0,
            final(self).permits() == old(self).permits(),
            wakers@ == some_wakers(old(self).wakers().reverse()),
    {
        self.ll_sem.close()
    }

    /// Whether the semaphore has been closed.
    pub fn is_closed(&self) -> (b: bool)
        requires
            self.wf(),
        ensures
            b == self.is_closed_spec(),
    {
        self.ll_sem.is_closed()
    }

    /// Gives the permits of `permit` back to the semaphore: waiting
    /// acquisitions are served first, oldest first, and the rest become
    /// available. The permits must not exceed the maximum. The handles of
    /// the acquisitions that now have all their permits are given back,
    /// oldest first, for the caller to wake.
    pub fn release_permit(&mut self, permit: SemaphorePermit) -> (wakers: Vec<std::task::Waker>)
        requires
            old(self).wf(),
            old(self).permits() + distribute(old(self).queue(), permit.count()).1
                <= ll::Semaphore::MAX_PERMIT,
        ensures
            final(self).wf(),
            final(self).queue() == distribute(old(self).queue(), permit.count()).0,
            final(self).permits() == old(self).permits() + distribute(old(self).queue(), permit.count()).1,
            final(self).wakers() == old(self).wakers().take(final(self).queue().len() as int),
            wakers@ == some_wakers(
                old(self).wakers().subrange(
                    final(self).queue().len() as int,
                    old(self).queue().len() as int,
                ).reverse(),
            ),
            final(self).is_closed_spec() == old(self).is_closed_spec(),
    {
        self.add_permits(permit.permits)
    }

    /// Gives the permits of `permit` back to the semaphore: waiting
    /// acquisitions are served first, oldest first, and the rest become
    /// available. The permits must not exceed the maximum. The handles of
    /// the acquisitions that now have all their permits are given back,
    /// oldest first, for the caller to wake.
    pub fn release_owned_permit(&mut self, permit: OwnedSemaphorePermit) -> (wakers: Vec<std::task::Waker>)
        requires
            old(self).wf(),
            old(self).permits() + distribute(old(self).queue(), permit.count()).1
                <= ll::Semaphore::MAX_PERMIT,
        ensures
            final(self).wf(),
            final(self).queue() == distribute(old(self).queue(), permit.count()).0,
            final(self).permits() == old(self).permits() + distribute(old(self).queue(), permit.count()).1,
            final(self).wakers() == old(self).wakers().take(final(self).queue().len() as int),
            wakers@ == some_wakers(
                old(self).wakers().subrange(
                    final(self).queue().len() as int,
                    old(self).queue().len() as int,
                ).reverse(),
            ),
            final(self).is_closed_spec() == old(self).is_closed_spec(),
    {
        self.add_permits(permit.permits)
    }

    /// Starts an acquisition of `n` permits, to be driven with
    /// [`Semaphore::poll_acquire`].
    pub fn start_acquire(&mut self, n: usize) -> (a: Acquire)
        requires
            old(self).wf(),
        ensures
            final(self).wf(),
            a.spec_num_permits() == n,
            a.spec_node() == old(self).next_id(),
            final(self).next_id() == (old(self).next_id() + 1) % 0x1_0000_0000_0000_0000,
            !a.spec_queued(),
            final(self).permits() == old(self).permits(),
            final(self).is_closed_spec() == old(self).is_closed_spec(),
            final(self).queue() == old(self).queue(),
            final(self).wakers() == old(self).wakers(),
    {
        Acquire::new(&mut self.ll_sem, n)
    }

    /// Polls an acquisition: it gives the permits once it has all of them
    /// and fails once the semaphore is closed; otherwise it waits in the
    /// queue, with `waker` stored to be woken when that changes (a waiting
    /// acquisition keeps the handle it has where that wakes the same task).
    pub fn poll_acquire(
        &mut self,
        acquire: &mut Acquire,
        waker: std::task::Waker,
    ) -> (r: Poll<Result<SemaphorePermit, AcquireError>>)
        requires
            old(self).wf(),
            old(acquire).spec_num_permits() <= usize::MAX / 2,
        ensures
            final(self).wf(),
            final(acquire).spec_num_permits() == old(acquire).spec_num_permits(),
            final(acquire).spec_node() == old(acquire).spec_node(),
            r matches Poll::Pending ==> final(acquire).spec_queued(),
            r matches Poll::Ready(Ok(_)) ==> !final(acquire).spec_queued(),
            r matches Poll::Ready(Err(_)) ==> final(acquire).spec_queued() == old(
                acquire,
            ).spec_queued(),
            final(self).is_closed_spec() == old(self).is_closed_spec(),
            r matches Poll::Ready(Ok(p)) ==> p.count() == old(acquire).spec_num_permits(),
            old(self).is_closed_spec() ==> {
                &&& r matches Poll::Ready(Err(_))
                &&& final(self).permits() == old(self).permits()
                &&& final(self).queue() == old(self).queue()
                &&& final(self).wakers() == old(self).wakers()
            },
            !old(self).is_closed_spec() && !old(acquire).spec_queued()
                && old(acquire).spec_num_permits() <= old(self).permits() ==> {
                &&& r matches Poll::Ready(Ok(_))
                &&& final(self).permits() == old(self).permits() - old(acquire).spec_num_permits()
                &&& final(self).queue() == old(self).queue()
                &&& final(self).wakers() == old(self).wakers()
            },
            !old(self).is_closed_spec() && !old(acquire).spec_queued()
                && old(acquire).spec_num_permits() > old(self).permits() ==> {
                &&& r matches Poll::Pending
                &&& final(self).permits() == 0
                &&& final(self).queue() == seq![
                    (
                        old(acquire).spec_node(),
                        (old(acquire).spec_num_permits() - old(self).permits()) as nat,
                    ),
                ] + old(self).queue()
                &&& final(self).wakers() == seq![Some(waker)] + old(self).wakers()
            },
            !old(self).is_closed_spec() && old(acquire).spec_queued() ==> {
                let p = ll::position(old(self).queue(), old(acquire).spec_node());
                &&& final(self).permits() == old(self).permits()
                &&& final(self).queue() == old(self).queue()
                &&& (p >= 0 <==> r matches Poll::Pending)
                &&& (p < 0 <==> r matches Poll::Ready(Ok(_)))
                &&& p < 0 ==> final(self).wakers() == old(self).wakers()
                &&& p >= 0 ==> final(self).wakers() == if old(self).wakers()[p] matches Some(e)
                    && spec_will_wake(e, waker) {
                    old(self).wakers()
                } else {
                    old(self).wakers().update(p, Some(waker))
                }
            },
    {
        let n: usize = acquire.num_permits();
        match acquire.poll(&mut self.ll_sem, waker) {
            Poll::Pending => Poll::Pending,
            Poll::Ready(Err(e)) => Poll::Ready(Err(e)),
            Poll::Ready(Ok(())) => Poll::Ready(Ok(SemaphorePermit { permits: n })),
        }
    }

    /// The permits that `acquire` holds and would give back if it were
    /// given up.
    pub fn held_permits(&self, acquire: &Acquire) -> (n: usize)
        requires
            self.wf(),
        ensures
            n == acquire.held(self.inner()),
    {
        acquire.held_permits(&self.ll_sem)
    }

    /// Gives an acquisition up: it leaves the wait queue, and the permits
    /// that it had already received go back, to the waiting acquisitions
    /// first. The handles of the acquisitions that now have all their
    /// permits are given back, oldest first, for the caller to wake.
    pub fn cancel_acquire(&mut self, acquire: Acquire) -> (wakers: Vec<std::task::Waker>)
        requires
            old(self).wf(),
            old(self).permits() + distribute(
                if ll::position(old(self).queue(), acquire.spec_node()) >= 0 {
                    old(self).queue().remove(ll::position(old(self).queue(), acquire.spec_node()))
                } else {
                    old(self).queue()
                },
                acquire.held(old(self).inner()),
            ).1 <= usize::MAX / 2,
        ensures
            final(self).wf(),
            final(self).is_closed_spec() == old(self).is_closed_spec(),
            !acquire.spec_queued() ==> final(self).permits() == old(self).permits()
                && final(self).queue() == old(self).queue() && final(self).wakers() == old(
                self,
            ).wakers() && wakers@.len() == 0,
            acquire.spec_queued() ==> {
                let p: int = ll::position(old(self).queue(), acquire.spec_node());
                let rest = if p >= 0 {
                    old(self).queue().remove(p)
                } else {
                    old(self).queue()
                };
                let rest_wakers = if p >= 0 {
                    old(self).wakers().remove(p)
                } else {
                    old(self).wakers()
                };
                &&& final(self).queue() == distribute(rest, acquire.held(old(self).inner())).0
                &&& final(self).permits() == old(self).permits() + distribute(
                    rest,
                    acquire.held(old(self).inner()),
                ).1
                &&& final(self).wakers() == rest_wakers.take(final(self).queue().len() as int)
                &&& wakers@ == some_wakers(
                    rest_wakers.subrange(final(self).queue().len() as int, rest.len() as int).reverse(),
                )
            },
    {
        acquire.cancel(&mut self.ll_sem)
    }
}

/// Permits taken from a semaphore come back in full when they are given
/// back: where `n` permits are available, handing `n` permits to the waiting
/// acquisitions serves none of them, so the queue stays as it is and all `n`
/// become available again. Together with the contracts of
/// [`Semaphore::try_acquire_many`] and [`Semaphore::release_permit`], taking
/// `n` permits and giving them back leaves the semaphore as it was.
pub proof fn law_acquire_release_restores(s: Semaphore, n: nat)
    requires
        s.wf(),
        n <= s.permits(),
    ensures
        distribute(s.queue(), n) == (s.queue(), n),
{
    ll::law_release_restores(s.inner(), n);
}


/// The semaphore is fair: while an acquisition waits, no permit is
/// available, so a new acquisition of at least one permit cannot complete at
/// once; by the contract of [`Semaphore::poll_acquire`] it enters the queue
/// behind the waiting ones.
pub proof fn law_no_overtaking(s: Semaphore, n: nat)
    requires
        s.wf(),
        s.queue().len() > 0,
        n > 0,
    ensures
        s.permits() == 0,
        n > s.permits(),
{
    ll::law_no_overtaking(s.inner(), n);
}

/// What one operation does to whether a semaphore is closed: `close` closes
/// it, and every other operation leaves it as it was, as their contracts
/// state.
pub open spec fn closed_step(before: Semaphore, closes: bool, after: Semaphore) -> bool {
    if closes {
        after.is_closed_spec()
    } else {
        after.is_closed_spec() == before.is_closed_spec()
    }
}

/// Along a run of operations, the semaphore after `k` of them is closed
/// exactly when one of them was `close`.
proof fn lemma_closed_upto(states: Seq<Semaphore>, closes: Seq<bool>, k: int)
    requires
        states.len() == closes.len() + 1,
        !states[0].is_closed_spec(),
        forall|i: int| 0 <= i < closes.len() ==> #[trigger] closed_step(states[i], closes[i], states[i + 1]),
        0 <= k < states.len(),
    ensures
        states[k].is_closed_spec() <==> exists|i: int| 0 <= i < k && #[trigger] closes[i],
    decreases k,
{
    if k > 0 {
        lemma_closed_upto(states, closes, k - 1);
        let prev: int = k - 1;
        assert(closed_step(states[prev], closes[prev], states[prev + 1]));
        assert(prev + 1 == k);
        if closes[k - 1] {
            assert(closes[k - 1]);
        } else {
            if exists|i: int| 0 <= i < k && #[trigger] closes[i] {
                let i = choose|i: int| 0 <= i < k && #[trigger] closes[i];
                assert(i < k - 1);
            }
        }
    }
}

/// A semaphore is closed exactly once `close` has been called on it, and
/// then stays closed: along any run of operations that starts from an open
/// semaphore (as [`Semaphore::new`] and [`Semaphore::const_new`] make it),
/// in which `close` closes it and every other operation keeps the flag, the
/// semaphore after `k` operations is closed exactly when one of them was
/// `close`, and once closed it is closed after every later operation.
pub proof fn law_closed_iff_close_called(states: Seq<Semaphore>, closes: Seq<bool>)
    requires
        states.len() == closes.len() + 1,
        !states[0].is_closed_spec(),
        forall|i: int| 0 <= i < closes.len() ==> #[trigger] closed_step(states[i], closes[i], states[i + 1]),
    ensures
        forall|k: int|
            0 <= k < states.len() ==> (#[trigger] states[k].is_closed_spec() <==> exists|i: int|
                0 <= i < k && #[trigger] closes[i]),
        forall|j: int, k: int|
            0 <= j <= k < states.len() && #[trigger] states[j].is_closed_spec()
                ==> #[trigger] states[k].is_closed_spec(),
{
    assert forall|k: int| 0 <= k < states.len() implies (#[trigger] states[k].is_closed_spec()
        <==> exists|i: int| 0 <= i < k && #[trigger] closes[i]) by {
        lemma_closed_upto(states, closes, k);
    }
    assert forall|j: int, k: int|
        0 <= j <= k < states.len() && #[trigger] states[j].is_closed_spec() implies #[trigger] states[k].is_closed_spec() by {
        lemma_closed_upto(states, closes, j);
        lemma_closed_upto(states, closes, k);
        let i = choose|i: int| 0 <= i < j && #[trigger] closes[i];
        assert(0 <= i < k && closes[i]);
    }
}

/// What the invariant of a semaphore tells about the waiting acquisitions:
/// each still needs at least one permit, each has a slot for its handle,
/// and permits are only available while nobody waits.
pub proof fn lemma_queue_facts(s: Semaphore)
    requires
        s.wf(),
    ensures
        forall|i: int| 0 <= i < s.queue().len() ==> 0 < #[trigger] s.queue()[i].1 <= usize::MAX / 2,
        s.wakers().len() == s.queue().len(),
        s.queue().len() > 0 ==> s.permits() == 0,
{
    ll::lemma_queue_facts(s.inner());
}
} // verus!
