//! A counting semaphore whose waiters are served in the order in which they
//! started to wait, and which may hand out several permits at once.
use vstd::prelude::*;
use crate::task_waker::Poll;
use crate::task_waker::{spec_will_wake, will_wake};

verus! {

/// The wait queue as seen from outside: for each waiter, newest first, its id
/// and the number of permits that it still needs.
pub type Queue = Seq<(u64, nat)>;

/// Hands `rem` permits to the waiters of `queue`, oldest first. Every waiter
/// that receives all it needs leaves the queue; the first one that cannot be
/// served in full takes what is left. Gives the new queue and the number of
/// permits that no waiter took.
pub open spec fn distribute(queue: Queue, rem: nat) -> (Queue, nat)
    decreases queue.len(),
{
    if queue.len() == 0 {
        (queue, rem)
    } else if queue.last().1 > rem {
        (queue.update(queue.len() - 1, (queue.last().0, (queue.last().1 - rem) as nat)), 0)
    } else {
        distribute(queue.drop_last(), (rem - queue.last().1) as nat)
    }
}

/// One pending acquisition: the permits it still needs and the handle that
/// wakes the task waiting for them.
#[derive(Debug)]
pub struct Waiter {
    state: usize,
    waker: Option<std::task::Waker>,
    id: u64,
}

impl Waiter {
    /// The id that tells this waiter from the others.
    pub closed spec fn spec_id(self) -> u64 {
        self.id
    }

    /// The number of permits that this waiter still needs.
    pub closed spec fn needed(self) -> nat {
        self.state as nat
    }

    /// The handle that wakes the task waiting here, where one is stored.
    pub closed spec fn spec_waker(self) -> Option<std::task::Waker> {
        self.waker
    }

    /// Creates a waiter with the id `id` that needs `num_permits` permits.
    pub fn new(id: u64, num_permits: usize) -> (w: Waiter)
        ensures
            w.spec_id() == id,
            w.needed() == num_permits,
            w.spec_waker() is None,
    {
        Waiter { state: num_permits, waker: None, id }
    }

    /// Moves as many of the `n` permits to this waiter as it still needs, and
    /// tells whether it now has all it needs.
    pub fn assign_permits(&mut self, n: &mut usize) -> (done: bool)
        ensures
            final(self).spec_id() == old(self).spec_id(),
            final(self).spec_waker() == old(self).spec_waker(),
            final(self).needed() == old(self).needed() - vstd::math::min(
                old(self).needed() as int,
                *old(n) as int,
            ),
            *final(n) == *old(n) - vstd::math::min(old(self).needed() as int, *old(n) as int),
            done == (final(self).needed() == 0),
    {
        let curr: usize = self.state;
        let assign: usize = if curr < *n {
            curr
        } else {
            *n
        };
        self.state = curr - assign;
        *n = *n - assign;
        self.state == 0
    }
}

/// The wait queue, newest waiter first.
#[derive(Debug)]
pub(crate) struct Waitlist {
    list: Vec<Waiter>,
    closed: bool,
}

/// The state of a waiter as the queue sees it.
pub open spec fn entry(w: Waiter) -> (u64, nat) {
    (w.spec_id(), w.needed())
}

/// The waiters of a list as the queue sees them.
pub open spec fn entries(list: Seq<Waiter>) -> Queue {
    list.map_values(|w: Waiter| entry(w))
}

/// The handles stored with the waiters of a list, in the order of the list.
pub open spec fn wakers_of(list: Seq<Waiter>) -> Seq<Option<std::task::Waker>> {
    list.map_values(|w: Waiter| w.spec_waker())
}

/// The handles that are present among `slots`, in their order.
pub open spec fn some_wakers(slots: Seq<Option<std::task::Waker>>) -> Seq<std::task::Waker>
    decreases slots.len(),
{
    if slots.len() == 0 {
        Seq::empty()
    } else {
        match slots.last() {
            Some(w) => some_wakers(slots.drop_last()).push(w),
            None => some_wakers(slots.drop_last()),
        }
    }
}

/// Taking one more slot from the back of a list, for a list that is read
/// from its back: the handles of the slots from `i - 1` on, read backwards,
/// are those from `i` on followed by that of slot `i - 1`.
proof fn lemma_some_wakers_step(slots: Seq<Option<std::task::Waker>>, i: int, n: int)
    requires
        0 < i <= n <= slots.len(),
    ensures
        some_wakers(slots.subrange(i - 1, n).reverse()) == match slots[i - 1] {
            Some(w) => some_wakers(slots.subrange(i, n).reverse()).push(w),
            None => some_wakers(slots.subrange(i, n).reverse()),
        },
{
    let longer = slots.subrange(i - 1, n).reverse();
    assert(longer.drop_last() =~= slots.subrange(i, n).reverse());
    assert(longer.last() == slots[i - 1]);
}

/// A counting semaphore. The number of available permits and whether it is
/// closed are kept together in one word: the permits shifted left by one,
/// and the lowest bit set once the semaphore is closed.
#[derive(Debug)]
pub struct Semaphore {
    waiters: Waitlist,
    state: usize,
    detached: Vec<Waiter>,
    next_waiter: u64,
}

/// Why a permit could not be taken at once.
#[derive(Debug, Clone, Copy, PartialEq, Eq, Structural)]
pub enum TryAcquireError {
    /// The semaphore has been closed.
    Closed,
    /// There are not enough permits.
    NoPermits,
}

impl TryAcquireError {
    /// How the error reads.
    pub fn message(&self) -> (m: &'static str)
        ensures
            *self == TryAcquireError::Closed ==> m@ == "semaphore closed"@,
            *self == TryAcquireError::NoPermits ==> m@ == "no permits available"@,
    {
        match self {
            TryAcquireError::Closed => "semaphore closed",
            TryAcquireError::NoPermits => "no permits available",
        }
    }

    /// Whether the semaphore had been closed.
    pub fn is_closed(&self) -> (b: bool)
        ensures
            b == (*self == TryAcquireError::Closed),
    {
        match self {
            TryAcquireError::Closed => true,
            TryAcquireError::NoPermits => false,
        }
    }

    /// Whether there were not enough permits.
    pub fn is_no_permits(&self) -> (b: bool)
        ensures
            b == (*self == TryAcquireError::NoPermits),
    {
        match self {
            TryAcquireError::Closed => false,
            TryAcquireError::NoPermits => true,
        }
    }
}

/// A permit could not be acquired because the semaphore has been closed.
#[derive(Debug, Clone, Copy, PartialEq, Eq)]
pub struct AcquireError(());

impl AcquireError {
    /// The error of a closed semaphore.
    pub fn closed() -> (e: AcquireError) {
        AcquireError(())
    }

    /// How the error reads.
    pub fn message(&self) -> (m: &'static str)
        ensures
            m@ == "semaphore closed"@,
    {
        "semaphore closed"
    }
}

/// The lowest bit of a word is its remainder by two, the rest its half.
proof fn lemma_halves(x: usize)
    ensures
        x >> 1usize == x / 2,
        x & 1usize == x % 2,
{
    assert(x >> 1usize == x / 2) by (bit_vector);
    assert(x & 1usize == x % 2) by (bit_vector);
}

/// Shifting left by one doubles a number that fits.
proof fn lemma_double(p: usize)
    requires
        p <= usize::MAX / 2,
    ensures
        p << 1usize == p * 2,
{
    vstd::arithmetic::power2::lemma2_to64();
    vstd::bits::lemma_usize_shl_is_mul(p, 1);
}

/// The maximum number of permits is an eighth of the largest word.
pub proof fn lemma_max_permit()
    ensures
        Semaphore::MAX_PERMIT == usize::MAX / 8,
{
    vstd::arithmetic::power2::lemma2_to64();
    vstd::bits::lemma_usize_shr_is_div(usize::MAX, 3);
}

/// Setting the lowest bit keeps the half and makes the word odd.
proof fn lemma_set_low(x: usize)
    ensures
        (x | 1usize) / 2 == x / 2,
        (x | 1usize) % 2 == 1,
{
    assert((x | 1usize) >> 1usize == x >> 1usize) by (bit_vector);
    assert((x | 1usize) & 1usize == 1usize) by (bit_vector);
    lemma_halves(x);
    lemma_halves(x | 1usize);
}

impl Semaphore {
    /// The largest number of permits that a semaphore holds.
    pub const MAX_PERMIT: usize = usize::MAX >> 3;

    /// The bit of the state that marks a closed semaphore.
    pub const CLOSED: usize = 1;

    /// How far the number of permits is shifted in the state.
    pub const PERMIT_SHIFT: usize = 1;

    /// The number of permits that are available.
    pub closed spec fn permits(self) -> nat {
        (self.state / 2) as nat
    }

    /// Whether the semaphore has been closed.
    pub closed spec fn is_closed_spec(self) -> bool {
        self.state % 2 == 1
    }

    /// The waiters, newest first.
    pub closed spec fn queue(self) -> Queue {
        entries(self.waiters.list@)
    }

    /// The handles stored with the waiters, newest first, alongside
    /// [`Semaphore::queue`].
    pub closed spec fn wakers(self) -> Seq<Option<std::task::Waker>> {
        wakers_of(self.waiters.list@)
    }

    /// The waiters that closing the semaphore took from the queue before they
    /// had all their permits, in the order in which they were taken.
    pub closed spec fn detached(self) -> Queue {
        entries(self.detached@)
    }

    /// The id that the next acquisition gets.
    pub closed spec fn next_id(self) -> u64 {
        self.next_waiter
    }

    /// The invariant of the semaphore: the closed bit and the flag of the
    /// queue agree, every waiter still needs at least one permit, permits
    /// are only free while nobody waits, and a closed semaphore has no
    /// waiters.
    pub closed spec fn wf(self) -> bool {
        &&& self.waiters.closed == (self.state % 2 == 1)
        &&& forall|i: int|
            0 <= i < self.waiters.list.len() ==> 0 < #[trigger] self.waiters.list[i].state
                <= usize::MAX / 2
        &&& forall|i: int|
            0 <= i < self.detached.len() ==> #[trigger] self.detached[i].state <= usize::MAX / 2
        &&& self.waiters.list.len() > 0 ==> self.state / 2 == 0
        &&& self.waiters.closed ==> self.waiters.list.len() == 0
    }

    /// Creates a semaphore with `permits` permits; `permits` must stay below
    /// the maximum.
    pub fn new(permits: usize) -> (s: Semaphore)
        requires
            permits < Semaphore::MAX_PERMIT,
        ensures
            s.wf(),
            s.permits() == permits,
            !s.is_closed_spec(),
            s.queue().len() == 0,
            s.detached().len() == 0,
    {
        proof {
            lemma_max_permit();
            lemma_double(permits);
        }
        let state: usize = permits << Semaphore::PERMIT_SHIFT;
        Semaphore {
            waiters: Waitlist { list: Vec::new(), closed: false },
            state,
            detached: Vec::new(),
            next_waiter: 0,
        }
    }

    /// Creates a semaphore with `permits` permits, of which only the bits
    /// that the maximum holds are kept.
    pub fn const_new(permits: usize) -> (s: Semaphore)
        ensures
            s.wf(),
            s.permits() == permits & Semaphore::MAX_PERMIT,
            !s.is_closed_spec(),
            s.queue().len() == 0,
            s.detached().len() == 0,
    {
        let ghost old_permits: usize = permits;
        let permits: usize = permits & Semaphore::MAX_PERMIT;
        proof {
            let m: usize = Semaphore::MAX_PERMIT;
            let p0: usize = old_permits;
            assert(p0 & m <= m) by (bit_vector);
            lemma_max_permit();
            lemma_double(permits);
        }
        let state: usize = permits << Semaphore::PERMIT_SHIFT;
        Semaphore {
            waiters: Waitlist { list: Vec::new(), closed: false },
            state,
            detached: Vec::new(),
            next_waiter: 0,
        }
    }

    /// The number of available permits.
    pub fn available_permits(&self) -> (n: usize)
        requires
            self.wf(),
        ensures
            n == self.permits(),
            n > 0 ==> self.queue().len() == 0,
    {
        proof {
            lemma_halves(self.state);
        }
        self.state >> Semaphore::PERMIT_SHIFT
    }

    /// Whether the semaphore has been closed.
    pub fn is_closed(&self) -> (b: bool)
        requires
            self.wf(),
        ensures
            b == self.is_closed_spec(),
    {
        proof {
            lemma_halves(self.state);
        }
        self.state & Semaphore::CLOSED == Semaphore::CLOSED
    }

    /// Takes `num_permits` permits at once, or tells why it cannot: the
    /// semaphore is closed, or there are not enough permits.
    pub fn try_acquire(&mut self, num_permits: usize) -> (r: Result<(), TryAcquireError>)
        requires
            old(self).wf(),
            num_permits < Semaphore::MAX_PERMIT,
        ensures
            final(self).wf(),
            final(self).is_closed_spec() == old(self).is_closed_spec(),
            final(self).queue() == old(self).queue(),
            final(self).wakers() == old(self).wakers(),
            final(self).detached() == old(self).detached(),
            final(self).next_id() == old(self).next_id(),
            old(self).is_closed_spec() ==> r == Err::<(), TryAcquireError>(TryAcquireError::Closed),
            !old(self).is_closed_spec() && old(self).permits() < num_permits ==> r == Err::<
                (),
                TryAcquireError,
            >(TryAcquireError::NoPermits),
            r is Ok <==> !old(self).is_closed_spec() && num_permits <= old(self).permits(),
            r is Ok ==> final(self).permits() == old(self).permits() - num_permits,
            r is Err ==> final(self).permits() == old(self).permits(),
    {
        proof {
            lemma_max_permit();
            lemma_double(num_permits);
            lemma_halves(self.state);
        }
        let num_permits: usize = num_permits << Semaphore::PERMIT_SHIFT;
        let curr: usize = self.state;
        if curr & Semaphore::CLOSED == Semaphore::CLOSED {
            return Err(TryAcquireError::Closed);
        }
        if curr < num_permits {
            return Err(TryAcquireError::NoPermits);
        }
        let next: usize = curr - num_permits;
        self.state = next;
        Ok(())
    }
}


/// Handing out no permits leaves a queue of waiters that all need some as it
/// is.
proof fn lemma_distribute_nothing(queue: Queue)
    requires
        forall|i: int| 0 <= i < queue.len() ==> #[trigger] queue[i].1 > 0,
    ensures
        distribute(queue, 0) == (queue, 0nat),
{
    if queue.len() > 0 {
        assert(queue.update(queue.len() - 1, (queue.last().0, (queue.last().1 - 0) as nat)) =~= queue);
    }
}

impl Semaphore {
    /// Hands `rem` permits to the waiters, oldest first, and makes what they
    /// do not need available. Every waiter that now has all it needs leaves
    /// the queue, and the handles stored with those waiters are given back,
    /// oldest waiter first, for the caller to wake.
    pub(crate) fn add_permits_locked(&mut self, rem: usize) -> (wakers: Vec<std::task::Waker>)
        requires
            old(self).wf(),
            old(self).permits() + distribute(old(self).queue(), rem as nat).1 <= usize::MAX / 2,
        ensures
            final(self).wf(),
            final(self).queue() == distribute(old(self).queue(), rem as nat).0,
            final(self).permits() == old(self).permits() + distribute(old(self).queue(), rem as nat).1,
            final(self).wakers() == old(self).wakers().take(final(self).queue().len() as int),
            wakers@ == some_wakers(
                old(self).wakers().subrange(
                    final(self).queue().len() as int,
                    old(self).queue().len() as int,
                ).reverse(),
            ),
            rem == 0 ==> wakers@.len() == 0 && final(self).queue() == old(self).queue(),
            final(self).is_closed_spec() == old(self).is_closed_spec(),
            final(self).detached() == old(self).detached(),
            final(self).next_id() == old(self).next_id(),
    {
        proof {
            if rem == 0 {
                assert forall|i: int| 0 <= i < self.queue().len() implies #[trigger] self.queue()[i].1 > 0 by {
                    assert(self.queue()[i] == entry(self.waiters.list@[i]));
                }
                lemma_distribute_nothing(self.queue());
            }
        }
        let ghost target = distribute(old(self).queue(), rem as nat);
        let ghost old_permits: nat = old(self).permits();
        let ghost old_wakers = old(self).wakers();
        let ghost n: int = old(self).queue().len() as int;
        let mut rem: usize = rem;
        let mut wakers: Vec<std::task::Waker> = Vec::new();
        proof {
            assert(old_wakers.subrange(n, n).reverse() =~= Seq::<Option<std::task::Waker>>::empty());
            assert(old_wakers.take(n) =~= old_wakers);
        }
        loop
            invariant
                self.wf(),
                distribute(self.queue(), rem as nat).0 == target.0,
                self.permits() + distribute(self.queue(), rem as nat).1 == old_permits + target.1,
                old_permits + target.1 <= usize::MAX / 2,
                self.is_closed_spec() == old(self).is_closed_spec(),
                self.detached() == old(self).detached(),
                self.next_id() == old(self).next_id(),
                n == old_wakers.len(),
                self.queue().len() <= n,
                self.wakers() == old_wakers.take(self.queue().len() as int),
                wakers@ == some_wakers(old_wakers.subrange(self.queue().len() as int, n).reverse()),
            ensures
                self.wf(),
                rem == 0,
                distribute(self.queue(), 0).0 == target.0,
                self.permits() + distribute(self.queue(), 0).1 == old_permits + target.1,
                self.is_closed_spec() == old(self).is_closed_spec(),
                self.detached() == old(self).detached(),
                self.next_id() == old(self).next_id(),
                self.queue().len() <= n,
                self.wakers() == old_wakers.take(self.queue().len() as int),
                wakers@ == some_wakers(old_wakers.subrange(self.queue().len() as int, n).reverse()),
            decreases self.waiters.list.len(),
        {
            if rem == 0 {
                break;
            }
            if self.waiters.list.len() == 0 {
                proof {
                    lemma_double(rem);
                    assert(distribute(self.queue(), rem as nat) == (self.queue(), rem as nat));
                }
                self.state = self.state + (rem << Semaphore::PERMIT_SHIFT);
                rem = 0;
                proof {
                    assert(distribute(self.queue(), 0) == (self.queue(), 0nat));
                }
                break;
            }
            let ghost before = self.waiters.list@;
            let ghost rem_before: usize = rem;
            let mut waiter = self.waiters.list.pop().unwrap();
            proof {
                assert(entries(self.waiters.list@) =~= entries(before).drop_last());
                assert(wakers_of(self.waiters.list@) =~= wakers_of(before).drop_last());
                assert(entry(waiter) == entries(before).last());
                assert(before[before.len() - 1] == waiter);
                assert(wakers_of(before)[before.len() - 1] == waiter.spec_waker());
                assert(old_wakers.take(before.len() as int)[before.len() - 1] == waiter.spec_waker());
            }
            let ghost popped_waker = waiter.spec_waker();
            if !waiter.assign_permits(&mut rem) {
                self.waiters.list.push(waiter);
                proof {
                    assert(entries(self.waiters.list@) =~= entries(before).update(
                        before.len() - 1,
                        (entries(before).last().0, (entries(before).last().1 - rem_before) as nat),
                    ));
                    assert(wakers_of(self.waiters.list@) =~= wakers_of(before));
                    assert forall|i: int| 0 <= i < self.queue().len() implies #[trigger] self.queue()[i].1 > 0 by {
                        assert(self.queue()[i] == entry(self.waiters.list@[i]));
                    }
                    lemma_distribute_nothing(self.queue());
                }
                break;
            }
            let ghost len: int = before.len() as int;
            proof {
                lemma_some_wakers_step(old_wakers, len, n);
                assert(old_wakers[len - 1] == popped_waker);
                assert(wakers_of(self.waiters.list@) =~= old_wakers.take(len - 1));
            }
            let Waiter { state: _, waker, id: _ } = waiter;
            match waker {
                Some(w) => wakers.push(w),
                None => {},
            }
        }
        proof {
            if self.queue().len() > 0 {
                assert forall|i: int| 0 <= i < self.queue().len() implies #[trigger] self.queue()[i].1 > 0 by {
                    assert(self.queue()[i] == entry(self.waiters.list@[i]));
                }
            }
            lemma_distribute_nothing(self.queue());
        }
        wakers
    }

    /// The number of the `n` permits that would be left once the waiters
    /// took what they need, oldest first: what giving back `n` permits adds
    /// to the available ones.
    pub fn unclaimed_permits(&self, n: usize) -> (r: usize)
        requires
            self.wf(),
        ensures
            r == distribute(self.queue(), n as nat).1,
    {
        let ghost q = self.queue();
        let mut i: usize = self.waiters.list.len();
        let mut rem: usize = n;
        proof {
            assert(q.take(i as int) =~= q);
        }
        while i > 0
            invariant
                i <= self.waiters.list.len(),
                q == self.queue(),
                distribute(q, n as nat).1 == distribute(q.take(i as int), rem as nat).1,
            decreases i,
        {
            let need: usize = self.waiters.list[i - 1].state;
            proof {
                assert(q[i - 1] == entry(self.waiters.list@[i - 1]));
                assert(q.take(i as int).last() == q[i - 1]);
                assert(q.take(i as int).drop_last() =~= q.take(i - 1));
            }
            if need > rem {
                return 0;
            }
            rem = rem - need;
            i = i - 1;
        }
        rem
    }

    /// Gives `added` permits back to the semaphore: to the waiters first,
    /// oldest first, and what they do not need to the available permits. The
    /// permits must not exceed the maximum. The handles of the waiters that
    /// now have all they need are given back, oldest first, for the caller
    /// to wake.
    pub fn release(&mut self, added: usize) -> (wakers: Vec<std::task::Waker>)
        requires
            old(self).wf(),
            old(self).permits() + distribute(old(self).queue(), added as nat).1 <= Semaphore::MAX_PERMIT,
        ensures
            final(self).wf(),
            final(self).queue() == distribute(old(self).queue(), added as nat).0,
            final(self).permits() == old(self).permits() + distribute(old(self).queue(), added as nat).1,
            final(self).wakers() == old(self).wakers().take(final(self).queue().len() as int),
            wakers@ == some_wakers(
                old(self).wakers().subrange(
                    final(self).queue().len() as int,
                    old(self).queue().len() as int,
                ).reverse(),
            ),
            final(self).is_closed_spec() == old(self).is_closed_spec(),
            final(self).detached() == old(self).detached(),
            final(self).next_id() == old(self).next_id(),
    {
        proof {
            lemma_max_permit();
        }
        if added == 0 {
            proof {
                assert forall|i: int| 0 <= i < self.queue().len() implies #[trigger] self.queue()[i].1 > 0 by {
                    assert(self.queue()[i] == entry(self.waiters.list@[i]));
                }
                lemma_distribute_nothing(self.queue());
                let w = self.wakers();
                assert(w.subrange(w.len() as int, w.len() as int).reverse() =~= Seq::<Option<std::task::Waker>>::empty());
                assert(w.take(w.len() as int) =~= w);
            }
            return Vec::new();
        }
        self.add_permits_locked(added)
    }

    /// Closes the semaphore: no permit is handed out any more, and every
    /// waiter is taken from the queue. The handles stored with the waiters
    /// are given back, oldest waiter first, for the caller to wake.
    pub fn close(&mut self) -> (wakers: Vec<std::task::Waker>)
        requires
            old(self).wf(),
        ensures
            final(self).wf(),
            final(self).is_closed_spec(),
            final(self).queue().len() == 0,
            final(self).wakers().len() == 0,
            wakers@ == some_wakers(old(self).wakers().reverse()),
            final(self).permits() == old(self).permits(),
            final(self).detached() == old(self).detached() + old(self).queue().reverse(),
            final(self).next_id() == old(self).next_id(),
    {
        let ghost old_queue = old(self).queue();
        let ghost old_detached = old(self).detached();
        let ghost n: nat = old_queue.len();
        let ghost old_wakers = old(self).wakers();
        let mut wakers: Vec<std::task::Waker> = Vec::new();
        proof {
            lemma_set_low(self.state);
            assert(old_wakers.subrange(n as int, n as int).reverse() =~= Seq::<Option<std::task::Waker>>::empty());
        }
        self.state = self.state | Semaphore::CLOSED;
        self.waiters.closed = true;
        while self.waiters.list.len() > 0
            invariant
                self.waiters.closed,
                self.state % 2 == 1,
                n == old_queue.len(),
                self.permits() == old(self).permits(),
                self.next_id() == old(self).next_id(),
                0 <= self.waiters.list.len() <= n,
                self.queue() == old_queue.subrange(0, self.waiters.list.len() as int),
                n == old_wakers.len(),
                self.wakers() == old_wakers.subrange(0, self.waiters.list.len() as int),
                wakers@ == some_wakers(old_wakers.subrange(self.waiters.list.len() as int, n as int).reverse()),
                self.detached() == old_detached + old_queue.subrange(
                    self.waiters.list.len() as int,
                    n as int,
                ).reverse(),
                forall|i: int|
                    0 <= i < self.detached.len() ==> #[trigger] self.detached[i].state <= usize::MAX
                        / 2,
                forall|i: int|
                    0 <= i < self.waiters.list.len() ==> 0 < #[trigger] self.waiters.list[i].state
                        <= usize::MAX / 2,
            decreases self.waiters.list.len(),
        {
            let ghost len: int = self.waiters.list.len() as int;
            let ghost before = self.waiters.list@;
            let ghost q_before = self.queue();
            let ghost det_before = self.detached@;
            let w = self.waiters.list.pop().unwrap();
            proof {
                lemma_some_wakers_step(old_wakers, len, n as int);
                assert(before[len - 1] == w);
                assert(wakers_of(before)[len - 1] == w.spec_waker());
                assert(old_wakers[len - 1] == w.spec_waker());
                assert(self.wakers() =~= old_wakers.subrange(0, len - 1));
            }
            let Waiter { state, waker, id } = w;
            match waker {
                Some(k) => wakers.push(k),
                None => {},
            }
            self.detached.push(Waiter { state, waker: None, id });
            proof {
                assert(self.waiters.list@ =~= before.drop_last());
                assert(before[len - 1] == w);
                assert(q_before =~= old_queue.subrange(0, len));
                assert(self.queue() =~= q_before.drop_last());
                assert(q_before.drop_last() =~= old_queue.subrange(0, len - 1));
                assert(q_before[len - 1] == old_queue[len - 1]);
                assert(q_before[len - 1] == entry(w));
                assert(old_queue.subrange(len - 1, n as int).reverse() =~= old_queue.subrange(
                    len,
                    n as int,
                ).reverse().push(old_queue[len - 1]));
                assert(self.detached@ =~= det_before.push(Waiter { state, waker: None, id }));
                assert(self.detached() =~= entries(det_before).push(entry(Waiter { state, waker: None, id })));
                assert(self.detached() =~= old_detached + old_queue.subrange(len - 1, n as int).reverse());
            }
        }
        proof {
            assert(old_queue.subrange(0, n as int) =~= old_queue);
            assert(old_wakers.subrange(0, n as int) =~= old_wakers);
        }
        wakers
    }
}


/// The index of the newest waiter of `queue` with the id `id`, or -1 where
/// there is none.
pub open spec fn position(queue: Queue, id: u64) -> int
    decreases queue.len(),
{
    if queue.len() == 0 {
        -1
    } else if queue[0].0 == id {
        0
    } else {
        let p: int = position(queue.drop_first(), id);
        if p < 0 {
            -1
        } else {
            p + 1
        }
    }
}

/// The first index of an id is found by looking at the entries in order.
proof fn lemma_position(queue: Queue, id: u64, i: int)
    requires
        0 <= i <= queue.len(),
        forall|j: int| 0 <= j < i ==> #[trigger] queue[j].0 != id,
        i < queue.len() ==> queue[i].0 == id,
    ensures
        position(queue, id) == if i < queue.len() { i } else { -1 },
    decreases i,
{
    if i > 0 {
        assert forall|j: int| 0 <= j < i - 1 implies #[trigger] queue.drop_first()[j].0 != id by {
            assert(queue.drop_first()[j] == queue[j + 1]);
        }
        if i < queue.len() {
            assert(queue.drop_first()[i - 1] == queue[i]);
        }
        lemma_position(queue.drop_first(), id, i - 1);
        assert(queue[0].0 != id);
    }
}

/// Finds the newest waiter of `list` with the id `id`.
fn find_waiter(list: &Vec<Waiter>, id: u64) -> (r: Option<usize>)
    ensures
        r matches Some(i) ==> i == position(entries(list@), id) && i < list.len(),
        r is None ==> position(entries(list@), id) == -1,
{
    let mut i: usize = 0;
    while i < list.len()
        invariant
            i <= list.len(),
            forall|j: int| 0 <= j < i ==> #[trigger] entries(list@)[j].0 != id,
        decreases list.len() - i,
    {
        if list[i].id == id {
            proof {
                lemma_position(entries(list@), id, i as int);
            }
            return Some(i);
        }
        i = i + 1;
    }
    proof {
        lemma_position(entries(list@), id, i as int);
    }
    None
}

impl Semaphore {
    /// Tries to take the permits of the acquisition `node`, which needs
    /// `num_permits` permits. A new acquisition takes all it needs where
    /// there are enough permits; otherwise it takes what there is and enters
    /// the queue as its newest waiter. An acquisition in the queue stays
    /// there until it is served; one that has left the queue has all it
    /// needs. On a closed semaphore every acquisition fails.
    pub fn poll_acquire(
        &mut self,
        waker: std::task::Waker,
        num_permits: usize,
        node: u64,
        queued: bool,
    ) -> (r: Poll<Result<(), AcquireError>>)
        requires
            old(self).wf(),
            num_permits <= usize::MAX / 2,
        ensures
            final(self).wf(),
            final(self).is_closed_spec() == old(self).is_closed_spec(),
            final(self).detached() == old(self).detached(),
            final(self).next_id() == old(self).next_id(),
            old(self).is_closed_spec() ==> {
                &&& r matches Poll::Ready(Err(_))
                &&& final(self).permits() == old(self).permits()
                &&& final(self).queue() == old(self).queue()
                &&& final(self).wakers() == old(self).wakers()
            },
            !old(self).is_closed_spec() && !queued && num_permits <= old(self).permits() ==> {
                &&& r matches Poll::Ready(Ok(_))
                &&& final(self).permits() == old(self).permits() - num_permits
                &&& final(self).queue() == old(self).queue()
                &&& final(self).wakers() == old(self).wakers()
            },
            !old(self).is_closed_spec() && !queued && num_permits > old(self).permits() ==> {
                &&& r matches Poll::Pending
                &&& final(self).permits() == 0
                &&& final(self).queue() == seq![(node, (num_permits - old(self).permits()) as nat)]
                    + old(self).queue()
                &&& final(self).wakers() == seq![Some(waker)] + old(self).wakers()
            },
            !old(self).is_closed_spec() && queued ==> {
                let p = position(old(self).queue(), node);
                &&& final(self).permits() == old(self).permits()
                &&& final(self).queue() == old(self).queue()
                &&& (p >= 0 <==> r matches Poll::Pending)
                &&& (p < 0 <==> r matches Poll::Ready(Ok(_)))
                &&& p < 0 ==> final(self).wakers() == old(self).wakers()
                &&& p >= 0 ==> final(self).wakers() == if old(self).wakers()[p] matches Some(e)
                    && spec_will_wake(e, waker) {
                    old(self).wakers()
                } else {
                    old(self).wakers().update(p, Some(waker))
                }
            },
    {
        proof {
            lemma_halves(self.state);
            lemma_double(num_permits);
        }
        let mut acquired: usize = 0;
        let pos = if queued {
            find_waiter(&self.waiters.list, node)
        } else {
            None
        };
        let needed: usize = if queued {
            match pos {
                Some(i) => {
                    proof {
                        lemma_double(self.waiters.list[i as int].state);
                    }
                    self.waiters.list[i].state << Semaphore::PERMIT_SHIFT
                },
                None => 0,
            }
        } else {
            num_permits << Semaphore::PERMIT_SHIFT
        };
        let curr: usize = self.state;
        if curr & Semaphore::CLOSED > 0 {
            return Poll::Ready(Err(AcquireError::closed()));
        }
        let mut remaining: usize = 0;
        let total: usize = curr + acquired;
        let (next, acq) = if total >= needed {
            proof {
                lemma_halves(needed);
            }
            (curr - (needed - acquired), needed >> Semaphore::PERMIT_SHIFT)
        } else {
            remaining = (needed - acquired) - curr;
            (0, curr >> Semaphore::PERMIT_SHIFT)
        };
        self.state = next;
        acquired = acquired + acq;
        if remaining == 0 && !queued {
            return Poll::Ready(Ok(()));
        }
        if self.waiters.closed {
            return Poll::Ready(Err(AcquireError::closed()));
        }
        if queued {
            match pos {
                Some(i) => {
                    let ghost before = self.waiters.list@;
                    let mut w = self.waiters.list.remove(i);
                    let done = w.assign_permits(&mut acquired);
                    if done {
                        self.waiters.list.insert(i, w);
                        let woken = self.add_permits_locked(acquired);
                        proof {
                            assert(woken@.len() == 0);
                        }
                        return Poll::Ready(Ok(()));
                    }
                    let ghost w0 = w;
                    let replace = match &w.waker {
                        Some(existing) => !will_wake(existing, &waker),
                        None => true,
                    };
                    if replace {
                        w.waker = Some(waker);
                    }
                    self.waiters.list.insert(i, w);
                    proof {
                        assert(self.waiters.list@ =~= before.update(i as int, w));
                        assert(entries(self.waiters.list@) =~= entries(before));
                        assert(before[i as int] == w0);
                        if replace {
                            assert(wakers_of(self.waiters.list@) =~= wakers_of(before).update(
                                i as int,
                                Some(waker),
                            ));
                        } else {
                            assert(wakers_of(self.waiters.list@) =~= wakers_of(before));
                        }
                    }
                    Poll::Pending
                },
                None => {
                    let woken = self.add_permits_locked(acquired);
                    proof {
                        assert(woken@.len() == 0);
                    }
                    Poll::Ready(Ok(()))
                },
            }
        } else {
            let mut w = Waiter::new(node, num_permits);
            if w.assign_permits(&mut acquired) {
                let woken = self.add_permits_locked(acquired);
                proof {
                    assert(woken@.len() == 0);
                }
                return Poll::Ready(Ok(()));
            }
            let replace = match &w.waker {
                Some(existing) => !will_wake(existing, &waker),
                None => true,
            };
            if replace {
                w.waker = Some(waker);
            }
            let ghost before = self.waiters.list@;
            self.waiters.list.insert(0, w);
            proof {
                assert(entries(self.waiters.list@) =~= seq![entry(w)] + entries(before));
                assert(wakers_of(self.waiters.list@) =~= seq![w.spec_waker()] + wakers_of(before));
            }
            Poll::Pending
        }
    }
}


/// The permits of a waiter that go back to the semaphore when it gives up:
/// those it already received out of the `num_permits` it asked for.
pub open spec fn received(num_permits: nat, still_needed: nat) -> nat {
    if still_needed <= num_permits {
        (num_permits - still_needed) as nat
    } else {
        0
    }
}

/// An acquisition of permits that may have to wait for them.
#[derive(Debug)]
pub struct Acquire {
    node: u64,
    num_permits: usize,
    queued: bool,
}

impl Acquire {
    /// The id under which this acquisition waits.
    pub closed spec fn spec_node(self) -> u64 {
        self.node
    }

    /// The number of permits asked for.
    pub closed spec fn spec_num_permits(self) -> nat {
        self.num_permits as nat
    }

    /// The number of permits asked for.
    pub fn num_permits(&self) -> (n: usize)
        ensures
            n == self.spec_num_permits(),
    {
        self.num_permits
    }

    /// Whether this acquisition has entered the wait queue and not yet been
    /// completed.
    pub closed spec fn spec_queued(self) -> bool {
        self.queued
    }

    /// The permits that this acquisition holds while it has not completed,
    /// and that it gives back when it is given up.
    pub open spec fn held(self, semaphore: Semaphore) -> nat {
        if !self.spec_queued() {
            0
        } else {
            let p: int = position(semaphore.queue(), self.spec_node());
            let d: int = position(semaphore.detached(), self.spec_node());
            if p >= 0 {
                received(self.spec_num_permits(), semaphore.queue()[p].1)
            } else if d >= 0 {
                received(self.spec_num_permits(), semaphore.detached()[d].1)
            } else {
                self.spec_num_permits()
            }
        }
    }

    /// Starts an acquisition of `num_permits` permits from `semaphore`.
    pub fn new(semaphore: &mut Semaphore, num_permits: usize) -> (a: Acquire)
        requires
            old(semaphore).wf(),
        ensures
            final(semaphore).wf(),
            a.spec_node() == old(semaphore).next_id(),
            a.spec_num_permits() == num_permits,
            !a.spec_queued(),
            final(semaphore).next_id() == (old(semaphore).next_id() + 1) % 0x1_0000_0000_0000_0000,
            final(semaphore).permits() == old(semaphore).permits(),
            final(semaphore).is_closed_spec() == old(semaphore).is_closed_spec(),
            final(semaphore).queue() == old(semaphore).queue(),
            final(semaphore).wakers() == old(semaphore).wakers(),
            final(semaphore).detached() == old(semaphore).detached(),
    {
        let node: u64 = semaphore.next_waiter;
        semaphore.next_waiter = semaphore.next_waiter.wrapping_add(1);
        Acquire { node, num_permits, queued: false }
    }

    /// Polls the acquisition: it completes once it has all its permits, and
    /// fails once the semaphore is closed; otherwise it waits in the queue
    /// and `waker` is woken when that changes.
    pub fn poll(&mut self, semaphore: &mut Semaphore, waker: std::task::Waker) -> (r: Poll<
        Result<(), AcquireError>,
    >)
        requires
            old(semaphore).wf(),
            old(self).spec_num_permits() <= usize::MAX / 2,
        ensures
            final(semaphore).wf(),
            final(self).spec_node() == old(self).spec_node(),
            final(self).spec_num_permits() == old(self).spec_num_permits(),
            final(semaphore).is_closed_spec() == old(semaphore).is_closed_spec(),
            final(semaphore).detached() == old(semaphore).detached(),
            final(semaphore).next_id() == old(semaphore).next_id(),
            r matches Poll::Pending ==> final(self).spec_queued(),
            r matches Poll::Ready(Ok(_)) ==> !final(self).spec_queued(),
            r matches Poll::Ready(Err(_)) ==> final(self).spec_queued() == old(
                self,
            ).spec_queued(),
            old(semaphore).is_closed_spec() ==> {
                &&& r matches Poll::Ready(Err(_))
                &&& final(semaphore).permits() == old(semaphore).permits()
                &&& final(semaphore).queue() == old(semaphore).queue()
                &&& final(semaphore).wakers() == old(semaphore).wakers()
            },
            !old(semaphore).is_closed_spec() && !old(self).spec_queued()
                && old(self).spec_num_permits() <= old(semaphore).permits() ==> {
                &&& r matches Poll::Ready(Ok(_))
                &&& final(semaphore).permits() == old(semaphore).permits() - old(
                    self,
                ).spec_num_permits()
                &&& final(semaphore).queue() == old(semaphore).queue()
                &&& final(semaphore).wakers() == old(semaphore).wakers()
            },
            !old(semaphore).is_closed_spec() && !old(self).spec_queued()
                && old(self).spec_num_permits() > old(semaphore).permits() ==> {
                &&& r matches Poll::Pending
                &&& final(semaphore).permits() == 0
                &&& final(semaphore).queue() == seq![
                    (
                        old(self).spec_node(),
                        (old(self).spec_num_permits() - old(semaphore).permits()) as nat,
                    ),
                ] + old(semaphore).queue()
                &&& final(semaphore).wakers() == seq![Some(waker)] + old(semaphore).wakers()
            },
            !old(semaphore).is_closed_spec() && old(self).spec_queued() ==> {
                let p = position(old(semaphore).queue(), old(self).spec_node());
                &&& final(semaphore).permits() == old(semaphore).permits()
                &&& final(semaphore).queue() == old(semaphore).queue()
                &&& (p >= 0 <==> r matches Poll::Pending)
                &&& (p < 0 <==> r matches Poll::Ready(Ok(_)))
                &&& p < 0 ==> final(semaphore).wakers() == old(semaphore).wakers()
                &&& p >= 0 ==> final(semaphore).wakers() == if old(semaphore).wakers()[p] matches Some(
                    e,
                ) && spec_will_wake(e, waker) {
                    old(semaphore).wakers()
                } else {
                    old(semaphore).wakers().update(p, Some(waker))
                }
            },
    {
        let r = semaphore.poll_acquire(waker, self.num_permits, self.node, self.queued);
        match r {
            Poll::Pending => {
                self.queued = true;
                Poll::Pending
            },
            Poll::Ready(Err(e)) => Poll::Ready(Err(e)),
            Poll::Ready(Ok(())) => {
                self.queued = false;
                Poll::Ready(Ok(()))
            },
        }
    }

    /// The permits that this acquisition holds and would give back if it
    /// were given up.
    pub fn held_permits(&self, semaphore: &Semaphore) -> (n: usize)
        requires
            semaphore.wf(),
        ensures
            n == self.held(*semaphore),
    {
        if !self.queued {
            return 0;
        }
        let still_needed: usize = match find_waiter(&semaphore.waiters.list, self.node) {
            Some(i) => {
                proof {
                    assert(entries(semaphore.waiters.list@)[i as int] == entry(semaphore.waiters.list@[i as int]));
                }
                semaphore.waiters.list[i].state
            },
            None => match find_waiter(&semaphore.detached, self.node) {
                Some(j) => {
                    proof {
                        assert(entries(semaphore.detached@)[j as int] == entry(semaphore.detached@[j as int]));
                    }
                    semaphore.detached[j].state
                },
                None => {
                    return self.num_permits;
                },
            },
        };
        if still_needed <= self.num_permits {
            self.num_permits - still_needed
        } else {
            0
        }
    }

    /// Gives the acquisition up: it leaves the wait queue, and the permits
    /// that it had already received go back to the semaphore, to the waiters
    /// first. The handles of the waiters that now have all they need are
    /// given back, oldest first, for the caller to wake.
    pub fn cancel(self, semaphore: &mut Semaphore) -> (wakers: Vec<std::task::Waker>)
        requires
            old(semaphore).wf(),
            old(semaphore).permits() + distribute(
                if position(old(semaphore).queue(), self.spec_node()) >= 0 {
                    old(semaphore).queue().remove(position(old(semaphore).queue(), self.spec_node()))
                } else {
                    old(semaphore).queue()
                },
                self.held(*old(semaphore)),
            ).1 <= usize::MAX / 2,
        ensures
            final(semaphore).wf(),
            final(semaphore).is_closed_spec() == old(semaphore).is_closed_spec(),
            final(semaphore).next_id() == old(semaphore).next_id(),
            !self.spec_queued() ==> *final(semaphore) == *old(semaphore) && wakers@.len() == 0,
            self.spec_queued() ==> {
                let p: int = position(old(semaphore).queue(), self.spec_node());
                let d: int = position(old(semaphore).detached(), self.spec_node());
                let rest = if p >= 0 {
                    old(semaphore).queue().remove(p)
                } else {
                    old(semaphore).queue()
                };
                let rest_wakers = if p >= 0 {
                    old(semaphore).wakers().remove(p)
                } else {
                    old(semaphore).wakers()
                };
                &&& final(semaphore).wakers() == rest_wakers.take(final(semaphore).queue().len() as int)
                &&& wakers@ == some_wakers(
                    rest_wakers.subrange(final(semaphore).queue().len() as int, rest.len() as int).reverse(),
                )
                &&& final(semaphore).queue() == distribute(rest, self.held(*old(semaphore))).0
                &&& final(semaphore).permits() == old(semaphore).permits() + distribute(
                    rest,
                    self.held(*old(semaphore)),
                ).1
                &&& final(semaphore).detached() == if p < 0 && d >= 0 {
                    old(semaphore).detached().remove(d)
                } else {
                    old(semaphore).detached()
                }
            },
    {
        if !self.queued {
            return Vec::new();
        }
        let ghost old_list = semaphore.waiters.list@;
        let ghost old_detached = semaphore.detached@;
        let still_needed: usize = match find_waiter(&semaphore.waiters.list, self.node) {
            Some(i) => {
                let w = semaphore.waiters.list.remove(i);
                proof {
                    assert(entries(semaphore.waiters.list@) =~= entries(old_list).remove(i as int));
                    assert(wakers_of(semaphore.waiters.list@) =~= wakers_of(old_list).remove(i as int));
                    assert(entries(old_list)[i as int] == entry(w));
                }
                w.state
            },
            None => match find_waiter(&semaphore.detached, self.node) {
                Some(j) => {
                    let w = semaphore.detached.remove(j);
                    proof {
                        assert(entries(semaphore.detached@) =~= entries(old_detached).remove(j as int));
                        assert(entries(old_detached)[j as int] == entry(w));
                    }
                    w.state
                },
                None => 0,
            },
        };
        let acquired_permits: usize = if still_needed <= self.num_permits {
            self.num_permits - still_needed
        } else {
            0
        };
        proof {
            assert forall|i: int| 0 <= i < semaphore.queue().len() implies #[trigger] semaphore.queue()[i].1 > 0 by {
                assert(semaphore.queue()[i] == entry(semaphore.waiters.list@[i]));
            }
        }
        if acquired_permits > 0 {
            semaphore.add_permits_locked(acquired_permits)
        } else {
            proof {
                lemma_distribute_nothing(semaphore.queue());
                let w = semaphore.wakers();
                assert(w.subrange(w.len() as int, w.len() as int).reverse() =~= Seq::<Option<std::task::Waker>>::empty());
                assert(w.take(w.len() as int) =~= w);
            }
            Vec::new()
        }
    }
}


/// The permits that the waiters of a queue still need, all together.
pub open spec fn total_needed(queue: Queue) -> nat
    decreases queue.len(),
{
    if queue.len() == 0 {
        0
    } else {
        total_needed(queue.drop_last()) + queue.last().1
    }
}

/// Handing permits to the waiters loses none and makes none: each of them
/// either goes to a waiter or stays available.
pub proof fn law_distribute_conserves(queue: Queue, rem: nat)
    ensures
        total_needed(queue) + distribute(queue, rem).1 == total_needed(distribute(queue, rem).0)
            + rem,
    decreases queue.len(),
{
    if queue.len() > 0 {
        if queue.last().1 > rem {
            let after = queue.update(queue.len() - 1, (queue.last().0, (queue.last().1 - rem) as nat));
            assert(after.drop_last() =~= queue.drop_last());
        } else {
            law_distribute_conserves(queue.drop_last(), (rem - queue.last().1) as nat);
        }
    }
}

/// Permits go to the waiters oldest first: the waiters that leave the queue
/// are the oldest ones, the newer ones keep their place and their needs,
/// only the oldest waiter that stays may have received part of what it
/// needs, and permits stay available only once nobody waits.
pub proof fn law_distribute_serves_oldest_first(queue: Queue, rem: nat)
    ensures
        distribute(queue, rem).0.len() <= queue.len(),
        forall|i: int|
            0 <= i < distribute(queue, rem).0.len() - 1 ==> #[trigger] distribute(queue, rem).0[i]
                == queue[i],
        distribute(queue, rem).0.len() > 0 ==> {
            let after = distribute(queue, rem).0;
            &&& after.last().0 == queue[after.len() - 1].0
            &&& after.last().1 <= queue[after.len() - 1].1
        },
        distribute(queue, rem).1 > 0 ==> distribute(queue, rem).0.len() == 0,
    decreases queue.len(),
{
    if queue.len() > 0 && queue.last().1 <= rem {
        law_distribute_serves_oldest_first(queue.drop_last(), (rem - queue.last().1) as nat);
    }
}


/// Permits taken from a semaphore come back in full when they are released:
/// where `n` permits are available, handing `n` permits to the waiters
/// serves nobody (permits are only available while nobody waits, and
/// handing out none changes nothing), so the queue stays as it is and all
/// `n` become available again.
pub proof fn law_release_restores(s: Semaphore, n: nat)
    requires
        s.wf(),
        n <= s.permits(),
    ensures
        distribute(s.queue(), n) == (s.queue(), n),
{
    if n == 0 {
        assert forall|i: int| 0 <= i < s.queue().len() implies #[trigger] s.queue()[i].1 > 0 by {
            assert(s.queue()[i] == entry(s.waiters.list@[i]));
        }
        lemma_distribute_nothing(s.queue());
    } else {
        assert(s.queue().len() == 0);
    }
}

/// Permits are given out in the order in which they were asked for: while an
/// acquisition waits, no permit is available, so a new acquisition of at
/// least one permit cannot overtake it and waits behind it.
pub proof fn law_no_overtaking(s: Semaphore, n: nat)
    requires
        s.wf(),
        s.queue().len() > 0,
        n > 0,
    ensures
        s.permits() == 0,
        n > s.permits(),
{
}

/// What the invariant of a semaphore tells about its queue: every waiter
/// still needs at least one permit (and no more than half a word), every
/// waiter has a slot for its handle, and permits are only available while
/// nobody waits.
pub proof fn lemma_queue_facts(s: Semaphore)
    requires
        s.wf(),
    ensures
        forall|i: int| 0 <= i < s.queue().len() ==> 0 < #[trigger] s.queue()[i].1 <= usize::MAX / 2,
        s.wakers().len() == s.queue().len(),
        s.queue().len() > 0 ==> s.permits() == 0,
{
    assert forall|i: int| 0 <= i < s.queue().len() implies 0 < #[trigger] s.queue()[i].1 <= usize::MAX / 2 by {
        assert(s.queue()[i] == entry(s.waiters.list@[i]));
    }
}

/// Permits are conserved when an acquisition is given up: it gives back
/// exactly what it has received, the permits it asked for less those it
/// still needs. One that never entered the queue has received none; one
/// that left the queue because it was served has received all it asked
/// for; one that still waits, in the queue or taken from it by closing,
/// has received its request less what the queue records it still needs.
pub proof fn law_held_is_received(a: Acquire, s: Semaphore)
    ensures
        !a.spec_queued() ==> a.held(s) == 0,
        a.spec_queued() && position(s.queue(), a.spec_node()) < 0 && position(
            s.detached(),
            a.spec_node(),
        ) < 0 ==> a.held(s) == a.spec_num_permits(),
        ({
            let p = position(s.queue(), a.spec_node());
            a.spec_queued() && p >= 0 && s.queue()[p].1 <= a.spec_num_permits() ==> a.held(s)
                + s.queue()[p].1 == a.spec_num_permits()
        }),
        ({
            let p = position(s.queue(), a.spec_node());
            let d = position(s.detached(), a.spec_node());
            a.spec_queued() && p < 0 && d >= 0 && s.detached()[d].1 <= a.spec_num_permits()
                ==> a.held(s) + s.detached()[d].1 == a.spec_num_permits()
        }),
        a.held(s) <= a.spec_num_permits(),
{
}

/// Whether a slot holds a handle.
pub open spec fn is_stored(slot: Option<std::task::Waker>) -> bool {
    slot is Some
}

/// The handles given back to be woken are exactly the handles present in
/// the slots, one for each slot that holds one, in the order of the slots.
pub proof fn law_some_wakers_are_the_stored_handles(slots: Seq<Option<std::task::Waker>>)
    ensures
        some_wakers(slots) == slots.filter(|o: Option<std::task::Waker>| is_stored(o)).map_values(
            |o: Option<std::task::Waker>| o.unwrap(),
        ),
    decreases slots.len(),
{
    reveal(Seq::filter);
    if slots.len() > 0 {
        law_some_wakers_are_the_stored_handles(slots.drop_last());
        let f = slots.drop_last().filter(|o: Option<std::task::Waker>| is_stored(o));
        if slots.last() is Some {
            assert(f.push(slots.last()).map_values(|o: Option<std::task::Waker>| o.unwrap()) =~= f.map_values(
                |o: Option<std::task::Waker>| o.unwrap(),
            ).push(slots.last().unwrap()));
        }
    } else {
        assert(slots.filter(|o: Option<std::task::Waker>| is_stored(o)) =~= Seq::<Option<std::task::Waker>>::empty());
    }
}
} // verus!
