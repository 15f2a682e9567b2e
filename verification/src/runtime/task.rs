//! Task ids, the errors of finished tasks, and the list of tasks that a
//! scheduler owns.
use vstd::prelude::*;

verus! {

/// The number of different values of a `u64`.
pub open spec fn u64_values() -> nat {
    0x1_0000_0000_0000_0000
}

/// The id that a counter starting at `first` hands out after it has handed
/// out `k` ids: the counter moves on by one each time, wrapping around.
pub open spec fn nth_id(first: u64, k: nat) -> u64 {
    ((first + k) % (u64_values() as int)) as u64
}

/// A counter that hands out ids in order, starting from a first id and
/// wrapping around.
pub struct IdCounter {
    next: u64,
    first: Ghost<u64>,
    taken: Ghost<nat>,
}

impl IdCounter {
    /// The next id is the one after all those handed out so far.
    #[verifier::type_invariant]
    closed spec fn inv(self) -> bool {
        self.next == nth_id(self.first@, self.taken@)
    }

    /// The first id the counter hands out.
    pub closed spec fn first(self) -> u64 {
        self.first@
    }

    /// The number of ids handed out so far.
    pub closed spec fn taken(self) -> nat {
        self.taken@
    }

    /// A counter whose first id is `first`.
    pub fn new(first: u64) -> (c: IdCounter)
        ensures
            c.first() == first,
            c.taken() == 0,
    {
        IdCounter { next: first, first: Ghost(first), taken: Ghost(0) }
    }

    /// The counter of task ids, which starts at one so that no task gets
    /// the id zero.
    pub fn for_tasks() -> (c: IdCounter)
        ensures
            c.first() == 1,
            c.taken() == 0,
    {
        IdCounter::new(1)
    }

    /// Hands out the next id.
    pub fn take(&mut self) -> (id: u64)
        ensures
            id == nth_id(old(self).first(), old(self).taken()),
            final(self).first() == old(self).first(),
            final(self).taken() == old(self).taken() + 1,
    {
        proof {
            use_type_invariant(&*self);
        }
        let id: u64 = self.next;
        let ghost first: u64 = self.first@;
        let ghost k: nat = self.taken@;
        proof {
            vstd::arithmetic::div_mod::lemma_add_mod_noop(first + k, 1, u64_values() as int);
            vstd::arithmetic::div_mod::lemma_small_mod(1, u64_values());
        }
        *self = IdCounter { next: id.wrapping_add(1), first: Ghost(first), taken: Ghost(k + 1) };
        id
    }
}

/// Ids handed out by one counter all differ as long as it hands out fewer
/// than 2^64 of them: the `i`-th and the `j`-th are different.
pub proof fn law_ids_distinct(first: u64, i: nat, j: nat)
    requires
        i < j < u64_values(),
    ensures
        nth_id(first, i) != nth_id(first, j),
{
    let m: int = u64_values() as int;
    let a: int = first + i;
    let b: int = first + j;
    vstd::arithmetic::div_mod::lemma_fundamental_div_mod(a, m);
    vstd::arithmetic::div_mod::lemma_fundamental_div_mod(b, m);
    if a % m == b % m {
        assert(false) by (nonlinear_arith)
            requires
                a == m * (a / m) + a % m,
                b == m * (b / m) + b % m,
                a % m == b % m,
                0 < b - a < m,
                m > 0,
        ;
    }
}

/// Task ids are unique and never zero: the counter of task ids
/// ([`IdCounter::for_tasks`]) starts at one, and of the first 2^64 - 1 ids
/// it hands out, no two are the same and none is zero.
pub proof fn law_task_ids_unique(i: nat, j: nat)
    requires
        i < j < u64_values() - 1,
    ensures
        nth_id(1, i) != nth_id(1, j),
        nth_id(1, i) != 0,
        nth_id(1, j) != 0,
{
    law_ids_distinct(1, i, j);
    vstd::arithmetic::div_mod::lemma_small_mod((1 + i) as nat, u64_values());
    vstd::arithmetic::div_mod::lemma_small_mod((1 + j) as nat, u64_values());
}

/// An id that tells a task apart from the other tasks that are running.
#[derive(Clone, Copy, Debug, Hash, Eq, PartialEq, Structural)]
pub struct Id(u64);

impl Id {
    /// The number behind the id.
    pub closed spec fn spec_u64(self) -> u64 {
        self.0
    }

    /// Takes the next id from `counter`, which then moves on.
    pub fn next(counter: &mut IdCounter) -> (id: Id)
        ensures
            id.spec_u64() == nth_id(old(counter).first(), old(counter).taken()),
            final(counter).first() == old(counter).first(),
            final(counter).taken() == old(counter).taken() + 1,
    {
        Id(counter.take())
    }

    /// The number behind the id.
    pub fn as_u64(&self) -> (n: u64)
        ensures
            n == self.spec_u64(),
    {
        self.0
    }
}

/// Takes the next id for a list of tasks from the counter `next`, which then
/// moves on, wrapping around; zero is skipped, as it marks tasks that no
/// list owns.
pub fn get_next_id(next: &mut u64) -> (id: u64)
    ensures
        id != 0,
        id == if *old(next) == 0 { 1 } else { *old(next) },
        *final(next) == (id + 1) % 0x1_0000_0000_0000_0000,
{
    let mut id: u64 = *next;
    *next = next.wrapping_add(1);
    if id == 0 {
        id = *next;
        *next = next.wrapping_add(1);
    }
    id
}

/// Why a task did not run to completion.
pub enum Repr<P> {
    /// The task was cancelled.
    Cancelled,
    /// The task panicked, with this payload.
    Panic(P),
}

/// A task failed to run to completion: it was cancelled, or it panicked
/// with a payload of type `P`.
pub struct JoinError<P> {
    repr: Repr<P>,
    id: Id,
}

impl<P> JoinError<P> {
    /// Whether the task was cancelled.
    pub closed spec fn spec_is_cancelled(self) -> bool {
        self.repr is Cancelled
    }

    /// The payload of the panic, where the task panicked.
    pub closed spec fn spec_panic(self) -> Option<P> {
        match self.repr {
            Repr::Panic(p) => Some(p),
            Repr::Cancelled => None,
        }
    }

    /// The id of the task.
    pub closed spec fn spec_id(self) -> Id {
        self.id
    }

    /// The error of the task `id`, which was cancelled.
    pub fn cancelled(id: Id) -> (e: JoinError<P>)
        ensures
            e.spec_is_cancelled(),
            e.spec_panic() is None,
            e.spec_id() == id,
    {
        JoinError { repr: Repr::Cancelled, id }
    }

    /// The error of the task `id`, which panicked with `err`.
    pub fn panic(id: Id, err: P) -> (e: JoinError<P>)
        ensures
            !e.spec_is_cancelled(),
            e.spec_panic() == Some(err),
            e.spec_id() == id,
    {
        JoinError { repr: Repr::Panic(err), id }
    }

    /// The id of the task.
    pub fn id(&self) -> (id: Id)
        ensures
            id == self.spec_id(),
    {
        self.id
    }

    /// Whether the task was cancelled.
    pub fn is_cancelled(&self) -> (b: bool)
        ensures
            b == self.spec_is_cancelled(),
    {
        match &self.repr {
            Repr::Cancelled => true,
            Repr::Panic(_) => false,
        }
    }

    /// Whether the task panicked.
    pub fn is_panic(&self) -> (b: bool)
        ensures
            b == self.spec_panic() is Some,
            b == !self.spec_is_cancelled(),
    {
        match &self.repr {
            Repr::Cancelled => false,
            Repr::Panic(_) => true,
        }
    }

    /// The payload of the panic; the task must have panicked.
    pub fn into_panic(self) -> (p: P)
        requires
            self.spec_panic() is Some,
        ensures
            Some(p) == self.spec_panic(),
    {
        match self.repr {
            Repr::Panic(p) => p,
            Repr::Cancelled => vstd::pervasive::unreached(),
        }
    }

    /// The payload of the panic where the task panicked, and the error
    /// itself otherwise.
    pub fn try_into_panic(self) -> (r: Result<P, JoinError<P>>)
        ensures
            match self.spec_panic() {
                Some(p) => r == Ok::<P, JoinError<P>>(p),
                None => r == Err::<P, JoinError<P>>(self),
            },
    {
        match self.repr {
            Repr::Panic(p) => Ok(p),
            Repr::Cancelled => Err(JoinError { repr: Repr::Cancelled, id: self.id }),
        }
    }
}

/// The index of the newest task of `tasks` with the id `id`, or -1 where
/// there is none.
pub open spec fn task_position<T>(tasks: Seq<(u64, T)>, id: u64) -> int
    decreases tasks.len(),
{
    if tasks.len() == 0 {
        -1
    } else if tasks[0].0 == id {
        0
    } else {
        let p: int = task_position(tasks.drop_first(), id);
        if p < 0 {
            -1
        } else {
            p + 1
        }
    }
}

/// The first index of an id is found by looking at the tasks in order.
proof fn lemma_task_position<T>(tasks: Seq<(u64, T)>, id: u64, i: int)
    requires
        0 <= i <= tasks.len(),
        forall|j: int| 0 <= j < i ==> #[trigger] tasks[j].0 != id,
        i < tasks.len() ==> tasks[i].0 == id,
    ensures
        task_position(tasks, id) == if i < tasks.len() { i } else { -1 },
    decreases i,
{
    if i > 0 {
        assert forall|j: int| 0 <= j < i - 1 implies #[trigger] tasks.drop_first()[j].0 != id by {
            assert(tasks.drop_first()[j] == tasks[j + 1]);
        }
        if i < tasks.len() {
            assert(tasks.drop_first()[i - 1] == tasks[i]);
        }
        lemma_task_position(tasks.drop_first(), id, i - 1);
        assert(tasks[0].0 != id);
    }
}

/// The tasks that a scheduler owns, newest first, each with its id; the
/// list can be closed so that no task is added during shutdown.
pub struct OwnedTasks<T> {
    list: Vec<(u64, T)>,
    closed: bool,
    id: u64,
}

impl<T> OwnedTasks<T> {
    /// The owned tasks with their ids, newest first.
    pub closed spec fn tasks(self) -> Seq<(u64, T)> {
        self.list@
    }

    /// Whether the list has been closed.
    pub closed spec fn spec_closed(self) -> bool {
        self.closed
    }

    /// The id of the list, which its tasks carry as their owner.
    pub closed spec fn spec_id(self) -> u64 {
        self.id
    }

    /// An empty, open list with the id `id`, taken from [`get_next_id`].
    pub fn new(id: u64) -> (o: OwnedTasks<T>)
        ensures
            o.tasks().len() == 0,
            !o.spec_closed(),
            o.spec_id() == id,
    {
        OwnedTasks { list: Vec::new(), closed: false, id }
    }

    /// The id of the list.
    pub fn id(&self) -> (id: u64)
        ensures
            id == self.spec_id(),
    {
        self.id
    }

    /// Adds the task `task` with the id `task_id` to the list. Once the list
    /// is closed, the task is handed back instead, to be shut down.
    pub fn bind(&mut self, task_id: u64, task: T) -> (r: Option<T>)
        ensures
            final(self).spec_closed() == old(self).spec_closed(),
            final(self).spec_id() == old(self).spec_id(),
            old(self).spec_closed() ==> r == Some(task) && final(self).tasks() == old(self).tasks(),
            !old(self).spec_closed() ==> r is None && final(self).tasks() == seq![(task_id, task)]
                + old(self).tasks(),
    {
        if self.closed {
            Some(task)
        } else {
            let ghost before = self.list@;
            self.list.insert(0, (task_id, task));
            proof {
                assert(self.list@ =~= seq![(task_id, task)] + before);
            }
            None
        }
    }

    /// Hands `task` on for running; its owner `owner` must be this list.
    pub fn assert_owner<N>(&self, owner: u64, task: N) -> (r: N)
        requires
            owner == self.spec_id(),
        ensures
            r == task,
    {
        task
    }

    /// Closes the list and takes all its tasks out, oldest first, so that
    /// they are shut down; no task is added afterwards.
    pub fn close_and_shutdown_all(&mut self) -> (r: Vec<T>)
        ensures
            final(self).spec_closed(),
            final(self).spec_id() == old(self).spec_id(),
            final(self).tasks().len() == 0,
            r@.len() == old(self).tasks().len(),
            forall|i: int|
                0 <= i < r@.len() ==> #[trigger] r@[i] == old(self).tasks()[old(
                    self,
                ).tasks().len() - 1 - i].1,
    {
        self.closed = true;
        let mut shut: Vec<T> = Vec::new();
        let ghost all = self.list@;
        while self.list.len() > 0
            invariant
                self.closed,
                self.id == old(self).id,
                all == old(self).tasks(),
                self.list@ == all.subrange(0, self.list.len() as int),
                shut@.len() + self.list.len() == all.len(),
                forall|i: int| 0 <= i < shut@.len() ==> #[trigger] shut@[i] == all[all.len() - 1 - i].1,
            decreases self.list.len(),
        {
            let ghost before = self.list@;
            let (_, task) = self.list.pop().unwrap();
            proof {
                assert(before[before.len() - 1] == all[before.len() - 1]);
            }
            shut.push(task);
            proof {
                assert(self.list@ =~= all.subrange(0, self.list.len() as int));
            }
        }
        shut
    }

    /// Takes the task with the id `task_id`, whose owner is `owner`, out of
    /// the list. A task with the owner zero belongs to no list; any other
    /// owner must be this list.
    pub fn remove(&mut self, owner: u64, task_id: u64) -> (r: Option<T>)
        requires
            owner == 0 || owner == old(self).spec_id(),
        ensures
            final(self).spec_closed() == old(self).spec_closed(),
            final(self).spec_id() == old(self).spec_id(),
            owner == 0 ==> r is None && final(self).tasks() == old(self).tasks(),
            owner != 0 ==> {
                let p: int = task_position(old(self).tasks(), task_id);
                &&& p >= 0 ==> r == Some(old(self).tasks()[p].1) && final(self).tasks() == old(
                    self,
                ).tasks().remove(p)
                &&& p < 0 ==> r is None && final(self).tasks() == old(self).tasks()
            },
    {
        if owner == 0 {
            return None;
        }
        let mut i: usize = 0;
        while i < self.list.len()
            invariant
                i <= self.list.len(),
                owner != 0,
                self.list@ == old(self).tasks(),
                self.closed == old(self).closed,
                self.id == old(self).id,
                forall|j: int| 0 <= j < i ==> #[trigger] self.list@[j].0 != task_id,
            decreases self.list.len() - i,
        {
            if self.list[i].0 == task_id {
                let ghost before = self.list@;
                let (id, task) = self.list.remove(i);
                proof {
                    assert(old(self).tasks()[i as int] == (id, task));
                    assert(id == task_id);
                    assert(self.list@ == old(self).tasks().remove(i as int));
                    assert(old(self).tasks()[i as int] == (task_id, task));
                    lemma_task_position(old(self).tasks(), task_id, i as int);
                }
                return Some(task);
            }
            i = i + 1;
        }
        proof {
            lemma_task_position(old(self).tasks(), task_id, i as int);
        }
        None
    }

    /// Whether the list holds no task.
    pub fn is_empty(&self) -> (b: bool)
        ensures
            b == (self.tasks().len() == 0),
    {
        self.list.len() == 0
    }

    /// Whether the list has been closed.
    pub fn is_closed(&self) -> (b: bool)
        ensures
            b == self.spec_closed(),
    {
        self.closed
    }
}

/// The tasks of a scheduler whose tasks never leave its thread; the list
/// behaves as [`OwnedTasks`] does.
pub type LocalOwnedTasks<T> = OwnedTasks<T>;

} // verus!
