//! The decisions of the single-threaded scheduler: which task runs next, when
//! the scheduler has run out of work, and what happens to the queues on
//! shutdown. The tasks themselves are run by the caller.
use vstd::prelude::*;
use std::collections::VecDeque;
use crate::runtime::task::OwnedTasks;

verus! {

/// The capacity with which the run queues start.
pub const INITIAL_CAPACITY: usize = 64;

/// How many tasks run before the scheduler looks at its progress again.
pub const EVENT_INTERVAL: u32 = 10;

/// Every this many ticks, the queue of tasks scheduled from outside the
/// scheduler is served before the local run queue.
pub const GLOBAL_QUEUE_INTERVAL: u32 = 5;

/// The state of the scheduler that only the thread running it touches.
pub struct Core<T> {
    tasks: VecDeque<T>,
    tick: u32,
    unhandled_panic: bool,
}

/// The state of the scheduler shared with the rest of the program: the
/// queue of tasks scheduled from outside, which is gone once the scheduler
/// has shut down, and whether the future that is blocked on has been woken.
pub struct Shared<T> {
    queue: Option<VecDeque<T>>,
    woken: bool,
}

/// The abstract state of a scheduler.
pub struct SchedulerView<T> {
    /// The local run queue, front first.
    pub local: Seq<T>,
    /// The queue of tasks scheduled from outside, front first, while the
    /// scheduler runs.
    pub remote: Option<Seq<T>>,
    /// The tick counter.
    pub tick: u32,
    /// Whether a task panicked without the panic being handled.
    pub unhandled_panic: bool,
}

/// The task that runs next at tick `tick`, and the queues without it: the
/// queue from outside is looked at first on every fifth tick, the local
/// queue first otherwise.
pub open spec fn pick<T>(tick: u32, local: Seq<T>, remote: Option<Seq<T>>) -> (Option<T>, Seq<T>, Option<Seq<T>>) {
    let remote_ready = remote matches Some(q) && q.len() > 0;
    if tick % 5 == 0 {
        if remote_ready {
            (Some(remote.unwrap()[0]), local, Some(remote.unwrap().drop_first()))
        } else if local.len() > 0 {
            (Some(local[0]), local.drop_first(), remote)
        } else {
            (None, local, remote)
        }
    } else {
        if local.len() > 0 {
            (Some(local[0]), local.drop_first(), remote)
        } else if remote_ready {
            (Some(remote.unwrap()[0]), local, Some(remote.unwrap().drop_first()))
        } else {
            (None, local, remote)
        }
    }
}

/// Whether there is no task left to run.
pub open spec fn out_of_work<T>(local: Seq<T>, remote: Option<Seq<T>>) -> bool {
    local.len() == 0 && !(remote matches Some(q) && q.len() > 0)
}

/// The tick after `tick`, wrapping around.
pub open spec fn next_tick(tick: u32) -> u32 {
    ((tick + 1) % 0x1_0000_0000) as u32
}

impl<T> Core<T> {
    /// The local run queue, front first.
    pub closed spec fn local(self) -> Seq<T> {
        self.tasks@
    }

    /// The tick counter.
    pub closed spec fn spec_tick(self) -> u32 {
        self.tick
    }

    /// Whether a task panicked without the panic being handled.
    pub closed spec fn spec_unhandled_panic(self) -> bool {
        self.unhandled_panic
    }

    /// A core with an empty run queue.
    pub fn new() -> (c: Core<T>)
        ensures
            c.local().len() == 0,
            c.spec_tick() == 0,
            !c.spec_unhandled_panic(),
    {
        Core { tasks: VecDeque::with_capacity(INITIAL_CAPACITY), tick: 0, unhandled_panic: false }
    }

    /// Takes the task at the front of the local run queue.
    pub fn pop_task(&mut self) -> (r: Option<T>)
        ensures
            old(self).local().len() == 0 ==> r is None && final(self).local() == old(self).local(),
            old(self).local().len() > 0 ==> r == Some(old(self).local()[0]) && final(self).local()
                == old(self).local().drop_first(),
            final(self).spec_tick() == old(self).spec_tick(),
            final(self).spec_unhandled_panic() == old(self).spec_unhandled_panic(),
    {
        self.tasks.pop_front()
    }

    /// Puts a task at the back of the local run queue.
    pub fn push_task(&mut self, task: T)
        ensures
            final(self).local() == old(self).local().push(task),
            final(self).spec_tick() == old(self).spec_tick(),
            final(self).spec_unhandled_panic() == old(self).spec_unhandled_panic(),
    {
        self.tasks.push_back(task);
    }

    /// Records that a task panicked without the panic being handled.
    pub fn set_unhandled_panic(&mut self)
        ensures
            final(self).local() == old(self).local(),
            final(self).spec_tick() == old(self).spec_tick(),
            final(self).spec_unhandled_panic(),
    {
        self.unhandled_panic = true;
    }

    /// Whether a task panicked without the panic being handled.
    pub fn unhandled_panic(&self) -> (b: bool)
        ensures
            b == self.spec_unhandled_panic(),
    {
        self.unhandled_panic
    }
}

impl<T> Shared<T> {
    /// The queue of tasks scheduled from outside, front first, while the
    /// scheduler runs.
    pub closed spec fn remote(self) -> Option<Seq<T>> {
        match self.queue {
            Some(q) => Some(q@),
            None => None,
        }
    }

    /// Whether the future that is blocked on has been woken.
    pub closed spec fn spec_woken(self) -> bool {
        self.woken
    }

    /// The shared state of a scheduler that has just started.
    pub fn new() -> (s: Shared<T>)
        ensures
            s.remote() == Some(Seq::<T>::empty()),
            !s.spec_woken(),
    {
        Shared { queue: Some(VecDeque::with_capacity(INITIAL_CAPACITY)), woken: false }
    }

    /// Takes the task at the front of the queue of tasks scheduled from
    /// outside.
    pub fn pop(&mut self) -> (r: Option<T>)
        ensures
            match old(self).remote() {
                Some(q) => q.len() > 0 ==> {
                    &&& r == Some(q[0])
                    &&& final(self).remote() == Some(q.drop_first())
                },
                None => true,
            },
            !(old(self).remote() matches Some(q) && q.len() > 0) ==> {
                &&& r is None
                &&& final(self).remote() == old(self).remote()
            },
            final(self).spec_woken() == old(self).spec_woken(),
    {
        match self.queue.take() {
            Some(mut q) => {
                let r = q.pop_front();
                self.queue = Some(q);
                r
            },
            None => None,
        }
    }

    /// Marks the future that is blocked on as woken.
    pub fn wake(&mut self)
        ensures
            final(self).remote() == old(self).remote(),
            final(self).spec_woken(),
    {
        self.woken = true;
    }

    /// Clears the mark of the future that is blocked on and tells whether it
    /// was set.
    pub fn reset_woken(&mut self) -> (b: bool)
        ensures
            b == old(self).spec_woken(),
            !final(self).spec_woken(),
            final(self).remote() == old(self).remote(),
    {
        let b = self.woken;
        self.woken = false;
        b
    }

    /// Schedules `task`: onto the local run queue of `core` where the caller
    /// runs on this scheduler, onto the queue from outside otherwise. Where
    /// the chosen queue is gone because the scheduler has shut down, the
    /// task is handed back, to be dropped.
    pub fn schedule(&mut self, core: &mut Option<Core<T>>, on_this_scheduler: bool, task: T) -> (r:
        Option<T>)
        ensures
            final(self).spec_woken() == old(self).spec_woken(),
            on_this_scheduler ==> {
                &&& final(self).remote() == old(self).remote()
                &&& match *old(core) {
                    Some(c) => {
                        &&& r is None
                        &&& *final(core) matches Some(c2) && c2.local() == c.local().push(task)
                            && c2.spec_tick() == c.spec_tick() && c2.spec_unhandled_panic()
                            == c.spec_unhandled_panic()
                    },
                    None => r == Some(task) && *final(core) is None,
                }
            },
            !on_this_scheduler ==> {
                &&& *final(core) == *old(core)
                &&& match old(self).remote() {
                    Some(q) => r is None && final(self).remote() == Some(q.push(task)),
                    None => r == Some(task) && final(self).remote() is None,
                }
            },
    {
        if on_this_scheduler {
            match core.take() {
                Some(mut c) => {
                    c.push_task(task);
                    *core = Some(c);
                    None
                },
                None => Some(task),
            }
        } else {
            match self.queue.take() {
                Some(mut q) => {
                    q.push_back(task);
                    self.queue = Some(q);
                    None
                },
                None => Some(task),
            }
        }
    }

    /// Takes the queue of tasks scheduled from outside away for good, as the
    /// scheduler shuts down.
    pub fn close_queue(&mut self) -> (r: Option<VecDeque<T>>)
        ensures
            final(self).remote() is None,
            final(self).spec_woken() == old(self).spec_woken(),
            match r {
                Some(q) => old(self).remote() == Some(q@),
                None => old(self).remote() is None,
            },
    {
        self.queue.take()
    }
}

/// Takes the next task to run at the current tick and advances the tick:
/// every fifth tick the queue from outside is served first, otherwise the
/// local run queue.
pub fn next_task<T>(core: &mut Core<T>, shared: &mut Shared<T>) -> (r: Option<T>)
    ensures
        ({
            let p = pick(old(core).spec_tick(), old(core).local(), old(shared).remote());
            &&& r == p.0
            &&& final(core).local() == p.1
            &&& final(shared).remote() == p.2
        }),
        final(core).spec_tick() == next_tick(old(core).spec_tick()),
        final(core).spec_unhandled_panic() == old(core).spec_unhandled_panic(),
        final(shared).spec_woken() == old(shared).spec_woken(),
{
    let tick: u32 = core.tick;
    core.tick = core.tick.wrapping_add(1);
    if tick % GLOBAL_QUEUE_INTERVAL == 0 {
        match shared.pop() {
            Some(t) => Some(t),
            None => core.pop_task(),
        }
    } else {
        match core.pop_task() {
            Some(t) => Some(t),
            None => shared.pop(),
        }
    }
}


/// Whether picking finds no task does not depend on the tick.
proof fn lemma_pick_none<T>(tick: u32, local: Seq<T>, remote: Option<Seq<T>>)
    ensures
        pick(tick, local, remote).0 is None <==> out_of_work(local, remote),
        pick(tick, local, remote).0 is None ==> pick(tick, local, remote).1 == local && pick(
            tick,
            local,
            remote,
        ).2 == remote,
{
}

/// Both run queues are served first in, first out, on every tick: the task
/// handed out is the front of the local queue, which loses exactly that
/// task, or the front of the queue from outside, which loses exactly that
/// task, and the other queue stays as it is. A task is handed out whenever
/// either queue holds one, and the queue from outside goes first exactly on
/// every fifth tick.
pub proof fn law_queues_are_fifo<T>(tick: u32, local: Seq<T>, remote: Option<Seq<T>>)
    ensures
        ({
            let p = pick(tick, local, remote);
            &&& p.0 is None <==> out_of_work(local, remote)
            &&& p.0 is None ==> p.1 == local && p.2 == remote
            &&& p.0 matches Some(x) ==> {
                ||| (local.len() > 0 && x == local[0] && p.1 == local.drop_first() && p.2 == remote)
                ||| (remote matches Some(q) && q.len() > 0 && x == q[0] && p.1 == local && p.2 == Some(
                    q.drop_first(),
                ))
            }
            &&& (remote matches Some(q) && q.len() > 0 && (tick % 5 == 0 || local.len() == 0)) ==> p.2
                == Some(remote.unwrap().drop_first()) && p.0 == Some(remote.unwrap()[0])
            &&& (local.len() > 0 && (tick % 5 != 0 || !(remote matches Some(q) && q.len() > 0)))
                ==> p.1 == local.drop_first() && p.0 == Some(local[0])
        }),
{
}

/// Runs the tasks of the scheduler until there is nothing left to run: the
/// caller asks for the next task with [`UntilDeadlock::step`], runs it, and
/// asks again, until no task is handed out. The tasks run in rounds of
/// [`EVENT_INTERVAL`]; a round in which a task ran is followed by another
/// look at the queues, and the scheduler stops once a round finds no task at
/// all, or once a task panicked without the panic being handled.
pub struct UntilDeadlock {
    c: u32,
    i: u32,
}

impl UntilDeadlock {
    /// The number of tasks run in the current round.
    pub closed spec fn progress(self) -> u32 {
        self.c
    }

    /// The number of tasks handed out in the current round of at most
    /// [`EVENT_INTERVAL`].
    pub closed spec fn round(self) -> u32 {
        self.i
    }

    /// The counters stay within a round.
    pub closed spec fn wf(self) -> bool {
        self.c <= self.i <= EVENT_INTERVAL
    }

    /// Starts running tasks.
    pub fn new() -> (s: UntilDeadlock)
        ensures
            s.wf(),
            s.progress() == 0,
            s.round() == 0,
    {
        UntilDeadlock { c: 0, i: 0 }
    }

    /// Hands out the next task to run, or `None` once the scheduler stops.
    pub fn step<T>(&mut self, core: &mut Core<T>, shared: &mut Shared<T>) -> (r: Option<T>)
        requires
            old(self).wf(),
        ensures
            final(self).wf(),
            final(core).spec_unhandled_panic() == old(core).spec_unhandled_panic(),
            final(shared).spec_woken() == old(shared).spec_woken(),
            ({
                let new_round = old(self).round() == EVENT_INTERVAL;
                let c0: u32 = if new_round { 0 } else { old(self).progress() };
                let i0: u32 = if new_round { 0 } else { old(self).round() };
                let p = pick(old(core).spec_tick(), old(core).local(), old(shared).remote());
                &&& old(core).spec_unhandled_panic() ==> {
                    &&& r is None
                    &&& final(core).local() == old(core).local()
                    &&& final(core).spec_tick() == old(core).spec_tick()
                    &&& final(shared).remote() == old(shared).remote()
                }
                &&& !old(core).spec_unhandled_panic() && p.0 is Some ==> {
                    &&& r == p.0
                    &&& final(core).local() == p.1
                    &&& final(shared).remote() == p.2
                    &&& final(core).spec_tick() == next_tick(old(core).spec_tick())
                    &&& final(self).progress() == c0 + 1
                    &&& final(self).round() == i0 + 1
                }
                &&& !old(core).spec_unhandled_panic() && p.0 is None ==> {
                    &&& r is None
                    &&& final(core).local() == old(core).local()
                    &&& final(shared).remote() == old(shared).remote()
                    &&& final(core).spec_tick() == if c0 == 0 {
                        next_tick(old(core).spec_tick())
                    } else {
                        next_tick(next_tick(old(core).spec_tick()))
                    }
                }
            }),
            r is None ==> old(core).spec_unhandled_panic() || out_of_work(
                old(core).local(),
                old(shared).remote(),
            ),
    {
        if self.i == EVENT_INTERVAL {
            self.c = 0;
            self.i = 0;
        }
        let ghost c0: u32 = self.c;
        let ghost i0: u32 = self.i;
        let ghost mut first = true;
        loop
            invariant
                self.wf(),
                core.spec_unhandled_panic() == old(core).spec_unhandled_panic(),
                shared.spec_woken() == old(shared).spec_woken(),
                c0 == (if old(self).round() == EVENT_INTERVAL { 0 } else { old(self).progress() }),
                i0 == (if old(self).round() == EVENT_INTERVAL { 0 } else { old(self).round() }),
                first ==> {
                    &&& core.spec_tick() == old(core).spec_tick()
                    &&& core.local() == old(core).local()
                    &&& shared.remote() == old(shared).remote()
                    &&& self.c == c0
                    &&& self.i == i0
                },
                !first ==> {
                    &&& core.spec_tick() == next_tick(old(core).spec_tick())
                    &&& core.local() == old(core).local()
                    &&& shared.remote() == old(shared).remote()
                    &&& self.c == 0
                    &&& c0 > 0
                    &&& !old(core).spec_unhandled_panic()
                    &&& out_of_work(old(core).local(), old(shared).remote())
                },
            decreases (if first { 1int } else { 0int }),
        {
            if core.unhandled_panic() {
                return None;
            }
            proof {
                lemma_pick_none(core.spec_tick(), core.local(), shared.remote());
                lemma_pick_none(old(core).spec_tick(), old(core).local(), old(shared).remote());
            }
            match next_task(core, shared) {
                Some(task) => {
                    self.c = self.c + 1;
                    self.i = self.i + 1;
                    return Some(task);
                },
                None => {
                    if self.c == 0 {
                        return None;
                    }
                    self.c = 0;
                    self.i = 0;
                    proof {
                        first = false;
                    }
                },
            }
        }
    }
}

/// What the scheduler asks of the caller while it blocks on a future.
pub enum BlockOnStep<T> {
    /// Poll the future that is blocked on.
    PollFuture,
    /// Run the task it holds.
    RunTask(T),
    /// Yield to the drivers of the runtime before the next round.
    ParkYield,
    /// Nothing can make progress any more: no task is left to run and the
    /// future has not been woken, or a task panicked without the panic
    /// being handled.
    Deadlock,
}

/// Runs the tasks of the scheduler while blocking on a future: the future is
/// polled whenever it has been woken, and the tasks run in rounds of
/// [`EVENT_INTERVAL`] in between; once a round finds no task at all while the
/// future has not been woken, the scheduler reports a deadlock.
pub struct BlockOn {
    c: u32,
    i: u32,
    at_top: bool,
}

impl BlockOn {
    /// The number of tasks run, and polls of the future, in the current
    /// round.
    pub closed spec fn progress(self) -> u32 {
        self.c
    }

    /// The number of tasks handed out in the current round.
    pub closed spec fn round(self) -> u32 {
        self.i
    }

    /// Whether the next step starts a new round.
    pub closed spec fn at_top(self) -> bool {
        self.at_top
    }

    /// The counters stay within a round, and a round that has started has
    /// made progress.
    pub closed spec fn wf(self) -> bool {
        &&& self.i <= EVENT_INTERVAL
        &&& self.c <= self.i + 1
        &&& !self.at_top ==> self.c >= 1
    }

    /// Starts blocking on a future; the future counts as woken, so that it
    /// is polled first.
    pub fn new<T>(shared: &mut Shared<T>) -> (s: BlockOn)
        ensures
            s.wf(),
            s.at_top(),
            final(shared).spec_woken(),
            final(shared).remote() == old(shared).remote(),
    {
        shared.wake();
        BlockOn { c: 0, i: 0, at_top: true }
    }

    /// Tells the caller what to do next. After a deadlock has been
    /// reported, a further step starts a new round.
    pub fn step<T>(&mut self, core: &mut Core<T>, shared: &mut Shared<T>) -> (r: BlockOnStep<T>)
        requires
            old(self).wf(),
        ensures
            final(self).wf(),
            final(core).spec_unhandled_panic() == old(core).spec_unhandled_panic(),
            ({
                let p = pick(old(core).spec_tick(), old(core).local(), old(shared).remote());
                let panic = old(core).spec_unhandled_panic();
                let woken = old(shared).spec_woken();
                &&& old(self).at_top() && woken ==> {
                    &&& r is PollFuture
                    &&& final(self).progress() == 1
                    &&& final(self).round() == 0
                    &&& !final(self).at_top()
                    &&& !final(shared).spec_woken()
                    &&& final(core).local() == old(core).local()
                    &&& final(core).spec_tick() == old(core).spec_tick()
                    &&& final(shared).remote() == old(shared).remote()
                }
                &&& old(self).at_top() && !woken && panic ==> {
                    &&& r is Deadlock
                    &&& final(core).local() == old(core).local()
                    &&& final(core).spec_tick() == old(core).spec_tick()
                    &&& final(shared).remote() == old(shared).remote()
                }
                &&& old(self).at_top() && !woken && !panic ==> {
                    &&& final(core).local() == p.1
                    &&& final(shared).remote() == p.2
                    &&& final(core).spec_tick() == next_tick(old(core).spec_tick())
                    &&& !final(shared).spec_woken()
                    &&& (p.0 matches Some(t) ==> {
                        &&& r == BlockOnStep::RunTask(t)
                        &&& final(self).progress() == 1
                        &&& final(self).round() == 1
                    })
                    &&& (p.0 is None ==> r is Deadlock)
                }
                &&& !old(self).at_top() && old(self).round() == EVENT_INTERVAL ==> {
                    &&& r is ParkYield
                    &&& final(self).at_top()
                    &&& final(core).local() == old(core).local()
                    &&& final(core).spec_tick() == old(core).spec_tick()
                    &&& final(shared).remote() == old(shared).remote()
                    &&& final(shared).spec_woken() == woken
                }
                &&& !old(self).at_top() && old(self).round() < EVENT_INTERVAL && panic ==> {
                    &&& r is Deadlock
                    &&& final(core).local() == old(core).local()
                    &&& final(core).spec_tick() == old(core).spec_tick()
                    &&& final(shared).remote() == old(shared).remote()
                    &&& final(shared).spec_woken() == woken
                }
                &&& !old(self).at_top() && old(self).round() < EVENT_INTERVAL && !panic ==> {
                    &&& final(core).local() == p.1
                    &&& final(shared).remote() == p.2
                    &&& (p.0 matches Some(t) ==> {
                        &&& r == BlockOnStep::RunTask(t)
                        &&& final(self).progress() == old(self).progress() + 1
                        &&& final(self).round() == old(self).round() + 1
                        &&& final(core).spec_tick() == next_tick(old(core).spec_tick())
                        &&& final(shared).spec_woken() == woken
                    })
                    &&& (p.0 is None && old(self).progress() == 0 ==> {
                        &&& r is Deadlock
                        &&& final(core).spec_tick() == next_tick(old(core).spec_tick())
                        &&& final(shared).spec_woken() == woken
                    })
                    &&& (p.0 is None && old(self).progress() > 0 && woken ==> {
                        &&& r is PollFuture
                        &&& final(self).progress() == 1
                        &&& final(self).round() == 0
                        &&& !final(self).at_top()
                        &&& !final(shared).spec_woken()
                        &&& final(core).spec_tick() == next_tick(old(core).spec_tick())
                    })
                    &&& (p.0 is None && old(self).progress() > 0 && !woken ==> {
                        &&& r is Deadlock
                        &&& !final(shared).spec_woken()
                        &&& final(core).spec_tick() == next_tick(next_tick(old(core).spec_tick()))
                    })
                }
            }),
            r is Deadlock ==> old(core).spec_unhandled_panic() || (out_of_work(
                final(core).local(),
                final(shared).remote(),
            ) && !final(shared).spec_woken()),
            r is ParkYield ==> old(self).round() == EVENT_INTERVAL,
    {
        let ghost mut first = true;
        loop
            invariant
                self.wf(),
                core.spec_unhandled_panic() == old(core).spec_unhandled_panic(),
                first ==> {
                    &&& core.spec_tick() == old(core).spec_tick()
                    &&& core.local() == old(core).local()
                    &&& shared.remote() == old(shared).remote()
                    &&& shared.spec_woken() == old(shared).spec_woken()
                    &&& self.c == old(self).progress()
                    &&& self.i == old(self).round()
                    &&& self.at_top == old(self).at_top()
                },
                !first ==> {
                    &&& core.spec_tick() == next_tick(old(core).spec_tick())
                    &&& core.local() == old(core).local()
                    &&& shared.remote() == old(shared).remote()
                    &&& shared.spec_woken() == old(shared).spec_woken()
                    &&& self.at_top
                    &&& !old(self).at_top()
                    &&& old(self).round() < EVENT_INTERVAL
                    &&& !old(core).spec_unhandled_panic()
                    &&& old(self).progress() > 0
                    &&& out_of_work(old(core).local(), old(shared).remote())
                },
            decreases (if first { 1int } else { 0int }),
        {
            let ghost at_top_now = self.at_top;
            if self.at_top {
                self.c = 0;
                self.i = 0;
                self.at_top = false;
                if shared.reset_woken() {
                    self.c = self.c + 1;
                    return BlockOnStep::PollFuture;
                }
            }
            if self.i == EVENT_INTERVAL {
                self.at_top = true;
                return BlockOnStep::ParkYield;
            }
            if core.unhandled_panic() {
                self.at_top = true;
                return BlockOnStep::Deadlock;
            }
            proof {
                lemma_pick_none(core.spec_tick(), core.local(), shared.remote());
                lemma_pick_none(old(core).spec_tick(), old(core).local(), old(shared).remote());
            }
            match next_task(core, shared) {
                Some(task) => {
                    self.c = self.c + 1;
                    self.i = self.i + 1;
                    return BlockOnStep::RunTask(task);
                },
                None => {
                    if self.c == 0 {
                        self.at_top = true;
                        return BlockOnStep::Deadlock;
                    }
                    self.at_top = true;
                    proof {
                        first = false;
                    }
                },
            }
        }
    }
}


/// Blocking on a future ended in a deadlock.
#[derive(Debug, Clone, Copy, PartialEq, Eq, Structural, Hash)]
pub enum BlockOnError {
    /// Nothing could make progress any more.
    Deadlock,
}

impl BlockOnError {
    /// How the error reads.
    pub fn message(&self) -> (m: &'static str)
        ensures
            m@ == "BlockOnError::Deadlock"@,
    {
        "BlockOnError::Deadlock"
    }
}

/// The result of blocking on a future: its output, or a deadlock where the
/// scheduler stopped without it.
pub fn block_on_result<O>(output: Option<O>) -> (r: Result<O, BlockOnError>)
    ensures
        match output {
            Some(o) => r == Ok::<O, BlockOnError>(o),
            None => r == Err::<O, BlockOnError>(BlockOnError::Deadlock),
        },
{
    match output {
        Some(o) => Ok(o),
        None => Err(BlockOnError::Deadlock),
    }
}

/// Spawns a task: `task` joins the tasks that `owned` owns under the id
/// `task_id`, and `notified`, the notification that it should run, is
/// scheduled. Once `owned` is closed the task is handed back, to be shut
/// down, and nothing is scheduled; a notification whose queue is gone is
/// handed back too, to be dropped.
pub fn spawn_task<T, N>(
    owned: &mut OwnedTasks<T>,
    shared: &mut Shared<N>,
    core: &mut Option<Core<N>>,
    on_this_scheduler: bool,
    task_id: u64,
    task: T,
    notified: N,
) -> (r: (Option<T>, Option<N>))
    ensures
        final(owned).spec_closed() == old(owned).spec_closed(),
        final(shared).spec_woken() == old(shared).spec_woken(),
        old(owned).spec_closed() ==> {
            &&& r.0 == Some(task)
            &&& r.1 == Some(notified)
            &&& final(owned).tasks() == old(owned).tasks()
            &&& final(shared).remote() == old(shared).remote()
            &&& *final(core) == *old(core)
        },
        !old(owned).spec_closed() ==> {
            &&& r.0 is None
            &&& final(owned).tasks() == seq![(task_id, task)] + old(owned).tasks()
            &&& on_this_scheduler ==> final(shared).remote() == old(shared).remote()
            &&& on_this_scheduler ==> match *old(core) {
                Some(c) => r.1 is None && (*final(core) matches Some(c2) && c2.local() == c.local().push(
                    notified,
                ) && c2.spec_tick() == c.spec_tick() && c2.spec_unhandled_panic()
                    == c.spec_unhandled_panic()),
                None => r.1 == Some(notified) && *final(core) is None,
            }
            &&& !on_this_scheduler ==> *final(core) == *old(core)
            &&& !on_this_scheduler ==> match old(shared).remote() {
                Some(q) => r.1 is None && final(shared).remote() == Some(q.push(notified)),
                None => r.1 == Some(notified) && final(shared).remote() is None,
            }
        },
{
    match owned.bind(task_id, task) {
        Some(task) => (Some(task), Some(notified)),
        None => (None, shared.schedule(core, on_this_scheduler, notified)),
    }
}

/// Shuts a scheduler down: the list of owned tasks is closed and emptied,
/// and the local run queue and the queue from outside are drained; the
/// queue from outside is gone afterwards. Gives back, in this order, the
/// owned tasks to shut down (oldest first), the notifications of the local
/// run queue, and those of the queue from outside.
pub fn shutdown<T, N>(core: &mut Core<N>, shared: &mut Shared<N>, owned: &mut OwnedTasks<T>) -> (r: (
    Vec<T>,
    Vec<N>,
    Vec<N>,
))
    ensures
        final(owned).spec_closed(),
        final(owned).tasks().len() == 0,
        final(core).local().len() == 0,
        final(shared).remote() is None,
        r.0@.len() == old(owned).tasks().len(),
        forall|i: int|
            0 <= i < r.0@.len() ==> #[trigger] r.0@[i] == old(owned).tasks()[old(owned).tasks().len()
                - 1 - i].1,
        r.1@ == old(core).local(),
        match old(shared).remote() {
            Some(q) => r.2@ == q,
            None => r.2@.len() == 0,
        },
{
    let shut = owned.close_and_shutdown_all();
    let mut local: Vec<N> = Vec::new();
    loop
        invariant
            old(core).local() == local@ + core.local(),
        ensures
            old(core).local() == local@,
            core.local().len() == 0,
        decreases core.local().len(),
    {
        match core.pop_task() {
            Some(t) => {
                let ghost before = local@;
                local.push(t);
                proof {
                    assert(local@ + core.local() =~= before + seq![t] + core.local());
                }
            },
            None => {
                proof {
                    assert(local@ + core.local() =~= local@);
                }
                break;
            },
        }
    }
    let mut remote: Vec<N> = Vec::new();
    match shared.close_queue() {
        Some(mut q) => {
            let ghost all = q@;
            proof {
                assert(remote@ + q@ =~= all);
            }
            while q.len() > 0
                invariant
                    all == remote@ + q@,
                decreases q.len(),
            {
                let ghost before = remote@;
                let ghost q_before = q@;
                let t = q.pop_front().unwrap();
                remote.push(t);
                proof {
                    assert(remote@ + q@ =~= before + q_before);
                }
            }
            proof {
                assert(remote@ =~= all);
            }
        },
        None => {},
    }
    (shut, local, remote)
}
} // verus!
