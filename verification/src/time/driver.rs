//! The timer of the simulation: it keeps the sleeping tasks and wakes them
//! when the simulation time reaches their deadline.
use vstd::prelude::*;
use crate::time::SimTime;
use crate::time::sleep::Sleep;

verus! {

/// A registered sleeper as the timer sees it: its deadline in nanoseconds,
/// its id, and the handle that wakes it.
pub type Sleeper = (nat, usize, std::task::Waker);

/// The earliest deadline among `sleepers`, zero where there are none.
pub open spec fn earliest_deadline(sleepers: Seq<Sleeper>) -> nat
    decreases sleepers.len(),
{
    if sleepers.len() == 0 {
        0
    } else if sleepers.len() == 1 {
        sleepers[0].0
    } else {
        let rest: nat = earliest_deadline(sleepers.drop_last());
        if sleepers.last().0 < rest {
            sleepers.last().0
        } else {
            rest
        }
    }
}

/// The handles of the sleepers whose deadline is `t`, in their order.
pub open spec fn due(sleepers: Seq<Sleeper>, t: nat) -> Seq<std::task::Waker>
    decreases sleepers.len(),
{
    if sleepers.len() == 0 {
        Seq::empty()
    } else if sleepers.last().0 == t {
        due(sleepers.drop_last(), t).push(sleepers.last().2)
    } else {
        due(sleepers.drop_last(), t)
    }
}

/// The sleepers whose deadline is not `t`, in their order.
pub open spec fn not_due(sleepers: Seq<Sleeper>, t: nat) -> Seq<Sleeper>
    decreases sleepers.len(),
{
    if sleepers.len() == 0 {
        Seq::empty()
    } else if sleepers.last().0 == t {
        not_due(sleepers.drop_last(), t)
    } else {
        not_due(sleepers.drop_last(), t).push(sleepers.last())
    }
}

/// Whether a sleeper with the id `id` is registered.
pub open spec fn has_id(sleepers: Seq<Sleeper>, id: usize) -> bool {
    exists|i: int| 0 <= i < sleepers.len() && #[trigger] sleepers[i].1 == id
}

/// One registered sleeper.
pub struct Entry {
    deadline: SimTime,
    waker: std::task::Waker,
    id: usize,
}

/// The timer: the sleepers that wait for their deadline.
pub struct TimeDriver {
    sleeps: Vec<Entry>,
}

/// A registered sleeper as the timer sees it.
spec fn sleeper_of(e: Entry) -> Sleeper {
    (e.deadline@, e.id, e.waker)
}

impl TimeDriver {
    /// The registered sleepers, in the order in which they were registered.
    pub closed spec fn sleepers(self) -> Seq<Sleeper> {
        self.sleeps@.map_values(|e: Entry| sleeper_of(e))
    }

    /// Creates a timer without sleepers.
    pub fn new() -> (d: TimeDriver)
        ensures
            d.sleepers().len() == 0,
    {
        TimeDriver { sleeps: Vec::new() }
    }

    /// Registers `source` to be woken through `waker` at its deadline, which
    /// must not lie before `now`. A sleeper that is registered already stays
    /// as it is.
    pub fn wake_sleeper(&mut self, source: &Sleep, now: SimTime, waker: std::task::Waker)
        requires
            source.spec_deadline()@ >= now@,
        ensures
            has_id(old(self).sleepers(), source.spec_id()) ==> final(self).sleepers() == old(
                self,
            ).sleepers(),
            !has_id(old(self).sleepers(), source.spec_id()) ==> {
                &&& final(self).sleepers().len() == old(self).sleepers().len() + 1
                &&& final(self).sleepers().drop_last() == old(self).sleepers()
                &&& final(self).sleepers().last().0 == source.spec_deadline()@
                &&& final(self).sleepers().last().1 == source.spec_id()
                &&& final(self).sleepers().last().2 == waker
            },
    {
        let mut i: usize = 0;
        while i < self.sleeps.len()
            invariant
                i <= self.sleeps.len(),
                self.sleepers() == old(self).sleepers(),
                forall|j: int| 0 <= j < i ==> #[trigger] self.sleepers()[j].1 != source.spec_id(),
            decreases self.sleeps.len() - i,
        {
            if self.sleeps[i].id == source.id() {
                proof {
                    assert(self.sleepers()[i as int].1 == source.spec_id());
                }
                return;
            }
            i = i + 1;
        }
        let ghost before = self.sleeps@;
        self.sleeps.push(Entry { deadline: source.deadline(), id: source.id(), waker });
        proof {
            assert(self.sleeps@.drop_last() =~= before);
            assert(self.sleepers().drop_last() =~= old(self).sleepers());
        }
    }

    /// The earliest deadline of the registered sleepers, which is when the
    /// simulation has to wake one of them next, or `None` where there are
    /// none.
    pub fn next_wakeup(&self) -> (r: Option<SimTime>)
        ensures
            r is None <==> self.sleepers().len() == 0,
            r matches Some(t) ==> t@ == earliest_deadline(self.sleepers()),
    {
        if self.sleeps.len() == 0 {
            return None;
        }
        let mut best = self.sleeps[0].deadline;
        let mut i: usize = 1;
        proof {
            assert(self.sleepers()[0] == sleeper_of(self.sleeps@[0]));
            assert(self.sleepers().take(1)[0] == self.sleepers()[0]);
            assert(earliest_deadline(self.sleepers().take(1)) == self.sleepers()[0].0);
        }
        while i < self.sleeps.len()
            invariant
                1 <= i <= self.sleeps.len(),
                best@ == earliest_deadline(self.sleepers().take(i as int)),
            decreases self.sleeps.len() - i,
        {
            proof {
                assert(self.sleepers().take(i + 1).drop_last() =~= self.sleepers().take(i as int));
                assert(self.sleepers().take(i + 1).last() == self.sleepers()[i as int]);
                assert(self.sleepers()[i as int] == sleeper_of(self.sleeps@[i as int]));
            }
            if self.sleeps[i].deadline < best {
                best = self.sleeps[i].deadline;
            }
            i = i + 1;
        }
        proof {
            assert(self.sleepers().take(i as int) =~= self.sleepers());
        }
        Some(best)
    }

    /// Wakes the sleepers whose deadline is `now`: their handles are
    /// returned, in the order in which they were registered, and they leave
    /// the timer; every other sleeper stays.
    pub fn take_timestep(&mut self, now: SimTime) -> (wakers: Vec<std::task::Waker>)
        ensures
            wakers@ == due(old(self).sleepers(), now@),
            final(self).sleepers() == not_due(old(self).sleepers(), now@),
    {
        let mut wakers: Vec<std::task::Waker> = Vec::new();
        let ghost all = old(self).sleepers();
        let mut old_sleeps: Vec<Entry> = Vec::new();
        std::mem::swap(&mut old_sleeps, &mut self.sleeps);
        let mut rest: Vec<Entry> = Vec::new();
        let mut i: usize = 0;
        let n: usize = old_sleeps.len();
        proof {
            assert(old_sleeps@.map_values(|e: Entry| sleeper_of(e)) == all);
            assert(all.take(0) =~= Seq::<Sleeper>::empty());
            assert(rest@.map_values(|e: Entry| sleeper_of(e)) =~= Seq::<Sleeper>::empty());
        }
        while old_sleeps.len() > 0
            invariant
                n == all.len(),
                old_sleeps.len() + i == n,
                forall|j: int| 0 <= j < old_sleeps.len() ==> sleeper_of(#[trigger] old_sleeps@[j]) == all[i + j],
                wakers@ == due(all.take(i as int), now@),
                rest@.map_values(|e: Entry| sleeper_of(e)) == not_due(all.take(i as int), now@),
            decreases old_sleeps.len(),
        {
            let ghost before = old_sleeps@;
            let e = old_sleeps.remove(0);
            proof {
                assert(sleeper_of(e) == all[i as int]);
                assert(all.take(i + 1).drop_last() =~= all.take(i as int));
                assert(all.take(i + 1).last() == all[i as int]);
                assert forall|j: int| 0 <= j < old_sleeps.len() implies sleeper_of(#[trigger] old_sleeps@[j]) == all[i + 1 + j] by {
                    assert(old_sleeps@[j] == before[j + 1]);
                }
            }
            let Entry { deadline, waker, id } = e;
            if deadline == now {
                wakers.push(waker);
            } else {
                let ghost prev = rest@;
                rest.push(Entry { deadline, waker, id });
                proof {
                    assert(rest@.map_values(|e: Entry| sleeper_of(e)) =~= prev.map_values(
                        |e: Entry| sleeper_of(e),
                    ).push(sleeper_of(Entry { deadline, waker, id })));
                }
            }
            i = i + 1;
        }
        self.sleeps = rest;
        proof {
            assert(all.take(n as int) =~= all);
        }
        wakers
    }

    /// Moves the deadline of the sleeper with the id `id` to `deadline`.
    pub fn reset_sleeper(&mut self, id: usize, deadline: SimTime)
        ensures
            final(self).sleepers().len() == old(self).sleepers().len(),
            forall|i: int|
                0 <= i < old(self).sleepers().len() ==> #[trigger] final(self).sleepers()[i] == if old(
                    self,
                ).sleepers()[i].1 == id {
                    (deadline@, id, old(self).sleepers()[i].2)
                } else {
                    old(self).sleepers()[i]
                },
    {
        let ghost all = old(self).sleepers();
        let mut old_sleeps: Vec<Entry> = Vec::new();
        std::mem::swap(&mut old_sleeps, &mut self.sleeps);
        let n: usize = old_sleeps.len();
        let mut i: usize = 0;
        while old_sleeps.len() > 0
            invariant
                n == all.len(),
                old_sleeps.len() + i == n,
                self.sleeps.len() == i,
                forall|j: int| 0 <= j < old_sleeps.len() ==> sleeper_of(#[trigger] old_sleeps@[j]) == all[i + j],
                forall|j: int|
                    0 <= j < i ==> #[trigger] sleeper_of(self.sleeps@[j]) == if all[j].1 == id {
                        (deadline@, id, all[j].2)
                    } else {
                        all[j]
                    },
            decreases old_sleeps.len(),
        {
            let ghost before = old_sleeps@;
            let e = old_sleeps.remove(0);
            proof {
                assert(sleeper_of(e) == all[i as int]);
                assert forall|j: int| 0 <= j < old_sleeps.len() implies sleeper_of(#[trigger] old_sleeps@[j]) == all[i + 1 + j] by {
                    assert(old_sleeps@[j] == before[j + 1]);
                }
            }
            let Entry { deadline: d, waker, id: eid } = e;
            if eid == id {
                self.sleeps.push(Entry { deadline, waker, id: eid });
            } else {
                self.sleeps.push(Entry { deadline: d, waker, id: eid });
            }
            i = i + 1;
        }
    }
}


/// A timestep splits the sleepers in two: those due at `t`, which are woken,
/// and the others, which stay and are none of them due at `t`.
pub proof fn law_timestep_partitions(sleepers: Seq<Sleeper>, t: nat)
    ensures
        due(sleepers, t).len() + not_due(sleepers, t).len() == sleepers.len(),
        forall|i: int| 0 <= i < not_due(sleepers, t).len() ==> #[trigger] not_due(sleepers, t)[i].0 != t,
    decreases sleepers.len(),
{
    if sleepers.len() > 0 {
        law_timestep_partitions(sleepers.drop_last(), t);
        let rest = not_due(sleepers.drop_last(), t);
        if sleepers.last().0 != t {
            assert forall|i: int| 0 <= i < not_due(sleepers, t).len() implies #[trigger] not_due(sleepers, t)[i].0 != t by {
                if i < rest.len() {
                    assert(not_due(sleepers, t)[i] == rest[i]);
                }
            }
        }
    }
}

/// Time moves on past a timestep: where no sleeper is due before `t` (the
/// timer accepts a sleeper only while its deadline lies ahead), every
/// sleeper that stays after the timestep at `t` is due after `t`.
pub proof fn law_timestep_advances(sleepers: Seq<Sleeper>, t: nat)
    requires
        forall|i: int| 0 <= i < sleepers.len() ==> #[trigger] sleepers[i].0 >= t,
    ensures
        forall|i: int| 0 <= i < not_due(sleepers, t).len() ==> #[trigger] not_due(sleepers, t)[i].0 > t,
    decreases sleepers.len(),
{
    if sleepers.len() > 0 {
        let rest = sleepers.drop_last();
        assert forall|i: int| 0 <= i < rest.len() implies #[trigger] rest[i].0 >= t by {
            assert(rest[i] == sleepers[i]);
        }
        law_timestep_advances(rest, t);
        assert(sleepers.last() == sleepers[sleepers.len() - 1]);
        if sleepers.last().0 != t {
            let nd = not_due(rest, t);
            assert forall|i: int| 0 <= i < not_due(sleepers, t).len() implies #[trigger] not_due(sleepers, t)[i].0 > t by {
                if i < nd.len() {
                    assert(not_due(sleepers, t)[i] == nd[i]);
                }
            }
        }
    }
}

/// Whether a sleeper's deadline is `t`.
pub open spec fn is_due(t: nat) -> spec_fn(Sleeper) -> bool {
    |s: Sleeper| s.0 == t
}

/// Whether a sleeper's deadline is other than `t`.
pub open spec fn is_not_due(t: nat) -> spec_fn(Sleeper) -> bool {
    |s: Sleeper| s.0 != t
}

/// A timestep at `t` hands back exactly the handles that the sleepers due
/// at `t` registered, one each, in the order in which they were registered,
/// and every other sleeper stays with its own deadline, id and handle, in
/// its order: the woken handles are the handles of the sleepers that match
/// `t`, and the sleepers that stay are those that do not.
pub proof fn law_timestep_wakes_due_handles(sleepers: Seq<Sleeper>, t: nat)
    ensures
        due(sleepers, t) == sleepers.filter(is_due(t)).map_values(|s: Sleeper| s.2),
        not_due(sleepers, t) == sleepers.filter(is_not_due(t)),
    decreases sleepers.len(),
{
    reveal(Seq::filter);
    if sleepers.len() > 0 {
        let rest = sleepers.drop_last();
        law_timestep_wakes_due_handles(rest, t);
        let f = rest.filter(is_due(t));
        assert(sleepers.filter(is_due(t)) == if sleepers.last().0 == t {
            f.push(sleepers.last())
        } else {
            f
        });
        assert(sleepers.filter(is_not_due(t)) == if sleepers.last().0 != t {
            rest.filter(is_not_due(t)).push(sleepers.last())
        } else {
            rest.filter(is_not_due(t))
        });
        if sleepers.last().0 == t {
            assert(f.push(sleepers.last()).map_values(|s: Sleeper| s.2) =~= f.map_values(
                |s: Sleeper| s.2,
            ).push(sleepers.last().2));
        }
    } else {
        assert(sleepers.filter(is_due(t)) =~= Seq::<Sleeper>::empty());
        assert(sleepers.filter(is_not_due(t)) =~= Seq::<Sleeper>::empty());
    }
}

/// The next wakeup is the deadline of one of the sleepers, and no sleeper
/// has an earlier one.
pub proof fn law_earliest_deadline_bounds(sleepers: Seq<Sleeper>)
    requires
        sleepers.len() > 0,
    ensures
        exists|i: int| 0 <= i < sleepers.len() && #[trigger] sleepers[i].0 == earliest_deadline(sleepers),
        forall|i: int| 0 <= i < sleepers.len() ==> earliest_deadline(sleepers) <= #[trigger] sleepers[i].0,
    decreases sleepers.len(),
{
    let n: int = sleepers.len() as int;
    if n == 1 {
        assert(sleepers[0].0 == earliest_deadline(sleepers));
    } else {
        let rest = sleepers.drop_last();
        law_earliest_deadline_bounds(rest);
        assert forall|i: int| 0 <= i < n implies earliest_deadline(sleepers) <= #[trigger] sleepers[i].0 by {
            if i < n - 1 {
                assert(sleepers[i] == rest[i]);
            }
        }
        if sleepers.last().0 < earliest_deadline(rest) {
            assert(sleepers[n - 1].0 == earliest_deadline(sleepers));
        } else {
            let j = choose|j: int| 0 <= j < rest.len() && #[trigger] rest[j].0 == earliest_deadline(rest);
            assert(sleepers[j] == rest[j]);
            assert(sleepers[j].0 == earliest_deadline(sleepers));
        }
    }
}
} // verus!
