//! Time primitives bound to the simulation time.
use vstd::prelude::*;

pub mod duration;
pub mod order;
pub mod clock;
pub mod driver;
pub mod sleep;

pub use duration::Duration;
pub use clock::Clock;
pub use driver::TimeDriver;
pub use sleep::{sleep, sleep_until, Sleep, SleepIds};

verus! {

/// A point of time in the simulation, measured from the start of the
/// simulation.
#[derive(Copy, Clone, Debug, Eq, Ord, Hash)]
pub struct SimTime(Duration);

impl View for SimTime {
    type V = nat;

    /// Nanoseconds since the start of the simulation.
    closed spec fn view(&self) -> nat {
        self.0@
    }
}

impl SimTime {
    /// The time since the start is a span of time, and so as bounded as
    /// one.
    #[verifier::type_invariant]
    pub closed spec fn inv(self) -> bool {
        self.0.inv()
    }

    /// A point of time lies no later than the latest representable one.
    pub proof fn lemma_bounded(self)
        requires
            self.inv(),
        ensures
            self@ <= duration::max_nanos(),
    {
        self.0.lemma_bounded();
    }

    /// The start of the simulation.
    pub fn zero() -> (t: SimTime)
        ensures
            t@ == 0,
    {
        let d = Duration::zero();
        proof {
            use_type_invariant(&d);
        }
        SimTime(d)
    }

    /// The earliest point of time, the start of the simulation.
    pub fn min() -> (t: SimTime)
        ensures
            t@ == 0,
    {
        let d = Duration::zero();
        proof {
            use_type_invariant(&d);
        }
        SimTime(d)
    }

    /// The latest representable point of time.
    pub fn max() -> (t: SimTime)
        ensures
            t@ == duration::max_nanos(),
    {
        let d = Duration::max();
        proof {
            use_type_invariant(&d);
        }
        SimTime(d)
    }

    /// The time elapsed since the start of the simulation.
    pub fn as_duration(&self) -> (d: Duration)
        ensures
            d@ == self@,
    {
        self.0
    }

    /// Whether two points of time lie less than ten nanoseconds apart.
    pub fn eq_approx(&self, other: SimTime) -> (b: bool)
        ensures
            b == (abs_diff(self@, other@) < 10),
    {
        let dur = self.duration_diff(other);
        dur < Duration::from_nanos(10)
    }

    /// The time between the earlier and the later of the two points.
    pub fn duration_diff(&self, other: SimTime) -> (d: Duration)
        ensures
            d@ == abs_diff(self@, other@),
            self@ <= other@ ==> self@ + d@ == other@,
            other@ <= self@ ==> other@ + d@ == self@,
    {
        if *self > other {
            self.duration_since(other)
        } else {
            other.duration_since(*self)
        }
    }

    /// The time from `earlier` to `self`, or zero where `earlier` lies after
    /// `self`.
    pub fn duration_since(&self, earlier: SimTime) -> (d: Duration)
        ensures
            d@ == if earlier@ <= self@ { self@ - earlier@ } else { 0 },
    {
        match self.checked_duration_since(earlier) {
            Some(d) => d,
            None => Duration::zero(),
        }
    }

    /// The time from `earlier` to `self`, or `None` where `earlier` lies
    /// after `self`.
    pub fn checked_duration_since(&self, earlier: SimTime) -> (r: Option<Duration>)
        ensures
            earlier@ <= self@ <==> r is Some,
            r matches Some(d) ==> d@ == self@ - earlier@,
    {
        self.0.checked_sub(earlier.0)
    }

    /// The time from `earlier` to `self`, or zero where `earlier` lies after
    /// `self`.
    pub fn saturating_duration_since(&self, earlier: SimTime) -> (d: Duration)
        ensures
            d@ == if earlier@ <= self@ { self@ - earlier@ } else { 0 },
    {
        match self.checked_duration_since(earlier) {
            Some(d) => d,
            None => Duration::zero(),
        }
    }

    /// The time elapsed from `self` until `now`, the current simulation
    /// time, or zero where `now` lies before `self`.
    pub fn elapsed(&self, now: SimTime) -> (d: Duration)
        ensures
            d@ == if self@ <= now@ { now@ - self@ } else { 0 },
    {
        now.duration_since(*self)
    }

    /// The point `duration` after `self`, or `None` where it is not
    /// representable.
    pub fn checked_add(&self, duration: Duration) -> (r: Option<SimTime>)
        ensures
            self@ + duration@ <= duration::max_nanos() <==> r is Some,
            r matches Some(t) ==> t@ == self@ + duration@,
    {
        match self.0.checked_add(duration) {
            Some(d) => {
                proof {
                    use_type_invariant(&d);
                }
                Some(SimTime(d))
            },
            None => None,
        }
    }

    /// The point `duration` before `self`, or `None` where it would lie
    /// before the start of the simulation.
    pub fn checked_sub(&self, duration: Duration) -> (r: Option<SimTime>)
        ensures
            duration@ <= self@ <==> r is Some,
            r matches Some(t) ==> t@ == self@ - duration@,
    {
        match self.0.checked_sub(duration) {
            Some(d) => {
                proof {
                    use_type_invariant(&d);
                }
                Some(SimTime(d))
            },
            None => None,
        }
    }
}

impl SimTime {
    /// Moves the point `duration` later in place; the result must be
    /// representable.
    pub fn add_assign(&mut self, duration: Duration)
        requires
            old(self)@ + duration@ <= duration::max_nanos(),
        ensures
            final(self)@ == old(self)@ + duration@,
    {
        match self.checked_add(duration) {
            Some(t) => *self = t,
            None => vstd::pervasive::unreached(),
        }
    }

    /// Moves the point `duration` earlier in place; it must not move before
    /// the start of the simulation.
    pub fn sub_assign(&mut self, duration: Duration)
        requires
            duration@ <= old(self)@,
        ensures
            final(self)@ == old(self)@ - duration@,
    {
        match self.checked_sub(duration) {
            Some(t) => *self = t,
            None => vstd::pervasive::unreached(),
        }
    }
}

impl SimTime {
    /// The point of time `total` nanoseconds after the start.
    pub closed spec fn spec_from_nanos(total: nat) -> SimTime {
        SimTime(Duration::spec_from_nanos(total))
    }
}

impl core::ops::Add<Duration> for SimTime {
    type Output = SimTime;

    /// The point `rhs` after `self`, which must be representable.
    fn add(self, rhs: Duration) -> (t: SimTime) {
        let d = self.0 + rhs;
        proof {
            use_type_invariant(&d);
        }
        SimTime(d)
    }
}

impl vstd::std_specs::ops::AddSpecImpl<Duration> for SimTime {
    open spec fn obeys_add_spec() -> bool {
        true
    }

    open spec fn add_req(self, rhs: Duration) -> bool {
        self@ + rhs@ <= duration::max_nanos()
    }

    open spec fn add_spec(self, rhs: Duration) -> SimTime {
        SimTime::spec_from_nanos(self@ + rhs@)
    }
}

impl core::ops::Sub<Duration> for SimTime {
    type Output = SimTime;

    /// The point `rhs` before `self`, which must not lie before the start.
    fn sub(self, rhs: Duration) -> (t: SimTime) {
        let d = self.0 - rhs;
        proof {
            use_type_invariant(&d);
        }
        SimTime(d)
    }
}

impl vstd::std_specs::ops::SubSpecImpl<Duration> for SimTime {
    open spec fn obeys_sub_spec() -> bool {
        true
    }

    open spec fn sub_req(self, rhs: Duration) -> bool {
        rhs@ <= self@
    }

    open spec fn sub_spec(self, rhs: Duration) -> SimTime {
        SimTime::spec_from_nanos((self@ - rhs@) as nat)
    }
}

impl core::ops::Sub<SimTime> for SimTime {
    type Output = Duration;

    /// The time from `rhs` to `self`, or zero where `rhs` lies after
    /// `self`.
    fn sub(self, rhs: SimTime) -> (d: Duration) {
        let d = self.duration_since(rhs);
        proof {
            use_type_invariant(&d);
            d.lemma_canonical();
        }
        d
    }
}

impl vstd::std_specs::ops::SubSpecImpl<SimTime> for SimTime {
    open spec fn obeys_sub_spec() -> bool {
        true
    }

    open spec fn sub_req(self, rhs: SimTime) -> bool {
        true
    }

    open spec fn sub_spec(self, rhs: SimTime) -> Duration {
        Duration::spec_from_nanos(if rhs@ <= self@ { (self@ - rhs@) as nat } else { 0 })
    }
}

impl Default for SimTime {
    /// The start of the simulation.
    fn default() -> (t: SimTime)
        ensures
            t@ == 0,
    {
        SimTime::zero()
    }
}

/// The distance between two numbers.
pub open spec fn abs_diff(a: nat, b: nat) -> nat {
    if a > b {
        (a - b) as nat
    } else {
        (b - a) as nat
    }
}


/// The distance between two points of time does not depend on their order,
/// and so neither does whether they are approximately equal.
pub proof fn law_diff_symmetric(a: SimTime, b: SimTime)
    ensures
        abs_diff(a@, b@) == abs_diff(b@, a@),
        (abs_diff(a@, b@) < 10) == (abs_diff(b@, a@) < 10),
{
}

/// The distance between two lengths of time is what takes the shorter one
/// to the longer one: added to the smaller of the two it gives the larger,
/// whichever of them comes first.
pub proof fn law_diff_is_distance(a: nat, b: nat)
    ensures
        a <= b ==> a + abs_diff(a, b) == b,
        b <= a ==> b + abs_diff(a, b) == a,
        abs_diff(a, b) == 0 <==> a == b,
{
}

/// Going `d` forward from `t` and then `d` back again returns to `t`: where
/// the sum is representable, the subtraction is allowed and undoes it.
pub proof fn law_sub_undoes_add(t: SimTime, d: Duration)
    requires
        t@ + d@ <= duration::max_nanos(),
    ensures
        d@ <= t@ + d@,
        (t@ + d@) - d@ == t@,
{
}
} // verus!
