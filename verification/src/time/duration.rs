//! A span of simulated time with nanosecond resolution.
use vstd::prelude::*;
use core::cmp::Ordering;
use vstd::std_specs::cmp::{PartialEqSpecImpl, PartialOrdSpecImpl};
use vstd::arithmetic::div_mod::{lemma_fundamental_div_mod, lemma_fundamental_div_mod_converse};

verus! {

/// Number of nanoseconds in one second.
pub const NANOS_PER_SEC: u32 = 1_000_000_000;

/// The number of nanoseconds that the longest representable span holds.
pub open spec fn max_nanos() -> nat {
    (u64::MAX as nat * 1_000_000_000 + 999_999_999) as nat
}

/// What dividing a span of `total` nanoseconds by `rhs` gives: the whole
/// seconds and the sub-second nanoseconds are divided on their own, and the
/// remainder of the seconds is carried into the nanoseconds.
pub open spec fn div_nanos(total: nat, rhs: nat) -> nat {
    let secs: nat = total / 1_000_000_000;
    let nanos: nat = total % 1_000_000_000;
    ((secs / rhs) * 1_000_000_000 + nanos / rhs + ((secs % rhs) * 1_000_000_000) / rhs) as nat
}

/// Dividing a span by `rhs` rounds down, and comes within one nanosecond of
/// the exact quotient: the seconds and the nanoseconds are each rounded
/// down on their own, which loses at most one nanosecond against dividing
/// the whole length.
pub proof fn law_div_within_one(total: nat, rhs: nat)
    requires
        rhs > 0,
    ensures
        div_nanos(total, rhs) <= total / rhs,
        total / rhs <= div_nanos(total, rhs) + 1,
{
    let s: int = (total / 1_000_000_000) as int;
    let n: int = (total % 1_000_000_000) as int;
    let r: int = rhs as int;
    let q: int = s / r;
    let m: int = s % r;
    vstd::arithmetic::div_mod::lemma_fundamental_div_mod(total as int, 1_000_000_000);
    vstd::arithmetic::div_mod::lemma_fundamental_div_mod(s, r);
    let a: int = n / r;
    let b: int = (m * 1_000_000_000) / r;
    vstd::arithmetic::div_mod::lemma_fundamental_div_mod(n, r);
    vstd::arithmetic::div_mod::lemma_fundamental_div_mod(m * 1_000_000_000, r);
    vstd::arithmetic::div_mod::lemma_fundamental_div_mod(total as int, r);
    let t: int = total as int;
    assert(t == q * 1_000_000_000 * r + m * 1_000_000_000 + n) by (nonlinear_arith)
        requires
            t == 1_000_000_000 * s + n,
            s == r * q + m,
    ;
    assert(q * 1_000_000_000 + a + b <= t / r && t / r <= q * 1_000_000_000 + a + b + 1) by (nonlinear_arith)
        requires
            t == q * 1_000_000_000 * r + m * 1_000_000_000 + n,
            n == r * a + n % r,
            0 <= n % r < r,
            m * 1_000_000_000 == r * b + (m * 1_000_000_000) % r,
            0 <= (m * 1_000_000_000) % r < r,
            t == r * (t / r) + t % r,
            0 <= t % r < r,
            r > 0,
    ;
}

/// A span of time, held as whole seconds and a sub-second number of
/// nanoseconds that is always below one second.
#[derive(Copy, Clone, Debug, Eq, Ord, Hash)]
pub struct Duration {
    secs: u64,
    nanos: u32,
}

impl Duration {
    /// The sub-second part stays below one second.
    #[verifier::type_invariant]
    pub closed spec fn inv(self) -> bool {
        self.nanos < NANOS_PER_SEC
    }
}

impl View for Duration {
    type V = nat;

    /// The total length of the span in nanoseconds.
    closed spec fn view(&self) -> nat {
        (self.secs as nat * 1_000_000_000 + self.nanos as nat) as nat
    }
}

/// A number of nanoseconds, split into whole seconds and the rest, gives
/// those two parts back under division and remainder by one second.
proof fn lemma_split(total: int, secs: int, nanos: int)
    requires
        0 <= nanos < 1_000_000_000,
        total == secs * 1_000_000_000 + nanos,
    ensures
        total / 1_000_000_000 == secs,
        total % 1_000_000_000 == nanos,
{
    lemma_fundamental_div_mod_converse(total, 1_000_000_000, secs, nanos);
}

impl Duration {
    /// Establishes the facts about a span that its representation keeps.
    proof fn lemma_view(self)
        requires
            self.inv(),
        ensures
            self@ <= max_nanos(),
            self@ / 1_000_000_000 == self.secs,
            self@ % 1_000_000_000 == self.nanos,
    {
        lemma_split(self@ as int, self.secs as int, self.nanos as int);
    }

    /// A span is never longer than the longest representable one.
    pub proof fn lemma_bounded(self)
        requires
            self.inv(),
        ensures
            self@ <= max_nanos(),
    {
        self.lemma_view();
    }

    /// The span of `total` nanoseconds, for `total` up to `max_nanos()`.
    pub closed spec fn spec_from_nanos(total: nat) -> Duration {
        Duration { secs: (total / 1_000_000_000) as u64, nanos: (total % 1_000_000_000) as u32 }
    }

    /// The span of `total` nanoseconds is `total` nanoseconds long.
    pub proof fn lemma_from_nanos(total: nat)
        requires
            total <= max_nanos(),
        ensures
            Duration::spec_from_nanos(total)@ == total,
    {
        vstd::arithmetic::div_mod::lemma_fundamental_div_mod(total as int, 1_000_000_000);
    }

    /// A span is determined by its length.
    pub proof fn lemma_canonical(self)
        requires
            self.inv(),
        ensures
            self == Duration::spec_from_nanos(self@),
    {
        self.lemma_view();
    }

    /// The span of zero length.
    pub fn zero() -> (d: Duration)
        ensures
            d@ == 0,
    {
        Duration { secs: 0, nanos: 0 }
    }

    /// The longest representable span.
    pub fn max() -> (d: Duration)
        ensures
            d@ == max_nanos(),
    {
        Duration { secs: u64::MAX, nanos: 999_999_999 }
    }

    /// Creates a span of `secs` seconds and `nanos` nanoseconds; nanoseconds
    /// beyond one second carry over into the seconds.
    pub fn new(secs: u64, nanos: u32) -> (d: Duration)
        requires
            secs + nanos / 1_000_000_000u32 <= u64::MAX,
        ensures
            d@ == secs * 1_000_000_000 + nanos,
    {
        let extra: u64 = (nanos / NANOS_PER_SEC) as u64;
        let d = Duration { secs: secs + extra, nanos: nanos % NANOS_PER_SEC };
        proof {
            vstd::arithmetic::div_mod::lemma_fundamental_div_mod(nanos as int, 1_000_000_000);
        }
        d
    }

    /// Creates a span of whole seconds.
    pub fn from_secs(secs: u64) -> (d: Duration)
        ensures
            d@ == secs * 1_000_000_000,
    {
        Duration { secs, nanos: 0 }
    }

    /// Creates a span from a number of milliseconds.
    pub fn from_millis(millis: u64) -> (d: Duration)
        ensures
            d@ == millis * 1_000_000,
    {
        let secs: u64 = millis / 1_000;
        let rest: u64 = millis % 1_000;
        proof {
            vstd::arithmetic::div_mod::lemma_fundamental_div_mod(millis as int, 1_000);
        }
        Duration { secs, nanos: (rest as u32) * 1_000_000 }
    }

    /// Creates a span from a number of microseconds.
    pub fn from_micros(micros: u64) -> (d: Duration)
        ensures
            d@ == micros * 1_000,
    {
        let secs: u64 = micros / 1_000_000;
        let rest: u64 = micros % 1_000_000;
        proof {
            vstd::arithmetic::div_mod::lemma_fundamental_div_mod(micros as int, 1_000_000);
        }
        Duration { secs, nanos: (rest as u32) * 1_000 }
    }

    /// Creates a span from a number of nanoseconds.
    pub fn from_nanos(nanos: u64) -> (d: Duration)
        ensures
            d@ == nanos,
    {
        let secs: u64 = nanos / 1_000_000_000;
        let rest: u64 = nanos % 1_000_000_000;
        proof {
            vstd::arithmetic::div_mod::lemma_fundamental_div_mod(nanos as int, 1_000_000_000);
        }
        Duration { secs, nanos: rest as u32 }
    }

    /// The number of whole seconds in the span.
    pub fn as_secs(&self) -> (s: u64)
        ensures
            s == self@ / 1_000_000_000,
    {
        proof {
            use_type_invariant(self);
            self.lemma_view();
        }
        self.secs
    }

    /// The part of the span below one second, in nanoseconds.
    pub fn subsec_nanos(&self) -> (n: u32)
        ensures
            n == self@ % 1_000_000_000,
    {
        proof {
            use_type_invariant(self);
            self.lemma_view();
        }
        self.nanos
    }

    /// The part of the span below one second, in whole milliseconds.
    pub fn subsec_millis(&self) -> (n: u32)
        ensures
            n == (self@ % 1_000_000_000) / 1_000_000,
    {
        proof {
            use_type_invariant(self);
            self.lemma_view();
        }
        self.nanos / 1_000_000
    }

    /// The part of the span below one second, in whole microseconds.
    pub fn subsec_micros(&self) -> (n: u32)
        ensures
            n == (self@ % 1_000_000_000) / 1_000,
    {
        proof {
            use_type_invariant(self);
            self.lemma_view();
        }
        self.nanos / 1_000
    }

    /// The total length of the span in nanoseconds.
    pub fn as_nanos(&self) -> (n: u128)
        ensures
            n == self@,
    {
        proof {
            use_type_invariant(self);
            self.lemma_view();
        }
        self.secs as u128 * 1_000_000_000 + self.nanos as u128
    }

    /// The total length of the span in whole microseconds.
    pub fn as_micros(&self) -> (n: u128)
        ensures
            n == self@ / 1_000,
    {
        proof {
            use_type_invariant(self);
            self.lemma_view();
            lemma_fundamental_div_mod(self.nanos as int, 1_000);
            lemma_fundamental_div_mod_converse(
                self@ as int,
                1_000,
                self.secs * 1_000_000 + self.nanos / 1_000,
                (self.nanos % 1_000) as int,
            );
        }
        self.secs as u128 * 1_000_000 + (self.nanos / 1_000) as u128
    }

    /// The total length of the span in whole milliseconds.
    pub fn as_millis(&self) -> (n: u128)
        ensures
            n == self@ / 1_000_000,
    {
        proof {
            use_type_invariant(self);
            self.lemma_view();
            lemma_fundamental_div_mod(self.nanos as int, 1_000_000);
            lemma_fundamental_div_mod_converse(
                self@ as int,
                1_000_000,
                self.secs * 1_000 + self.nanos / 1_000_000,
                (self.nanos % 1_000_000) as int,
            );
        }
        self.secs as u128 * 1_000 + (self.nanos / 1_000_000) as u128
    }

    /// Whether the span has zero length.
    pub fn is_zero(&self) -> (b: bool)
        ensures
            b == (self@ == 0),
    {
        self.secs == 0 && self.nanos == 0
    }

    /// Adds two spans, or gives `None` where the sum is not representable.
    pub fn checked_add(self, rhs: Duration) -> (r: Option<Duration>)
        ensures
            self@ + rhs@ <= max_nanos() <==> r is Some,
            r matches Some(d) ==> d@ == self@ + rhs@,
    {
        proof {
            use_type_invariant(&self);
            use_type_invariant(&rhs);
        }
        match self.secs.checked_add(rhs.secs) {
            Some(secs) => {
                let nanos: u32 = self.nanos + rhs.nanos;
                if nanos >= NANOS_PER_SEC {
                    match secs.checked_add(1) {
                        Some(s) => Some(Duration { secs: s, nanos: nanos - NANOS_PER_SEC }),
                        None => None,
                    }
                } else {
                    Some(Duration { secs, nanos })
                }
            },
            None => None,
        }
    }

    /// Adds two spans, giving the longest span where the sum is not
    /// representable.
    pub fn saturating_add(self, rhs: Duration) -> (d: Duration)
        ensures
            d@ == if self@ + rhs@ <= max_nanos() { self@ + rhs@ } else { max_nanos() },
    {
        match self.checked_add(rhs) {
            Some(d) => d,
            None => Duration::max(),
        }
    }

    /// Subtracts `rhs`, or gives `None` where it is longer than `self`.
    pub fn checked_sub(self, rhs: Duration) -> (r: Option<Duration>)
        ensures
            rhs@ <= self@ <==> r is Some,
            r matches Some(d) ==> d@ == self@ - rhs@,
    {
        proof {
            use_type_invariant(&self);
            use_type_invariant(&rhs);
        }
        if self.secs >= rhs.secs {
            let secs: u64 = self.secs - rhs.secs;
            if self.nanos >= rhs.nanos {
                Some(Duration { secs, nanos: self.nanos - rhs.nanos })
            } else if secs >= 1 {
                Some(Duration { secs: secs - 1, nanos: self.nanos + NANOS_PER_SEC - rhs.nanos })
            } else {
                None
            }
        } else {
            None
        }
    }

    /// Multiplies the span by `rhs`, or gives `None` where the product is not
    /// representable.
    pub fn checked_mul(self, rhs: u32) -> (r: Option<Duration>)
        ensures
            self@ * rhs <= max_nanos() <==> r is Some,
            r matches Some(d) ==> d@ == self@ * rhs,
    {
        proof {
            use_type_invariant(&self);
        }
        proof {
            assert(self.nanos as u64 * rhs as u64 <= 1_000_000_000u64 * 0xffff_ffffu64) by (nonlinear_arith)
                requires self.nanos < 1_000_000_000u32;
        }
        let total_nanos: u64 = self.nanos as u64 * rhs as u64;
        let extra_secs: u64 = total_nanos / (NANOS_PER_SEC as u64);
        let nanos: u32 = (total_nanos % (NANOS_PER_SEC as u64)) as u32;
        let ghost s: int = self.secs as int;
        let ghost n: int = self.nanos as int;
        let ghost m: int = rhs as int;
        proof {
            lemma_fundamental_div_mod(total_nanos as int, 1_000_000_000);
            assert(self@ * m == (s * m + extra_secs) * 1_000_000_000 + nanos) by (nonlinear_arith)
                requires
                    self@ == s * 1_000_000_000 + n,
                    total_nanos == n * m,
                    total_nanos == 1_000_000_000 * extra_secs + nanos,
            ;
        }
        match self.secs.checked_mul(rhs as u64) {
            Some(secs) => match secs.checked_add(extra_secs) {
                Some(secs) => Some(Duration { secs, nanos }),
                None => None,
            },
            None => {
                proof {
                    assert(s * m * 1_000_000_000 > max_nanos()) by (nonlinear_arith)
                        requires
                            s * m > u64::MAX,
                    ;
                    assert(self@ * m >= s * m * 1_000_000_000) by (nonlinear_arith)
                        requires
                            self@ * m == (s * m + extra_secs) * 1_000_000_000 + nanos,
                            extra_secs >= 0,
                            nanos >= 0,
                    ;
                }
                None
            },
        }
    }

    /// Multiplies the span by `rhs`, giving the longest span where the
    /// product is not representable.
    pub fn saturating_mul(self, rhs: u32) -> (d: Duration)
        ensures
            d@ == if self@ * rhs <= max_nanos() { self@ * rhs } else { max_nanos() as int },
    {
        match self.checked_mul(rhs) {
            Some(d) => d,
            None => Duration::max(),
        }
    }

    /// Divides the span by `rhs`, or gives `None` where `rhs` is zero. The
    /// seconds and the nanoseconds are divided separately, and the remainder
    /// of the seconds is carried into the nanoseconds.
    pub fn checked_div(self, rhs: u32) -> (r: Option<Duration>)
        ensures
            rhs != 0 <==> r is Some,
            r matches Some(d) ==> d@ == div_nanos(self@, rhs as nat),
    {
        proof {
            use_type_invariant(&self);
            self.lemma_view();
        }
        if rhs != 0 {
            let r64: u64 = rhs as u64;
            let secs: u64 = self.secs / r64;
            proof {
                lemma_fundamental_div_mod(self.secs as int, rhs as int);
                assert(secs * r64 <= self.secs) by (nonlinear_arith)
                    requires secs == self.secs / r64, r64 > 0;
            }
            let carry: u64 = self.secs - secs * r64;
            proof {
                assert(carry == self.secs % r64) by (nonlinear_arith)
                    requires
                        self.secs == r64 * (self.secs / r64) + self.secs % r64,
                        secs == self.secs / r64,
                        carry == self.secs - secs * r64,
                ;
                assert(carry < r64);
                assert(carry * 1_000_000_000 < r64 * 1_000_000_000) by (nonlinear_arith)
                    requires carry < r64;
                assert(r64 * 1_000_000_000 <= 0xffff_ffffu64 * 1_000_000_000) by (nonlinear_arith)
                    requires r64 <= 0xffff_ffffu64;
            }
            let extra_nanos: u64 = carry * (NANOS_PER_SEC as u64) / r64;
            proof {
                assert(extra_nanos * r64 <= carry * 1_000_000_000) by (nonlinear_arith)
                    requires extra_nanos == (carry * 1_000_000_000) / (r64 as int), r64 > 0;
                assert(extra_nanos < 1_000_000_000) by (nonlinear_arith)
                    requires extra_nanos * r64 <= carry * 1_000_000_000, carry < r64;
                assert((self.nanos / rhs) as int * rhs <= self.nanos) by (nonlinear_arith)
                    requires rhs > 0;
                assert(extra_nanos + self.nanos / rhs < 1_000_000_000) by (nonlinear_arith)
                    requires
                        extra_nanos * r64 <= carry * 1_000_000_000,
                        (self.nanos / rhs) as int * rhs <= self.nanos,
                        self.nanos < 1_000_000_000,
                        carry < r64,
                        r64 == rhs,
                        rhs > 0,
                ;
                assert(self@ / 1_000_000_000 == self.secs);
                assert(self@ % 1_000_000_000 == self.nanos);
            }
            let nanos: u32 = self.nanos / rhs + (extra_nanos as u32);
            let d = Duration { secs, nanos };
            assert(d@ == div_nanos(self@, rhs as nat));
            Some(d)
        } else {
            None
        }
    }

    /// Adds `rhs` to the span in place; the sum must be representable.
    pub fn add_assign(&mut self, rhs: Duration)
        requires
            old(self)@ + rhs@ <= max_nanos(),
        ensures
            final(self)@ == old(self)@ + rhs@,
    {
        match self.checked_add(rhs) {
            Some(d) => *self = d,
            None => vstd::pervasive::unreached(),
        }
    }

    /// Subtracts `rhs` from the span in place; `rhs` must not be longer.
    pub fn sub_assign(&mut self, rhs: Duration)
        requires
            rhs@ <= old(self)@,
        ensures
            final(self)@ == old(self)@ - rhs@,
    {
        match self.checked_sub(rhs) {
            Some(d) => *self = d,
            None => vstd::pervasive::unreached(),
        }
    }

    /// Multiplies the span by `rhs` in place; the product must be
    /// representable.
    pub fn mul_assign(&mut self, rhs: u32)
        requires
            old(self)@ * rhs <= max_nanos(),
        ensures
            final(self)@ == old(self)@ * rhs,
    {
        match self.checked_mul(rhs) {
            Some(d) => *self = d,
            None => vstd::pervasive::unreached(),
        }
    }

    /// Divides the span by `rhs` in place; `rhs` must not be zero.
    pub fn div_assign(&mut self, rhs: u32)
        requires
            rhs != 0,
        ensures
            final(self)@ == div_nanos(old(self)@, rhs as nat),
    {
        match self.checked_div(rhs) {
            Some(d) => *self = d,
            None => vstd::pervasive::unreached(),
        }
    }

    /// Subtracts `rhs`, giving zero where it is longer than `self`.
    pub fn saturating_sub(self, rhs: Duration) -> (d: Duration)
        ensures
            d@ == if rhs@ <= self@ { self@ - rhs@ } else { 0 },
    {
        match self.checked_sub(rhs) {
            Some(d) => d,
            None => Duration::zero(),
        }
    }
}

} // verus!

verus! {

impl core::ops::Add<Duration> for Duration {
    type Output = Duration;

    /// Adds two spans; the sum must be representable.
    fn add(self, rhs: Duration) -> (d: Duration) {
        match self.checked_add(rhs) {
            Some(d) => {
                proof {
                    use_type_invariant(&d);
                    d.lemma_canonical();
                }
                d
            },
            None => vstd::pervasive::unreached(),
        }
    }
}

impl vstd::std_specs::ops::AddSpecImpl<Duration> for Duration {
    open spec fn obeys_add_spec() -> bool {
        true
    }

    open spec fn add_req(self, rhs: Duration) -> bool {
        self@ + rhs@ <= max_nanos()
    }

    open spec fn add_spec(self, rhs: Duration) -> Duration {
        Duration::spec_from_nanos(self@ + rhs@)
    }
}

impl core::ops::Sub<Duration> for Duration {
    type Output = Duration;

    /// Subtracts `rhs`, which must not be longer than `self`.
    fn sub(self, rhs: Duration) -> (d: Duration) {
        match self.checked_sub(rhs) {
            Some(d) => {
                proof {
                    use_type_invariant(&d);
                    d.lemma_canonical();
                }
                d
            },
            None => vstd::pervasive::unreached(),
        }
    }
}

impl vstd::std_specs::ops::SubSpecImpl<Duration> for Duration {
    open spec fn obeys_sub_spec() -> bool {
        true
    }

    open spec fn sub_req(self, rhs: Duration) -> bool {
        rhs@ <= self@
    }

    open spec fn sub_spec(self, rhs: Duration) -> Duration {
        Duration::spec_from_nanos((self@ - rhs@) as nat)
    }
}

impl core::ops::Mul<u32> for Duration {
    type Output = Duration;

    /// Multiplies the span by `rhs`; the product must be representable.
    fn mul(self, rhs: u32) -> (d: Duration) {
        match self.checked_mul(rhs) {
            Some(d) => {
                proof {
                    use_type_invariant(&d);
                    d.lemma_canonical();
                }
                d
            },
            None => vstd::pervasive::unreached(),
        }
    }
}

impl vstd::std_specs::ops::MulSpecImpl<u32> for Duration {
    open spec fn obeys_mul_spec() -> bool {
        true
    }

    open spec fn mul_req(self, rhs: u32) -> bool {
        self@ * rhs <= max_nanos()
    }

    open spec fn mul_spec(self, rhs: u32) -> Duration {
        Duration::spec_from_nanos((self@ * rhs) as nat)
    }
}

impl core::ops::Mul<Duration> for u32 {
    type Output = Duration;

    /// Multiplies the span `rhs` by `self`; the product must be
    /// representable.
    fn mul(self, rhs: Duration) -> (d: Duration) {
        match rhs.checked_mul(self) {
            Some(d) => {
                proof {
                    use_type_invariant(&d);
                    d.lemma_canonical();
                }
                d
            },
            None => vstd::pervasive::unreached(),
        }
    }
}

impl vstd::std_specs::ops::MulSpecImpl<Duration> for u32 {
    open spec fn obeys_mul_spec() -> bool {
        true
    }

    open spec fn mul_req(self, rhs: Duration) -> bool {
        rhs@ * self <= max_nanos()
    }

    open spec fn mul_spec(self, rhs: Duration) -> Duration {
        Duration::spec_from_nanos((rhs@ * self) as nat)
    }
}

impl core::ops::Div<u32> for Duration {
    type Output = Duration;

    /// Divides the span by `rhs`, which must not be zero.
    fn div(self, rhs: u32) -> (d: Duration) {
        match self.checked_div(rhs) {
            Some(d) => {
                proof {
                    use_type_invariant(&d);
                    d.lemma_canonical();
                }
                d
            },
            None => vstd::pervasive::unreached(),
        }
    }
}

impl vstd::std_specs::ops::DivSpecImpl<u32> for Duration {
    open spec fn obeys_div_spec() -> bool {
        true
    }

    open spec fn div_req(self, rhs: u32) -> bool {
        rhs != 0
    }

    open spec fn div_spec(self, rhs: u32) -> Duration {
        Duration::spec_from_nanos(div_nanos(self@, rhs as nat))
    }
}

impl Default for Duration {
    /// The span of zero length.
    fn default() -> (d: Duration)
        ensures
            d@ == 0,
    {
        Duration::zero()
    }
}

} // verus!

verus! {

/// How two lengths of time compare.
pub open spec fn compare_nanos(a: nat, b: nat) -> Ordering {
    if a < b {
        Ordering::Less
    } else if a == b {
        Ordering::Equal
    } else {
        Ordering::Greater
    }
}

impl PartialEq for Duration {
    /// Two spans are equal when they have the same length.
    fn eq(&self, other: &Duration) -> (r: bool) {
        proof {
            use_type_invariant(self);
            use_type_invariant(other);
            self.lemma_view();
            other.lemma_view();
        }
        self.secs == other.secs && self.nanos == other.nanos
    }
}

impl PartialEqSpecImpl for Duration {
    open spec fn obeys_eq_spec() -> bool {
        true
    }

    open spec fn eq_spec(&self, other: &Duration) -> bool {
        self@ == other@
    }
}

impl PartialOrd for Duration {
    /// Orders spans by their length.
    fn partial_cmp(&self, other: &Duration) -> (r: Option<Ordering>) {
        proof {
            use_type_invariant(self);
            use_type_invariant(other);
            self.lemma_view();
            other.lemma_view();
        }
        if self.secs < other.secs {
            Some(Ordering::Less)
        } else if self.secs > other.secs {
            Some(Ordering::Greater)
        } else if self.nanos < other.nanos {
            Some(Ordering::Less)
        } else if self.nanos > other.nanos {
            Some(Ordering::Greater)
        } else {
            Some(Ordering::Equal)
        }
    }
}

impl PartialOrdSpecImpl for Duration {
    open spec fn obeys_partial_cmp_spec() -> bool {
        true
    }

    open spec fn partial_cmp_spec(&self, other: &Duration) -> Option<Ordering> {
        Some(compare_nanos(self@, other@))
    }
}

} // verus!
