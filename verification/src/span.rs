//! Time intervals with nanosecond resolution.

use vstd::arithmetic::div_mod::{
    lemma_fundamental_div_mod, lemma_hoist_over_denominator, lemma_mod_bound,
};
use vstd::prelude::*;

verus! {

/// Number of nanoseconds in one second.
pub const NANOS_PER_SEC: u32 = 1_000_000_000u32;

/// The longest interval a [`Span`] can hold, in nanoseconds.
pub open spec fn span_limit() -> nat {
    (u64::MAX as nat) * (NANOS_PER_SEC as nat) + (NANOS_PER_SEC as nat - 1) as nat
}

/// Length in nanoseconds of `ticks` ticks of a clock that counts `time_base`
/// ticks per second, rounded down to a whole nanosecond.
pub open spec fn ticks_to_nanos(ticks: nat, time_base: nat) -> nat {
    ticks * (NANOS_PER_SEC as nat) / time_base
}

/// A non-negative time interval: whole seconds and the nanoseconds beyond them.
#[derive(Clone, Copy, Debug, PartialEq, Eq, Structural)]
pub struct Span {
    secs: u64,
    nanos: u32,
}

impl View for Span {
    type V = nat;

    /// The interval as a number of nanoseconds.
    closed spec fn view(&self) -> nat {
        (self.secs as nat) * (NANOS_PER_SEC as nat) + (self.nanos as nat)
    }
}

impl Span {
    /// The nanosecond part stays below one second.
    #[verifier::type_invariant]
    pub closed spec fn wf(self) -> bool {
        self.nanos < NANOS_PER_SEC
    }

    /// The empty interval.
    pub fn zero() -> (span: Span)
        ensures
            span.wf(),
            span@ == 0,
    {
        Span { secs: 0, nanos: 0 }
    }

    /// An interval of `secs` whole seconds.
    pub fn from_secs(secs: u64) -> (span: Span)
        ensures
            span.wf(),
            span@ == secs as nat * (NANOS_PER_SEC as nat),
    {
        Span { secs, nanos: 0 }
    }

    /// Converts a count of ticks into an interval, given the number of ticks
    /// per second. What lies beyond a whole nanosecond is dropped.
    pub fn from_ticks(ticks: u64, time_base: u64) -> (span: Span)
        requires
            time_base > 0,
        ensures
            span.wf(),
            span@ == ticks_to_nanos(ticks as nat, time_base as nat),
    {
        let secs: u64 = ticks / time_base;
        let rest: u64 = ticks % time_base;
        let scaled: u128 = (rest as u128) * 1_000_000_000u128;
        let nanos: u128 = scaled / (time_base as u128);
        proof {
            lemma_split_ticks(ticks as nat, time_base as nat);
        }
        Span { secs, nanos: nanos as u32 }
    }

    /// Whole seconds of the interval.
    pub fn as_secs(&self) -> (secs: u64)
        ensures
            secs == self@ / (NANOS_PER_SEC as nat),
    {
        proof {
            use_type_invariant(self);
        }
        self.secs
    }

    /// Nanoseconds beyond the whole seconds.
    pub fn subsec_nanos(&self) -> (nanos: u32)
        ensures
            nanos == self@ % (NANOS_PER_SEC as nat),
            nanos < NANOS_PER_SEC,
    {
        proof {
            use_type_invariant(self);
        }
        self.nanos
    }

    /// Sum of two intervals, or `None` where the sum is longer than any
    /// interval this type can hold.
    pub fn checked_add(self, other: Span) -> (sum: Option<Span>)
        ensures
            match sum {
                Some(total) => total.wf() && total@ == self@ + other@,
                None => self@ + other@ > span_limit(),
            },
    {
        proof {
            use_type_invariant(&self);
            use_type_invariant(&other);
        }
        let mut nanos: u32 = self.nanos + other.nanos;
        let mut carry: u64 = 0;
        if nanos >= NANOS_PER_SEC {
            nanos = nanos - NANOS_PER_SEC;
            carry = 1;
        }
        match self.secs.checked_add(other.secs) {
            None => None,
            Some(both) => match both.checked_add(carry) {
                None => None,
                Some(secs) => Some(Span { secs, nanos }),
            },
        }
    }
}

/// The seconds and the sub-second part of a converted tick count: the whole
/// seconds are `ticks / time_base`, and the remaining ticks, scaled to
/// nanoseconds, stay below one second.
pub proof fn lemma_split_ticks(ticks: nat, time_base: nat)
    requires
        time_base > 0,
    ensures
        (ticks % time_base) * (NANOS_PER_SEC as nat) / time_base < NANOS_PER_SEC,
        ticks_to_nanos(ticks, time_base) == (ticks / time_base) * (NANOS_PER_SEC as nat) + (ticks
            % time_base) * (NANOS_PER_SEC as nat) / time_base,
{
    let unit = NANOS_PER_SEC as int;
    let d = time_base as int;
    let q = ticks as int / d;
    let r = ticks as int % d;
    lemma_fundamental_div_mod(ticks as int, d);
    assert(ticks * unit == r * unit + (q * unit) * d) by (nonlinear_arith)
        requires
            ticks == d * q + r,
    ;
    lemma_hoist_over_denominator(r * unit, q * unit, time_base);
    assert(r * unit / d < unit) by (nonlinear_arith)
        requires
            0 <= r < d,
            unit > 0,
    ;
}

/// Converting ticks keeps their whole seconds: the converted interval holds
/// exactly `ticks / time_base` whole seconds.
pub proof fn lemma_ticks_whole_seconds(ticks: nat, time_base: nat)
    requires
        time_base > 0,
    ensures
        ticks_to_nanos(ticks, time_base) / (NANOS_PER_SEC as nat) == ticks / time_base,
{
    lemma_split_ticks(ticks, time_base);
}

/// A converted tick count is the true length cut to a whole nanosecond: it is
/// short of `ticks / time_base` seconds by less than one nanosecond, and by
/// nothing where the ticks make a whole number of nanoseconds.
pub proof fn lemma_ticks_exact(ticks: nat, time_base: nat)
    requires
        time_base > 0,
    ensures
        ticks_to_nanos(ticks, time_base) * time_base <= ticks * (NANOS_PER_SEC as nat),
        ticks * (NANOS_PER_SEC as nat) < (ticks_to_nanos(ticks, time_base) + 1) * time_base,
        (ticks * (NANOS_PER_SEC as nat)) % time_base == 0 ==> ticks_to_nanos(ticks, time_base)
            * time_base == ticks * (NANOS_PER_SEC as nat),
{
    let scaled = ticks as int * (NANOS_PER_SEC as int);
    let d = time_base as int;
    lemma_fundamental_div_mod(scaled, d);
    lemma_mod_bound(scaled, d);
    assert((scaled / d + 1) * d == d * (scaled / d) + d) by (nonlinear_arith);
    assert((scaled / d) * d == d * (scaled / d)) by (nonlinear_arith);
}

/// Two intervals of the same length are the same value.
pub proof fn lemma_span_by_length(a: Span, b: Span)
    requires
        a.wf(),
        b.wf(),
        a@ == b@,
    ensures
        a == b,
{
}

/// No interval is longer than [`span_limit`].
pub proof fn lemma_span_bounded(span: Span)
    requires
        span.wf(),
    ensures
        span@ <= span_limit(),
{
    assert((span.secs as nat) * (NANOS_PER_SEC as nat) <= (u64::MAX as nat) * (NANOS_PER_SEC as nat))
        by (nonlinear_arith)
        requires
            span.secs <= u64::MAX,
    ;
}

} // verus!
