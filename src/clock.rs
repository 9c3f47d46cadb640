//! Monotonic clock: samples of a free-running 32-bit counter, compared by
//! the sign of their wrapping difference.
use vstd::prelude::*;
use crate::RegisterWrite;

verus! {

/// Number of distinct counter values.
pub open spec fn period() -> int {
    0x1_0000_0000
}

/// Half a counter period: the largest separation that still orders correctly.
pub open spec fn half_period() -> int {
    0x8000_0000
}

/// Address of the timer control register.
pub const CTIMER0_TCR: usize = 0x4000_8004;

/// Address of the timer counter register.
pub const CTIMER0_TC: usize = 0x4000_8008;

/// Control value that holds the counter in reset.
pub const TCR_HOLD_IN_RESET: u32 = 0b10;

/// Control value that releases the counter from reset (it restarts at zero).
pub const TCR_RELEASE: u32 = 0b01;

/// A sample of the free-running counter. Contracts speak of it through its
/// counter value `count()`; `broadcast use group_clock_model` brings in the
/// facts that an instant is fixed by that value and that `Instant::at(c)`
/// reads `c` (likewise for `Duration` and its cycle count).
#[derive(Clone, Copy, Debug, PartialEq, Eq, Structural)]
pub struct Instant {
    inner: u32,
}

/// A forward distance between two instants, in counter cycles.
#[derive(Clone, Copy, Debug, PartialEq, Eq, Structural)]
pub struct Duration {
    inner: u32,
}

impl Instant {
    /// The counter value that this instant holds.
    pub closed spec fn count(self) -> nat {
        self.inner as nat
    }

    /// Cycles from `earlier` forward to `self`, modulo the counter period.
    pub open spec fn forward(self, earlier: Instant) -> nat {
        ((self.count() - earlier.count()) % period()) as nat
    }

    /// Whether `earlier` lies at or before `self` in the half period behind it.
    pub open spec fn is_after(self, earlier: Instant) -> bool {
        self.forward(earlier) < half_period()
    }

    /// Order by the sign of the wrapping difference `self - rhs`.
    pub open spec fn order(self, rhs: Instant) -> core::cmp::Ordering {
        if self.forward(rhs) == 0 {
            core::cmp::Ordering::Equal
        } else if self.forward(rhs) < half_period() {
            core::cmp::Ordering::Greater
        } else {
            core::cmp::Ordering::Less
        }
    }

    /// The instant `cycles` counter cycles after `self`, wrapping around.
    pub open spec fn later_by(self, cycles: nat) -> Instant {
        Instant::at(((self.count() + cycles) as int % period()) as nat)
    }

    /// The instant whose counter reads `c` (below the period).
    pub closed spec fn at(c: nat) -> Instant {
        Instant { inner: c as u32 }
    }

    /// The instant whose counter reads `tc`.
    pub fn from_counter(tc: u32) -> (r: Instant)
        ensures
            r.count() == tc,
    {
        Instant { inner: tc }
    }

    /// Cycles elapsed from `earlier` to `self`.
    ///
    /// `earlier` must truly precede `self`: a negative duration has no meaning.
    pub fn duration_since(&self, earlier: Instant) -> (r: Duration)
        requires
            self.is_after(earlier),
        ensures
            r.cycles() == self.forward(earlier),
    {
        let diff = self.inner.wrapping_sub(earlier.inner);
        Duration { inner: diff }
    }

    /// Three-way comparison by the sign of the wrapping difference.
    pub fn cmp(&self, rhs: &Instant) -> (r: core::cmp::Ordering)
        ensures
            r == self.order(*rhs),
    {
        let diff = self.inner.wrapping_sub(rhs.inner);
        if diff == 0 {
            core::cmp::Ordering::Equal
        } else if diff < 0x8000_0000 {
            core::cmp::Ordering::Greater
        } else {
            core::cmp::Ordering::Less
        }
    }
}

impl Duration {
    /// The number of cycles this duration spans.
    pub closed spec fn cycles(self) -> nat {
        self.inner as nat
    }

    /// The duration of `c` cycles (below the period).
    pub closed spec fn of_cycles(c: nat) -> Duration {
        Duration { inner: c as u32 }
    }

    pub fn from_cycles(cycles: u32) -> (r: Duration)
        ensures
            r.cycles() == cycles,
    {
        Duration { inner: cycles }
    }

    pub fn as_cycles(&self) -> (r: u32)
        ensures
            r == self.cycles(),
    {
        self.inner
    }
}

/// Wrapping addition: the instant `dur` cycles later, up to one period ahead.
impl core::ops::Add<Duration> for Instant {
    type Output = Instant;

    fn add(self, dur: Duration) -> (r: Instant) {
        Instant { inner: self.inner.wrapping_add(dur.inner) }
    }
}

impl vstd::std_specs::ops::AddSpecImpl<Duration> for Instant {
    open spec fn obeys_add_spec() -> bool {
        true
    }

    open spec fn add_req(self, dur: Duration) -> bool {
        true
    }

    open spec fn add_spec(self, dur: Duration) -> Instant {
        self.later_by(dur.cycles())
    }
}

/// `a - b` is `a.duration_since(b)`, with the same requirement on the order.
impl core::ops::Sub for Instant {
    type Output = Duration;

    fn sub(self, rhs: Instant) -> (r: Duration) {
        self.duration_since(rhs)
    }
}

impl vstd::std_specs::ops::SubSpecImpl for Instant {
    open spec fn obeys_sub_spec() -> bool {
        true
    }

    open spec fn sub_req(self, rhs: Instant) -> bool {
        self.is_after(rhs)
    }

    open spec fn sub_spec(self, rhs: Instant) -> Duration {
        Duration::of_cycles(self.forward(rhs))
    }
}

impl PartialOrd for Instant {
    fn partial_cmp(&self, rhs: &Instant) -> (r: Option<core::cmp::Ordering>) {
        Some(self.cmp(rhs))
    }
}

impl vstd::std_specs::cmp::PartialOrdSpecImpl for Instant {
    open spec fn obeys_partial_cmp_spec() -> bool {
        true
    }

    open spec fn partial_cmp_spec(&self, rhs: &Instant) -> Option<core::cmp::Ordering> {
        Some(self.order(*rhs))
    }
}

/// A duration converts losslessly into its cycle count.
impl From<Duration> for u32 {
    fn from(d: Duration) -> (r: u32) {
        d.inner
    }
}

impl vstd::std_specs::convert::FromSpecImpl<Duration> for u32 {
    open spec fn obeys_from_spec() -> bool {
        true
    }

    open spec fn from_spec(d: Duration) -> u32 {
        d.cycles() as u32
    }
}

/// The timer that drives the clock: one counter cycle per core clock cycle.
pub struct CTIMER0;

impl CTIMER0 {
    /// Counter cycles per core clock cycle.
    pub fn ratio() -> (r: u32)
        ensures
            r == 1,
    {
        1
    }

    /// The store that releases the counter from reset, restarting it at zero.
    /// During boot the master first holds the counter in reset; this is the
    /// second of the two stores.
    pub fn reset() -> (r: RegisterWrite)
        ensures
            r == (RegisterWrite { addr: CTIMER0_TCR, value: TCR_RELEASE }),
    {
        RegisterWrite { addr: CTIMER0_TCR, value: TCR_RELEASE }
    }

    /// The instant at which the counter restarts after a reset.
    pub fn zero() -> (r: Instant)
        ensures
            r.count() == 0,
    {
        Instant { inner: 0 }
    }
}

/// An instant's counter value lies below the period.
pub broadcast proof fn lemma_instant_count_bound(a: Instant)
    ensures
        #[trigger] a.count() < period(),
{
}

/// `Instant::at(c)` reads `c`, for every `c` below the period.
pub broadcast proof fn lemma_instant_at_count(c: nat)
    requires
        c < period(),
    ensures
        (#[trigger] Instant::at(c)).count() == c,
{
}

/// An instant is determined by its counter value.
pub broadcast proof fn lemma_instant_count_injective(a: Instant, b: Instant)
    requires
        a.count() == b.count(),
    ensures
        #![trigger a.count(), b.count()]
        a == b,
{
}

/// A duration's cycle count lies below the period.
pub broadcast proof fn lemma_duration_cycles_bound(d: Duration)
    ensures
        #[trigger] d.cycles() < period(),
{
}

/// `Duration::of_cycles(c)` spans `c` cycles, for every `c` below the period.
pub broadcast proof fn lemma_duration_of_cycles(c: nat)
    requires
        c < period(),
    ensures
        (#[trigger] Duration::of_cycles(c)).cycles() == c,
{
}

/// A duration is determined by its cycle count.
pub broadcast proof fn lemma_duration_cycles_injective(a: Duration, b: Duration)
    requires
        a.cycles() == b.cycles(),
    ensures
        #![trigger a.cycles(), b.cycles()]
        a == b,
{
}

/// The facts that tie instants and durations to their counter values.
pub broadcast group group_clock_model {
    lemma_instant_count_bound,
    lemma_instant_at_count,
    lemma_instant_count_injective,
    lemma_duration_cycles_bound,
    lemma_duration_of_cycles,
    lemma_duration_cycles_injective,
}

/// Chronology is kept across a wrap: when `b` truly happens `ta - tb` cycles
/// before `a`, less than half a period, `a.duration_since(b)` is exactly that
/// distance and `a` orders after `b` (or equal to it when the distance is zero).
pub proof fn lemma_chronological_order(a: Instant, b: Instant, ta: int, tb: int)
    requires
        a.count() == ta % period(),
        b.count() == tb % period(),
        tb <= ta,
        ta - tb < half_period(),
    ensures
        a.is_after(b),
        a.forward(b) == ta - tb,
        a.order(b) == (if ta == tb { core::cmp::Ordering::Equal } else { core::cmp::Ordering::Greater }),
        b.order(a) == (if ta == tb { core::cmp::Ordering::Equal } else { core::cmp::Ordering::Less }),
{
    let p = period();
    let qa = ta / p;
    let qb = tb / p;
    vstd::arithmetic::div_mod::lemma_fundamental_div_mod(ta, p);
    vstd::arithmetic::div_mod::lemma_fundamental_div_mod(tb, p);
    assert(a.count() - b.count() == (ta - tb) - p * (qa - qb)) by (nonlinear_arith)
        requires
            ta == p * qa + a.count(),
            tb == p * qb + b.count(),
    ;
    vstd::arithmetic::div_mod::lemma_mod_multiples_vanish(-(qa - qb), ta - tb, p);
    vstd::arithmetic::div_mod::lemma_small_mod((ta - tb) as nat, p as nat);
    vstd::arithmetic::div_mod::lemma_mod_multiples_vanish(qa - qb, tb - ta, p);
    if ta != tb {
        vstd::arithmetic::div_mod::lemma_mod_multiples_vanish(1, tb - ta, p);
        vstd::arithmetic::div_mod::lemma_small_mod((p + tb - ta) as nat, p as nat);
    }
}

} // verus!
