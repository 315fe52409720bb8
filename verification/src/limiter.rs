//! Limits on how often a host may connect.

use governor::clock::FakeRelativeClock;
use governor::middleware::NoOpMiddleware;
use governor::nanos::Nanos;
use governor::state::{InMemoryState, NotKeyed};
use std::num::NonZeroU32;
use std::time::Duration;
use vstd::prelude::*;

verus! {

/// The cells that a `governor::RateLimiter` let through. Its time comes from a
/// `governor::clock::FakeRelativeClock`, which stands still until it is moved on.
#[verifier::external_body]
#[derive(Debug)]
pub struct Cells {
    inner: governor::RateLimiter<NotKeyed, InMemoryState, FakeRelativeClock, NoOpMiddleware<Nanos>>,
}

/// When each of the cells was let through, the earliest first.
pub uninterp spec fn cell_times(cells: Cells) -> Seq<u64>;

/// The quota that the cells are held to: how many are replenished in a second,
/// and how many may come at once.
pub uninterp spec fn cell_quota(cells: Cells) -> (u32, u32);

/// What the clock of the cells shows.
pub uninterp spec fn cell_clock(cells: Cells) -> u64;

/// The latest time at which a limiter is asked. What it computes from a later
/// one may exceed sixty-four bits.
pub const LATEST: u64 = 14151776778709551615;

/// How many nanoseconds it takes until one more may come, when this many are
/// replenished in a second.
pub open spec fn interval(recharge: u32) -> nat {
    let nanos = 1_000_000_000nat / recharge as nat;
    if nanos == 0 {
        1
    } else {
        nanos
    }
}

/// When the next would come if everyone kept the interval: the interval after
/// the last one came, or after the last one would have come.
pub open spec fn next_arrival(times: Seq<u64>, interval: nat) -> nat
    decreases times.len(),
{
    if times.len() == 0 {
        0
    } else {
        let before = next_arrival(times.drop_last(), interval);
        (if before < times.last() {
            times.last() as nat
        } else {
            before
        }) + interval
    }
}

/// Whether another one is let through: it may come early by the intervals of all
/// but one of those that may come at once.
pub open spec fn lets_through(times: Seq<u64>, recharge: u32, burst: u32, now: u64) -> bool {
    next_arrival(times, interval(recharge)) <= now + interval(recharge) * (burst - 1)
}

impl Cells {
    /// `governor::RateLimiter::direct_with_clock` makes a limiter that has let
    /// nothing through yet, with the quota that `Quota::per_second` and
    /// `Quota::allow_burst` make, and here with a clock that shows nothing yet.
    #[verifier::external_body]
    fn direct(recharge: u32, burst: u32) -> (r: Cells)
        requires
            recharge > 0,
            burst > 0,
        ensures
            cell_times(r) == Seq::<u64>::empty(),
            cell_quota(r) == (recharge, burst),
            cell_clock(r) == 0,
    {
        let recharge = NonZeroU32::new(recharge).unwrap();
        let burst = NonZeroU32::new(burst).unwrap();
        let quota = governor::Quota::per_second(recharge).allow_burst(burst);
        let clock = FakeRelativeClock::default();
        Cells { inner: governor::RateLimiter::direct_with_clock(quota, clock) }
    }

    /// `FakeRelativeClock::advance` moves the clock on, and changes nothing else.
    #[verifier::external_body]
    fn advance(&mut self, nanos: u64)
        requires
            cell_clock(*old(self)) + nanos <= u64::MAX,
        ensures
            cell_clock(*final(self)) == cell_clock(*old(self)) + nanos,
            cell_times(*final(self)) == cell_times(*old(self)),
            cell_quota(*final(self)) == cell_quota(*old(self)),
    {
        self.inner.clock().advance(Duration::from_nanos(nanos));
    }

    /// `governor::RateLimiter::check` asks for a cell to be let through at the
    /// time that the clock shows, by the generic cell rate algorithm.
    #[verifier::external_body]
    fn check(&mut self) -> (r: bool)
        requires
            cell_clock(*old(self)) <= LATEST,
        ensures
            ({
                let (recharge, burst) = cell_quota(*old(self));
                r == lets_through(cell_times(*old(self)), recharge, burst, cell_clock(*old(self)))
            }),
            cell_times(*final(self)) == if r {
                cell_times(*old(self)).push(cell_clock(*old(self)))
            } else {
                cell_times(*old(self))
            },
            cell_clock(*final(self)) == cell_clock(*old(self)),
            cell_quota(*final(self)) == cell_quota(*old(self)),
    {
        self.inner.check().is_ok()
    }
}

/// How often a host may connect: `burst` connections may come at once, and
/// `recharge` of them are replenished in a second.
#[derive(Debug, Clone, Copy)]
pub struct Quota {
    recharge: u32,
    burst: u32,
}

impl Quota {
    #[verifier::type_invariant]
    spec fn lets_someone_through(self) -> bool {
        self.recharge > 0 && self.burst > 0
    }

    /// How many are replenished in a second, and how many may come at once.
    pub closed spec fn view(&self) -> (u32, u32) {
        (self.recharge, self.burst)
    }

    /// A quota.
    pub fn new(recharge: u32, burst: u32) -> (r: Quota)
        requires
            recharge > 0,
            burst > 0,
        ensures
            r@ == (recharge, burst),
    {
        Quota { recharge, burst }
    }
}

/// What a host may still do. Times are counted in nanoseconds.
#[derive(Debug)]
pub struct Limiter {
    cells: Cells,
    now: u64,
}

/// What a [`Limiter`] knows.
#[verifier::ext_equal]
pub struct LimiterView {
    /// How many connections are replenished in a second.
    pub recharge: u32,
    /// How many connections may come at once.
    pub burst: u32,
    /// When it was asked last.
    pub now: u64,
    /// When it let someone through, the earliest first.
    pub times: Seq<u64>,
}

/// A limiter that was never asked.
pub open spec fn unasked(quota: (u32, u32)) -> LimiterView {
    LimiterView { recharge: quota.0, burst: quota.1, now: 0, times: Seq::empty() }
}

/// What asking a limiter leads to, and whether it lets through. It never goes
/// back in time.
pub open spec fn asked(l: LimiterView, now: u64) -> (LimiterView, bool) {
    let now = if now < l.now {
        l.now
    } else {
        now
    };
    if lets_through(l.times, l.recharge, l.burst, now) {
        (LimiterView { now, times: l.times.push(now), ..l }, true)
    } else {
        (LimiterView { now, ..l }, false)
    }
}

impl Limiter {
    #[verifier::type_invariant]
    spec fn in_step(self) -> bool {
        self.now == cell_clock(self.cells) && self.now <= LATEST
    }

    /// What the limiter knows.
    pub closed spec fn view(&self) -> LimiterView {
        LimiterView {
            recharge: cell_quota(self.cells).0,
            burst: cell_quota(self.cells).1,
            now: self.now,
            times: cell_times(self.cells),
        }
    }

    /// A limiter that was never asked.
    pub fn new(quota: Quota) -> (r: Limiter)
        ensures
            r@ == unasked(quota@),
    {
        proof {
            use_type_invariant(&quota);
        }
        Limiter { cells: Cells::direct(quota.recharge, quota.burst), now: 0 }
    }

    /// Asks the limiter. Beside it stands whether it lets through.
    pub fn ask(self, now: u64) -> (r: (Limiter, bool))
        requires
            now <= LATEST,
        ensures
            (r.0@, r.1) == asked(self@, now),
    {
        proof {
            use_type_invariant(&self);
        }
        let Limiter { cells: mut cells, now: last } = self;
        let now: u64 = if now < last {
            last
        } else {
            now
        };
        cells.advance(now - last);
        let through = cells.check();
        (Limiter { cells, now }, through)
    }
}

/// When all come at once, the next would come as many intervals later as came.
proof fn lemma_all_at_once(n: nat, now: u64, interval: nat)
    ensures
        next_arrival(Seq::new(n, |i: int| now), interval) == if n == 0 {
            0
        } else {
            now + n * interval
        },
    decreases n,
{
    if n > 0 {
        let times = Seq::new(n, |i: int| now);
        lemma_all_at_once((n - 1) as nat, now, interval);
        assert(times.drop_last() =~= Seq::new((n - 1) as nat, |i: int| now));
        assert(n * interval == (n - 1) * interval + interval) by (nonlinear_arith)
            requires
                n > 0,
        ;
    }
}

/// Of those that come at once, as many are let through as the quota says may.
pub proof fn law_burst_is_the_most(n: nat, recharge: u32, burst: u32, now: u64)
    requires
        burst > 0,
    ensures
        lets_through(Seq::new(n, |i: int| now), recharge, burst, now) <==> n < burst,
{
    let i = interval(recharge);
    lemma_all_at_once(n, now, i);
    if n > 0 {
        assert(i > 0);
        assert(n * i <= i * (burst - 1) <==> n < burst) by (nonlinear_arith)
            requires
                i > 0,
        ;
    } else {
        assert(0 <= i * (burst - 1)) by (nonlinear_arith)
            requires
                i >= 0,
                burst > 0,
        ;
    }
}

} // verus!
