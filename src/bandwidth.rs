//! The global token bucket that paces all transfers. The waiting and the
//! periodic refill run in the caller; this is the bucket's arithmetic.

use vstd::prelude::*;

verus! {

/// Credits added for `elapsed_us` microseconds at `limit` bytes per second,
/// capped at one second's worth.
pub open spec fn refilled(credits: int, limit: int, elapsed_us: int) -> int {
    let add = limit * elapsed_us / 1_000_000;
    if add <= 0 {
        credits
    } else if credits + add > limit {
        limit
    } else {
        credits + add
    }
}

/// A token bucket: `limit_bps` bytes per second (0 or less: no limit) and the
/// credits available now.
pub struct BandwidthLimiter {
    limit_bps: i64,
    credits: i64,
}

impl BandwidthLimiter {
    pub closed spec fn limit(&self) -> int {
        self.limit_bps as int
    }

    pub closed spec fn available(&self) -> int {
        self.credits as int
    }

    pub open spec fn wf(&self) -> bool {
        self.available() >= 0 && (self.limit() > 0 ==> self.available() <= self.limit())
    }

    /// A bucket with no credits yet.
    pub fn new(limit_bps: i64) -> (r: BandwidthLimiter)
        ensures
            r.wf(),
            r.limit() == limit_bps,
            r.available() == 0,
    {
        BandwidthLimiter { limit_bps, credits: 0 }
    }

    /// Changes the limit; credits above the new limit are dropped.
    pub fn set_limit_bps(&mut self, limit_bps: i64)
        requires
            old(self).wf(),
        ensures
            final(self).wf(),
            final(self).limit() == limit_bps,
            final(self).available() == if limit_bps > 0 && old(self).available() > limit_bps {
                limit_bps as int
            } else {
                old(self).available()
            },
    {
        self.limit_bps = limit_bps;
        if limit_bps > 0 && self.credits > limit_bps {
            self.credits = limit_bps;
        }
    }

    pub fn limit_bps(&self) -> (r: i64)
        ensures
            r == self.limit(),
    {
        self.limit_bps
    }

    pub fn credits(&self) -> (r: i64)
        ensures
            r == self.available(),
    {
        self.credits
    }

    /// Takes `bytes` credits if it can. With no limit, or nothing asked, it
    /// grants at once and takes nothing; otherwise it grants exactly when
    /// enough credits are there. A caller that is refused waits for a refill.
    pub fn try_acquire(&mut self, bytes: i64) -> (r: bool)
        requires
            old(self).wf(),
        ensures
            final(self).wf(),
            final(self).limit() == old(self).limit(),
            (bytes <= 0 || old(self).limit() <= 0) ==> r && final(self).available() == old(self).available(),
            (bytes > 0 && old(self).limit() > 0) ==> r == (old(self).available() >= bytes),
            (bytes > 0 && old(self).limit() > 0 && r) ==> final(self).available() == old(self).available() - bytes,
            !r ==> final(self).available() == old(self).available(),
            old(self).limit() > 0 ==> (final(self).available(), if r && bytes > 0 {
                bytes as int
            } else {
                0
            }) == bucket_step(old(self).available(), old(self).limit(), BucketEvent::Acquire(bytes)),
    {
        if bytes <= 0 || self.limit_bps <= 0 {
            return true;
        }
        if self.credits >= bytes {
            self.credits = self.credits - bytes;
            true
        } else {
            false
        }
    }

    /// The next piece to ask for of a request of `remaining` bytes: at most
    /// one second's worth, so that a full bucket always grants it.
    pub fn next_piece(&self, remaining: i64) -> (r: i64)
        ensures
            self.limit() > 0 && remaining > self.limit() ==> r == self.limit(),
            !(self.limit() > 0 && remaining > self.limit()) ==> r == remaining,
    {
        if self.limit_bps > 0 && remaining > self.limit_bps {
            self.limit_bps
        } else {
            remaining
        }
    }

    /// One refill tick after `elapsed_us` microseconds: with no limit the
    /// credits are cleared; otherwise they grow at the limit, up to one
    /// second's worth.
    pub fn refill(&mut self, elapsed_us: u64)
        requires
            old(self).wf(),
        ensures
            final(self).wf(),
            final(self).limit() == old(self).limit(),
            old(self).limit() <= 0 ==> final(self).available() == 0,
            old(self).limit() > 0 ==> final(self).available() == refilled(
                old(self).available(),
                old(self).limit(),
                elapsed_us as int,
            ),
            old(self).limit() > 0 ==> final(self).available() == bucket_step(
                old(self).available(),
                old(self).limit(),
                BucketEvent::Refill(elapsed_us),
            ).0,
    {
        if self.limit_bps <= 0 {
            self.credits = 0;
            return;
        }
        let l = self.limit_bps as u128;
        let e = elapsed_us as u128;
        proof {
            assert(l * e <= 0xffff_ffff_ffff_ffffu128 * 0xffff_ffff_ffff_ffffu128) by (nonlinear_arith)
                requires
                    l <= 0xffff_ffff_ffff_ffffu128,
                    e <= 0xffff_ffff_ffff_ffffu128,
            ;
        }
        let add: u128 = l * e / 1_000_000;
        if add == 0 {
            return;
        }
        if (self.credits as u128) + add > self.limit_bps as u128 {
            self.credits = self.limit_bps;
        } else {
            self.credits = self.credits + (add as i64);
        }
    }
}

/// One thing that happens to a bucket: a refill tick after some microseconds,
/// or a request for some bytes.
pub enum BucketEvent {
    Refill(u64),
    Acquire(i64),
}

/// Credits and bytes granted after one event, for a positive limit.
pub open spec fn bucket_step(credits: int, limit: int, ev: BucketEvent) -> (int, int) {
    match ev {
        BucketEvent::Refill(e) => (refilled(credits, limit, e as int), 0),
        BucketEvent::Acquire(n) => if n > 0 && credits >= n {
            (credits - n, n as int)
        } else {
            (credits, 0)
        },
    }
}

/// Credits left and bytes granted in total after a run of events.
pub open spec fn bucket_run(credits: int, limit: int, evs: Seq<BucketEvent>) -> (int, int)
    decreases evs.len(),
{
    if evs.len() == 0 {
        (credits, 0)
    } else {
        let prev = bucket_run(credits, limit, evs.drop_last());
        let next = bucket_step(prev.0, limit, evs.last());
        (next.0, prev.1 + next.1)
    }
}

/// Total time covered by the refills of a run, in microseconds.
pub open spec fn elapsed_us(evs: Seq<BucketEvent>) -> int
    decreases evs.len(),
{
    if evs.len() == 0 {
        0
    } else {
        elapsed_us(evs.drop_last()) + match evs.last() {
            BucketEvent::Refill(e) => e as int,
            BucketEvent::Acquire(_) => 0,
        }
    }
}

/// Pacing holds over any run: with a positive limit and at most one second's
/// credits at the start, the bytes granted never exceed those credits plus
/// the limit times the elapsed time; so at most one second's burst above the
/// limit, however the requests come.
pub proof fn lemma_granted_within_limit(credits: int, limit: int, evs: Seq<BucketEvent>)
    requires
        limit > 0,
        0 <= credits <= limit,
    ensures
        bucket_run(credits, limit, evs).1 <= credits + limit * elapsed_us(evs) / 1_000_000,
        0 <= bucket_run(credits, limit, evs).0 <= limit,
    decreases evs.len(),
{
    if evs.len() > 0 {
        let rest = evs.drop_last();
        lemma_granted_within_limit(credits, limit, rest);
        lemma_run_conserves(credits, limit, evs);
    } else {
        assert(limit * 0 / 1_000_000 == 0) by (nonlinear_arith);
    }
}

/// Credits left plus bytes granted never exceed the starting credits plus the
/// refilled amount.
proof fn lemma_run_conserves(credits: int, limit: int, evs: Seq<BucketEvent>)
    requires
        limit > 0,
        0 <= credits <= limit,
    ensures
        bucket_run(credits, limit, evs).0 + bucket_run(credits, limit, evs).1 <= credits + limit
            * elapsed_us(evs) / 1_000_000,
        0 <= bucket_run(credits, limit, evs).0 <= limit,
        bucket_run(credits, limit, evs).1 >= 0,
    decreases evs.len(),
{
    if evs.len() == 0 {
        assert(limit * 0 / 1_000_000 == 0) by (nonlinear_arith);
    } else {
        let rest = evs.drop_last();
        lemma_run_conserves(credits, limit, rest);
        let prev = bucket_run(credits, limit, rest);
        let t0 = elapsed_us(rest);
        match evs.last() {
            BucketEvent::Refill(e) => {
                lemma_elapsed_nonneg(rest);
                let ei = e as int;
                assert(limit * t0 / 1_000_000 + limit * ei / 1_000_000 <= limit * (t0 + ei) / 1_000_000)
                    by (nonlinear_arith)
                    requires
                        limit > 0,
                        t0 >= 0,
                        ei >= 0,
                ;
                assert(limit * ei / 1_000_000 >= 0) by (nonlinear_arith)
                    requires
                        limit > 0,
                        ei >= 0,
                ;
            },
            BucketEvent::Acquire(_) => {
                assert(elapsed_us(evs) == t0);
            },
        }
    }
}

proof fn lemma_elapsed_nonneg(evs: Seq<BucketEvent>)
    ensures
        elapsed_us(evs) >= 0,
    decreases evs.len(),
{
    if evs.len() > 0 {
        lemma_elapsed_nonneg(evs.drop_last());
    }
}

/// Every piece is eventually granted: one second of refill fills the bucket
/// from any level, and a full bucket grants any piece of at most one second's
/// worth, taking exactly that many credits.
pub proof fn lemma_piece_granted_after_a_second(credits: int, limit: int, piece: int)
    requires
        limit > 0,
        0 <= credits <= limit,
        0 < piece <= limit,
        piece <= i64::MAX,
    ensures
        refilled(credits, limit, 1_000_000) == limit,
        bucket_step(limit, limit, BucketEvent::Acquire(piece as i64)) == (limit - piece, piece),
{
    assert(limit * 1_000_000 / 1_000_000 == limit) by (nonlinear_arith)
        requires
            limit > 0,
    ;
}

} // verus!
