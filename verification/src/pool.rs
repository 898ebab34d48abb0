//! The buffer pool: a bounded free-list of reusable byte buffers for the
//! receive hot path, with hit/miss counters.
//!
//! Buffers are pre-seeded at a nominal capacity. `acquire` pops a pooled
//! buffer when one is available (a hit) and allocates fresh otherwise (a
//! miss); `release` clears a buffer and returns it to the pool only when
//! its capacity falls within the accepted range and the pool is below its
//! size cap, dropping it otherwise.

use vstd::prelude::*;

verus! {

/// How much larger than the nominal capacity a returned buffer may have
/// grown and still be kept.
pub const CAPACITY_SLACK_FACTOR: usize = 4;

/// Whether a returned buffer's capacity is accepted back into the pool:
/// at least the nominal capacity, and at most the accepted slack above it
/// (the upper bound applies only while it is computable without overflow).
pub open spec fn capacity_accepted(cap: usize, nominal: usize) -> bool {
    cap >= nominal && (nominal > usize::MAX / CAPACITY_SLACK_FACTOR || cap <= nominal
        * CAPACITY_SLACK_FACTOR)
}

/// A counter bumped once, saturating at the top of its range.
pub open spec fn bumped(c: u64) -> u64 {
    if c < u64::MAX {
        (c + 1) as u64
    } else {
        c
    }
}

/// Hits per hundred acquisitions, rounded down; zero before the first
/// acquisition.
pub open spec fn spec_hit_rate_percent(hits: u64, misses: u64) -> u64 {
    if hits + misses == 0 {
        0
    } else {
        ((hits * 100) / (hits + misses)) as u64
    }
}

/// A read-only snapshot of the pool's counters; purely informational.
#[derive(Debug, Clone, Copy, PartialEq, Eq, Structural)]
pub struct PoolStats {
    pub hits: u64,
    pub misses: u64,
    pub hit_rate_percent: u64,
    pub pool_size: usize,
}

/// The mathematical model of a buffer pool: how many cleared buffers sit
/// in the free list, the counters, and the fixed configuration.
pub struct PoolModel {
    pub size: nat,
    pub hits: u64,
    pub misses: u64,
    pub nominal_capacity: usize,
    pub max_size: usize,
}

/// Relies on Vec::capacity: the number of bytes the vector can hold
/// without reallocating, never less than its length.
#[verifier::external_body]
fn buffer_capacity(v: &Vec<u8>) -> (c: usize)
    ensures
        c >= v@.len(),
{
    v.capacity()
}

/// A bounded free-list of byte buffers plus hit/miss counters. Created
/// once at startup and passed into the call chain; never persisted.
#[derive(Debug)]
pub struct BufferPool {
    free: Vec<Vec<u8>>,
    hits: u64,
    misses: u64,
    nominal_capacity: usize,
    max_size: usize,
}

impl View for BufferPool {
    type V = PoolModel;

    closed spec fn view(&self) -> PoolModel {
        PoolModel {
            size: self.free@.len(),
            hits: self.hits,
            misses: self.misses,
            nominal_capacity: self.nominal_capacity,
            max_size: self.max_size,
        }
    }
}

impl BufferPool {
    /// The pool's internal invariant: every buffer sitting in the free
    /// list is cleared. Established by `new`, preserved by every method.
    pub closed spec fn wf(self) -> bool {
        forall|i: int| 0 <= i < self.free@.len() ==> self.free@[i]@.len() == 0
    }

    /// Create a pool pre-seeded with `seed_count` empty buffers of
    /// `nominal_capacity` bytes each, capped at `max_size` pooled buffers.
    pub fn new(seed_count: usize, nominal_capacity: usize, max_size: usize) -> (p: BufferPool)
        requires
            seed_count <= max_size,
            nominal_capacity <= usize::MAX / CAPACITY_SLACK_FACTOR,
        ensures
            p.wf(),
            p@ == (PoolModel {
                size: seed_count as nat,
                hits: 0,
                misses: 0,
                nominal_capacity,
                max_size,
            }),
    {
        let mut free: Vec<Vec<u8>> = Vec::new();
        let mut i: usize = 0;
        while i < seed_count
            invariant
                0 <= i <= seed_count,
                free@.len() == i,
                forall|j: int| 0 <= j < free@.len() ==> free@[j]@.len() == 0,
            decreases seed_count - i,
        {
            free.push(Vec::with_capacity(nominal_capacity));
            i = i + 1;
        }
        BufferPool { free, hits: 0, misses: 0, nominal_capacity, max_size }
    }

    /// Hand out a cleared buffer: a pooled one when available (recording a
    /// hit), a fresh allocation otherwise (recording a miss). Counters
    /// saturate rather than wrap.
    pub fn acquire(&mut self) -> (buf: Vec<u8>)
        requires
            old(self).wf(),
        ensures
            final(self).wf(),
            buf@.len() == 0,
            old(self)@.size > 0 ==> final(self)@ == (PoolModel {
                size: (old(self)@.size - 1) as nat,
                hits: bumped(old(self)@.hits),
                ..old(self)@
            }),
            old(self)@.size == 0 ==> final(self)@ == (PoolModel {
                misses: bumped(old(self)@.misses),
                ..old(self)@
            }),
    {
        match self.free.pop() {
            Some(buf) => {
                if self.hits < u64::MAX {
                    self.hits = self.hits + 1;
                }
                buf
            },
            None => {
                if self.misses < u64::MAX {
                    self.misses = self.misses + 1;
                }
                Vec::with_capacity(self.nominal_capacity)
            },
        }
    }

    /// Take a cleared buffer back under a reported capacity: it rejoins
    /// the pool exactly when the capacity is accepted and the pool is
    /// below its size cap, and is dropped otherwise. The capacity is an
    /// argument, so the outcome is fixed for every value of it; `release`
    /// obtains the value from the allocator and passes it in.
    pub fn admit_buffer(&mut self, buf: Vec<u8>, cap: usize)
        requires
            old(self).wf(),
        ensures
            final(self).wf(),
            final(self)@ == (PoolModel {
                size: if old(self)@.size < old(self)@.max_size && capacity_accepted(
                    cap,
                    old(self)@.nominal_capacity,
                ) {
                    (old(self)@.size + 1) as nat
                } else {
                    old(self)@.size
                },
                ..old(self)@
            }),
    {
        if self.free.len() >= self.max_size {
            return ;
        }
        if cap < self.nominal_capacity {
            return ;
        }
        if self.nominal_capacity <= usize::MAX / CAPACITY_SLACK_FACTOR && cap
            > self.nominal_capacity * CAPACITY_SLACK_FACTOR {
            return ;
        }
        let mut buf = buf;
        buf.clear();
        self.free.push(buf);
    }

    /// Take a buffer back: its contents are dropped, and the cleared
    /// buffer rejoins the pool only when its capacity lies between the
    /// nominal capacity and the accepted slack above it and the pool is
    /// below its size cap; otherwise the buffer is dropped. The capacity
    /// comes from the allocator, so only what holds of every outcome is
    /// stated here; given the capacity, `admit_buffer` fixes the result.
    pub fn release(&mut self, buf: Vec<u8>)
        requires
            old(self).wf(),
        ensures
            final(self).wf(),
            final(self)@.hits == old(self)@.hits,
            final(self)@.misses == old(self)@.misses,
            final(self)@.nominal_capacity == old(self)@.nominal_capacity,
            final(self)@.max_size == old(self)@.max_size,
            final(self)@.size == old(self)@.size || final(self)@.size == old(self)@.size + 1,
            old(self)@.size >= old(self)@.max_size ==> final(self)@.size == old(self)@.size,
    {
        let cap = buffer_capacity(&buf);
        self.admit_buffer(buf, cap);
    }

    /// A snapshot of (hits, misses, hit rate, current pool size); purely
    /// informational.
    pub fn stats(&self) -> (s: PoolStats)
        ensures
            s.hits == self@.hits,
            s.misses == self@.misses,
            s.pool_size == self@.size,
            s.hit_rate_percent == spec_hit_rate_percent(self@.hits, self@.misses),
    {
        let hits_wide = self.hits as u128;
        let misses_wide = self.misses as u128;
        let total = hits_wide + misses_wide;
        let rate: u64 = if total == 0 {
            0
        } else {
            let r = (hits_wide * 100) / total;
            proof {
                assert(r <= 100) by (nonlinear_arith)
                    requires
                        total > 0,
                        hits_wide <= total,
                        r == (hits_wide as int * 100) / (total as int),
                ;
            }
            r as u64
        };
        PoolStats {
            hits: self.hits,
            misses: self.misses,
            hit_rate_percent: rate,
            pool_size: self.free.len(),
        }
    }
}

} // verus!
