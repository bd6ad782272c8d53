//! Hybrid logical clocks that order clipboard events across devices.

use vstd::prelude::*;

verus! {

/// A point on the hybrid logical clock: wall-clock milliseconds plus a
/// logical counter that breaks ties between events in the same millisecond.
#[derive(Debug, Clone, Copy, Default, PartialEq, Eq, PartialOrd, Ord, Hash)]
pub struct HlcTimestamp {
    pub physical_ms: i64,
    pub logical: u32,
}

/// `a` comes strictly before `b`: timestamps are ordered by physical time,
/// then by the logical counter.
pub open spec fn ts_lt(a: HlcTimestamp, b: HlcTimestamp) -> bool {
    a.physical_ms < b.physical_ms || (a.physical_ms == b.physical_ms && a.logical < b.logical)
}

/// `a` comes before `b` or equals it.
pub open spec fn ts_le(a: HlcTimestamp, b: HlcTimestamp) -> bool {
    ts_lt(a, b) || a == b
}

pub open spec fn max_i64(a: i64, b: i64) -> i64 {
    if a >= b { a } else { b }
}

pub open spec fn max_u32(a: u32, b: u32) -> u32 {
    if a >= b { a } else { b }
}

pub open spec fn sat_inc(x: u32) -> u32 {
    if x == u32::MAX { x } else { (x + 1) as u32 }
}

/// The timestamp a local event takes when the wall clock reads `now_ms`
/// and the clock last issued `last`.
pub open spec fn spec_tick(last: HlcTimestamp, now_ms: i64) -> HlcTimestamp {
    if now_ms > last.physical_ms {
        HlcTimestamp { physical_ms: now_ms, logical: 0 }
    } else {
        HlcTimestamp { physical_ms: last.physical_ms, logical: sat_inc(last.logical) }
    }
}

/// The timestamp the clock moves to when it receives `remote` while the
/// wall clock reads `now_ms` and the clock last issued `local`.
pub open spec fn spec_merge(local: HlcTimestamp, remote: HlcTimestamp, now_ms: i64) -> HlcTimestamp {
    let physical_ms = max_i64(max_i64(now_ms, local.physical_ms), remote.physical_ms);
    let logical = if physical_ms == local.physical_ms && physical_ms == remote.physical_ms {
        sat_inc(max_u32(local.logical, remote.logical))
    } else if physical_ms == local.physical_ms {
        sat_inc(local.logical)
    } else if physical_ms == remote.physical_ms {
        sat_inc(remote.logical)
    } else {
        0
    };
    HlcTimestamp { physical_ms, logical }
}

/// Advances `last` for a local event observed at `now_ms`.
pub fn tick_timestamp(last: HlcTimestamp, now_ms: i64) -> (next: HlcTimestamp)
    ensures
        next == spec_tick(last, now_ms),
{
    if now_ms > last.physical_ms {
        HlcTimestamp { physical_ms: now_ms, logical: 0 }
    } else {
        HlcTimestamp { physical_ms: last.physical_ms, logical: last.logical.saturating_add(1) }
    }
}

/// Moves the clock past a timestamp received from another device.
pub fn merge_timestamp(local: HlcTimestamp, remote: HlcTimestamp, now_ms: i64) -> (merged:
    HlcTimestamp)
    ensures
        merged == spec_merge(local, remote, now_ms),
{
    let mut physical_ms = now_ms;
    if local.physical_ms > physical_ms {
        physical_ms = local.physical_ms;
    }
    if remote.physical_ms > physical_ms {
        physical_ms = remote.physical_ms;
    }
    let logical = if physical_ms == local.physical_ms && physical_ms == remote.physical_ms {
        let larger = if local.logical >= remote.logical {
            local.logical
        } else {
            remote.logical
        };
        larger.saturating_add(1)
    } else if physical_ms == local.physical_ms {
        local.logical.saturating_add(1)
    } else if physical_ms == remote.physical_ms {
        remote.logical.saturating_add(1)
    } else {
        0
    };
    HlcTimestamp { physical_ms, logical }
}

/// A hybrid logical clock: the last timestamp it issued.
#[derive(Debug, Clone, Copy, Default)]
pub struct HlcClock {
    last: HlcTimestamp,
}

impl HlcClock {
    pub closed spec fn spec_last(&self) -> HlcTimestamp {
        self.last
    }

    pub fn from_timestamp(last: HlcTimestamp) -> (clock: Self)
        ensures
            clock.spec_last() == last,
    {
        HlcClock { last }
    }

    pub fn new() -> (clock: Self)
        ensures
            clock.spec_last() == (HlcTimestamp { physical_ms: 0, logical: 0 }),
    {
        HlcClock { last: HlcTimestamp { physical_ms: 0, logical: 0 } }
    }

    pub fn last(&self) -> (last: HlcTimestamp)
        ensures
            last == self.spec_last(),
    {
        self.last
    }

    /// Issues the timestamp of a local event observed at `now_ms`.
    pub fn tick(&mut self, now_ms: i64) -> (next: HlcTimestamp)
        ensures
            next == spec_tick(old(self).spec_last(), now_ms),
            final(self).spec_last() == next,
    {
        self.last = tick_timestamp(self.last, now_ms);
        self.last
    }

    /// Moves the clock past `remote`, received while the wall clock reads `now_ms`.
    pub fn merge(&mut self, remote: HlcTimestamp, now_ms: i64) -> (merged: HlcTimestamp)
        ensures
            merged == spec_merge(old(self).spec_last(), remote, now_ms),
            final(self).spec_last() == merged,
    {
        self.last = merge_timestamp(self.last, remote, now_ms);
        self.last
    }
}

/// A local tick never moves the clock backwards, and it moves strictly
/// forward unless the logical counter is already saturated in the same
/// millisecond, even when the wall clock has gone backwards.
pub proof fn lemma_tick_monotonic(last: HlcTimestamp, now_ms: i64)
    ensures
        ts_le(last, spec_tick(last, now_ms)),
        spec_tick(last, now_ms).physical_ms >= now_ms,
        (now_ms > last.physical_ms || last.logical < u32::MAX) ==> ts_lt(
            last,
            spec_tick(last, now_ms),
        ),
{
}

/// A merge orders the clock after both its own last timestamp and the
/// remote one, and never behind the wall clock; the order is strict unless
/// the counter that would advance is saturated.
pub proof fn lemma_merge_orders_after_both(local: HlcTimestamp, remote: HlcTimestamp, now_ms: i64)
    ensures
        ts_le(local, spec_merge(local, remote, now_ms)),
        ts_le(remote, spec_merge(local, remote, now_ms)),
        spec_merge(local, remote, now_ms).physical_ms >= now_ms,
        (local.logical < u32::MAX && remote.logical < u32::MAX) ==> ts_lt(
            local,
            spec_merge(local, remote, now_ms),
        ) && ts_lt(remote, spec_merge(local, remote, now_ms)),
{
}

/// Whatever the wall clock reads, a tick after a merge is ordered after the
/// remote timestamp that was merged (unless counters saturate).
pub proof fn lemma_tick_after_merge_follows_remote(
    local: HlcTimestamp,
    remote: HlcTimestamp,
    merge_ms: i64,
    tick_ms: i64,
)
    requires
        local.logical < u32::MAX - 1,
        remote.logical < u32::MAX - 1,
    ensures
        ts_lt(remote, spec_tick(spec_merge(local, remote, merge_ms), tick_ms)),
{
}

} // verus!
