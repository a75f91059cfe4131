//! The position snapshot cache and the update rate limiter.
//!
//! The cache holds the last full node snapshot with its capture timestamp
//! and serves reads within a short TTL; every physics tick and every
//! explicit clear invalidates it.  The rate limiter admits an externally
//! submitted update only when the minimum interval has passed since the
//! last accepted one; rejected updates are dropped, never queued.

use vstd::prelude::*;
use crate::node::{nodes_view, Node, NodeView};

verus! {

/// How long a cached snapshot stays valid, in milliseconds.
pub const NODE_POSITION_CACHE_TTL_MS: u64 = 50;

/// The minimum interval between accepted external updates, in
/// milliseconds (roughly sixty updates per second).
pub const UPDATE_RATE_LIMIT_MS: u64 = 16;

/// The short-TTL snapshot cache.
pub struct PositionCache {
    pub enabled: bool,
    pub entry: Option<(Vec<Node>, u64)>,
}

/// Whether the cache can serve this instant from its entry.
pub open spec fn cache_fresh(c: PositionCache, now: u64) -> bool {
    &&& c.enabled
    &&& match c.entry {
        Some(e) => e.1 <= now < e.1 + NODE_POSITION_CACHE_TTL_MS,
        None => false,
    }
}

/// What a read at this instant returns: the cached snapshot while fresh,
/// the live state otherwise.
pub open spec fn spec_cache_read_result(
    c: PositionCache,
    live: Seq<NodeView>,
    now: u64,
) -> Seq<NodeView> {
    if cache_fresh(c, now) {
        nodes_view(c.entry->Some_0.0@)
    } else {
        live
    }
}

/// Duplicates a node vector; the copy has the same mathematical value.
pub fn duplicate_nodes(nodes: &Vec<Node>) -> (r: Vec<Node>)
    ensures
        r@.len() == nodes@.len(),
        nodes_view(r@) == nodes_view(nodes@),
        forall|i: int| 0 <= i < r@.len() ==> (#[trigger] r@[i])@ == nodes@[i]@,
        forall|i: int|
            0 <= i < r@.len() ==> (#[trigger] r@[i]).id == nodes@[i].id && r@[i].data
                == nodes@[i].data,
{
    let mut r: Vec<Node> = Vec::new();
    let mut i: usize = 0;
    while i < nodes.len()
        invariant
            i <= nodes@.len(),
            r@.len() == i,
            forall|j: int| 0 <= j < i ==> (#[trigger] r@[j])@ == nodes@[j]@,
            forall|j: int|
                0 <= j < i ==> (#[trigger] r@[j]).id == nodes@[j].id && r@[j].data
                    == nodes@[j].data,
        decreases nodes@.len() - i,
    {
        let n = nodes[i].duplicate();
        r.push(n);
        i = i + 1;
    }
    proof {
        assert(nodes_view(r@) =~= nodes_view(nodes@));
    }
    r
}

impl PositionCache {
    /// A fresh, empty cache.
    pub fn new(enabled: bool) -> (r: PositionCache)
        ensures
            r.enabled == enabled,
            r.entry is None,
    {
        PositionCache { enabled, entry: None }
    }

    /// Drops the cached snapshot, forcing the next read to go live.
    pub fn invalidate(&mut self)
        ensures
            final(self).entry is None,
            final(self).enabled == old(self).enabled,
    {
        self.entry = None;
    }

    /// Serves a read: a fresh cached snapshot is returned unchanged and the
    /// cache is untouched; otherwise the live state is returned and, when
    /// caching is enabled, captured with the current timestamp.
    pub fn read(&mut self, live: &Vec<Node>, now: u64) -> (r: Vec<Node>)
        ensures
            nodes_view(r@) == spec_cache_read_result(*old(self), nodes_view(live@), now),
            final(self).enabled == old(self).enabled,
            cache_fresh(*old(self), now) ==> *final(self) == *old(self),
            !cache_fresh(*old(self), now) && old(self).enabled ==> match final(self).entry {
                Some(e) => nodes_view(e.0@) == nodes_view(live@) && e.1 == now,
                None => false,
            },
            !old(self).enabled ==> final(self).entry == old(self).entry,
            cache_fresh(*final(self), now) || !final(self).enabled,
            final(self).enabled && !cache_fresh(*old(self), now) ==> spec_cache_read_result(
                *final(self),
                nodes_view(live@),
                now,
            ) == nodes_view(live@),
    {
        if self.enabled {
            let mut hit = false;
            match &self.entry {
                Some(e) => {
                    if e.1 <= now && now - e.1 < NODE_POSITION_CACHE_TTL_MS {
                        hit = true;
                    }
                },
                None => {},
            }
            if hit {
                match &self.entry {
                    Some(e) => {
                        return duplicate_nodes(&e.0);
                    },
                    None => {
                        proof {
                            assert(false);
                        }
                    },
                }
            }
        }
        let snapshot = duplicate_nodes(live);
        if self.enabled {
            let copy = duplicate_nodes(&snapshot);
            self.entry = Some((copy, now));
        }
        snapshot
    }
}

/// Two reads inside the TTL window with no intervening tick or clear
/// return identical snapshots, whatever the live state did meanwhile.
pub proof fn lemma_cache_coherence(
    c: PositionCache,
    live1: Seq<NodeView>,
    live2: Seq<NodeView>,
    now1: u64,
    now2: u64,
)
    requires
        cache_fresh(c, now1),
        cache_fresh(c, now2),
    ensures
        spec_cache_read_result(c, live1, now1) == spec_cache_read_result(c, live2, now2),
{
}

/// A read after an invalidation reflects the live state.
pub proof fn lemma_cache_clear_reflects(c: PositionCache, live: Seq<NodeView>, now: u64)
    requires
        c.entry is None,
    ensures
        spec_cache_read_result(c, live, now) == live,
{
}

/// Admits externally submitted updates at a bounded rate.
pub struct RateLimiter {
    pub last_update_ms: u64,
}

impl RateLimiter {
    /// Whether an update arriving at this instant is admitted.
    pub open spec fn accepts(self, now: u64) -> bool {
        now >= self.last_update_ms + UPDATE_RATE_LIMIT_MS
    }

    /// A limiter that counts from the given instant.
    pub fn new(now: u64) -> (r: RateLimiter)
        ensures
            r.last_update_ms == now,
    {
        RateLimiter { last_update_ms: now }
    }

    /// Admits or rejects one update; acceptance advances the timestamp.
    pub fn try_accept(&mut self, now: u64) -> (r: bool)
        ensures
            r == old(self).accepts(now),
            final(self).last_update_ms == if r {
                now
            } else {
                old(self).last_update_ms
            },
    {
        if now >= self.last_update_ms && now - self.last_update_ms >= UPDATE_RATE_LIMIT_MS {
            self.last_update_ms = now;
            true
        } else {
            false
        }
    }
}

/// After an acceptance, every update inside the minimum interval is
/// rejected: accepted updates are spaced at least the interval apart.
pub proof fn lemma_rate_limit_spacing(now1: u64, now2: u64)
    requires
        now2 < now1 + UPDATE_RATE_LIMIT_MS,
    ensures
        !(RateLimiter { last_update_ms: now1 }).accepts(now2),
{
}

} // verus!
