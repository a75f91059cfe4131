//! Edges of the visualization graph.
//!
//! An edge is an unordered pair of node ids kept in canonical form (smaller
//! id first) with an aggregated co-occurrence weight.  Self-loops are never
//! created.

use vstd::prelude::*;

verus! {

/// Saturation bound for an aggregated edge weight.
pub const WEIGHT_CAP: u64 = 1_000_000_000_000;

/// A canonical, weighted, undirected edge.
#[derive(Clone, Copy, Debug, PartialEq, Eq, Structural)]
pub struct Edge {
    pub source: u32,
    pub target: u32,
    pub weight: u64,
}

impl Edge {
    /// Canonical form: the smaller endpoint comes first, and the endpoints
    /// differ (no self-loops).
    pub open spec fn canonical(self) -> bool {
        self.source < self.target
    }

    /// Builds an edge; endpoints must already be in canonical order.
    pub fn new(source: u32, target: u32, weight: u64) -> (r: Edge)
        requires
            source < target,
        ensures
            r == (Edge { source, target, weight }),
            r.canonical(),
    {
        Edge { source, target, weight }
    }
}

/// The canonical ordering of an unordered id pair: smaller id first.
pub open spec fn canonical_pair(a: u32, b: u32) -> (u32, u32) {
    if a < b {
        (a, b)
    } else {
        (b, a)
    }
}

/// Executable form of [`canonical_pair`].
pub fn order_pair(a: u32, b: u32) -> (r: (u32, u32))
    ensures
        r == canonical_pair(a, b),
{
    if a < b {
        (a, b)
    } else {
        (b, a)
    }
}

} // verus!
