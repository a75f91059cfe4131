//! The broadcast projection.
//!
//! Before a snapshot is handed to the wire encoder and the client
//! registry, every node is projected to its fixed-size record: numeric id
//! plus the full simulation state (position, velocity, mass, flags).

use vstd::prelude::*;
use crate::node::{Node, NodeData};

verus! {

/// Projects a node snapshot to the records the encoder consumes, in
/// order, one record per node.
pub fn position_records(nodes: &Vec<Node>) -> (r: Vec<(u32, NodeData)>)
    ensures
        r@.len() == nodes@.len(),
        forall|i: int|
            0 <= i < nodes@.len() ==> r@[i] == (nodes@[i].id, nodes@[i].data),
{
    let mut r: Vec<(u32, NodeData)> = Vec::new();
    let mut i: usize = 0;
    while i < nodes.len()
        invariant
            i <= nodes@.len(),
            r@.len() == i,
            forall|j: int| 0 <= j < i ==> r@[j] == (nodes@[j].id, nodes@[j].data),
        decreases nodes@.len() - i,
    {
        r.push((nodes[i].id, nodes[i].data));
        i = i + 1;
    }
    r
}

} // verus!
