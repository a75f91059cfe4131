//! The graph the engine simulates: nodes, canonical edges, the metadata
//! store the graph was built from, and the reverse id-to-key lookup.
//!
//! A `GraphData` value is replaced wholesale by a rebuild and never patched
//! partially.

use vstd::prelude::*;
use crate::edge::Edge;
use crate::metadata::MetadataStore;
use crate::node::Node;
use crate::node_map::ids_unique;

verus! {

/// Whether some node of the sequence carries this id.
pub open spec fn has_node_id(s: Seq<Node>, id: u32) -> bool {
    exists|i: int| 0 <= i < s.len() && s[i].id == id
}

/// Every node's simulation state is well-formed.
pub open spec fn nodes_wf(s: Seq<Node>) -> bool {
    forall|i: int| 0 <= i < s.len() ==> (#[trigger] s[i].data).wf()
}

/// Every edge is canonical and joins two existing, distinct nodes.
pub open spec fn edges_wf(edges: Seq<Edge>, nodes: Seq<Node>) -> bool {
    forall|i: int|
        0 <= i < edges.len() ==> {
            &&& (#[trigger] edges[i]).canonical()
            &&& has_node_id(nodes, edges[i].source)
            &&& has_node_id(nodes, edges[i].target)
        }
}

/// No unordered node pair carries two edges.
pub open spec fn edge_pairs_unique(edges: Seq<Edge>) -> bool {
    forall|i: int, j: int|
        0 <= i < j < edges.len() ==> !(edges[i].source == edges[j].source && edges[i].target
            == edges[j].target)
}

/// The complete graph state.
#[derive(Clone, Debug)]
pub struct GraphData {
    pub nodes: Vec<Node>,
    pub edges: Vec<Edge>,
    pub metadata: MetadataStore,
    pub id_to_metadata: Vec<(u32, String)>,
}

impl GraphData {
    /// The reverse lookup lists exactly the nodes, in order.
    pub open spec fn id_map_wf(self) -> bool {
        &&& self.id_to_metadata@.len() == self.nodes@.len()
        &&& forall|i: int|
            0 <= i < self.nodes@.len() ==> (#[trigger] self.id_to_metadata@[i]).0
                == self.nodes@[i].id && self.id_to_metadata@[i].1@ == self.nodes@[i].metadata_id@
    }

    /// The graph invariant: unique node ids, well-formed node states,
    /// canonical deduplicated edges over existing nodes, a well-formed
    /// store, and an aligned reverse lookup.
    pub open spec fn wf(self) -> bool {
        &&& ids_unique(self.nodes@)
        &&& nodes_wf(self.nodes@)
        &&& edges_wf(self.edges@, self.nodes@)
        &&& edge_pairs_unique(self.edges@)
        &&& self.metadata.wf()
        &&& self.id_map_wf()
    }

    /// An empty graph.
    pub fn new() -> (r: GraphData)
        ensures
            r.wf(),
            r.nodes@.len() == 0,
            r.edges@.len() == 0,
            r.metadata@.len() == 0,
    {
        GraphData {
            nodes: Vec::new(),
            edges: Vec::new(),
            metadata: MetadataStore::new(),
            id_to_metadata: Vec::new(),
        }
    }

    /// Number of nodes.
    pub fn node_count(&self) -> (r: usize)
        ensures
            r == self.nodes@.len(),
    {
        self.nodes.len()
    }

    /// Number of edges.
    pub fn edge_count(&self) -> (r: usize)
        ensures
            r == self.edges@.len(),
    {
        self.edges.len()
    }
}

} // verus!
