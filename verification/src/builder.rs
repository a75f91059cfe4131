//! Building a graph from the metadata store.
//!
//! The build is a pure, deterministic transform: candidate node ids come
//! from the store's keys with the filename suffix stripped (deduplicated,
//! first occurrence wins); each node reuses a parseable stored id or gets a
//! fresh one; descriptive fields are copied into the node's metadata
//! mapping; co-occurrence counts are aggregated into canonical, weighted,
//! self-loop-free edges; and initial positions come from the jittered
//! Fibonacci sphere.  A process-wide build slot rejects a second build that
//! starts while one is running, with `ConcurrentRebuild`, rather than
//! queuing it.

use vstd::prelude::*;
use crate::edge::{canonical_pair, order_pair, Edge, WEIGHT_CAP};
use crate::errors::EngineError;
use crate::fixed::clamp_spec;
use crate::graph::{edges_wf, edge_pairs_unique, has_node_id, nodes_wf, GraphData};
use crate::metadata::{spec_store_get, FileMetadata, FileMetadataView, MetadataStore};
use crate::node::{mass_from_file_size, mass_from_file_size_spec, Node, NodeData, NodeView, Vec3};
use crate::node_map::ids_unique;
use crate::placement::{initialize_random_positions, placement_norm_ok, INITIAL_RADIUS_MILLI};
use crate::text::{
    append_md_suffix, md_suffix, milli_to_string, parse_u32, spec_decimal, spec_milli_decimal,
    spec_parse_u32, spec_strip_md, strip_md_suffix, u64_to_string,
};

verus! {

/// Stored numeric ids at or above this ceiling are treated as absent and a
/// fresh id is allocated instead, so that fresh allocation can never run
/// out of the 32-bit id space.
pub const ID_CEILING: u32 = 0x4000_0000;

/// The process-wide exclusive flag guarding graph rebuilds.
pub struct BuildSlot {
    pub in_progress: bool,
}

impl BuildSlot {
    /// A fresh slot with no build running.
    pub fn new() -> (r: BuildSlot)
        ensures
            !r.in_progress,
    {
        BuildSlot { in_progress: false }
    }
}

/// The candidate node ids: every store key with the suffix stripped, in
/// first-occurrence order, deduplicated.
pub open spec fn spec_dedup_from(
    entries: Seq<(Seq<char>, FileMetadataView)>,
    k: int,
    acc: Seq<Seq<char>>,
) -> Seq<Seq<char>>
    decreases entries.len() - k,
{
    if k < 0 || k >= entries.len() {
        acc
    } else {
        let sid = spec_strip_md(entries[k].0);
        spec_dedup_from(entries, k + 1, if acc.contains(sid) {
            acc
        } else {
            acc.push(sid)
        })
    }
}

/// All candidate node ids of a store.
pub open spec fn spec_valid_ids(entries: Seq<(Seq<char>, FileMetadataView)>) -> Seq<Seq<char>> {
    spec_dedup_from(entries, 0, Seq::<Seq<char>>::empty())
}

/// The usable stored id of a candidate: the record under the candidate's
/// file name must exist, its id field must parse, and the value must lie
/// below the id ceiling.
pub open spec fn spec_stored_id(
    entries: Seq<(Seq<char>, FileMetadataView)>,
    mid: Seq<char>,
) -> Option<u32> {
    match spec_store_get(entries, mid + md_suffix()) {
        Some(m) => match spec_parse_u32(m.node_id) {
            Some(v) => if v < ID_CEILING {
                Some(v)
            } else {
                None
            },
            None => None,
        },
        None => None,
    }
}

/// Sequential id assignment: a usable stored id is taken unless an earlier
/// node already holds it; otherwise the next fresh id is allocated.  The
/// fresh counter always stays above every assigned id.
pub open spec fn spec_assign_from(
    entries: Seq<(Seq<char>, FileMetadataView)>,
    valid: Seq<Seq<char>>,
    k: int,
    next: u32,
    acc: Seq<u32>,
) -> Seq<u32>
    decreases valid.len() - k,
{
    if k < 0 || k >= valid.len() {
        acc
    } else {
        match spec_stored_id(entries, valid[k]) {
            Some(sid) => if !acc.contains(sid) {
                let nx = if sid + 1 > next {
                    (sid + 1) as u32
                } else {
                    next
                };
                spec_assign_from(entries, valid, k + 1, nx, acc.push(sid))
            } else {
                spec_assign_from(entries, valid, k + 1, (next + 1) as u32, acc.push(next))
            },
            None => spec_assign_from(entries, valid, k + 1, (next + 1) as u32, acc.push(next)),
        }
    }
}

/// The ids every candidate receives, in candidate order.
pub open spec fn spec_node_ids(entries: Seq<(Seq<char>, FileMetadataView)>) -> Seq<u32> {
    spec_assign_from(entries, spec_valid_ids(entries), 0, 1u32, Seq::<u32>::empty())
}

/// The descriptive key/value pairs copied from a record into its node.
pub open spec fn spec_node_meta_pairs(m: FileMetadataView) -> Seq<(Seq<char>, Seq<char>)> {
    let base = seq![
        ("fileName"@, m.file_name),
        ("name"@, spec_strip_md(m.file_name)),
        ("metadataId"@, spec_strip_md(m.file_name)),
        ("fileSize"@, spec_decimal(m.file_size as nat)),
        ("nodeSize"@, spec_milli_decimal(m.node_size_milli)),
        ("hyperlinkCount"@, spec_decimal(m.hyperlink_count as nat)),
        ("sha1"@, m.sha1),
        ("lastModified"@, m.last_modified),
    ];
    let with_link = if m.perplexity_link.len() > 0 {
        base.push(("perplexityLink"@, m.perplexity_link))
    } else {
        base
    };
    match m.last_perplexity_process {
        Some(t) => with_link.push(("lastPerplexityProcess"@, t)),
        None => with_link,
    }
}

/// What a built node carries, apart from its position and velocity.
pub open spec fn spec_node_content_ok(
    v: NodeView,
    mid: Seq<char>,
    id: u32,
    entries: Seq<(Seq<char>, FileMetadataView)>,
) -> bool {
    &&& v.id == id
    &&& v.metadata_id == mid
    &&& match spec_store_get(entries, mid + md_suffix()) {
        Some(m) => {
            &&& v.label == spec_strip_md(m.file_name)
            &&& v.file_size == m.file_size
            &&& v.size == Some(m.node_size_milli)
            &&& v.metadata == spec_node_meta_pairs(m)
            &&& v.data.mass == mass_from_file_size_spec(m.file_size)
            &&& v.data.flags == 1
        },
        None => {
            &&& v.label == mid
            &&& v.file_size == 0
            &&& v.size is None
            &&& v.metadata.len() == 0
            &&& v.data.mass == 1
            &&& v.data.flags == 0
        },
    }
}

/// The id and metadata key of every node, in order.
pub open spec fn node_keys(nodes: Seq<Node>) -> Seq<(u32, Seq<char>)> {
    nodes.map_values(|n: Node| (n.id, n.metadata_id@))
}

/// Index of the first key pair whose metadata key is `mid`, at or after
/// `from`; the length when none matches.
pub open spec fn spec_find_key(keys: Seq<(u32, Seq<char>)>, mid: Seq<char>, from: int) -> int
    decreases keys.len() - from,
{
    if from < 0 || from >= keys.len() {
        keys.len() as int
    } else if keys[from].1 == mid {
        from
    } else {
        spec_find_key(keys, mid, from + 1)
    }
}

/// Index of the first edge joining exactly `(a, b)`, at or after `from`;
/// the length when none does.
pub open spec fn spec_find_pair(edges: Seq<Edge>, a: u32, b: u32, from: int) -> int
    decreases edges.len() - from,
{
    if from < 0 || from >= edges.len() {
        edges.len() as int
    } else if edges[from].source == a && edges[from].target == b {
        from
    } else {
        spec_find_pair(edges, a, b, from + 1)
    }
}

/// Adds a co-occurrence count to the canonical pair's edge, creating the
/// edge when absent; weights saturate at the weight cap.
pub open spec fn spec_edge_upsert(edges: Seq<Edge>, a: u32, b: u32, w: u64) -> Seq<Edge> {
    let weff = clamp_spec(w as int, 0, WEIGHT_CAP as int);
    let i = spec_find_pair(edges, a, b, 0);
    if i < edges.len() {
        edges.update(
            i,
            Edge {
                source: a,
                target: b,
                weight: clamp_spec(edges[i].weight + weff, 0, WEIGHT_CAP as int) as u64,
            },
        )
    } else {
        edges.push(Edge { source: a, target: b, weight: weff as u64 })
    }
}

/// Folds one record's co-occurrence counts into the edge aggregation.
pub open spec fn spec_topics_fold(
    keys: Seq<(u32, Seq<char>)>,
    topics: Seq<(Seq<char>, u64)>,
    src: u32,
    t: int,
    edges: Seq<Edge>,
) -> Seq<Edge>
    decreases topics.len() - t,
{
    if t < 0 || t >= topics.len() {
        edges
    } else {
        let tmid = spec_strip_md(topics[t].0);
        let ti = spec_find_key(keys, tmid, 0);
        let edges2 = if ti < keys.len() && keys[ti].0 != src {
            let pr = canonical_pair(src, keys[ti].0);
            spec_edge_upsert(edges, pr.0, pr.1, topics[t].1)
        } else {
            edges
        };
        spec_topics_fold(keys, topics, src, t + 1, edges2)
    }
}

/// Folds every record's co-occurrence counts into the edge aggregation; a
/// record whose own key does not resolve to a node contributes nothing.
pub open spec fn spec_edges_fold(
    keys: Seq<(u32, Seq<char>)>,
    entries: Seq<(Seq<char>, FileMetadataView)>,
    k: int,
    edges: Seq<Edge>,
) -> Seq<Edge>
    decreases entries.len() - k,
{
    if k < 0 || k >= entries.len() {
        edges
    } else {
        let smid = spec_strip_md(entries[k].0);
        let si = spec_find_key(keys, smid, 0);
        let edges2 = if si < keys.len() {
            spec_topics_fold(keys, entries[k].1.topic_counts, keys[si].0, 0, edges)
        } else {
            edges
        };
        spec_edges_fold(keys, entries, k + 1, edges2)
    }
}

/// All edges a store yields over the given nodes.
pub open spec fn spec_build_edges(
    keys: Seq<(u32, Seq<char>)>,
    entries: Seq<(Seq<char>, FileMetadataView)>,
) -> Seq<Edge> {
    spec_edges_fold(keys, entries, 0, Seq::<Edge>::empty())
}

/// Whether a key pair sequence holds an id.
pub open spec fn keys_have_id(keys: Seq<(u32, Seq<char>)>, id: u32) -> bool {
    exists|i: int| 0 <= i < keys.len() && keys[i].0 == id
}

/// Whether a string vector holds a value with this view.
fn vec_string_contains(v: &Vec<String>, s: &String) -> (r: bool)
    ensures
        r == v@.map_values(|x: String| x@).contains(s@),
{
    let ghost views = v@.map_values(|x: String| x@);
    let mut i: usize = 0;
    while i < v.len()
        invariant
            i <= v.len(),
            views == v@.map_values(|x: String| x@),
            views.len() == v@.len(),
            forall|j: int| 0 <= j < i ==> views[j] != s@,
        decreases v.len() - i,
    {
        if v[i] == *s {
            proof {
                assert(views[i as int] == s@);
            }
            return true;
        }
        i = i + 1;
    }
    proof {
        if views.contains(s@) {
            let j = choose|j: int| 0 <= j < views.len() && views[j] == s@;
            assert(views[j] != s@);
        }
    }
    false
}

/// Whether an id vector holds a value.
fn vec_u32_contains(v: &Vec<u32>, x: u32) -> (r: bool)
    ensures
        r == v@.contains(x),
{
    let mut i: usize = 0;
    while i < v.len()
        invariant
            i <= v.len(),
            forall|j: int| 0 <= j < i ==> v@[j] != x,
        decreases v.len() - i,
    {
        if v[i] == x {
            return true;
        }
        i = i + 1;
    }
    proof {
        if v@.contains(x) {
            let j = choose|j: int| 0 <= j < v@.len() && v@[j] == x;
            assert(v@[j] != x);
        }
    }
    false
}

/// Index of the first node whose metadata key equals `mid`, or the node
/// count when none does.
fn find_metadata_index(nodes: &Vec<Node>, mid: &String) -> (r: usize)
    ensures
        r as int == spec_find_key(node_keys(nodes@), mid@, 0),
        r <= nodes@.len(),
        r < nodes@.len() ==> nodes@[r as int].metadata_id@ == mid@,
{
    let ghost keys = node_keys(nodes@);
    let mut j: usize = 0;
    while j < nodes.len()
        invariant
            j <= nodes@.len(),
            keys == node_keys(nodes@),
            keys.len() == nodes@.len(),
            spec_find_key(keys, mid@, 0) == spec_find_key(keys, mid@, j as int),
        decreases nodes@.len() - j,
    {
        if nodes[j].metadata_id == *mid {
            proof {
                assert(keys[j as int].1 == mid@);
            }
            return j;
        }
        proof {
            assert(keys[j as int].1 != mid@);
        }
        j = j + 1;
    }
    nodes.len()
}

/// Adds one co-occurrence count to the edge vector, canonically.
fn upsert_edge(edges: &mut Vec<Edge>, a: u32, b: u32, w: u64)
    requires
        a < b,
    ensures
        final(edges)@ == spec_edge_upsert(old(edges)@, a, b, w),
        (forall|i: int| 0 <= i < old(edges)@.len() ==> (#[trigger] old(edges)@[i]).canonical())
            ==> forall|i: int|
            0 <= i < final(edges)@.len() ==> (#[trigger] final(edges)@[i]).canonical(),
        edge_pairs_unique(old(edges)@) ==> edge_pairs_unique(final(edges)@),
        forall|i: int|
            0 <= i < final(edges)@.len() ==> (final(edges)@[i].source == a && final(
                edges)@[i].target == b) || (exists|j: int|
                0 <= j < old(edges)@.len() && old(edges)@[j].source == final(edges)@[i].source
                    && old(edges)@[j].target == final(edges)@[i].target),
{
    let ghost pre = edges@;
    let weff: u64 = if w > WEIGHT_CAP {
        WEIGHT_CAP
    } else {
        w
    };
    let mut i: usize = 0;
    while i < edges.len()
        invariant
            i <= edges@.len(),
            edges@ == pre,
            pre == old(edges)@,
            a < b,
            weff as int == clamp_spec(w as int, 0, WEIGHT_CAP as int),
            spec_find_pair(pre, a, b, 0) == spec_find_pair(pre, a, b, i as int),
        decreases edges@.len() - i,
    {
        if edges[i].source == a && edges[i].target == b {
            let cur = edges[i].weight;
            let wide: u128 = cur as u128 + weff as u128;
            let summed: u64 = if wide > WEIGHT_CAP as u128 {
                WEIGHT_CAP
            } else {
                wide as u64
            };
            edges.set(i, Edge { source: a, target: b, weight: summed });
            proof {
                let ghost wspec = clamp_spec(w as int, 0, WEIGHT_CAP as int);
                assert(weff as int == wspec);
                assert(spec_find_pair(pre, a, b, 0) == i as int);
                assert(summed as int == clamp_spec(
                    pre[i as int].weight + wspec,
                    0,
                    WEIGHT_CAP as int,
                ));
                assert(edges@ =~= pre.update(
                    i as int,
                    Edge { source: a, target: b, weight: summed },
                ));
                assert(spec_edge_upsert(pre, a, b, w) == pre.update(
                    i as int,
                    Edge {
                        source: a,
                        target: b,
                        weight: clamp_spec(pre[i as int].weight + wspec, 0, WEIGHT_CAP as int) as u64,
                    },
                ));
                assert(edges@ =~= spec_edge_upsert(pre, a, b, w));
                assert forall|x: int|
                    0 <= x < edges@.len() implies (edges@[x].source == a && edges@[x].target == b)
                    || (exists|jj: int|
                    0 <= jj < pre.len() && pre[jj].source == edges@[x].source && pre[jj].target
                        == edges@[x].target) by {
                    if x != i as int {
                        assert(edges@[x] == pre[x]);
                    }
                }
                assert((forall|x: int| 0 <= x < pre.len() ==> (#[trigger] pre[x]).canonical())
                    ==> (forall|x: int|
                    0 <= x < edges@.len() ==> (#[trigger] edges@[x]).canonical())) by {
                    if forall|x: int| 0 <= x < pre.len() ==> (#[trigger] pre[x]).canonical() {
                        assert forall|x: int|
                            0 <= x < edges@.len() implies (#[trigger] edges@[x]).canonical() by {
                            if x != i as int {
                                assert(edges@[x] == pre[x]);
                            }
                        }
                    }
                }
                assert(edge_pairs_unique(pre) ==> edge_pairs_unique(edges@)) by {
                    if edge_pairs_unique(pre) {
                        assert forall|x: int, y: int|
                            0 <= x < y < edges@.len() implies !(edges@[x].source == edges@[y].source
                            && edges@[x].target == edges@[y].target) by {
                            assert(edges@[x].source == pre[x].source && edges@[x].target
                                == pre[x].target);
                            assert(edges@[y].source == pre[y].source && edges@[y].target
                                == pre[y].target);
                        }
                    }
                }
            }
            return;
        }
        i = i + 1;
    }
    proof {
        assert(spec_find_pair(pre, a, b, 0) == pre.len());
    }
    edges.push(Edge { source: a, target: b, weight: weff });
    proof {
        assert(edges@ =~= spec_edge_upsert(pre, a, b, w));
        assert forall|x: int|
            0 <= x < edges@.len() implies (edges@[x].source == a && edges@[x].target == b) || (
        exists|jj: int|
            0 <= jj < pre.len() && pre[jj].source == edges@[x].source && pre[jj].target
                == edges@[x].target) by {
            if x < pre.len() {
                assert(edges@[x] == pre[x]);
            }
        }
        assert((forall|x: int| 0 <= x < pre.len() ==> (#[trigger] pre[x]).canonical()) ==> (
        forall|x: int| 0 <= x < edges@.len() ==> (#[trigger] edges@[x]).canonical())) by {
            if forall|x: int| 0 <= x < pre.len() ==> (#[trigger] pre[x]).canonical() {
                assert forall|x: int|
                    0 <= x < edges@.len() implies (#[trigger] edges@[x]).canonical() by {
                    if x < pre.len() {
                        assert(edges@[x] == pre[x]);
                    } else {
                        assert(edges@[x].source == a && edges@[x].target == b);
                    }
                }
            }
        }
        assert(edge_pairs_unique(pre) ==> edge_pairs_unique(edges@)) by {
            if edge_pairs_unique(pre) {
                assert forall|x: int, y: int|
                    0 <= x < y < edges@.len() implies !(edges@[x].source == edges@[y].source
                    && edges@[x].target == edges@[y].target) by {
                    if y < pre.len() {
                        assert(edges@[x] == pre[x] && edges@[y] == pre[y]);
                    } else {
                        assert(edges@[y].source == a && edges@[y].target == b);
                        assert(edges@[x] == pre[x]);
                        assert(spec_find_pair(pre, a, b, 0) == pre.len());
                        lemma_find_pair_misses(pre, a, b, 0);
                    }
                }
            }
        }
    }
}

/// When the pair search reaches the end, no edge at or after `from` joins
/// the pair.
proof fn lemma_find_pair_misses(edges: Seq<Edge>, a: u32, b: u32, from: int)
    requires
        0 <= from,
        spec_find_pair(edges, a, b, from) == edges.len(),
    ensures
        forall|i: int|
            from <= i < edges.len() ==> !((#[trigger] edges[i]).source == a && edges[i].target
                == b),
    decreases edges.len() - from,
{
    if 0 <= from < edges.len() {
        lemma_find_pair_misses(edges, a, b, from + 1);
    }
}

/// Builds one node from a candidate id and its (possibly absent) record.
fn build_node(mid: &String, id: u32, record: Option<&FileMetadata>) -> (r: Node)
    ensures
        r.id == id,
        r.metadata_id@ == mid@,
        r.data.position == (Vec3 { x: 0, y: 0, z: 0 }),
        r.data.velocity == (Vec3 { x: 0, y: 0, z: 0 }),
        r.data.wf(),
        match record {
            Some(m) => {
                &&& r@.label == spec_strip_md(m@.file_name)
                &&& r@.file_size == m@.file_size
                &&& r@.size == Some(m@.node_size_milli)
                &&& r@.metadata == spec_node_meta_pairs(m@)
                &&& r.data.mass == mass_from_file_size_spec(m@.file_size)
                &&& r.data.flags == 1
            },
            None => {
                &&& r@.label == mid@
                &&& r@.file_size == 0
                &&& r@.size is None
                &&& r@.metadata.len() == 0
                &&& r.data.mass == 1
                &&& r.data.flags == 0
            },
        },
{
    match record {
        Some(m) => {
            let label = strip_md_suffix(&m.file_name);
            let mut metadata: Vec<(String, String)> = Vec::new();
            metadata.push((String::from_str("fileName"), m.file_name.clone()));
            metadata.push((String::from_str("name"), label.clone()));
            metadata.push((String::from_str("metadataId"), label.clone()));
            metadata.push((String::from_str("fileSize"), u64_to_string(m.file_size)));
            metadata.push((String::from_str("nodeSize"), milli_to_string(m.node_size_milli)));
            metadata.push((String::from_str("hyperlinkCount"), u64_to_string(m.hyperlink_count)));
            metadata.push((String::from_str("sha1"), m.sha1.clone()));
            metadata.push((String::from_str("lastModified"), m.last_modified.clone()));
            if m.perplexity_link.as_str().unicode_len() > 0 {
                metadata.push((String::from_str("perplexityLink"), m.perplexity_link.clone()));
            }
            match &m.last_perplexity_process {
                Some(t) => {
                    metadata.push((String::from_str("lastPerplexityProcess"), t.clone()));
                },
                None => {},
            }
            let mass = mass_from_file_size(m.file_size);
            let r = Node {
                id,
                metadata_id: mid.clone(),
                label,
                data: NodeData {
                    position: Vec3 { x: 0, y: 0, z: 0 },
                    velocity: Vec3 { x: 0, y: 0, z: 0 },
                    mass,
                    flags: 1,
                },
                metadata,
                file_size: m.file_size,
                size: Some(m.node_size_milli),
            };
            proof {
                assert(r@.metadata =~= spec_node_meta_pairs(m@));
            }
            r
        },
        None => {
            Node {
                id,
                metadata_id: mid.clone(),
                label: mid.clone(),
                data: NodeData {
                    position: Vec3 { x: 0, y: 0, z: 0 },
                    velocity: Vec3 { x: 0, y: 0, z: 0 },
                    mass: 1,
                    flags: 0,
                },
                metadata: Vec::new(),
                file_size: 0,
                size: None,
            }
        },
    }
}

impl crate::service::GraphService {

/// Builds a graph from the metadata store.
///
/// A second build that starts while one is running is rejected immediately
/// with `ConcurrentRebuild` and leaves the slot as it was; a completed
/// build releases the slot.  On success the produced graph is well-formed,
/// holds a copy of the store, one node per deduplicated stripped key with
/// its assigned id and copied descriptive fields, the canonically
/// aggregated co-occurrence edges, and jittered initial sphere positions
/// with zero velocities.
#[verifier::rlimit(100)]
pub fn build_graph_from_metadata(slot: &mut BuildSlot, store: &MetadataStore) -> (r: Result<
    GraphData,
    EngineError,
>)
    requires
        store.wf(),
        store@.len() <= 0x4000_0000,
    ensures
        final(slot).in_progress == old(slot).in_progress,
        (r is Err) <==> old(slot).in_progress,
        r matches Err(e) ==> e == EngineError::ConcurrentRebuild,
        r matches Ok(g) ==> {
            &&& g.wf()
            &&& g.metadata@ == store@
            &&& g.nodes@.len() == spec_valid_ids(store@).len()
            &&& forall|i: int|
                0 <= i < g.nodes@.len() ==> (#[trigger] g.nodes@[i]).metadata_id@ == spec_valid_ids(
                    store@,
                )[i]
            &&& forall|i: int|
                0 <= i < g.nodes@.len() ==> (#[trigger] g.nodes@[i]).id == spec_node_ids(store@)[i]
            &&& forall|i: int|
                0 <= i < g.nodes@.len() ==> spec_node_content_ok(
                    (#[trigger] g.nodes@[i])@,
                    spec_valid_ids(store@)[i],
                    spec_node_ids(store@)[i],
                    store@,
                )
            &&& forall|i: int|
                0 <= i < g.nodes@.len() ==> placement_norm_ok(
                    (#[trigger] g.nodes@[i]).data.position,
                    INITIAL_RADIUS_MILLI as int,
                ) && g.nodes@[i].data.velocity == (Vec3 { x: 0, y: 0, z: 0 })
            &&& g.edges@ == spec_build_edges(node_keys(g.nodes@), store@)
            &&& forall|i: int|
                0 <= i < g.edges@.len() ==> (#[trigger] g.edges@[i]).source != g.edges@[i].target
        },
{
    if slot.in_progress {
        return Err(EngineError::ConcurrentRebuild);
    }
    slot.in_progress = true;
    let ghost entries = store@;

    // First pass: candidate node ids, deduplicated in first-occurrence order.
    let mut valid: Vec<String> = Vec::new();
    proof {
        assert(valid@.map_values(|x: String| x@) =~= Seq::<Seq<char>>::empty());
    }
    let mut k: usize = 0;
    while k < store.entries.len()
        invariant
            k <= store.entries@.len(),
            entries == store@,
            entries.len() == store.entries@.len(),
            forall|j: int|
                0 <= j < entries.len() ==> entries[j] == (store.entries@[j].0@, store.entries@[j].1@),
            valid@.len() <= k,
            spec_dedup_from(entries, k as int, valid@.map_values(|x: String| x@))
                == spec_valid_ids(entries),
        decreases store.entries@.len() - k,
    {
        let ghost pre_views = valid@.map_values(|x: String| x@);
        let sid = strip_md_suffix(&store.entries[k].0);
        proof {
            assert(sid@ == spec_strip_md(entries[k as int].0));
        }
        if !vec_string_contains(&valid, &sid) {
            valid.push(sid);
            proof {
                assert(valid@.map_values(|x: String| x@) =~= pre_views.push(
                    spec_strip_md(entries[k as int].0),
                ));
            }
        }
        k = k + 1;
    }
    let ghost validv = valid@.map_values(|x: String| x@);
    proof {
        assert(spec_dedup_from(entries, entries.len() as int, validv) == validv);
        assert(validv == spec_valid_ids(entries));
    }

    // Second pass: nodes, ids and the reverse lookup.
    let mut nodes: Vec<Node> = Vec::new();
    let mut id_to_metadata: Vec<(u32, String)> = Vec::new();
    let mut used: Vec<u32> = Vec::new();
    let mut next: u32 = 1;
    let mut k2: usize = 0;
    while k2 < valid.len()
        invariant
            k2 <= valid@.len(),
            validv == valid@.map_values(|x: String| x@),
            validv.len() == valid@.len(),
            validv.len() <= 0x4000_0000,
            validv == spec_valid_ids(entries),
            entries == store@,
            store.wf(),
            used@.len() == k2,
            nodes@.len() == k2,
            id_to_metadata@.len() == k2,
            1 <= next,
            next as int <= 0x4000_0001 + k2,
            forall|q: int| 0 <= q < k2 ==> used@[q] < next,
            forall|a: int, b: int| 0 <= a < b < k2 ==> used@[a] != used@[b],
            spec_assign_from(entries, validv, k2 as int, next, used@) == spec_node_ids(entries),
            forall|q: int| 0 <= q < k2 ==> (#[trigger] nodes@[q]).id == used@[q],
            forall|q: int| 0 <= q < k2 ==> (#[trigger] nodes@[q]).metadata_id@ == validv[q],
            forall|q: int|
                0 <= q < k2 ==> spec_node_content_ok(
                    (#[trigger] nodes@[q])@,
                    validv[q],
                    used@[q],
                    entries,
                ),
            forall|q: int| 0 <= q < k2 ==> (#[trigger] nodes@[q]).data.wf(),
            forall|q: int|
                0 <= q < k2 ==> (#[trigger] id_to_metadata@[q]).0 == used@[q]
                    && id_to_metadata@[q].1@ == validv[q],
        decreases valid@.len() - k2,
    {
        let ghost pre_used = used@;
        let ghost pre_next = next;
        let mid = &valid[k2];
        proof {
            assert(mid@ == validv[k2 as int]);
        }
        let key = append_md_suffix(mid);
        let record = store.get(&key);
        let stored: Option<u32> = match record {
            Some(m) => {
                match parse_u32(&m.node_id) {
                    Some(v) => if v < ID_CEILING {
                        Some(v)
                    } else {
                        None
                    },
                    None => None,
                }
            },
            None => None,
        };
        proof {
            assert(key@ == validv[k2 as int] + md_suffix());
            assert(stored == spec_stored_id(entries, validv[k2 as int]));
        }
        let mut use_stored = false;
        let mut sid_val: u32 = 0;
        match stored {
            Some(sv) => {
                if !vec_u32_contains(&used, sv) {
                    use_stored = true;
                    sid_val = sv;
                }
            },
            None => {},
        }
        let id: u32;
        if use_stored {
            id = sid_val;
            if sid_val + 1 > next {
                next = sid_val + 1;
            }
        } else {
            id = next;
            next = next + 1;
        }
        used.push(id);
        proof {
            assert(used@ =~= pre_used.push(id));
            assert(spec_assign_from(entries, validv, k2 as int, pre_next, pre_used)
                == spec_assign_from(entries, validv, k2 as int + 1, next, used@));
        }
        let node = build_node(mid, id, record);
        nodes.push(node);
        id_to_metadata.push((id, mid.clone()));
        proof {
            assert(spec_node_content_ok(
                nodes@[k2 as int]@,
                validv[k2 as int],
                id,
                entries,
            )) by {
                assert(nodes@[k2 as int] == node);
                match record {
                    Some(m) => {
                        assert(spec_store_get(entries, validv[k2 as int] + md_suffix()) == Some(
                            m@,
                        ));
                    },
                    None => {
                        assert(spec_store_get(entries, validv[k2 as int] + md_suffix()) is None);
                    },
                }
            }
        }
        k2 = k2 + 1;
    }
    proof {
        assert(spec_assign_from(entries, validv, validv.len() as int, next, used@) == used@);
        assert(used@ == spec_node_ids(entries));
    }

    // Third pass: canonical aggregated edges.
    let mut edges: Vec<Edge> = Vec::new();
    let ghost keys = node_keys(nodes@);
    proof {
        assert(keys.len() == nodes@.len());
    }
    let mut k3: usize = 0;
    while k3 < store.entries.len()
        invariant
            k3 <= store.entries@.len(),
            entries == store@,
            entries.len() == store.entries@.len(),
            forall|j: int|
                0 <= j < entries.len() ==> entries[j] == (store.entries@[j].0@, store.entries@[j].1@),
            keys == node_keys(nodes@),
            keys.len() == nodes@.len(),
            forall|x: int| 0 <= x < edges@.len() ==> (#[trigger] edges@[x]).canonical(),
            edge_pairs_unique(edges@),
            forall|x: int|
                0 <= x < edges@.len() ==> keys_have_id(keys, (#[trigger] edges@[x]).source)
                    && keys_have_id(keys, edges@[x].target),
            spec_edges_fold(keys, entries, k3 as int, edges@) == spec_build_edges(keys, entries),
        decreases store.entries@.len() - k3,
    {
        let ghost outer_edges = edges@;
        let src_mid = strip_md_suffix(&store.entries[k3].0);
        proof {
            assert(src_mid@ == spec_strip_md(entries[k3 as int].0));
        }
        let si = find_metadata_index(&nodes, &src_mid);
        if si < nodes.len() {
            let src_id = nodes[si].id;
            proof {
                assert(keys[si as int] == (nodes@[si as int].id, nodes@[si as int].metadata_id@));
                assert(keys[si as int].0 == src_id);
            }
            let ghost topicsv = entries[k3 as int].1.topic_counts;
            let mut t: usize = 0;
            while t < store.entries[k3].1.topic_counts.len()
                invariant
                    k3 < store.entries@.len(),
                    t <= store.entries@[k3 as int].1.topic_counts@.len(),
                    entries == store@,
                    entries.len() == store.entries@.len(),
                    forall|j: int|
                        0 <= j < entries.len() ==> entries[j] == (
                        store.entries@[j].0@, store.entries@[j].1@),
                    topicsv == entries[k3 as int].1.topic_counts,
                    topicsv.len() == store.entries@[k3 as int].1.topic_counts@.len(),
                    forall|j: int|
                        0 <= j < topicsv.len() ==> topicsv[j] == (
                        store.entries@[k3 as int].1.topic_counts@[j].0@,
                        store.entries@[k3 as int].1.topic_counts@[j].1),
                    keys == node_keys(nodes@),
                    keys.len() == nodes@.len(),
                    si < keys.len(),
                    keys[si as int].0 == src_id,
                    forall|x: int| 0 <= x < edges@.len() ==> (#[trigger] edges@[x]).canonical(),
                    edge_pairs_unique(edges@),
                    forall|x: int|
                        0 <= x < edges@.len() ==> keys_have_id(keys, (#[trigger] edges@[x]).source)
                            && keys_have_id(keys, edges@[x].target),
                    spec_edges_fold(
                        keys,
                        entries,
                        k3 as int + 1,
                        spec_topics_fold(keys, topicsv, src_id, t as int, edges@),
                    ) == spec_build_edges(keys, entries),
                decreases store.entries@[k3 as int].1.topic_counts@.len() - t,
            {
                let ghost pre_edges = edges@;
                let tgt_mid = strip_md_suffix(&store.entries[k3].1.topic_counts[t].0);
                let count = store.entries[k3].1.topic_counts[t].1;
                proof {
                    assert(tgt_mid@ == spec_strip_md(topicsv[t as int].0));
                    assert(count == topicsv[t as int].1);
                }
                let ti = find_metadata_index(&nodes, &tgt_mid);
                if ti < nodes.len() {
                    let tgt_id = nodes[ti].id;
                    proof {
                        assert(keys[ti as int] == (
                        nodes@[ti as int].id, nodes@[ti as int].metadata_id@));
                        assert(keys[ti as int].0 == tgt_id);
                    }
                    if src_id != tgt_id {
                        let pr = order_pair(src_id, tgt_id);
                        proof {
                            assert(pr.0 < pr.1);
                        }
                        upsert_edge(&mut edges, pr.0, pr.1, count);
                        proof {
                            assert(keys_have_id(keys, pr.0) && keys_have_id(keys, pr.1)) by {
                                assert(keys[si as int].0 == src_id);
                                assert(keys[ti as int].0 == tgt_id);
                            }
                            assert forall|x: int|
                                0 <= x < edges@.len() implies keys_have_id(
                                keys,
                                (#[trigger] edges@[x]).source,
                            ) && keys_have_id(keys, edges@[x].target) by {
                                if !(edges@[x].source == pr.0 && edges@[x].target == pr.1) {
                                    let jj = choose|jj: int|
                                        0 <= jj < pre_edges.len() && pre_edges[jj].source
                                            == edges@[x].source && pre_edges[jj].target
                                            == edges@[x].target;
                                    assert(keys_have_id(keys, pre_edges[jj].source));
                                    assert(keys_have_id(keys, pre_edges[jj].target));
                                }
                            }
                            assert(spec_topics_fold(keys, topicsv, src_id, t as int, pre_edges)
                                == spec_topics_fold(keys, topicsv, src_id, t as int + 1, edges@));
                        }
                    } else {
                        proof {
                            assert(spec_topics_fold(keys, topicsv, src_id, t as int, edges@)
                                == spec_topics_fold(keys, topicsv, src_id, t as int + 1, edges@));
                        }
                    }
                } else {
                    proof {
                        assert(spec_topics_fold(keys, topicsv, src_id, t as int, edges@)
                            == spec_topics_fold(keys, topicsv, src_id, t as int + 1, edges@));
                    }
                }
                t = t + 1;
            }
            proof {
                assert(spec_topics_fold(keys, topicsv, src_id, t as int, edges@) == edges@);
            }
        } else {
            proof {
                assert(spec_find_key(keys, spec_strip_md(entries[k3 as int].0), 0)
                    == keys.len() as int);
                assert(spec_edges_fold(keys, entries, k3 as int, edges@) == spec_edges_fold(
                    keys,
                    entries,
                    k3 as int + 1,
                    edges@,
                ));
            }
        }
        k3 = k3 + 1;
    }
    proof {
        assert(spec_edges_fold(keys, entries, entries.len() as int, edges@) == edges@);
        assert(edges@ == spec_build_edges(keys, entries));
    }

    // Fourth pass: initial placement, then assembly.
    let ghost pre_place = nodes@;
    initialize_random_positions(&mut nodes);
    proof {
        assert(node_keys(nodes@) =~= keys) by {
            assert forall|q: int|
                0 <= q < nodes@.len() implies node_keys(nodes@)[q] == keys[q] by {
                assert(nodes@[q] == pre_place[q].with_data_spec(nodes@[q].data));
            }
        }
    }
    let metadata = store.duplicate();
    let g = GraphData { nodes, edges, metadata, id_to_metadata };
    slot.in_progress = false;
    proof {
        assert forall|q: int|
            0 <= q < g.nodes@.len() implies (#[trigger] g.nodes@[q]).id == used@[q]
            && g.nodes@[q].metadata_id@ == validv[q] && g.nodes@[q].data.wf()
            && spec_node_content_ok(g.nodes@[q]@, validv[q], used@[q], entries) by {
            assert(g.nodes@[q] == pre_place[q].with_data_spec(g.nodes@[q].data));
            assert(g.nodes@[q]@.metadata == pre_place[q]@.metadata);
            assert(g.nodes@[q]@.label == pre_place[q]@.label);
            assert(g.nodes@[q]@.size == pre_place[q]@.size);
            assert(g.nodes@[q]@.file_size == pre_place[q]@.file_size);
            assert(g.nodes@[q].data.mass == pre_place[q].data.mass);
            assert(g.nodes@[q].data.flags == pre_place[q].data.flags);
            assert(spec_node_content_ok(pre_place[q]@, validv[q], used@[q], entries));
            assert(g.nodes@[q].data.wf()) by {
                assert(g.nodes@[q].data.position.bounded(crate::fixed::COORD_LIMIT as int));
                assert(pre_place[q].data.wf());
            }
        }
        assert(ids_unique(g.nodes@)) by {
            assert forall|a: int, b: int|
                0 <= a < b < g.nodes@.len() implies g.nodes@[a].id != g.nodes@[b].id by {
                assert(g.nodes@[a].id == used@[a]);
                assert(g.nodes@[b].id == used@[b]);
            }
        }
        assert(nodes_wf(g.nodes@));
        assert(edges_wf(g.edges@, g.nodes@)) by {
            assert forall|x: int| 0 <= x < g.edges@.len() implies {
                &&& (#[trigger] g.edges@[x]).canonical()
                &&& has_node_id(g.nodes@, g.edges@[x].source)
                &&& has_node_id(g.nodes@, g.edges@[x].target)
            } by {
                assert(keys_have_id(keys, g.edges@[x].source));
                let a = choose|a: int| 0 <= a < keys.len() && keys[a].0 == g.edges@[x].source;
                assert(node_keys(g.nodes@)[a].0 == g.nodes@[a].id);
                assert(g.nodes@[a].id == g.edges@[x].source);
                assert(keys_have_id(keys, g.edges@[x].target));
                let b = choose|b: int| 0 <= b < keys.len() && keys[b].0 == g.edges@[x].target;
                assert(node_keys(g.nodes@)[b].0 == g.nodes@[b].id);
                assert(g.nodes@[b].id == g.edges@[x].target);
            }
        }
        assert(g.id_map_wf()) by {
            assert forall|q: int|
                0 <= q < g.nodes@.len() implies (#[trigger] g.id_to_metadata@[q]).0
                == g.nodes@[q].id && g.id_to_metadata@[q].1@ == g.nodes@[q].metadata_id@ by {
                assert(g.id_to_metadata@[q].0 == used@[q]);
                assert(g.id_to_metadata@[q].1@ == validv[q]);
            }
        }
        assert(g.metadata.wf());
        assert(g.edges@ == spec_build_edges(node_keys(g.nodes@), store@));
        assert forall|x: int|
            0 <= x < g.edges@.len() implies (#[trigger] g.edges@[x]).source
            != g.edges@[x].target by {
            assert(g.edges@[x].canonical());
        }
    }
    Ok(g)
}

} // impl GraphService


/// The weight the edge set carries for the canonical pair `(a, b)`; zero
/// when no such edge exists.
pub open spec fn weight_of(edges: Seq<Edge>, a: u32, b: u32) -> int {
    let i = spec_find_pair(edges, a, b, 0);
    if i < edges.len() {
        edges[i].weight as int
    } else {
        0
    }
}

/// Every stored weight respects the weight cap.
pub open spec fn weights_capped(edges: Seq<Edge>) -> bool {
    forall|i: int| 0 <= i < edges.len() ==> (#[trigger] edges[i]).weight <= WEIGHT_CAP
}

/// What one record's counts, from topic index `t` on, contribute to the
/// canonical pair `(a, b)`: each resolving, non-self count whose pair
/// canonicalizes to `(a, b)`, individually capped.
pub open spec fn spec_topics_total(
    keys: Seq<(u32, Seq<char>)>,
    topics: Seq<(Seq<char>, u64)>,
    src: u32,
    a: u32,
    b: u32,
    t: int,
) -> int
    decreases topics.len() - t,
{
    if t < 0 || t >= topics.len() {
        0
    } else {
        let tmid = spec_strip_md(topics[t].0);
        let ti = spec_find_key(keys, tmid, 0);
        let here = if ti < keys.len() && keys[ti].0 != src && canonical_pair(src, keys[ti].0) == (
        a,
        b,
        ) {
            clamp_spec(topics[t].1 as int, 0, WEIGHT_CAP as int)
        } else {
            0
        };
        here + spec_topics_total(keys, topics, src, a, b, t + 1)
    }
}

/// What the whole store, from entry `k` on, contributes to the canonical
/// pair `(a, b)` across both orientations.
pub open spec fn spec_pair_total(
    keys: Seq<(u32, Seq<char>)>,
    entries: Seq<(Seq<char>, FileMetadataView)>,
    a: u32,
    b: u32,
    k: int,
) -> int
    decreases entries.len() - k,
{
    if k < 0 || k >= entries.len() {
        0
    } else {
        let smid = spec_strip_md(entries[k].0);
        let si = spec_find_key(keys, smid, 0);
        let here = if si < keys.len() {
            spec_topics_total(keys, entries[k].1.topic_counts, keys[si].0, a, b, 0)
        } else {
            0
        };
        here + spec_pair_total(keys, entries, a, b, k + 1)
    }
}

/// A pair-preserving update does not move the pair search.
proof fn lemma_find_pair_update(edges: Seq<Edge>, i: int, e2: Edge, a: u32, b: u32, from: int)
    requires
        0 <= i < edges.len(),
        e2.source == edges[i].source,
        e2.target == edges[i].target,
    ensures
        spec_find_pair(edges.update(i, e2), a, b, from) == spec_find_pair(edges, a, b, from),
    decreases edges.len() - from,
{
    if 0 <= from < edges.len() {
        lemma_find_pair_update(edges, i, e2, a, b, from + 1);
    }
}

/// Pushing an edge leaves earlier matches where they were; when no match
/// existed, the search lands on the new edge exactly when it matches.
proof fn lemma_find_pair_push(edges: Seq<Edge>, e2: Edge, a: u32, b: u32, from: int)
    requires
        0 <= from <= edges.len(),
    ensures
        spec_find_pair(edges, a, b, from) < edges.len() ==> spec_find_pair(
            edges.push(e2),
            a,
            b,
            from,
        ) == spec_find_pair(edges, a, b, from),
        spec_find_pair(edges, a, b, from) == edges.len() ==> spec_find_pair(
            edges.push(e2),
            a,
            b,
            from,
        ) == if e2.source == a && e2.target == b {
            edges.len() as int
        } else {
            (edges.len() + 1) as int
        },
    decreases edges.len() + 1 - from,
{
    let p = edges.push(e2);
    if from < edges.len() {
        assert(p[from] == edges[from]);
        lemma_find_pair_push(edges, e2, a, b, from + 1);
    } else {
        assert(p[from] == e2);
        if e2.source == a && e2.target == b {
            assert(spec_find_pair(p, a, b, from) == from);
        } else {
            assert(spec_find_pair(p, a, b, from) == spec_find_pair(p, a, b, from + 1));
            assert(spec_find_pair(p, a, b, from + 1) == p.len());
        }
    }
}

/// How one aggregation step changes a pair's weight: the canonical target
/// pair gains the capped count (saturating), every other pair is
/// untouched; the cap is preserved.
proof fn lemma_upsert_weight(edges: Seq<Edge>, x: u32, y: u32, w: u64, a: u32, b: u32)
    requires
        weights_capped(edges),
    ensures
        weights_capped(spec_edge_upsert(edges, x, y, w)),
        weight_of(spec_edge_upsert(edges, x, y, w), a, b) == if x == a && y == b {
            clamp_spec(
                weight_of(edges, a, b) + clamp_spec(w as int, 0, WEIGHT_CAP as int),
                0,
                WEIGHT_CAP as int,
            )
        } else {
            weight_of(edges, a, b)
        },
        0 <= weight_of(edges, a, b) <= WEIGHT_CAP,
{
    let weff = clamp_spec(w as int, 0, WEIGHT_CAP as int);
    let i = spec_find_pair(edges, x, y, 0);
    let up = spec_edge_upsert(edges, x, y, w);
    lemma_find_pair_bracket(edges, x, y, 0);
    lemma_find_pair_bracket(edges, a, b, 0);
    if weight_of(edges, a, b) != 0 {
        assert(edges[spec_find_pair(edges, a, b, 0)].weight <= WEIGHT_CAP);
    }
    if i < edges.len() {
        let e2 = Edge {
            source: x,
            target: y,
            weight: clamp_spec(edges[i].weight + weff, 0, WEIGHT_CAP as int) as u64,
        };
        assert(up =~= edges.update(i, e2));
        assert(edges[i].source == x && edges[i].target == y);
        lemma_find_pair_update(edges, i, e2, a, b, 0);
        assert(weights_capped(up)) by {
            assert forall|q: int| 0 <= q < up.len() implies (#[trigger] up[q]).weight
                <= WEIGHT_CAP by {
                if q != i {
                    assert(up[q] == edges[q]);
                }
            }
        }
        if x == a && y == b {
            assert(spec_find_pair(edges, a, b, 0) == i);
        }
    } else {
        assert(up =~= edges.push(Edge { source: x, target: y, weight: weff as u64 }));
        lemma_find_pair_push(
            edges,
            Edge { source: x, target: y, weight: weff as u64 },
            a,
            b,
            0,
        );
        assert(weights_capped(up)) by {
            assert forall|q: int| 0 <= q < up.len() implies (#[trigger] up[q]).weight
                <= WEIGHT_CAP by {
                if q < edges.len() {
                    assert(up[q] == edges[q]);
                }
            }
        }
        if x == a && y == b {
            assert(spec_find_pair(edges, a, b, 0) == edges.len());
            assert(weight_of(edges, a, b) == 0);
        }
    }
}

/// The pair search never lands beyond the length and lands on a match.
proof fn lemma_find_pair_bracket(edges: Seq<Edge>, a: u32, b: u32, from: int)
    requires
        0 <= from,
    ensures
        from <= spec_find_pair(edges, a, b, from) <= edges.len() || spec_find_pair(
            edges,
            a,
            b,
            from,
        ) == edges.len(),
        spec_find_pair(edges, a, b, from) < edges.len() ==> {
            let i = spec_find_pair(edges, a, b, from);
            edges[i].source == a && edges[i].target == b
        },
    decreases edges.len() - from,
{
    if 0 <= from < edges.len() {
        lemma_find_pair_bracket(edges, a, b, from + 1);
    }
}

/// Folding one record's counts adds exactly its contribution for the pair,
/// saturating at the cap.
proof fn lemma_topics_fold_weight(
    keys: Seq<(u32, Seq<char>)>,
    topics: Seq<(Seq<char>, u64)>,
    src: u32,
    t: int,
    edges: Seq<Edge>,
    a: u32,
    b: u32,
)
    requires
        a < b,
        weights_capped(edges),
    ensures
        weights_capped(spec_topics_fold(keys, topics, src, t, edges)),
        spec_topics_total(keys, topics, src, a, b, t) >= 0,
        weight_of(spec_topics_fold(keys, topics, src, t, edges), a, b) == clamp_spec(
            weight_of(edges, a, b) + spec_topics_total(keys, topics, src, a, b, t),
            0,
            WEIGHT_CAP as int,
        ),
    decreases topics.len() - t,
{
    lemma_upsert_weight(edges, a, b, 0, a, b);
    if t < 0 || t >= topics.len() {
        assert(clamp_spec(weight_of(edges, a, b) + 0, 0, WEIGHT_CAP as int) == weight_of(
            edges,
            a,
            b,
        ));
    } else {
        let tmid = spec_strip_md(topics[t].0);
        let ti = spec_find_key(keys, tmid, 0);
        if ti < keys.len() && keys[ti].0 != src {
            let pr = canonical_pair(src, keys[ti].0);
            let edges2 = spec_edge_upsert(edges, pr.0, pr.1, topics[t].1);
            lemma_upsert_weight(edges, pr.0, pr.1, topics[t].1, a, b);
            lemma_topics_fold_weight(keys, topics, src, t + 1, edges2, a, b);
        } else {
            lemma_topics_fold_weight(keys, topics, src, t + 1, edges, a, b);
        }
    }
}

/// Folding the whole store yields, for every canonical pair, the capped
/// sum of that pair's contributions across all records and orientations.
proof fn lemma_entries_fold_weight(
    keys: Seq<(u32, Seq<char>)>,
    entries: Seq<(Seq<char>, FileMetadataView)>,
    k: int,
    edges: Seq<Edge>,
    a: u32,
    b: u32,
)
    requires
        a < b,
        weights_capped(edges),
    ensures
        weights_capped(spec_edges_fold(keys, entries, k, edges)),
        spec_pair_total(keys, entries, a, b, k) >= 0,
        weight_of(spec_edges_fold(keys, entries, k, edges), a, b) == clamp_spec(
            weight_of(edges, a, b) + spec_pair_total(keys, entries, a, b, k),
            0,
            WEIGHT_CAP as int,
        ),
    decreases entries.len() - k,
{
    lemma_upsert_weight(edges, a, b, 0, a, b);
    if k < 0 || k >= entries.len() {
    } else {
        let smid = spec_strip_md(entries[k].0);
        let si = spec_find_key(keys, smid, 0);
        if si < keys.len() {
            let edges2 = spec_topics_fold(keys, entries[k].1.topic_counts, keys[si].0, 0, edges);
            lemma_topics_fold_weight(keys, entries[k].1.topic_counts, keys[si].0, 0, edges, a, b);
            lemma_entries_fold_weight(keys, entries, k + 1, edges2, a, b);
        } else {
            lemma_entries_fold_weight(keys, entries, k + 1, edges, a, b);
        }
    }
}

/// Edge canonicalization, in full: for any two distinct node ids, the
/// built edge set carries the pair's co-occurrence counts from both
/// orientations and all records summed into the weight of the single
/// canonical edge `(min, max)`, saturating at the weight cap; a pair with
/// no contributions has no edge.
pub proof fn lemma_edge_weight_totals(
    keys: Seq<(u32, Seq<char>)>,
    entries: Seq<(Seq<char>, FileMetadataView)>,
    a: u32,
    b: u32,
)
    requires
        a < b,
    ensures
        weight_of(spec_build_edges(keys, entries), a, b) == clamp_spec(
            spec_pair_total(keys, entries, a, b, 0),
            0,
            WEIGHT_CAP as int,
        ),
{
    let empty = Seq::<Edge>::empty();
    assert(weights_capped(empty));
    assert(spec_find_pair(empty, a, b, 0) == 0);
    assert(weight_of(empty, a, b) == 0);
    lemma_entries_fold_weight(keys, entries, 0, empty, a, b);
}

} // verus!
