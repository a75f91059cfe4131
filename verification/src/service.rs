//! The graph simulation service.
//!
//! One `GraphService` owns the graph, its id-indexed mirror, the position
//! cache, the update rate limiter and the captured physics parameters for
//! one simulation instance.  Construction registers the instance as the
//! globally active one (superseding any previous instance); the
//! surrounding process drives the loop, supplies timestamps and performs
//! the accelerator and transport work.

use vstd::prelude::*;
use crate::cache::{cache_fresh, spec_cache_read_result, PositionCache, RateLimiter};
use crate::edge::Edge;
use crate::errors::EngineError;
use crate::fixed::clamp_spec;
use crate::graph::{has_node_id, GraphData};
use crate::lifecycle::{accepts_shutdown, active_view, InstanceFlags, LifecycleRegistry};
use crate::node::{nodes_view, Node, NodeData, Vec3};
use crate::node_map::NodeMap;
use crate::params::SimulationParams;
use crate::physics::spec_find_id;
use crate::rng::random_simulation_id;

verus! {

/// The id-indexed map mirrors the node sequence: same size, and every
/// node is stored under its id with the same mathematical value.
pub open spec fn synced(nodes: Seq<Node>, m: NodeMap) -> bool {
    &&& m.entries@.len() == nodes.len()
    &&& forall|i: int|
        0 <= i < nodes.len() ==> match m.spec_get((#[trigger] nodes[i]).id) {
            Some(n) => n@ == nodes[i]@,
            None => false,
        }
}

/// The merge an accepted external update performs on a node's state: the
/// submitted position and velocity (clamped into the engine bounds), the
/// existing mass and flags.
pub open spec fn spec_merge_update(existing: NodeData, update: NodeData) -> NodeData {
    NodeData {
        position: update.clamped_spec().position,
        velocity: update.clamped_spec().velocity,
        mass: existing.mass,
        flags: existing.flags,
    }
}

/// An accepted update of in-bounds data takes the submitted position and
/// velocity verbatim: the clamping that protects the engine's coordinate
/// bounds is the identity on well-formed state, while mass and flags stay
/// with the existing node.
pub proof fn lemma_merge_takes_update(existing: NodeData, update: NodeData)
    requires
        update.wf(),
    ensures
        spec_merge_update(existing, update).position == update.position,
        spec_merge_update(existing, update).velocity == update.velocity,
        spec_merge_update(existing, update).mass == existing.mass,
        spec_merge_update(existing, update).flags == existing.flags,
{
    assert(update.clamped_spec().position == update.position);
    assert(update.clamped_spec().velocity == update.velocity);
}

/// One page of the graph.
pub struct PaginatedGraphData {
    pub nodes: Vec<Node>,
    pub edges: Vec<Edge>,
    pub total_nodes: usize,
    pub total_edges: usize,
    pub total_pages: u32,
    pub current_page: u32,
}

/// Edges that touch the given page of nodes, in order.
pub open spec fn spec_page_edges(edges: Seq<Edge>, page: Seq<Node>, e: int) -> Seq<Edge>
    decreases edges.len() - e,
{
    if e < 0 || e >= edges.len() {
        Seq::<Edge>::empty()
    } else {
        let rest = spec_page_edges(edges, page, e + 1);
        if has_node_id(page, edges[e].source) || has_node_id(page, edges[e].target) {
            seq![edges[e]] + rest
        } else {
            rest
        }
    }
}

/// A non-blocking, best-effort snapshot of the lifecycle state.
pub struct SimulationDiagnostics {
    pub instance_id: String,
    pub registry_available: bool,
    pub active_id: Option<String>,
    pub is_active: bool,
    pub loop_running: bool,
    pub shutdown_requested: bool,
    pub has_accelerator: bool,
}

/// The simulation service for one instance.
pub struct GraphService {
    pub graph: GraphData,
    pub node_map: NodeMap,
    pub cache: PositionCache,
    pub limiter: RateLimiter,
    pub params: SimulationParams,
    pub simulation_id: String,
    pub flags: InstanceFlags,
    pub accelerator_present: bool,
}

impl GraphService {
    /// The service invariant: a well-formed graph, a well-formed mirror in
    /// sync with it, and well-formed parameters.
    pub open spec fn wf(self) -> bool {
        &&& self.graph.wf()
        &&& self.node_map.wf()
        &&& self.params.wf()
        &&& synced(self.graph.nodes@, self.node_map)
    }

    /// Constructs a new instance: draws a fresh random id, records it as
    /// the globally active one (superseding any previous instance, with
    /// the conflict reported), and starts from an empty graph with caching
    /// enabled.  The caller launches the loop.
    pub fn new(
        params: SimulationParams,
        accelerator_present: bool,
        now_ms: u64,
        registry: &mut LifecycleRegistry,
    ) -> (r: (GraphService, bool))
        requires
            params.wf(),
        ensures
            r.1 == old(registry).loop_running,
            final(registry).loop_running,
            active_view(*final(registry)) == Some(r.0.simulation_id@),
            r.0.simulation_id@.len() == 8,
            r.0.wf(),
            r.0.graph.nodes@.len() == 0,
            r.0.graph.edges@.len() == 0,
            r.0.cache.enabled && r.0.cache.entry is None,
            r.0.limiter.last_update_ms == now_ms,
            r.0.params == params,
            !r.0.flags.shutdown_requested && !r.0.flags.shutdown_complete,
            r.0.accelerator_present == accelerator_present,
    {
        let id = random_simulation_id();
        let was_running = registry.try_activate(&id);
        let svc = GraphService {
            graph: GraphData::new(),
            node_map: NodeMap::new(),
            cache: PositionCache::new(true),
            limiter: RateLimiter::new(now_ms),
            params,
            simulation_id: id,
            flags: InstanceFlags::new(),
            accelerator_present,
        };
        (svc, was_running)
    }

    /// Replaces the graph wholesale (a rebuild is never a partial patch):
    /// installs the new graph, rebuilds the id-indexed mirror, and drops
    /// any cached snapshot.
    pub fn set_graph(&mut self, g: GraphData)
        requires
            g.wf(),
            old(self).params.wf(),
        ensures
            final(self).graph == g,
            final(self).wf(),
            final(self).cache.entry is None,
            final(self).cache.enabled == old(self).cache.enabled,
            final(self).limiter == old(self).limiter,
            final(self).params == old(self).params,
            final(self).simulation_id == old(self).simulation_id,
            final(self).flags == old(self).flags,
            final(self).accelerator_present == old(self).accelerator_present,
    {
        self.graph = g;
        self.node_map = NodeMap::new();
        let ghost snap = self.graph;
        let mut i: usize = 0;
        while i < self.graph.nodes.len()
            invariant
                i <= self.graph.nodes@.len(),
                self.graph == snap,
                snap.wf(),
                self.cache == old(self).cache,
                self.limiter == old(self).limiter,
                self.params == old(self).params,
                self.simulation_id == old(self).simulation_id,
                self.flags == old(self).flags,
                self.accelerator_present == old(self).accelerator_present,
                old(self).params.wf(),
                self.node_map.wf(),
                self.node_map.entries@.len() == i,
                forall|q: int|
                    0 <= q < i ==> match self.node_map.spec_get(
                        (#[trigger] snap.nodes@[q]).id,
                    ) {
                        Some(n) => n@ == snap.nodes@[q]@,
                        None => false,
                    },
                forall|k: u32|
                    (forall|q: int| 0 <= q < i ==> (#[trigger] snap.nodes@[q]).id != k)
                        ==> self.node_map.spec_get(k) is None,
            decreases self.graph.nodes@.len() - i,
        {
            let n = self.graph.nodes[i].duplicate();
            proof {
                assert(self.node_map.spec_get(n.id) is None) by {
                    assert(forall|q: int|
                        0 <= q < i ==> (#[trigger] snap.nodes@[q]).id != snap.nodes@[i as int].id);
                }
            }
            self.node_map.upsert(n);
            proof {
                assert forall|k: u32|
                    (forall|q: int| 0 <= q < i + 1 ==> (#[trigger] snap.nodes@[q]).id != k)
                        implies self.node_map.spec_get(k) is None by {
                    assert(snap.nodes@[i as int].id != k);
                }
            }
            i = i + 1;
        }
        self.cache.invalidate();
    }

    /// Serves a position read through the cache: inside the TTL the cached
    /// snapshot comes back bit for bit; otherwise the live nodes are
    /// returned and captured.
    pub fn get_node_positions(&mut self, now_ms: u64) -> (r: Vec<Node>)
        ensures
            nodes_view(r@) == spec_cache_read_result(
                old(self).cache,
                nodes_view(old(self).graph.nodes@),
                now_ms,
            ),
            final(self).graph == old(self).graph,
            final(self).node_map == old(self).node_map,
            final(self).limiter == old(self).limiter,
            final(self).params == old(self).params,
            final(self).simulation_id == old(self).simulation_id,
            final(self).flags == old(self).flags,
            final(self).accelerator_present == old(self).accelerator_present,
            final(self).cache.enabled == old(self).cache.enabled,
            cache_fresh(old(self).cache, now_ms) ==> final(self).cache == old(self).cache,
            !cache_fresh(old(self).cache, now_ms) && old(self).cache.enabled ==> match final(self).cache.entry {
                Some(e) => nodes_view(e.0@) == nodes_view(old(self).graph.nodes@) && e.1 == now_ms,
                None => false,
            },
            !old(self).cache.enabled ==> final(self).cache.entry == old(self).cache.entry,
    {
        self.cache.read(&self.graph.nodes, now_ms)
    }

    /// Drops the cached snapshot so the next read reflects the live state.
    pub fn clear_position_cache(&mut self)
        ensures
            final(self).cache.entry is None,
            final(self).cache.enabled == old(self).cache.enabled,
            final(self).graph == old(self).graph,
            final(self).node_map == old(self).node_map,
            final(self).limiter == old(self).limiter,
            final(self).params == old(self).params,
            final(self).simulation_id == old(self).simulation_id,
            final(self).flags == old(self).flags,
            final(self).accelerator_present == old(self).accelerator_present,
    {
        self.cache.invalidate();
    }

    /// Applies one batch of externally submitted node updates under the
    /// rate limit.
    ///
    /// The whole batch shares one arrival instant, so at most its first
    /// update is admitted: if the minimum interval has passed, the first
    /// update's position and velocity are merged (clamped) into the node
    /// carrying that id — mass, flags and descriptive fields are kept —
    /// and the acceptance advances the limiter; everything else in the
    /// batch falls inside the interval and is dropped, leaving the graph
    /// untouched.
    pub fn update_node_positions(&mut self, updates: &Vec<(u32, Node)>, now_ms: u64) -> (r: Result<
        (),
        EngineError,
    >)
        requires
            old(self).wf(),
        ensures
            r is Ok,
            final(self).wf(),
            final(self).cache == old(self).cache,
            final(self).params == old(self).params,
            final(self).simulation_id == old(self).simulation_id,
            final(self).flags == old(self).flags,
            final(self).accelerator_present == old(self).accelerator_present,
            final(self).graph.edges == old(self).graph.edges,
            final(self).graph.metadata == old(self).graph.metadata,
            final(self).graph.id_to_metadata == old(self).graph.id_to_metadata,
            !(old(self).limiter.accepts(now_ms) && updates@.len() > 0) ==> final(self).graph == old(self).graph && final(self).node_map == old(self).node_map && final(self).limiter == old(self).limiter,
            old(self).limiter.accepts(now_ms) && updates@.len() > 0 ==> {
                &&& final(self).limiter.last_update_ms == now_ms
                &&& {
                    let uid = updates@[0].0;
                    let un = updates@[0].1;
                    let gi = spec_find_id(old(self).graph.nodes@, uid, 0);
                    if gi < old(self).graph.nodes@.len() {
                        &&& final(self).graph.nodes@ == old(self).graph.nodes@.update(
                            gi,
                            old(self).graph.nodes@[gi].with_data_spec(
                                spec_merge_update(old(self).graph.nodes@[gi].data, un.data),
                            ),
                        )
                        &&& forall|k: u32| #![auto]
                            final(self).node_map.spec_get(k) == if k == uid && old(
                                self,
                            ).node_map.contains_id(uid) {
                                Some(
                                    old(self).node_map.spec_get(uid)->Some_0.with_data_spec(
                                        spec_merge_update(
                                            old(self).graph.nodes@[gi].data,
                                            un.data,
                                        ),
                                    ),
                                )
                            } else {
                                old(self).node_map.spec_get(k)
                            }
                    } else {
                        final(self).graph == old(self).graph && final(self).node_map == old(self).node_map
                    }
                }
            },
    {
        let ghost pre = *self;
        if updates.len() == 0 {
            return Ok(());
        }
        let accepted = self.limiter.try_accept(now_ms);
        if !accepted {
            return Ok(());
        }
        let uid = updates[0].0;
        let gi = crate::physics::find_node_index(&self.graph.nodes, uid);
        if gi == self.graph.nodes.len() {
            return Ok(());
        }
        let existing = self.graph.nodes[gi].data;
        let merged = NodeData {
            position: updates[0].1.data.clamped().position,
            velocity: updates[0].1.data.clamped().velocity,
            mass: existing.mass,
            flags: existing.flags,
        };
        proof {
            assert(merged == spec_merge_update(existing, updates@[0].1.data));
            assert(merged.wf()) by {
                assert(pre.graph.wf());
                assert(crate::graph::nodes_wf(pre.graph.nodes@));
                assert(pre.graph.nodes@[gi as int].data.wf());
            }
        }
        let mut tmp = Node {
            id: 0,
            metadata_id: String::new(),
            label: String::new(),
            data: NodeData::at_rest(),
            metadata: Vec::new(),
            file_size: 0,
            size: None,
        };
        self.graph.nodes.set_and_swap(gi, &mut tmp);
        tmp.data = merged;
        self.graph.nodes.set_and_swap(gi, &mut tmp);
        let _found = self.node_map.update_data(uid, merged);
        proof {
            let ghost znodes = pre.graph.nodes@;
            assert(self.graph.nodes@ =~= znodes.update(
                gi as int,
                znodes[gi as int].with_data_spec(merged),
            ));
            assert(final(self).wf()) by {
                assert(crate::node_map::ids_unique(self.graph.nodes@)) by {
                    assert forall|a: int, b: int|
                        0 <= a < b < self.graph.nodes@.len() implies self.graph.nodes@[a].id
                        != self.graph.nodes@[b].id by {
                        assert(self.graph.nodes@[a].id == znodes[a].id);
                        assert(self.graph.nodes@[b].id == znodes[b].id);
                    }
                }
                assert(crate::graph::nodes_wf(self.graph.nodes@)) by {
                    assert forall|q: int|
                        0 <= q < self.graph.nodes@.len() implies (
                    #[trigger] self.graph.nodes@[q].data).wf() by {
                        if q == gi as int {
                            assert(self.graph.nodes@[q].data == merged);
                        } else {
                            assert(self.graph.nodes@[q] == znodes[q]);
                            assert(crate::graph::nodes_wf(znodes));
                        }
                    }
                }
                assert(crate::graph::edges_wf(self.graph.edges@, self.graph.nodes@)) by {
                    assert forall|q: int| 0 <= q < self.graph.edges@.len() implies {
                        &&& (#[trigger] self.graph.edges@[q]).canonical()
                        &&& has_node_id(self.graph.nodes@, self.graph.edges@[q].source)
                        &&& has_node_id(self.graph.nodes@, self.graph.edges@[q].target)
                    } by {
                        assert(crate::graph::edges_wf(pre.graph.edges@, znodes));
                        let s = self.graph.edges@[q].source;
                        let t = self.graph.edges@[q].target;
                        assert(has_node_id(znodes, s));
                        let a = choose|a: int| 0 <= a < znodes.len() && znodes[a].id == s;
                        assert(self.graph.nodes@[a].id == s);
                        assert(has_node_id(znodes, t));
                        let b = choose|b: int| 0 <= b < znodes.len() && znodes[b].id == t;
                        assert(self.graph.nodes@[b].id == t);
                    }
                }
                assert(self.graph.id_map_wf()) by {
                    assert forall|q: int|
                        0 <= q < self.graph.nodes@.len() implies (
                    #[trigger] self.graph.id_to_metadata@[q]).0 == self.graph.nodes@[q].id
                        && self.graph.id_to_metadata@[q].1@ == self.graph.nodes@[q].metadata_id@ by {
                        assert(pre.graph.id_map_wf());
                        assert(self.graph.nodes@[q].id == znodes[q].id);
                        assert(self.graph.nodes@[q].metadata_id == znodes[q].metadata_id);
                    }
                }
                assert(synced(self.graph.nodes@, self.node_map)) by {
                    assert(znodes[gi as int].id == uid);
                    assert(pre.node_map.spec_get(uid) is Some) by {
                        assert(synced(znodes, pre.node_map));
                        assert(match pre.node_map.spec_get(znodes[gi as int].id) {
                            Some(n) => n@ == znodes[gi as int]@,
                            None => false,
                        });
                    }
                    assert forall|i: int|
                        0 <= i < self.graph.nodes@.len() implies match self.node_map.spec_get(
                        (#[trigger] self.graph.nodes@[i]).id,
                    ) {
                        Some(n) => n@ == self.graph.nodes@[i]@,
                        None => false,
                    } by {
                        assert(synced(znodes, pre.node_map));
                        assert(match pre.node_map.spec_get(znodes[i].id) {
                            Some(n) => n@ == znodes[i]@,
                            None => false,
                        });
                        if i == gi as int {
                            assert(self.node_map.spec_get(uid) == Some(
                                pre.node_map.spec_get(uid)->Some_0.with_data_spec(merged),
                            ));
                        } else {
                            assert(znodes[i].id != uid);
                            assert(self.graph.nodes@[i] == znodes[i]);
                        }
                    }
                }
            }
        }
        Ok(())
    }

    /// One page of nodes together with every edge touching the page, plus
    /// the graph's totals.
    pub fn get_paginated_graph_data(&self, page: u32, page_size: u32) -> (r: PaginatedGraphData)
        requires
            page_size >= 1,
        ensures
            r.total_nodes == self.graph.nodes@.len(),
            r.total_edges == self.graph.edges@.len(),
            r.current_page == page,
            r.total_pages as int == clamp_spec(
                (self.graph.nodes@.len() + page_size - 1) as int / page_size as int,
                0,
                u32::MAX as int,
            ),
            ({
                let total = self.graph.nodes@.len() as int;
                let start = if (page as int) * (page_size as int) <= total {
                    (page as int) * (page_size as int)
                } else {
                    total
                };
                let end = if start + page_size <= total {
                    start + page_size
                } else {
                    total
                };
                &&& nodes_view(r.nodes@) == nodes_view(self.graph.nodes@.subrange(start, end))
                &&& r.edges@ == spec_page_edges(
                    self.graph.edges@,
                    self.graph.nodes@.subrange(start, end),
                    0,
                )
            }),
    {
        let total: usize = self.graph.nodes.len();
        proof {
            assert((page as int) * (page_size as int) <= 0xffff_ffff_ffff_ffff_ffffint) by (
            nonlinear_arith)
                requires
                    page <= u32::MAX,
                    page_size <= u32::MAX,
            ;
            assert((page as int) * (page_size as int) >= 0) by (nonlinear_arith)
                requires
                    page >= 0,
                    page_size >= 0,
            ;
        }
        let wide_start: u128 = (page as u128) * (page_size as u128);
        let start: usize = if wide_start <= total as u128 {
            wide_start as usize
        } else {
            total
        };
        let end: usize = if (start as u128) + (page_size as u128) <= total as u128 {
            start + (page_size as usize)
        } else {
            total
        };
        let ghost gstart = start as int;
        let ghost gend = end as int;
        let ghost page_seq = self.graph.nodes@.subrange(gstart, gend);

        let mut page_nodes: Vec<Node> = Vec::new();
        let mut i: usize = start;
        while i < end
            invariant
                gstart <= i as int <= gend,
                gend <= self.graph.nodes@.len(),
                page_seq == self.graph.nodes@.subrange(gstart, gend),
                page_nodes@.len() == i - start,
                gstart == start as int,
                gend == end as int,
                forall|j: int|
                    0 <= j < page_nodes@.len() ==> (#[trigger] page_nodes@[j])@ == page_seq[j]@
                        && page_nodes@[j].id == page_seq[j].id,
            decreases gend - i,
        {
            let n = self.graph.nodes[i].duplicate();
            page_nodes.push(n);
            i = i + 1;
        }
        proof {
            assert(nodes_view(page_nodes@) =~= nodes_view(page_seq));
        }

        let mut page_edges: Vec<Edge> = Vec::new();
        let m = self.graph.edges.len();
        let mut e: usize = m;
        while e > 0
            invariant
                e <= m,
                m == self.graph.edges@.len(),
                page_seq == self.graph.nodes@.subrange(gstart, gend),
                gstart == start as int,
                gend <= self.graph.nodes@.len(),
                gend >= gstart,
                page_nodes@.len() == gend - gstart,
                forall|j: int|
                    0 <= j < page_nodes@.len() ==> (#[trigger] page_nodes@[j]).id
                        == page_seq[j].id,
                page_edges@ == spec_page_edges(self.graph.edges@, page_seq, e as int),
            decreases e,
        {
            e = e - 1;
            let edge = self.graph.edges[e];
            let ghost pre_edges = page_edges@;
            let touches_s = page_has_id(&page_nodes, edge.source);
            let touches_t = page_has_id(&page_nodes, edge.target);
            proof {
                assert(has_node_id(page_seq, edge.source) == touches_s && has_node_id(
                    page_seq,
                    edge.target,
                ) == touches_t) by {
                    if touches_s {
                        let j = choose|j: int|
                            0 <= j < page_nodes@.len() && page_nodes@[j].id == edge.source;
                        assert(page_seq[j].id == edge.source);
                    } else {
                        if has_node_id(page_seq, edge.source) {
                            let j = choose|j: int|
                                0 <= j < page_seq.len() && page_seq[j].id == edge.source;
                            assert(page_nodes@[j].id == edge.source);
                        }
                    }
                    if touches_t {
                        let j = choose|j: int|
                            0 <= j < page_nodes@.len() && page_nodes@[j].id == edge.target;
                        assert(page_seq[j].id == edge.target);
                    } else {
                        if has_node_id(page_seq, edge.target) {
                            let j = choose|j: int|
                                0 <= j < page_seq.len() && page_seq[j].id == edge.target;
                            assert(page_nodes@[j].id == edge.target);
                        }
                    }
                }
            }
            if touches_s || touches_t {
                page_edges.insert(0, edge);
                proof {
                    assert(page_edges@ =~= seq![edge] + pre_edges);
                }
            }
        }
        let total_edges = self.graph.edges.len();
        let wide_pages: u128 = ((total as u128) + (page_size as u128) - 1) / (page_size as u128);
        let total_pages: u32 = if wide_pages > u32::MAX as u128 {
            u32::MAX
        } else {
            wide_pages as u32
        };
        PaginatedGraphData {
            nodes: page_nodes,
            edges: page_edges,
            total_nodes: total,
            total_edges,
            total_pages,
            current_page: page,
        }
    }

    /// Whether this instance holds an accelerator capability.  The
    /// capability itself lives outside the engine; the engine only tracks
    /// its presence for the loop's path decision.
    pub fn get_gpu_compute(&self) -> (r: bool)
        ensures
            r == self.accelerator_present,
    {
        self.accelerator_present
    }

    /// A mutable borrow of the primary graph state.
    pub fn get_graph_data_mut(&mut self) -> (r: &mut GraphData)
        ensures
            *r == old(self).graph,
            final(self).graph == *final(r),
            final(self).node_map == old(self).node_map,
            final(self).cache == old(self).cache,
            final(self).limiter == old(self).limiter,
            final(self).params == old(self).params,
            final(self).simulation_id == old(self).simulation_id,
            final(self).flags == old(self).flags,
            final(self).accelerator_present == old(self).accelerator_present,
    {
        &mut self.graph
    }

    /// A mutable borrow of the id-indexed node map.
    pub fn get_node_map_mut(&mut self) -> (r: &mut NodeMap)
        ensures
            *r == old(self).node_map,
            final(self).node_map == *final(r),
            final(self).graph == old(self).graph,
            final(self).cache == old(self).cache,
            final(self).limiter == old(self).limiter,
            final(self).params == old(self).params,
            final(self).simulation_id == old(self).simulation_id,
            final(self).flags == old(self).flags,
            final(self).accelerator_present == old(self).accelerator_present,
    {
        &mut self.node_map
    }

    /// The shutdown protocol's decision half: refused (and logged by the
    /// caller) when this instance is superseded, accepted when it is the
    /// active one; the caller then polls for confirmation.
    pub fn shutdown(&mut self, registry: &LifecycleRegistry) -> (r: Result<(), EngineError>)
        ensures
            (r is Err) <==> !accepts_shutdown(*registry, old(self).simulation_id@),
            r matches Err(e) ==> e == EngineError::LifecycleConflict && *final(self) == *old(self),
            r is Ok ==> final(self).flags.shutdown_requested && !final(self).flags.shutdown_complete,
            final(self).graph == old(self).graph,
            final(self).node_map == old(self).node_map,
            final(self).cache == old(self).cache,
            final(self).limiter == old(self).limiter,
            final(self).params == old(self).params,
            final(self).simulation_id == old(self).simulation_id,
            final(self).accelerator_present == old(self).accelerator_present,
    {
        crate::lifecycle::request_shutdown(registry, &self.simulation_id, &mut self.flags)
    }

    /// A non-blocking diagnostics snapshot; an unavailable registry is
    /// reported as such rather than waited for.
    pub fn get_simulation_diagnostics(&self, registry: Option<&LifecycleRegistry>) -> (r:
        SimulationDiagnostics)
        ensures
            r.instance_id@ == self.simulation_id@,
            r.registry_available == (registry is Some),
            match registry {
                Some(reg) => {
                    &&& match r.active_id {
                        Some(ref a) => active_view(*reg) == Some(a@),
                        None => active_view(*reg) is None,
                    }
                    &&& r.is_active == accepts_shutdown(*reg, self.simulation_id@)
                    &&& r.loop_running == reg.loop_running
                },
                None => {
                    &&& r.active_id is None
                    &&& !r.is_active
                    &&& !r.loop_running
                },
            },
            r.shutdown_requested == self.flags.shutdown_requested,
            r.has_accelerator == self.accelerator_present,
    {
        match registry {
            Some(reg) => {
                let active_id = match &reg.active_id {
                    Some(a) => Some(a.clone()),
                    None => None,
                };
                let is_active = reg.is_active(&self.simulation_id);
                SimulationDiagnostics {
                    instance_id: self.simulation_id.clone(),
                    registry_available: true,
                    active_id,
                    is_active,
                    loop_running: reg.loop_running,
                    shutdown_requested: self.flags.shutdown_requested,
                    has_accelerator: self.accelerator_present,
                }
            },
            None => {
                SimulationDiagnostics {
                    instance_id: self.simulation_id.clone(),
                    registry_available: false,
                    active_id: None,
                    is_active: false,
                    loop_running: false,
                    shutdown_requested: self.flags.shutdown_requested,
                    has_accelerator: self.accelerator_present,
                }
            },
        }
    }

    /// One iteration of the loop's processor path: a full physics tick
    /// followed by the unconditional cache invalidation.
    pub fn run_processor_tick(&mut self) -> (r: Result<(), EngineError>)
        requires
            old(self).wf(),
        ensures
            r is Ok,
            final(self).wf(),
            final(self).cache.entry is None,
            final(self).graph.nodes@.len() == old(self).graph.nodes@.len(),
            forall|i: int|
                0 <= i < old(self).graph.nodes@.len() ==> final(self).graph.nodes@[i] == old(self).graph.nodes@[i].with_data_spec(
                    crate::physics::spec_cpu_tick_node(
                        old(self).graph.nodes@,
                        old(self).graph.edges@,
                        old(self).params,
                        i,
                    ),
                ),
            final(self).graph.edges == old(self).graph.edges,
            final(self).limiter == old(self).limiter,
            final(self).params == old(self).params,
            final(self).simulation_id == old(self).simulation_id,
            final(self).flags == old(self).flags,
            final(self).accelerator_present == old(self).accelerator_present,
    {
        let ghost pre = *self;
        let r = GraphService::calculate_layout_cpu(
            &mut self.graph,
            &mut self.node_map,
            &self.params,
        );
        proof {
            let ghost znodes = pre.graph.nodes@;
            assert(synced(self.graph.nodes@, self.node_map)) by {
                assert forall|i: int|
                    0 <= i < self.graph.nodes@.len() implies match self.node_map.spec_get(
                    (#[trigger] self.graph.nodes@[i]).id,
                ) {
                    Some(n) => n@ == self.graph.nodes@[i]@,
                    None => false,
                } by {
                    assert(synced(znodes, pre.node_map));
                    assert(match pre.node_map.spec_get(znodes[i].id) {
                        Some(n) => n@ == znodes[i]@,
                        None => false,
                    });
                    assert(self.graph.nodes@[i].id == znodes[i].id);
                }
            }
        }
        self.cache.invalidate();
        r
    }
}

/// Whether the page holds a node with this id.
fn page_has_id(page: &Vec<Node>, id: u32) -> (r: bool)
    ensures
        r == exists|j: int| 0 <= j < page@.len() && (#[trigger] page@[j]).id == id,
{
    let mut j: usize = 0;
    while j < page.len()
        invariant
            j <= page@.len(),
            forall|q: int| 0 <= q < j ==> (#[trigger] page@[q]).id != id,
        decreases page@.len() - j,
    {
        if page[j].id == id {
            return true;
        }
        j = j + 1;
    }
    false
}

} // verus!
