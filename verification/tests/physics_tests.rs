use graph_engine::edge::Edge;
use graph_engine::graph::GraphData;
use graph_engine::metadata::MetadataStore;
use graph_engine::node::{Node, NodeData, Vec3};
use graph_engine::node_map::NodeMap;
use graph_engine::params::{SimulationMode, SimulationParams, SimulationPhase};
use graph_engine::service::GraphService;

fn node_at(id: u32, name: &str, x: i64) -> Node {
    Node {
        id,
        metadata_id: String::from(name),
        label: String::from(name),
        data: NodeData {
            position: Vec3 { x, y: 0, z: 0 },
            velocity: Vec3 { x: 0, y: 0, z: 0 },
            mass: 255,
            flags: 1,
        },
        metadata: Vec::new(),
        file_size: 0,
        size: None,
    }
}

fn params(repulsion_micro: i64, spring_micro: i64) -> SimulationParams {
    SimulationParams::new(
        100,
        spring_micro,
        repulsion_micro,
        1000, // no velocity damping
        10_000,
        100_000,
        1000, // mass scale 1.0
        1000,
        false,
        16, // a 16 ms time step
        SimulationPhase::Dynamic,
        SimulationMode::Remote,
    )
}

fn graph_of(nodes: Vec<Node>, edges: Vec<Edge>) -> (GraphData, NodeMap) {
    let mut map = NodeMap::new();
    for n in &nodes {
        map.upsert(n.duplicate());
    }
    let id_to_metadata = nodes
        .iter()
        .map(|n| (n.id, n.metadata_id.clone()))
        .collect();
    (
        GraphData {
            nodes,
            edges,
            metadata: MetadataStore::new(),
            id_to_metadata,
        },
        map,
    )
}

#[test]
fn repulsion_pushes_a_pair_apart_exactly() {
    let (mut g, mut map) = graph_of(vec![node_at(1, "a", -1000), node_at(2, "b", 1000)], vec![]);
    let p = params(1_000_000, 0);
    let r = GraphService::calculate_layout_cpu(&mut g, &mut map, &p);
    assert!(r.is_ok());
    // Masses are (255/255)*10*1.0 = 10 mass-milli*1000; the force factor is
    // 1e6*10000*10000/4e6 = 2.5e7 micro, so dv = 2.5e7*16/1e6 = 400 milli/s
    // and dx = 400*16/1000 = 6 milli, pushing the pair apart symmetrically.
    assert_eq!(g.nodes[0].data.velocity.x, -400);
    assert_eq!(g.nodes[1].data.velocity.x, 400);
    assert_eq!(g.nodes[0].data.position.x, -1006);
    assert_eq!(g.nodes[1].data.position.x, 1006);
    assert_eq!(g.nodes[0].data.position.y, 0);
    assert_eq!(g.nodes[1].data.position.z, 0);
}

#[test]
fn spring_pulls_edge_endpoints_together_exactly() {
    let (mut g, mut map) = graph_of(
        vec![node_at(1, "a", -1000), node_at(2, "b", 1000)],
        vec![Edge { source: 1, target: 2, weight: 5 }],
    );
    let p = params(0, 1_000_000);
    GraphService::calculate_layout_cpu(&mut g, &mut map, &p).unwrap();
    // The spring factor is 1e6*5*2000/1000 = 1e7 micro: dv = 160 milli/s,
    // dx = 160*16/1000 = 2 milli toward each other.
    assert_eq!(g.nodes[0].data.velocity.x, 160);
    assert_eq!(g.nodes[1].data.velocity.x, -160);
    assert_eq!(g.nodes[0].data.position.x, -998);
    assert_eq!(g.nodes[1].data.position.x, 998);
}

#[test]
fn coincident_nodes_exert_no_force() {
    let (mut g, mut map) = graph_of(
        vec![node_at(1, "a", 500), node_at(2, "b", 500)],
        vec![Edge { source: 1, target: 2, weight: 5 }],
    );
    let p = params(1_000_000, 1_000_000);
    GraphService::calculate_layout_cpu(&mut g, &mut map, &p).unwrap();
    assert_eq!(g.nodes[0].data.position.x, 500);
    assert_eq!(g.nodes[1].data.position.x, 500);
    assert_eq!(g.nodes[0].data.velocity.x, 0);
}

#[test]
fn repulsion_beyond_max_distance_is_skipped() {
    let (mut g, mut map) = graph_of(
        vec![node_at(1, "a", -50_000), node_at(2, "b", 50_000)],
        vec![],
    );
    let p = params(1_000_000, 0); // max repulsion distance 10 units
    GraphService::calculate_layout_cpu(&mut g, &mut map, &p).unwrap();
    assert_eq!(g.nodes[0].data.position.x, -50_000);
    assert_eq!(g.nodes[1].data.position.x, 50_000);
}

#[test]
fn empty_graph_ticks_successfully() {
    let (mut g, mut map) = graph_of(vec![], vec![]);
    let p = params(1_000_000, 1_000_000);
    assert!(GraphService::calculate_layout_cpu(&mut g, &mut map, &p).is_ok());
    assert_eq!(g.nodes.len(), 0);
}

#[test]
fn tick_mirrors_new_state_into_node_map() {
    let (mut g, mut map) = graph_of(vec![node_at(1, "a", -1000), node_at(2, "b", 1000)], vec![]);
    let p = params(1_000_000, 0);
    GraphService::calculate_layout_cpu(&mut g, &mut map, &p).unwrap();
    let n1 = map.get(1).unwrap();
    assert_eq!(n1.data, g.nodes[0].data);
    let n2 = map.get(2).unwrap();
    assert_eq!(n2.data, g.nodes[1].data);
}

#[test]
fn velocity_damping_halves_velocity() {
    let mut n = node_at(1, "a", 0);
    n.data.velocity.x = 1000;
    let far = node_at(2, "b", 90_000); // out of repulsion range
    let (mut g, mut map) = graph_of(vec![n, far], vec![]);
    let p = SimulationParams::new(
        100,
        0,
        0,
        500, // damping 0.5
        10_000,
        100_000,
        1000,
        1000,
        false,
        16,
        SimulationPhase::Dynamic,
        SimulationMode::Remote,
    );
    GraphService::calculate_layout_cpu(&mut g, &mut map, &p).unwrap();
    assert_eq!(g.nodes[0].data.velocity.x, 500);
    assert_eq!(g.nodes[0].data.position.x, 8); // 500 * 16 / 1000
}

#[test]
fn accelerator_output_overwrites_positions_and_map() {
    let (mut g, mut map) = graph_of(vec![node_at(1, "a", -1000), node_at(2, "b", 1000)], vec![]);
    let updated = vec![
        NodeData {
            position: Vec3 { x: 11, y: 22, z: 33 },
            velocity: Vec3 { x: 1, y: 2, z: 3 },
            mass: 9,
            flags: 1,
        },
        NodeData {
            position: Vec3 { x: -11, y: -22, z: -33 },
            velocity: Vec3 { x: -1, y: -2, z: -3 },
            mass: 8,
            flags: 1,
        },
    ];
    let count = GraphService::apply_accelerator_output(&mut g, &mut map, &updated);
    assert_eq!(count, 2);
    assert_eq!(g.nodes[0].data.position.x, 11);
    assert_eq!(g.nodes[1].data.position.y, -22);
    assert_eq!(map.get(1).unwrap().data.position.z, 33);
    assert_eq!(map.get(2).unwrap().data.velocity.x, -1);
}

#[test]
fn accelerator_output_beyond_node_count_is_ignored() {
    let (mut g, mut map) = graph_of(vec![node_at(1, "a", -1000)], vec![]);
    let updated = vec![];
    let count = GraphService::apply_accelerator_output(&mut g, &mut map, &updated);
    assert_eq!(count, 0);
    assert_eq!(g.nodes[0].data.position.x, -1000);
    assert_eq!(map.get(1).unwrap().data.position.x, -1000);
}
