use graph_engine::builder::BuildSlot;
use graph_engine::lifecycle::LifecycleRegistry;
use graph_engine::metadata::{FileMetadata, MetadataStore};
use graph_engine::node::{Node, NodeData, Vec3};
use graph_engine::params::{SimulationMode, SimulationParams, SimulationPhase};
use graph_engine::service::GraphService;

fn default_params() -> SimulationParams {
    SimulationParams::new(
        100,
        1_000_000,
        1_000_000,
        900,
        10_000,
        100_000,
        1000,
        900,
        false,
        16,
        SimulationPhase::Dynamic,
        SimulationMode::Remote,
    )
}

fn meta(file_name: &str, topics: Vec<(&str, u64)>) -> FileMetadata {
    FileMetadata {
        file_name: String::from(file_name),
        file_size: 4096,
        node_size_milli: 1000,
        hyperlink_count: 0,
        sha1: String::from("da39a3ee"),
        node_id: String::new(),
        last_modified: String::from("2021-06-01T00:00:00Z"),
        perplexity_link: String::new(),
        last_perplexity_process: None,
        topic_counts: topics
            .into_iter()
            .map(|(k, v)| (String::from(k), v))
            .collect(),
    }
}

fn service_with_graph() -> (GraphService, LifecycleRegistry) {
    let mut reg = LifecycleRegistry::new();
    let (mut svc, was_running) = GraphService::new(default_params(), false, 0, &mut reg);
    assert!(!was_running);
    let mut store = MetadataStore::new();
    store.insert(String::from("a.md"), meta("a.md", vec![("b.md", 2)]));
    store.insert(String::from("b.md"), meta("b.md", vec![]));
    store.insert(String::from("c.md"), meta("c.md", vec![("a.md", 1)]));
    let mut slot = BuildSlot::new();
    let g = GraphService::build_graph_from_metadata(&mut slot, &store).unwrap();
    svc.set_graph(g);
    (svc, reg)
}

#[test]
fn construction_registers_the_instance() {
    let mut reg = LifecycleRegistry::new();
    let (svc, was_running) = GraphService::new(default_params(), true, 0, &mut reg);
    assert!(!was_running);
    assert!(reg.loop_running);
    assert!(reg.is_active(&svc.simulation_id));
    assert_eq!(svc.simulation_id.len(), 8);
    assert!(svc.accelerator_present);
    // A second instance supersedes the first and reports the conflict.
    let (svc2, was_running) = GraphService::new(default_params(), false, 0, &mut reg);
    assert!(was_running);
    assert!(reg.is_active(&svc2.simulation_id));
    assert!(!reg.is_active(&svc.simulation_id));
}

#[test]
fn cached_reads_are_bit_identical_until_a_tick() {
    let (mut svc, _reg) = service_with_graph();
    let first = svc.get_node_positions(1000);
    // Mutate the live graph without ticking or clearing.
    {
        let g = svc.get_graph_data_mut();
        let mut n = g.nodes[0].clone();
        n.data.position.x = 123_456;
        g.nodes[0] = n;
    }
    let second = svc.get_node_positions(1040);
    assert_eq!(first, second);
    // A tick invalidates the cache, so the next read is live.
    svc.run_processor_tick().unwrap();
    let third = svc.get_node_positions(1041);
    assert_ne!(first, third);
}

#[test]
fn explicit_clear_forces_a_live_read() {
    let (mut svc, _reg) = service_with_graph();
    let first = svc.get_node_positions(1000);
    {
        let g = svc.get_graph_data_mut();
        let mut n = g.nodes[0].clone();
        n.data.position.x = 777_000;
        g.nodes[0] = n;
    }
    svc.clear_position_cache();
    let second = svc.get_node_positions(1001);
    assert_ne!(first, second);
    assert_eq!(second[0].data.position.x, 777_000);
}

#[test]
fn rate_limited_updates_leave_the_graph_unchanged() {
    let (mut svc, _reg) = service_with_graph();
    let id = svc.graph.nodes[0].id;
    let template = svc.graph.nodes[0].clone();
    let update = move |x: i64| -> Vec<(u32, Node)> {
        let mut n = template.clone();
        n.data.position = Vec3 { x, y: 0, z: 0 };
        n.data.velocity = Vec3 { x: 0, y: 0, z: 0 };
        vec![(id, n)]
    };
    // The limiter was constructed at instant 0: an update at 16 is admitted.
    svc.update_node_positions(&update(1111), 16).unwrap();
    assert_eq!(svc.graph.nodes[0].data.position.x, 1111);
    // An update inside the minimum interval is dropped silently.
    svc.update_node_positions(&update(2222), 30).unwrap();
    assert_eq!(svc.graph.nodes[0].data.position.x, 1111);
    // After the interval the next update is admitted again.
    svc.update_node_positions(&update(3333), 32).unwrap();
    assert_eq!(svc.graph.nodes[0].data.position.x, 3333);
    // The map mirrors the accepted updates.
    assert_eq!(svc.node_map.get(id).unwrap().data.position.x, 3333);
}

#[test]
fn accepted_updates_preserve_mass_and_flags() {
    let (mut svc, _reg) = service_with_graph();
    let id = svc.graph.nodes[0].id;
    let old_mass = svc.graph.nodes[0].data.mass;
    let mut n = svc.graph.nodes[0].clone();
    n.data.position = Vec3 { x: 42, y: 43, z: 44 };
    n.data.velocity = Vec3 { x: 7, y: 8, z: 9 };
    n.data.mass = 200; // the submitted mass must be ignored
    n.data.flags = 0;
    svc.update_node_positions(&vec![(id, n)], 100).unwrap();
    // In-bounds submitted position and velocity are taken verbatim.
    assert_eq!(svc.graph.nodes[0].data.position, Vec3 { x: 42, y: 43, z: 44 });
    assert_eq!(svc.graph.nodes[0].data.velocity, Vec3 { x: 7, y: 8, z: 9 });
    assert_eq!(svc.graph.nodes[0].data.mass, old_mass);
    assert_eq!(svc.graph.nodes[0].data.flags, 1);
}

#[test]
fn pagination_slices_nodes_and_keeps_touching_edges() {
    let (svc, _reg) = service_with_graph();
    let page = svc.get_paginated_graph_data(0, 2);
    assert_eq!(page.total_nodes, 3);
    assert_eq!(page.total_edges, 2);
    assert_eq!(page.total_pages, 2);
    assert_eq!(page.current_page, 0);
    assert_eq!(page.nodes.len(), 2);
    assert_eq!(page.nodes[0].metadata_id, "a");
    assert_eq!(page.nodes[1].metadata_id, "b");
    // Both edges touch node "a", which is on the page.
    assert_eq!(page.edges.len(), 2);
    let page2 = svc.get_paginated_graph_data(1, 2);
    assert_eq!(page2.nodes.len(), 1);
    assert_eq!(page2.nodes[0].metadata_id, "c");
    let page3 = svc.get_paginated_graph_data(7, 2);
    assert_eq!(page3.nodes.len(), 0);
    assert_eq!(page3.edges.len(), 0);
}

#[test]
fn shutdown_is_refused_for_a_superseded_instance() {
    let mut reg = LifecycleRegistry::new();
    let (mut old_svc, _) = GraphService::new(default_params(), false, 0, &mut reg);
    let (mut new_svc, _) = GraphService::new(default_params(), false, 0, &mut reg);
    assert!(old_svc.shutdown(&reg).is_err());
    assert!(!old_svc.flags.shutdown_requested);
    assert!(new_svc.shutdown(&reg).is_ok());
    assert!(new_svc.flags.shutdown_requested);
}

#[test]
fn diagnostics_report_the_lifecycle_state() {
    let mut reg = LifecycleRegistry::new();
    let (svc, _) = GraphService::new(default_params(), true, 0, &mut reg);
    let d = svc.get_simulation_diagnostics(Some(&reg));
    assert!(d.registry_available);
    assert!(d.is_active);
    assert!(d.loop_running);
    assert!(!d.shutdown_requested);
    assert!(d.has_accelerator);
    assert_eq!(d.instance_id, svc.simulation_id);
    // An unavailable registry is reported rather than waited for.
    let d2 = svc.get_simulation_diagnostics(None);
    assert!(!d2.registry_available);
    assert!(!d2.is_active);
}

#[test]
fn broadcast_records_project_every_node() {
    let (svc, _reg) = service_with_graph();
    let records = graph_engine::broadcast::position_records(&svc.graph.nodes);
    assert_eq!(records.len(), svc.graph.nodes.len());
    for (i, (id, data)) in records.iter().enumerate() {
        assert_eq!(*id, svc.graph.nodes[i].id);
        assert_eq!(*data, svc.graph.nodes[i].data);
    }
}
