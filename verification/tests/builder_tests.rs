use graph_engine::builder::BuildSlot;
use graph_engine::errors::EngineError;
use graph_engine::metadata::{FileMetadata, MetadataStore};
use graph_engine::service::GraphService;

fn meta(
    file_name: &str,
    file_size: u64,
    node_id: &str,
    topics: Vec<(&str, u64)>,
) -> FileMetadata {
    FileMetadata {
        file_name: String::from(file_name),
        file_size,
        node_size_milli: 1500,
        hyperlink_count: 5,
        sha1: String::from("abc123"),
        node_id: String::from(node_id),
        last_modified: String::from("2020-01-01T00:00:00Z"),
        perplexity_link: String::new(),
        last_perplexity_process: None,
        topic_counts: topics
            .into_iter()
            .map(|(k, v)| (String::from(k), v))
            .collect(),
    }
}

fn two_file_store() -> MetadataStore {
    let mut store = MetadataStore::new();
    store.insert(
        String::from("a.md"),
        meta("a.md", 1000, "", vec![("b.md", 3)]),
    );
    store.insert(
        String::from("b.md"),
        meta("b.md", 2048, "", vec![("a.md", 2), ("b.md", 7)]),
    );
    store
}

#[test]
fn edge_canonicalization_aggregates_both_orientations() {
    let store = two_file_store();
    let mut slot = BuildSlot::new();
    let g = GraphService::build_graph_from_metadata(&mut slot, &store).unwrap();
    assert_eq!(g.nodes.len(), 2);
    // Counts (a,b)=3 and (b,a)=2 yield exactly one canonical edge of weight 5.
    assert_eq!(g.edges.len(), 1);
    let e = g.edges[0];
    assert!(e.source < e.target);
    assert_eq!(e.weight, 5);
    let a_id = g.nodes[0].id;
    let b_id = g.nodes[1].id;
    assert_eq!(e.source, a_id.min(b_id));
    assert_eq!(e.target, a_id.max(b_id));
}

#[test]
fn no_self_loops_even_for_self_co_occurrence() {
    let store = two_file_store();
    let mut slot = BuildSlot::new();
    let g = GraphService::build_graph_from_metadata(&mut slot, &store).unwrap();
    // "b.md" listed itself with count 7; no edge may join a node to itself.
    for e in &g.edges {
        assert_ne!(e.source, e.target);
    }
    assert_eq!(g.edges.len(), 1);
}

#[test]
fn concurrent_rebuild_is_rejected_immediately() {
    let store = two_file_store();
    let mut slot = BuildSlot { in_progress: true };
    let r = GraphService::build_graph_from_metadata(&mut slot, &store);
    match r {
        Err(EngineError::ConcurrentRebuild) => {}
        _ => panic!("expected ConcurrentRebuild"),
    }
    // The running build's flag is untouched by the rejected call.
    assert!(slot.in_progress);
    // Once the slot is free the build goes through and releases the slot.
    let mut slot2 = BuildSlot::new();
    assert!(GraphService::build_graph_from_metadata(&mut slot2, &store).is_ok());
    assert!(!slot2.in_progress);
}

#[test]
fn node_content_copies_descriptive_fields() {
    let mut store = MetadataStore::new();
    store.insert(String::from("test.md"), meta("test.md", 1000, "1", vec![]));
    let mut slot = BuildSlot::new();
    let g = GraphService::build_graph_from_metadata(&mut slot, &store).unwrap();
    assert_eq!(g.nodes.len(), 1);
    let node = &g.nodes[0];
    assert_eq!(node.metadata_id, "test");
    assert_eq!(node.id, 1); // the stored id "1" is reused
    assert_eq!(node.label, "test");
    assert_eq!(
        node.metadata_value(&String::from("fileName")).unwrap().as_str(),
        "test.md"
    );
    assert_eq!(
        node.metadata_value(&String::from("fileSize")).unwrap().as_str(),
        "1000"
    );
    // The display size is written as its real value, not in milli-units.
    assert_eq!(
        node.metadata_value(&String::from("nodeSize")).unwrap().as_str(),
        "1.5"
    );
    assert_eq!(
        node.metadata_value(&String::from("hyperlinkCount")).unwrap().as_str(),
        "5"
    );
    assert_eq!(
        node.metadata_value(&String::from("name")).unwrap().as_str(),
        "test"
    );
    assert_eq!(
        node.metadata_value(&String::from("metadataId")).unwrap().as_str(),
        "test"
    );
    assert!(node.metadata_value(&String::from("sha1")).is_some());
    assert!(node.metadata_value(&String::from("lastModified")).is_some());
    // An empty external link is not copied.
    assert!(node.metadata_value(&String::from("perplexityLink")).is_none());
    assert_eq!(node.data.flags, 1);
    // 1000 bytes is under one KiB: the mass clamps up to its minimum.
    assert_eq!(node.data.mass, 1);
    assert_eq!(node.file_size, 1000);
    assert_eq!(node.size, Some(1500));
}

#[test]
fn mass_grows_with_file_size() {
    let mut store = MetadataStore::new();
    store.insert(String::from("big.md"), meta("big.md", 2048, "", vec![]));
    let mut slot = BuildSlot::new();
    let g = GraphService::build_graph_from_metadata(&mut slot, &store).unwrap();
    assert_eq!(g.nodes[0].data.mass, 2);
}

#[test]
fn duplicate_stored_ids_fall_back_to_fresh_allocation() {
    let mut store = MetadataStore::new();
    store.insert(String::from("x.md"), meta("x.md", 10, "7", vec![]));
    store.insert(String::from("y.md"), meta("y.md", 10, "7", vec![]));
    let mut slot = BuildSlot::new();
    let g = GraphService::build_graph_from_metadata(&mut slot, &store).unwrap();
    assert_eq!(g.nodes.len(), 2);
    assert_ne!(g.nodes[0].id, g.nodes[1].id);
    assert_eq!(g.nodes[0].id, 7);
    assert_eq!(g.nodes[1].id, 8);
}

#[test]
fn unparseable_stored_ids_allocate_fresh() {
    let mut store = MetadataStore::new();
    store.insert(String::from("x.md"), meta("x.md", 10, "oops", vec![]));
    store.insert(String::from("y.md"), meta("y.md", 10, "", vec![]));
    let mut slot = BuildSlot::new();
    let g = GraphService::build_graph_from_metadata(&mut slot, &store).unwrap();
    assert_eq!(g.nodes[0].id, 1);
    assert_eq!(g.nodes[1].id, 2);
}

#[test]
fn unresolved_edge_endpoints_are_skipped_silently() {
    let mut store = MetadataStore::new();
    store.insert(
        String::from("a.md"),
        meta("a.md", 10, "", vec![("missing.md", 9)]),
    );
    let mut slot = BuildSlot::new();
    let g = GraphService::build_graph_from_metadata(&mut slot, &store).unwrap();
    assert_eq!(g.nodes.len(), 1);
    assert_eq!(g.edges.len(), 0);
}

#[test]
fn rebuild_replaces_wholesale_and_keeps_store_copy() {
    let store = two_file_store();
    let mut slot = BuildSlot::new();
    let g = GraphService::build_graph_from_metadata(&mut slot, &store).unwrap();
    assert_eq!(g.metadata.entries.len(), 2);
    assert_eq!(g.id_to_metadata.len(), g.nodes.len());
    for (i, (id, mid)) in g.id_to_metadata.iter().enumerate() {
        assert_eq!(*id, g.nodes[i].id);
        assert_eq!(*mid, g.nodes[i].metadata_id);
    }
}

#[test]
fn edge_weights_saturate_at_the_cap() {
    let mut store = MetadataStore::new();
    store.insert(
        String::from("a.md"),
        meta("a.md", 10, "", vec![("b.md", 600_000_000_000)]),
    );
    store.insert(
        String::from("b.md"),
        meta("b.md", 10, "", vec![("a.md", 600_000_000_000)]),
    );
    let mut slot = BuildSlot::new();
    let g = GraphService::build_graph_from_metadata(&mut slot, &store).unwrap();
    assert_eq!(g.edges.len(), 1);
    assert_eq!(g.edges[0].weight, graph_engine::edge::WEIGHT_CAP);
}

#[test]
fn stored_ids_at_the_ceiling_are_treated_as_absent() {
    let mut store = MetadataStore::new();
    store.insert(
        String::from("x.md"),
        meta("x.md", 10, "1073741824", vec![]), // exactly the id ceiling
    );
    let mut slot = BuildSlot::new();
    let g = GraphService::build_graph_from_metadata(&mut slot, &store).unwrap();
    assert_eq!(g.nodes[0].id, 1); // allocated fresh instead
}
