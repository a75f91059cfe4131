use graph_engine::node::{Node, NodeData, Vec3};

use graph_engine::placement::{initialize_random_positions, place_node, INITIAL_RADIUS_MILLI};

fn blank_node(id: u32) -> Node {
    Node {
        id,
        metadata_id: String::from("n"),
        label: String::from("n"),
        data: NodeData {
            position: Vec3 { x: 0, y: 0, z: 0 },
            velocity: Vec3 { x: 9, y: 9, z: 9 },
            mass: 3,
            flags: 1,
        },
        metadata: Vec::new(),
        file_size: 0,
        size: None,
    }
}

fn norm2(p: Vec3) -> i128 {
    (p.x as i128) * (p.x as i128) + (p.y as i128) * (p.y as i128) + (p.z as i128) * (p.z as i128)
}

fn within_ten_percent(p: Vec3, r: i64) -> bool {
    let n2 = norm2(p);
    let r2 = (r as i128) * (r as i128);
    81 * r2 <= 100 * n2 && 100 * n2 <= 121 * r2
}

#[test]
fn every_position_lies_within_ten_percent_of_the_radius() {
    let n: u64 = 64;
    for i in 0..n {
        for jitter in [0u64, 99, 199] {
            let p = place_node(i, n, INITIAL_RADIUS_MILLI, jitter);
            assert!(within_ten_percent(p, INITIAL_RADIUS_MILLI));
        }
    }
}

#[test]
fn placement_is_deterministic_per_slot_and_jitter() {
    let p1 = place_node(5, 50, 3000, 70);
    let p2 = place_node(5, 50, 3000, 70);
    assert_eq!(p1, p2);
}

#[test]
fn initial_positions_are_spread_and_velocities_zeroed() {
    let mut nodes: Vec<Node> = (0..50u32).map(blank_node).collect();
    initialize_random_positions(&mut nodes);
    for n in &nodes {
        assert!(within_ten_percent(n.data.position, INITIAL_RADIUS_MILLI));
        assert_eq!(n.data.velocity, Vec3 { x: 0, y: 0, z: 0 });
        assert_eq!(n.data.mass, 3); // untouched
        assert_eq!(n.data.flags, 1);
    }
    // No two generated positions coincide.
    for i in 0..nodes.len() {
        for j in (i + 1)..nodes.len() {
            assert_ne!(nodes[i].data.position, nodes[j].data.position);
        }
    }
}

#[test]
fn distinct_slots_get_distinct_polar_layers() {
    // With equal jitter, different slots land on different arccos layers,
    // so their vertical components differ.
    let n: u64 = 10;
    for i in 0..n {
        for j in (i + 1)..n {
            let pi = place_node(i, n, 3000, 50);
            let pj = place_node(j, n, 3000, 50);
            assert_ne!(pi.z, pj.z);
        }
    }
}

#[test]
fn single_node_placement_is_valid() {
    let p = place_node(0, 1, 3000, 0);
    assert!(within_ten_percent(p, 3000));
}
