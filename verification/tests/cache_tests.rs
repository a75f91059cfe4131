use graph_engine::cache::{PositionCache, RateLimiter, NODE_POSITION_CACHE_TTL_MS};
use graph_engine::node::{Node, NodeData, Vec3};

fn node_at(id: u32, x: i64) -> Node {
    Node {
        id,
        metadata_id: String::from("n"),
        label: String::from("n"),
        data: NodeData {
            position: Vec3 { x, y: 0, z: 0 },
            velocity: Vec3 { x: 0, y: 0, z: 0 },
            mass: 1,
            flags: 1,
        },
        metadata: Vec::new(),
        file_size: 0,
        size: None,
    }
}

#[test]
fn two_reads_within_ttl_return_identical_snapshots() {
    let mut cache = PositionCache::new(true);
    let live1 = vec![node_at(1, 100), node_at(2, 200)];
    let first = cache.read(&live1, 1000);
    // The live state moves on, but no tick or clear intervenes.
    let live2 = vec![node_at(1, 999), node_at(2, 999)];
    let second = cache.read(&live2, 1000 + NODE_POSITION_CACHE_TTL_MS - 1);
    assert_eq!(first, second);
    assert_eq!(second[0].data.position.x, 100);
}

#[test]
fn read_after_ttl_expiry_reflects_live_state() {
    let mut cache = PositionCache::new(true);
    let live1 = vec![node_at(1, 100)];
    let _ = cache.read(&live1, 1000);
    let live2 = vec![node_at(1, 777)];
    let r = cache.read(&live2, 1000 + NODE_POSITION_CACHE_TTL_MS);
    assert_eq!(r[0].data.position.x, 777);
}

#[test]
fn read_after_explicit_clear_reflects_live_state() {
    let mut cache = PositionCache::new(true);
    let live1 = vec![node_at(1, 100)];
    let _ = cache.read(&live1, 1000);
    cache.invalidate();
    let live2 = vec![node_at(1, 555)];
    let r = cache.read(&live2, 1001);
    assert_eq!(r[0].data.position.x, 555);
}

#[test]
fn disabled_cache_always_reads_live() {
    let mut cache = PositionCache::new(false);
    let live1 = vec![node_at(1, 100)];
    let _ = cache.read(&live1, 1000);
    let live2 = vec![node_at(1, 200)];
    let r = cache.read(&live2, 1000);
    assert_eq!(r[0].data.position.x, 200);
    assert!(cache.entry.is_none());
}

#[test]
fn rate_limiter_accepts_only_interval_spaced_updates() {
    let mut l = RateLimiter::new(0);
    assert!(!l.try_accept(10)); // inside the first interval
    assert!(l.try_accept(16));
    assert!(!l.try_accept(17));
    assert!(!l.try_accept(31));
    assert!(l.try_accept(32));
    assert_eq!(l.last_update_ms, 32);
}

#[test]
fn rejected_updates_leave_the_limiter_unchanged() {
    let mut l = RateLimiter::new(100);
    assert!(!l.try_accept(110));
    assert_eq!(l.last_update_ms, 100);
}
