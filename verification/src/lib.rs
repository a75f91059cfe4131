//! Core engine for a live 3-D graph visualization backend.
//!
//! The library maintains a node/edge graph built from a file-metadata store,
//! advances a force-directed layout in fixed-point arithmetic, caches
//! position snapshots behind a short TTL, rate-limits externally submitted
//! updates, and coordinates the lifecycle of the single global simulation
//! loop.  All coordinates and physics parameters are integers in fixed-point
//! units (milli-units for lengths and velocities), so every rule of the
//! engine is stated and proved here; the surrounding process supplies the
//! clock, the accelerator and the transport.

pub mod broadcast;
pub mod builder;
pub mod cache;
pub mod edge;
pub mod errors;
pub mod fixed;
pub mod graph;
pub mod lifecycle;
pub mod metadata;
pub mod node;
pub mod node_map;
pub mod params;
pub mod physics;
pub mod placement;
pub mod retry;
pub mod service;
pub mod rng;
pub mod text;
