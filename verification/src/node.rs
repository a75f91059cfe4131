//! Nodes of the visualization graph.
//!
//! A node carries its simulation state (`NodeData`: position, velocity, mass
//! and flag bits, all fixed-point integers) together with its stable numeric
//! id, its metadata key and the descriptive fields copied from the metadata
//! store during a build.

use vstd::prelude::*;
use crate::fixed::{COORD_LIMIT, VEL_LIMIT};

verus! {

/// A three-component vector in milli-units.
#[derive(Clone, Copy, Debug, PartialEq, Eq, Structural)]
pub struct Vec3 {
    pub x: i64,
    pub y: i64,
    pub z: i64,
}

impl Vec3 {
    /// The zero vector.
    pub fn zero() -> (r: Vec3)
        ensures
            r == (Vec3 { x: 0, y: 0, z: 0 }),
    {
        Vec3 { x: 0, y: 0, z: 0 }
    }

    /// Every component lies within `limit` in magnitude.
    pub open spec fn bounded(self, limit: int) -> bool {
        &&& -limit <= self.x <= limit
        &&& -limit <= self.y <= limit
        &&& -limit <= self.z <= limit
    }
}

/// The per-node simulation state that physics ticks read and write.
#[derive(Clone, Copy, Debug, PartialEq, Eq, Structural)]
pub struct NodeData {
    pub position: Vec3,
    pub velocity: Vec3,
    pub mass: u8,
    pub flags: u8,
}

impl NodeData {
    /// Well-formed simulation state: coordinates and velocities stay inside
    /// the engine's fixed bounds and mass is strictly positive.
    pub open spec fn wf(self) -> bool {
        &&& self.position.bounded(COORD_LIMIT as int)
        &&& self.velocity.bounded(VEL_LIMIT as int)
        &&& self.mass >= 1
    }

    /// A fresh state at the origin with unit mass.
    pub fn at_rest() -> (r: NodeData)
        ensures
            r == (NodeData {
                position: Vec3 { x: 0, y: 0, z: 0 },
                velocity: Vec3 { x: 0, y: 0, z: 0 },
                mass: 1,
                flags: 0,
            }),
            r.wf(),
    {
        NodeData {
            position: Vec3 { x: 0, y: 0, z: 0 },
            velocity: Vec3 { x: 0, y: 0, z: 0 },
            mass: 1,
            flags: 0,
        }
    }

    /// The same state with every coordinate clamped into the engine bounds
    /// and the mass raised to at least one.
    pub open spec fn clamped_spec(self) -> NodeData {
        NodeData {
            position: Vec3 {
                x: crate::fixed::clamp_spec(self.position.x as int, -COORD_LIMIT as int, COORD_LIMIT as int) as i64,
                y: crate::fixed::clamp_spec(self.position.y as int, -COORD_LIMIT as int, COORD_LIMIT as int) as i64,
                z: crate::fixed::clamp_spec(self.position.z as int, -COORD_LIMIT as int, COORD_LIMIT as int) as i64,
            },
            velocity: Vec3 {
                x: crate::fixed::clamp_spec(self.velocity.x as int, -VEL_LIMIT as int, VEL_LIMIT as int) as i64,
                y: crate::fixed::clamp_spec(self.velocity.y as int, -VEL_LIMIT as int, VEL_LIMIT as int) as i64,
                z: crate::fixed::clamp_spec(self.velocity.z as int, -VEL_LIMIT as int, VEL_LIMIT as int) as i64,
            },
            mass: if self.mass >= 1 { self.mass } else { 1 },
            flags: self.flags,
        }
    }

    /// Clamps externally supplied state into the engine bounds.
    pub fn clamped(self) -> (r: NodeData)
        ensures
            r == self.clamped_spec(),
            r.wf(),
    {
        NodeData {
            position: Vec3 {
                x: crate::fixed::clamp_i128(self.position.x as i128, -COORD_LIMIT, COORD_LIMIT),
                y: crate::fixed::clamp_i128(self.position.y as i128, -COORD_LIMIT, COORD_LIMIT),
                z: crate::fixed::clamp_i128(self.position.z as i128, -COORD_LIMIT, COORD_LIMIT),
            },
            velocity: Vec3 {
                x: crate::fixed::clamp_i128(self.velocity.x as i128, -VEL_LIMIT, VEL_LIMIT),
                y: crate::fixed::clamp_i128(self.velocity.y as i128, -VEL_LIMIT, VEL_LIMIT),
                z: crate::fixed::clamp_i128(self.velocity.z as i128, -VEL_LIMIT, VEL_LIMIT),
            },
            mass: if self.mass >= 1 { self.mass } else { 1 },
            flags: self.flags,
        }
    }
}

/// Derives a node's mass from the byte size of its source file.
///
/// The mass scales with the size in KiB and is clamped into `[1, 255]`, so
/// it is always strictly positive.
pub open spec fn mass_from_file_size_spec(bytes: u64) -> u8 {
    let kib = bytes as int / 1024;
    if kib < 1 {
        1u8
    } else if kib > 255 {
        255u8
    } else {
        kib as u8
    }
}

/// Executable form of [`mass_from_file_size_spec`].
pub fn mass_from_file_size(bytes: u64) -> (r: u8)
    ensures
        r == mass_from_file_size_spec(bytes),
        r >= 1,
{
    let kib: u64 = bytes / 1024;
    if kib < 1 {
        1
    } else if kib > 255 {
        255
    } else {
        kib as u8
    }
}

/// A graph node: stable numeric id, metadata key, display label, simulation
/// state, and the descriptive string fields copied from its metadata record.
#[derive(Clone, Debug, PartialEq, Eq)]
pub struct Node {
    pub id: u32,
    pub metadata_id: String,
    pub label: String,
    pub data: NodeData,
    pub metadata: Vec<(String, String)>,
    pub file_size: u64,
    pub size: Option<u64>,
}

/// The mathematical value of a [`Node`]: the same fields with every string
/// replaced by its character sequence.
pub struct NodeView {
    pub id: u32,
    pub metadata_id: Seq<char>,
    pub label: Seq<char>,
    pub data: NodeData,
    pub metadata: Seq<(Seq<char>, Seq<char>)>,
    pub file_size: u64,
    pub size: Option<u64>,
}

impl View for Node {
    type V = NodeView;

    open spec fn view(&self) -> NodeView {
        NodeView {
            id: self.id,
            metadata_id: self.metadata_id@,
            label: self.label@,
            data: self.data,
            metadata: self.metadata@.map_values(|p: (String, String)| (p.0@, p.1@)),
            file_size: self.file_size,
            size: self.size,
        }
    }
}

/// The views of a sequence of nodes.
pub open spec fn nodes_view(s: Seq<Node>) -> Seq<NodeView> {
    s.map_values(|n: Node| n@)
}

impl Node {
    /// The node with its simulation state replaced.
    pub open spec fn with_data_spec(self, data: NodeData) -> Node {
        Node { data, ..self }
    }

    /// A deep copy whose mathematical value equals the source node's.
    pub fn duplicate(&self) -> (r: Node)
        ensures
            r@ == self@,
            r.id == self.id,
            r.data == self.data,
    {
        let mut metadata: Vec<(String, String)> = Vec::new();
        let mut i: usize = 0;
        while i < self.metadata.len()
            invariant
                i <= self.metadata.len(),
                metadata@ =~= self.metadata@.subrange(0, i as int),
            decreases self.metadata.len() - i,
        {
            let pair = (self.metadata[i].0.clone(), self.metadata[i].1.clone());
            metadata.push(pair);
            i = i + 1;
        }
        let r = Node {
            id: self.id,
            metadata_id: self.metadata_id.clone(),
            label: self.label.clone(),
            data: self.data,
            metadata,
            file_size: self.file_size,
            size: self.size,
        };
        proof {
            assert(r@.metadata =~= self@.metadata);
        }
        r
    }

    /// Looks a key up in the node's descriptive metadata mapping.
    pub fn metadata_value(&self, key: &String) -> (r: Option<&String>)
        ensures
            match r {
                Some(v) => exists|i: int|
                    0 <= i < self.metadata@.len() && self.metadata@[i].0@ == key@
                        && self.metadata@[i].1 == *v,
                None => forall|i: int|
                    0 <= i < self.metadata@.len() ==> self.metadata@[i].0@ != key@,
            },
{
        let mut i: usize = 0;
        while i < self.metadata.len()
            invariant
                i <= self.metadata.len(),
                forall|j: int| 0 <= j < i ==> self.metadata@[j].0@ != key@,
            decreases self.metadata.len() - i,
        {
            if self.metadata[i].0 == *key {
                return Some(&self.metadata[i].1);
            }
            i = i + 1;
        }
        None
    }
}

} // verus!
