//! The id-indexed node map kept in lockstep with the primary node sequence.
//!
//! The map is an ordered vector of nodes with pairwise distinct ids; lookups
//! are by numeric node id.  Physics ticks mirror every write into it so
//! that id-keyed readers and sequence readers observe the same state.

use vstd::prelude::*;
use crate::node::{Node, NodeData};

verus! {

/// Pairwise distinct node ids.
pub open spec fn ids_unique(s: Seq<Node>) -> bool {
    forall|i: int, j: int| 0 <= i < j < s.len() ==> s[i].id != s[j].id
}

/// First-match lookup by id, searched from the back; with unique ids this
/// is the only match.
pub open spec fn seq_get_node(s: Seq<Node>, id: u32) -> Option<Node>
    decreases s.len(),
{
    if s.len() == 0 {
        None
    } else if s.last().id == id {
        Some(s.last())
    } else {
        seq_get_node(s.drop_last(), id)
    }
}

/// With unique ids, the recursive lookup agrees with any positional match.
pub proof fn lemma_node_get_characterization(s: Seq<Node>, id: u32)
    requires
        ids_unique(s),
    ensures
        (seq_get_node(s, id) is Some) <==> exists|i: int| 0 <= i < s.len() && s[i].id == id,
        forall|i: int| 0 <= i < s.len() && s[i].id == id ==> seq_get_node(s, id) == Some(s[i]),
    decreases s.len(),
{
    if s.len() > 0 {
        assert(s.drop_last() =~= s.subrange(0, s.len() - 1));
        lemma_node_get_characterization(s.drop_last(), id);
        if s.last().id == id {
            assert(s[s.len() - 1].id == id);
        } else {
            assert forall|i: int| 0 <= i < s.len() && s[i].id == id implies seq_get_node(s, id)
                == Some(s[i]) by {
                assert(i < s.len() - 1);
                assert(s.drop_last()[i] == s[i]);
            }
            if exists|i: int| 0 <= i < s.len() && s[i].id == id {
                let i = choose|i: int| 0 <= i < s.len() && s[i].id == id;
                assert(i < s.len() - 1);
                assert(s.drop_last()[i].id == id);
            }
        }
    }
}

/// Updating one node without changing its id redirects lookups of that id
/// and leaves every other id's lookup unchanged.
pub proof fn lemma_node_get_update(s: Seq<Node>, i: int, n: Node)
    requires
        ids_unique(s),
        0 <= i < s.len(),
        n.id == s[i].id,
    ensures
        ids_unique(s.update(i, n)),
        forall|k: u32| #![auto]
            seq_get_node(s.update(i, n), k) == if k == n.id {
                Some(n)
            } else {
                seq_get_node(s, k)
            },
    decreases s.len(),
{
    let updated = s.update(i, n);
    assert(ids_unique(updated)) by {
        assert forall|a: int, b: int| 0 <= a < b < updated.len() implies updated[a].id
            != updated[b].id by {
            assert(updated[a].id == s[a].id);
            assert(updated[b].id == s[b].id);
        }
    }
    if i == s.len() - 1 {
        assert(updated.last() == n);
        assert(updated.drop_last() =~= s.drop_last());
        assert forall|k: u32| #![auto] seq_get_node(updated, k) == (if k == n.id {
            Some(n)
        } else {
            seq_get_node(s, k)
        }) by {
            if k != n.id {
                assert(seq_get_node(updated, k) == seq_get_node(updated.drop_last(), k));
                assert(seq_get_node(s, k) == seq_get_node(s.drop_last(), k));
            }
        }
    } else {
        assert(updated.last() == s.last());
        assert(updated.drop_last() =~= s.drop_last().update(i, n));
        assert(ids_unique(s.drop_last())) by {
            assert forall|a: int, b: int|
                0 <= a < b < s.drop_last().len() implies s.drop_last()[a].id
                != s.drop_last()[b].id by {
                assert(s.drop_last()[a] == s[a]);
                assert(s.drop_last()[b] == s[b]);
            }
        }
        assert(s.drop_last()[i] == s[i]);
        lemma_node_get_update(s.drop_last(), i, n);
        assert(s[i].id != s[s.len() - 1].id);
        assert forall|k: u32| #![auto] seq_get_node(updated, k) == (if k == n.id {
            Some(n)
        } else {
            seq_get_node(s, k)
        }) by {
            if k == s.last().id {
                assert(k != n.id);
                assert(seq_get_node(updated, k) == Some(updated.last()));
                assert(seq_get_node(s, k) == Some(s.last()));
            } else {
                assert(seq_get_node(updated, k) == seq_get_node(updated.drop_last(), k));
                assert(seq_get_node(s, k) == seq_get_node(s.drop_last(), k));
            }
        }
    }
}

/// The id-indexed node map.
#[derive(Clone, Debug)]
pub struct NodeMap {
    pub entries: Vec<Node>,
}

impl NodeMap {
    /// Well-formed map: no id occurs twice.
    pub open spec fn wf(self) -> bool {
        ids_unique(self.entries@)
    }

    /// Lookup at the specification level.
    pub open spec fn spec_get(self, id: u32) -> Option<Node> {
        seq_get_node(self.entries@, id)
    }

    /// Whether the map holds a node with this id.
    pub open spec fn contains_id(self, id: u32) -> bool {
        self.spec_get(id) is Some
    }

    /// An empty map.
    pub fn new() -> (r: NodeMap)
        ensures
            r.wf(),
            r.entries@.len() == 0,
            forall|k: u32| #![auto] r.spec_get(k) is None,
    {
        NodeMap { entries: Vec::new() }
    }

    /// Number of nodes held.
    pub fn len(&self) -> (r: usize)
        ensures
            r == self.entries@.len(),
    {
        self.entries.len()
    }

    /// Looks a node up by id.
    pub fn get(&self, id: u32) -> (r: Option<&Node>)
        requires
            self.wf(),
        ensures
            match r {
                Some(n) => self.spec_get(id) == Some(*n),
                None => self.spec_get(id) is None,
            },
    {
        let mut i: usize = 0;
        while i < self.entries.len()
            invariant
                i <= self.entries.len(),
                ids_unique(self.entries@),
                forall|j: int| 0 <= j < i ==> self.entries@[j].id != id,
            decreases self.entries.len() - i,
        {
            if self.entries[i].id == id {
                proof {
                    lemma_node_get_characterization(self.entries@, id);
                }
                return Some(&self.entries[i]);
            }
            i = i + 1;
        }
        proof {
            lemma_node_get_characterization(self.entries@, id);
        }
        None
    }

    /// Inserts a node, replacing any node already stored under its id.
    pub fn upsert(&mut self, node: Node)
        requires
            old(self).wf(),
        ensures
            final(self).wf(),
            forall|k: u32| #![auto]
                final(self).spec_get(k) == if k == node.id {
                    Some(node)
                } else {
                    old(self).spec_get(k)
                },
            final(self).entries@.len() == old(self).entries@.len() + (
            if old(self).contains_id(node.id) {
                0int
            } else {
                1int
            }),
    {
        let ghost pre = self.entries@;
        let ghost nid = node.id;
        proof {
            lemma_node_get_characterization(pre, nid);
        }
        let mut i: usize = 0;
        while i < self.entries.len()
            invariant
                i <= self.entries.len(),
                ids_unique(pre),
                pre == old(self).entries@,
                self.entries@ == pre,
                nid == node.id,
                forall|j: int| 0 <= j < i ==> self.entries@[j].id != nid,
            decreases self.entries.len() - i,
        {
            if self.entries[i].id == node.id {
                proof {
                    assert(pre[i as int].id == nid);
                    lemma_node_get_characterization(pre, nid);
                }
                let ghost gnode = node;
                self.entries.set(i, node);
                proof {
                    assert(self.entries@ =~= pre.update(i as int, gnode));
                    lemma_node_get_update(pre, i as int, gnode);
                }
                return;
            }
            i = i + 1;
        }
        proof {
            lemma_node_get_characterization(pre, nid);
        }
        let ghost gnode = node;
        self.entries.push(node);
        proof {
            assert(self.entries@ =~= pre.push(gnode));
            assert(self.entries@.drop_last() =~= pre);
            assert(ids_unique(self.entries@)) by {
                assert forall|a: int, b: int|
                    0 <= a < b < self.entries@.len() implies self.entries@[a].id
                    != self.entries@[b].id by {
                    if b < pre.len() {
                        assert(self.entries@[a] == pre[a] && self.entries@[b] == pre[b]);
                    } else {
                        assert(self.entries@[a] == pre[a] && self.entries@[b].id == nid);
                    }
                }
            }
            assert forall|k: u32| #![auto] seq_get_node(self.entries@, k) == (if k == nid {
                Some(gnode)
            } else {
                seq_get_node(pre, k)
            }) by {
                if k == nid {
                    assert(seq_get_node(self.entries@, k) == Some(self.entries@.last()));
                } else {
                    assert(seq_get_node(self.entries@, k) == seq_get_node(
                        self.entries@.drop_last(),
                        k,
                    ));
                }
            }
        }
    }

    /// Replaces the simulation state of the node stored under `id`, if any;
    /// reports whether such a node was found.
    pub fn update_data(&mut self, id: u32, data: NodeData) -> (found: bool)
        requires
            old(self).wf(),
        ensures
            final(self).wf(),
            found == old(self).contains_id(id),
            final(self).entries@.len() == old(self).entries@.len(),
            forall|k: u32| #![auto]
                final(self).spec_get(k) == if k == id && old(self).contains_id(id) {
                    Some(old(self).spec_get(id)->Some_0.with_data_spec(data))
                } else {
                    old(self).spec_get(k)
                },
    {
        let ghost pre = self.entries@;
        proof {
            lemma_node_get_characterization(pre, id);
        }
        let mut i: usize = 0;
        while i < self.entries.len()
            invariant
                i <= self.entries.len(),
                ids_unique(pre),
                pre == old(self).entries@,
                self.entries@ == pre,
                forall|j: int| 0 <= j < i ==> self.entries@[j].id != id,
            decreases self.entries.len() - i,
        {
            if self.entries[i].id == id {
                proof {
                    assert(pre[i as int].id == id);
                    lemma_node_get_characterization(pre, id);
                    assert(seq_get_node(pre, id) == Some(pre[i as int]));
                }
                let mut tmp = Node {
                    id: 0,
                    metadata_id: String::new(),
                    label: String::new(),
                    data: NodeData::at_rest(),
                    metadata: Vec::new(),
                    file_size: 0,
                    size: None,
                };
                self.entries.set_and_swap(i, &mut tmp);
                tmp.data = data;
                let ghost updated = tmp;
                self.entries.set_and_swap(i, &mut tmp);
                proof {
                    assert(updated == pre[i as int].with_data_spec(data));
                    assert(self.entries@ =~= pre.update(i as int, updated));
                    lemma_node_get_update(pre, i as int, updated);
                }
                return true;
            }
            i = i + 1;
        }
        proof {
            lemma_node_get_characterization(pre, id);
        }
        false
    }
}

} // verus!
