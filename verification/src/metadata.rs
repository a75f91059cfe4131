//! The file-metadata store the graph is built from.
//!
//! The store maps file names to descriptive records.  It is kept as an
//! ordered vector of key/record pairs with unique keys, so that the graph
//! build is a deterministic fold over the entries.

use vstd::prelude::*;

verus! {

/// One descriptive record of the metadata store.
///
/// Numeric display size is kept in milli-units; timestamps are kept as the
/// strings the store supplies, since the engine only copies them through.
#[derive(Clone, Debug)]
pub struct FileMetadata {
    pub file_name: String,
    pub file_size: u64,
    pub node_size_milli: u64,
    pub hyperlink_count: u64,
    pub sha1: String,
    pub node_id: String,
    pub last_modified: String,
    pub perplexity_link: String,
    pub last_perplexity_process: Option<String>,
    pub topic_counts: Vec<(String, u64)>,
}

/// The mathematical value of a [`FileMetadata`].
pub struct FileMetadataView {
    pub file_name: Seq<char>,
    pub file_size: u64,
    pub node_size_milli: u64,
    pub hyperlink_count: u64,
    pub sha1: Seq<char>,
    pub node_id: Seq<char>,
    pub last_modified: Seq<char>,
    pub perplexity_link: Seq<char>,
    pub last_perplexity_process: Option<Seq<char>>,
    pub topic_counts: Seq<(Seq<char>, u64)>,
}

impl View for FileMetadata {
    type V = FileMetadataView;

    open spec fn view(&self) -> FileMetadataView {
        FileMetadataView {
            file_name: self.file_name@,
            file_size: self.file_size,
            node_size_milli: self.node_size_milli,
            hyperlink_count: self.hyperlink_count,
            sha1: self.sha1@,
            node_id: self.node_id@,
            last_modified: self.last_modified@,
            perplexity_link: self.perplexity_link@,
            last_perplexity_process: match self.last_perplexity_process {
                Some(ref s) => Some(s@),
                None => None,
            },
            topic_counts: self.topic_counts@.map_values(|p: (String, u64)| (p.0@, p.1)),
        }
    }
}

impl FileMetadata {
    /// A deep copy with the same mathematical value.
    pub fn duplicate(&self) -> (r: FileMetadata)
        ensures
            r@ == self@,
    {
        let mut topic_counts: Vec<(String, u64)> = Vec::new();
        let mut i: usize = 0;
        while i < self.topic_counts.len()
            invariant
                i <= self.topic_counts.len(),
                topic_counts@ =~= self.topic_counts@.subrange(0, i as int),
            decreases self.topic_counts.len() - i,
        {
            let pair = (self.topic_counts[i].0.clone(), self.topic_counts[i].1);
            topic_counts.push(pair);
            i = i + 1;
        }
        let last_perplexity_process = match &self.last_perplexity_process {
            Some(s) => Some(s.clone()),
            None => None,
        };
        let r = FileMetadata {
            file_name: self.file_name.clone(),
            file_size: self.file_size,
            node_size_milli: self.node_size_milli,
            hyperlink_count: self.hyperlink_count,
            sha1: self.sha1.clone(),
            node_id: self.node_id.clone(),
            last_modified: self.last_modified.clone(),
            perplexity_link: self.perplexity_link.clone(),
            last_perplexity_process,
            topic_counts,
        };
        proof {
            assert(r@.topic_counts =~= self@.topic_counts);
        }
        r
    }
}

/// First-match lookup over view-level key/record pairs, searched from the
/// back; with unique keys this is the only match.
pub open spec fn spec_store_get(
    pairs: Seq<(Seq<char>, FileMetadataView)>,
    key: Seq<char>,
) -> Option<FileMetadataView>
    decreases pairs.len(),
{
    if pairs.len() == 0 {
        None
    } else if pairs.last().0 == key {
        Some(pairs.last().1)
    } else {
        spec_store_get(pairs.drop_last(), key)
    }
}

/// The metadata store: an ordered mapping from file name to record.
#[derive(Clone, Debug)]
pub struct MetadataStore {
    pub entries: Vec<(String, FileMetadata)>,
}

impl View for MetadataStore {
    type V = Seq<(Seq<char>, FileMetadataView)>;

    open spec fn view(&self) -> Seq<(Seq<char>, FileMetadataView)> {
        self.entries@.map_values(|p: (String, FileMetadata)| (p.0@, p.1@))
    }
}

/// Keys are pairwise distinct.
pub open spec fn store_keys_unique(pairs: Seq<(Seq<char>, FileMetadataView)>) -> bool {
    forall|i: int, j: int| 0 <= i < j < pairs.len() ==> pairs[i].0 != pairs[j].0
}

impl MetadataStore {
    /// Well-formed store: no key occurs twice.
    pub open spec fn wf(self) -> bool {
        store_keys_unique(self@)
    }

    /// An empty store.
    pub fn new() -> (r: MetadataStore)
        ensures
            r@ == Seq::<(Seq<char>, FileMetadataView)>::empty(),
            r.wf(),
    {
        let r = MetadataStore { entries: Vec::new() };
        proof {
            assert(r@ =~= Seq::<(Seq<char>, FileMetadataView)>::empty());
        }
        r
    }

    /// Number of records.
    pub fn len(&self) -> (r: usize)
        ensures
            r == self@.len(),
    {
        self.entries.len()
    }

    /// Looks a record up by its file name.
    pub fn get(&self, key: &String) -> (r: Option<&FileMetadata>)
        requires
            self.wf(),
        ensures
            match r {
                Some(m) => spec_store_get(self@, key@) == Some(m@),
                None => spec_store_get(self@, key@) is None,
            },
    {
        proof {
            lemma_store_get_characterization(self@, key@);
        }
        let mut i: usize = 0;
        while i < self.entries.len()
            invariant
                i <= self.entries.len(),
                store_keys_unique(self@),
                forall|j: int| 0 <= j < i ==> self@[j].0 != key@,
                self@.len() == self.entries.len(),
                forall|j: int|
                    0 <= j < self@.len() ==> self@[j] == (self.entries@[j].0@, self.entries@[j].1@),
            decreases self.entries.len() - i,
        {
            if self.entries[i].0 == *key {
                proof {
                    lemma_store_get_characterization(self@, key@);
                    assert(self@[i as int].0 == key@);
                    assert(spec_store_get(self@, key@) == Some(self@[i as int].1));
                    assert(self@[i as int].1 == self.entries@[i as int].1@);
                }
                return Some(&self.entries[i].1);
            }
            i = i + 1;
        }
        proof {
            lemma_store_get_characterization(self@, key@);
        }
        None
    }

    /// Inserts a record, replacing any record already stored under the key.
    pub fn insert(&mut self, key: String, record: FileMetadata)
        requires
            old(self).wf(),
        ensures
            final(self).wf(),
            forall|k: Seq<char>| #![auto]
                spec_store_get(final(self)@, k) == if k == key@ {
                    Some(record@)
                } else {
                    spec_store_get(old(self)@, k)
                },
    {
        proof {
            lemma_store_get_characterization(self@, key@);
        }
        let ghost pre = self@;
        let mut i: usize = 0;
        while i < self.entries.len()
            invariant
                i <= self.entries.len(),
                store_keys_unique(pre),
                pre == old(self)@,
                forall|j: int| 0 <= j < i ==> self@[j].0 != key@,
                self@ == pre,
                self@.len() == self.entries.len(),
                forall|j: int|
                    0 <= j < self@.len() ==> self@[j] == (self.entries@[j].0@, self.entries@[j].1@),
            decreases self.entries.len() - i,
        {
            if self.entries[i].0 == key {
                let ghost pk = key@;
                let ghost pr = record@;
                proof {
                    assert(pre[i as int].0 == pk);
                }
                self.entries.set(i, (key, record));
                proof {
                    assert(self@ =~= pre.update(i as int, (pk, pr)));
                    lemma_store_get_update(pre, i as int, (pk, pr));
                    assert forall|k: Seq<char>| #![auto] spec_store_get(self@, k) == (if k == pk {
                        Some(pr)
                    } else {
                        spec_store_get(pre, k)
                    }) by {
                        assert(spec_store_get(pre.update(i as int, (pk, pr)), k) == (if k == pk {
                            Some(pr)
                        } else {
                            spec_store_get(pre, k)
                        }));
                    }
                }
                return;
            }
            i = i + 1;
        }
        let ghost pk = key@;
        let ghost pr = record@;
        self.entries.push((key, record));
        proof {
            assert(self@ =~= pre.push((pk, pr)));
            assert(self@.drop_last() =~= pre);
            assert forall|k: Seq<char>| #![auto] spec_store_get(self@, k) == (if k == pk {
                Some(pr)
            } else {
                spec_store_get(pre, k)
            }) by {
                if k == pk {
                    assert(self@.last().0 == pk);
                    assert(spec_store_get(self@, k) == Some(self@.last().1));
                } else {
                    assert(spec_store_get(self@, k) == spec_store_get(self@.drop_last(), k));
                }
            }
            assert(store_keys_unique(self@)) by {
                assert forall|a: int, b: int| 0 <= a < b < self@.len() implies self@[a].0
                    != self@[b].0 by {
                    if b < pre.len() {
                        assert(self@[a] == pre[a] && self@[b] == pre[b]);
                    } else {
                        assert(self@[a] == pre[a] && self@[b].0 == pk);
                    }
                }
            }
        }
    }
}

/// A deep copy of the store with the same mathematical value.
impl MetadataStore {
    pub fn duplicate(&self) -> (r: MetadataStore)
        ensures
            r@ == self@,
    {
        let mut entries: Vec<(String, FileMetadata)> = Vec::new();
        let mut i: usize = 0;
        while i < self.entries.len()
            invariant
                i <= self.entries.len(),
                entries@.len() == i,
                forall|j: int|
                    0 <= j < i ==> (#[trigger] entries@[j]).0@ == self.entries@[j].0@
                        && entries@[j].1@ == self.entries@[j].1@,
            decreases self.entries.len() - i,
        {
            let pair = (self.entries[i].0.clone(), self.entries[i].1.duplicate());
            entries.push(pair);
            i = i + 1;
        }
        let r = MetadataStore { entries };
        proof {
            assert(r@ =~= self@);
        }
        r
    }
}

/// With unique keys, the recursive lookup agrees with any positional match:
/// it returns the record at a matching index, and returns `None` exactly
/// when no index matches.
pub proof fn lemma_store_get_characterization(
    pairs: Seq<(Seq<char>, FileMetadataView)>,
    key: Seq<char>,
)
    requires
        store_keys_unique(pairs),
    ensures
        (spec_store_get(pairs, key) is Some) <==> exists|i: int|
            0 <= i < pairs.len() && pairs[i].0 == key,
        forall|i: int|
            0 <= i < pairs.len() && pairs[i].0 == key ==> spec_store_get(pairs, key) == Some(
                pairs[i].1,
            ),
    decreases pairs.len(),
{
    if pairs.len() > 0 {
        assert(pairs.drop_last() =~= pairs.subrange(0, pairs.len() - 1));
        lemma_store_get_characterization(pairs.drop_last(), key);
        if pairs.last().0 == key {
            assert(pairs[pairs.len() - 1].0 == key);
        } else {
            assert forall|i: int|
                0 <= i < pairs.len() && pairs[i].0 == key implies spec_store_get(pairs, key)
                == Some(pairs[i].1) by {
                assert(i < pairs.len() - 1);
                assert(pairs.drop_last()[i] == pairs[i]);
            }
            if exists|i: int| 0 <= i < pairs.len() && pairs[i].0 == key {
                let i = choose|i: int| 0 <= i < pairs.len() && pairs[i].0 == key;
                assert(i < pairs.len() - 1);
                assert(pairs.drop_last()[i].0 == key);
            }
        }
    }
}

/// Updating one pair redirects lookups of its (unchanged) key and leaves
/// every other key's lookup unchanged, provided keys are unique and the new
/// pair keeps the key at that position.
pub proof fn lemma_store_get_update(
    pairs: Seq<(Seq<char>, FileMetadataView)>,
    i: int,
    p: (Seq<char>, FileMetadataView),
)
    requires
        store_keys_unique(pairs),
        0 <= i < pairs.len(),
        p.0 == pairs[i].0,
    ensures
        store_keys_unique(pairs.update(i, p)),
        forall|k: Seq<char>| #![auto]
            spec_store_get(pairs.update(i, p), k) == if k == p.0 {
                Some(p.1)
            } else {
                spec_store_get(pairs, k)
            },
    decreases pairs.len(),
{
    let updated = pairs.update(i, p);
    assert(store_keys_unique(updated)) by {
        assert forall|a: int, b: int| 0 <= a < b < updated.len() implies updated[a].0
            != updated[b].0 by {
            assert(updated[a].0 == pairs[a].0);
            assert(updated[b].0 == pairs[b].0);
        }
    }
    if i == pairs.len() - 1 {
        assert(updated.last() == p);
        assert(updated.drop_last() =~= pairs.drop_last());
        assert forall|k: Seq<char>| #![auto] spec_store_get(updated, k) == (if k == p.0 {
            Some(p.1)
        } else {
            spec_store_get(pairs, k)
        }) by {
            if k != p.0 {
                assert(spec_store_get(updated, k) == spec_store_get(updated.drop_last(), k));
                assert(spec_store_get(pairs, k) == spec_store_get(pairs.drop_last(), k));
            }
        }
    } else {
        assert(updated.last() == pairs.last());
        assert(updated.drop_last() =~= pairs.drop_last().update(i, p));
        assert(store_keys_unique(pairs.drop_last())) by {
            assert forall|a: int, b: int|
                0 <= a < b < pairs.drop_last().len() implies pairs.drop_last()[a].0
                != pairs.drop_last()[b].0 by {
                assert(pairs.drop_last()[a] == pairs[a]);
                assert(pairs.drop_last()[b] == pairs[b]);
            }
        }
        assert(pairs.drop_last()[i] == pairs[i]);
        lemma_store_get_update(pairs.drop_last(), i, p);
        assert(pairs[i].0 != pairs[pairs.len() - 1].0);
        assert forall|k: Seq<char>| #![auto] spec_store_get(updated, k) == (if k == p.0 {
            Some(p.1)
        } else {
            spec_store_get(pairs, k)
        }) by {
            if k == pairs.last().0 {
                assert(k != p.0);
                assert(spec_store_get(updated, k) == Some(updated.last().1));
                assert(spec_store_get(pairs, k) == Some(pairs.last().1));
            } else {
                assert(spec_store_get(updated, k) == spec_store_get(updated.drop_last(), k));
                assert(spec_store_get(pairs, k) == spec_store_get(pairs.drop_last(), k));
            }
        }
    }
}

} // verus!
