//! The (node type, node name) to integer-id vocabulary.
//!
//! Insertion is idempotent — the same pair always maps to the same id — and
//! injective — distinct pairs receive distinct ids.  Ids are assigned densely
//! in insertion order, so the id range is `0..len()`.

use vstd::prelude::*;

use crate::strutil::{clone_string, str_eq};

verus! {

/// A vocabulary: a growable, duplicate-free list of (node type, node name)
/// pairs, where a pair's index is its integer id.
///
/// The identity field distinguishes vocabulary instances.  Whoever allocates
/// a vocabulary acts as the factory and must hand each instance of a run a
/// distinct identity; instances are then compared by that value.
pub struct Vocab {
    /// Instance identity, for `is_identical` and the translation helpers.
    pub vocab_id: usize,
    /// Pair with id `i` at index `i`: (node type, node name).
    pub nodes: Vec<(String, String)>,
}

impl Vocab {
    /// The (type, name) key stored under id `i`, as character sequences.
    pub open spec fn key_at(self, i: int) -> (Seq<char>, Seq<char>) {
        (self.nodes@[i].0@, self.nodes@[i].1@)
    }

    /// Number of pairs inserted so far.
    pub open spec fn spec_len(self) -> nat {
        self.nodes@.len()
    }

    /// Well-formed: no key occurs twice.
    pub open spec fn wf(self) -> bool {
        forall|i: int, j: int|
            0 <= i < j < self.nodes@.len() ==> self.key_at(i) != self.key_at(j)
    }

    /// The key `(t, n)` is present.
    pub open spec fn has_key(self, t: Seq<char>, n: Seq<char>) -> bool {
        exists|i: int| 0 <= i < self.nodes@.len() && self.key_at(i) == (t, n)
    }

    /// The id under which the key `(t, n)` is stored.
    pub open spec fn id_of(self, t: Seq<char>, n: Seq<char>) -> int {
        choose|i: int| 0 <= i < self.nodes@.len() && self.key_at(i) == (t, n)
    }

    /// An empty vocabulary carrying the identity its allocator assigned.
    pub fn new(vocab_id: usize) -> (r: Vocab)
        ensures
            r.wf(),
            r.spec_len() == 0,
            r.vocab_id == vocab_id,
    {
        Vocab { vocab_id, nodes: Vec::new() }
    }

    /// Whether the two vocabularies are the same instance, by identity.
    pub fn is_identical(&self, other: &Vocab) -> (r: bool)
        ensures
            r == (self.vocab_id == other.vocab_id),
    {
        self.vocab_id == other.vocab_id
    }

    /// Number of pairs inserted so far.
    pub fn len(&self) -> (r: usize)
        ensures
            r == self.spec_len(),
    {
        self.nodes.len()
    }

    /// The id of the key `(node_type, name)`, if it has been inserted.
    pub fn get_node_id(&self, node_type: String, name: String) -> (r: Option<usize>)
        requires
            self.wf(),
        ensures
            match r {
                Some(id) => id < self.spec_len() && self.key_at(
                    id as int,
                ) == (node_type@, name@),
                None => !self.has_key(node_type@, name@),
            },
    {
        self.lookup(node_type.as_str(), name.as_str())
    }

    /// Linear scan for a key.
    fn lookup(&self, node_type: &str, name: &str) -> (r: Option<usize>)
        requires
            self.wf(),
        ensures
            match r {
                Some(id) => id < self.spec_len() && self.key_at(
                    id as int,
                ) == (node_type@, name@),
                None => !self.has_key(node_type@, name@),
            },
    {
        let mut i: usize = 0;
        while i < self.nodes.len()
            invariant
                i <= self.nodes@.len(),
                forall|j: int| 0 <= j < i ==> self.key_at(j) != (node_type@, name@),
            decreases self.nodes@.len() - i,
        {
            let hit = str_eq(self.nodes[i].0.as_str(), node_type) && str_eq(
                self.nodes[i].1.as_str(),
                name,
            );
            if hit {
                return Some(i);
            }
            i += 1;
        }
        None
    }

    /// Insert the key if it is new; either way return its id.
    ///
    /// Idempotent: a key that is already present leaves the vocabulary
    /// unchanged and returns the id it already had.  A new key is appended
    /// and receives the next id.
    pub fn get_or_insert(&mut self, node_type: String, name: String) -> (r: usize)
        requires
            old(self).wf(),
        ensures
            final(self).wf(),
            final(self).vocab_id == old(self).vocab_id,
            r < final(self).spec_len(),
            final(self).key_at(r as int) == (node_type@, name@),
            old(self).has_key(node_type@, name@) ==> *final(self) == *old(self),
            !old(self).has_key(node_type@, name@) ==> {
                &&& final(self).spec_len() == old(self).spec_len() + 1
                &&& r == old(self).spec_len()
                &&& final(self).nodes@.drop_last() == old(self).nodes@
            },
    {
        let existing = self.lookup(node_type.as_str(), name.as_str());
        match existing {
            Some(id) => id,
            None => {
                let id = self.nodes.len();
                self.nodes.push((node_type, name));
                proof {
                    assert(self.nodes@.drop_last() =~= old(self).nodes@);
                    let last = self.nodes@.len() - 1;
                    assert(self.key_at(last) == (node_type@, name@));
                    assert forall|i: int, j: int|
                        0 <= i < j < self.nodes@.len() implies self.key_at(i) != self.key_at(
                        j,
                    ) by {
                        assert(self.key_at(i) == old(self).key_at(i));
                        if j < last {
                            assert(old(self).key_at(i) != old(self).key_at(j));
                            assert(self.key_at(j) == old(self).key_at(j));
                        } else {
                            if self.key_at(i) == (node_type@, name@) {
                                assert(old(self).key_at(i) == (node_type@, name@));
                                assert(old(self).has_key(node_type@, name@));
                            }
                        }
                    }
                }
                id
            },
        }
    }

    /// The (type, name) pair stored under the id, if the id is in range.
    pub fn get_name(&self, node: usize) -> (r: Option<(String, String)>)
        ensures
            match r {
                Some(p) => node < self.spec_len() && (p.0@, p.1@) == self.key_at(node as int),
                None => node >= self.spec_len(),
            },
    {
        if node < self.nodes.len() {
            let t = clone_string(&self.nodes[node].0);
            let n = clone_string(&self.nodes[node].1);
            Some((t, n))
        } else {
            None
        }
    }

    /// The node type stored under the id, if the id is in range.
    pub fn get_node_type(&self, node: usize) -> (r: Option<String>)
        ensures
            match r {
                Some(t) => node < self.spec_len() && t@ == self.key_at(node as int).0,
                None => node >= self.spec_len(),
            },
    {
        if node < self.nodes.len() {
            Some(clone_string(&self.nodes[node].0))
        } else {
            None
        }
    }

    /// Map an id of `other` to the id of the same (type, name) pair here.
    ///
    /// Two vocabularies with the same identity are taken to be the same
    /// instance, so the id is returned unchanged; otherwise the pair is
    /// looked up by value.
    pub fn translate_node(&self, other: &Vocab, other_node_id: usize) -> (r: Option<usize>)
        requires
            self.wf(),
            other.wf(),
        ensures
            self.vocab_id == other.vocab_id ==> r == Some(other_node_id),
            self.vocab_id != other.vocab_id ==> match r {
                Some(id) => {
                    &&& other_node_id < other.spec_len()
                    &&& id < self.spec_len()
                    &&& self.key_at(id as int) == other.key_at(other_node_id as int)
                },
                None => other_node_id >= other.spec_len() || !self.has_key(
                    other.key_at(other_node_id as int).0,
                    other.key_at(other_node_id as int).1,
                ),
            },
    {
        if self.is_identical(other) {
            Some(other_node_id)
        } else if other_node_id < other.nodes.len() {
            self.lookup(
                other.nodes[other_node_id].0.as_str(),
                other.nodes[other_node_id].1.as_str(),
            )
        } else {
            None
        }
    }

    /// For every id here, the id of the same pair in `to_vocab` (`None` where
    /// the pair is absent there).  Two vocabularies with the same identity
    /// translate every id to itself.
    pub fn create_translation_table(&self, to_vocab: &Vocab) -> (r: Vec<Option<usize>>)
        requires
            self.wf(),
            to_vocab.wf(),
        ensures
            r@.len() == self.spec_len(),
            self.vocab_id == to_vocab.vocab_id ==> forall|i: int|
                0 <= i < r@.len() ==> r@[i] == Some(i as usize),
            self.vocab_id != to_vocab.vocab_id ==> forall|i: int|
                0 <= i < r@.len() ==> match #[trigger] r@[i] {
                    Some(id) => id < to_vocab.spec_len() && to_vocab.key_at(
                        id as int,
                    ) == self.key_at(i),
                    None => !to_vocab.has_key(self.key_at(i).0, self.key_at(i).1),
                },
    {
        let mut r: Vec<Option<usize>> = Vec::new();
        let same = self.is_identical(to_vocab);
        let mut i: usize = 0;
        while i < self.nodes.len()
            invariant
                self.wf(),
                to_vocab.wf(),
                same == (self.vocab_id == to_vocab.vocab_id),
                i <= self.nodes@.len(),
                r@.len() == i,
                same ==> forall|j: int| 0 <= j < i ==> r@[j] == Some(j as usize),
                !same ==> forall|j: int|
                    0 <= j < i ==> match #[trigger] r@[j] {
                        Some(id) => id < to_vocab.spec_len() && to_vocab.key_at(
                            id as int,
                        ) == self.key_at(j),
                        None => !to_vocab.has_key(self.key_at(j).0, self.key_at(j).1),
                    },
            decreases self.nodes@.len() - i,
        {
            if same {
                r.push(Some(i));
            } else {
                r.push(
                    to_vocab.lookup(self.nodes[i].0.as_str(), self.nodes[i].1.as_str()),
                );
            }
            i += 1;
        }
        r
    }
}

/// Insertion is idempotent at the model level: a key sits under exactly one
/// id, so looking the key up always yields the id it was first inserted
/// under.
pub proof fn lemma_vocab_idempotent(v: Vocab, i: int, t: Seq<char>, n: Seq<char>)
    requires
        v.wf(),
        0 <= i < v.spec_len(),
        v.key_at(i) == (t, n),
    ensures
        v.has_key(t, n),
        v.id_of(t, n) == i,
{
    assert(v.has_key(t, n));
    let j = v.id_of(t, n);
    if j != i {
        lemma_vocab_injective(v, i, j);
    }
}

/// Distinct ids always carry distinct (type, name) pairs: vocabulary
/// insertion is injective.
pub proof fn lemma_vocab_injective(v: Vocab, i: int, j: int)
    requires
        v.wf(),
        0 <= i < v.spec_len(),
        0 <= j < v.spec_len(),
        i != j,
    ensures
        v.key_at(i) != v.key_at(j),
{
    if i < j {
        assert(v.key_at(i) != v.key_at(j));
    } else {
        assert(v.key_at(j) != v.key_at(i));
    }
}

} // verus!
