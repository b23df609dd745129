//! Settings keyed by method-name prefixes, held in a `sequence_trie`
//! trie: a lookup finds the setting of the longest configured prefix.

use vstd::prelude::*;

use sequence_trie::SequenceTrie;

verus! {

/// A `SequenceTrie` from sequences of name pieces to positions. Its
/// contents are known through `trie_entries` alone.
#[verifier::external_body]
pub struct IndexTrie {
    trie: SequenceTrie<String, usize>,
}

/// What a trie of name pieces holds: the key of each node that has a
/// value, mapped to that value.
pub uninterp spec fn trie_entries(t: IndexTrie) -> Map<Seq<Seq<char>>, usize>;

/// The value of the longest prefix of `key` (the empty prefix and `key`
/// itself included) that has one.
pub open spec fn nearest_ancestor<V>(entries: Map<Seq<Seq<char>>, V>, key: Seq<Seq<char>>) -> Option<V>
    decreases key.len(),
{
    if entries.contains_key(key) {
        Some(entries[key])
    } else if key.len() == 0 {
        None
    } else {
        nearest_ancestor(entries, key.drop_last())
    }
}

/// The lookup answers with the setting of the longest prefix of the key
/// that has one, and with nothing where no prefix has one.
pub proof fn lemma_nearest_is_longest_prefix<V>(entries: Map<Seq<Seq<char>>, V>, key: Seq<Seq<char>>)
    ensures
        match nearest_ancestor(entries, key) {
            Some(v) => exists|j: int|
                0 <= j <= key.len() && entries.contains_key(#[trigger] key.take(j)) && entries[key.take(
                    j,
                )] == v && forall|l: int|
                    j < l <= key.len() ==> !entries.contains_key(#[trigger] key.take(l)),
            None => forall|j: int| 0 <= j <= key.len() ==> !entries.contains_key(#[trigger] key.take(j)),
        },
    decreases key.len(),
{
    assert(key.take(key.len() as int) =~= key);
    if entries.contains_key(key) {
    } else if key.len() == 0 {
    } else {
        let k0 = key.drop_last();
        lemma_nearest_is_longest_prefix(entries, k0);
        assert forall|l: int| 0 <= l <= k0.len() implies #[trigger] k0.take(l) == key.take(l) by {
            assert(k0.take(l) =~= key.take(l));
        }
        match nearest_ancestor(entries, k0) {
            Some(v) => {
                let j = choose|j: int|
                    0 <= j <= k0.len() && entries.contains_key(#[trigger] k0.take(j)) && entries[k0.take(
                        j,
                    )] == v && forall|l: int|
                        j < l <= k0.len() ==> !entries.contains_key(#[trigger] k0.take(l));
                assert(key.take(j) == k0.take(j));
                assert forall|l: int| j < l <= key.len() implies !entries.contains_key(
                    #[trigger] key.take(l),
                ) by {
                    if l < key.len() {
                        assert(k0.take(l) == key.take(l));
                        assert(!entries.contains_key(k0.take(l)));
                    }
                }
            },
            None => {
                assert forall|j: int| 0 <= j <= key.len() implies !entries.contains_key(
                    #[trigger] key.take(j),
                ) by {
                    if j < key.len() {
                        assert(k0.take(j) == key.take(j));
                        assert(!entries.contains_key(k0.take(j)));
                    }
                }
            },
        }
    }
}

/// A setting stored under a key is what a lookup of that key gives back.
pub proof fn lemma_nearest_after_insert<V>(entries: Map<Seq<Seq<char>>, V>, key: Seq<Seq<char>>, value: V)
    ensures
        nearest_ancestor(entries.insert(key, value), key) == Some(value),
{
}

/// Looking up through a map of the settings is looking up the setting and
/// then mapping it.
pub proof fn lemma_nearest_map_values<V, W>(
    m: Map<Seq<Seq<char>>, V>,
    f: spec_fn(V) -> W,
    key: Seq<Seq<char>>,
)
    ensures
        nearest_ancestor(m.map_values(f), key) == (match nearest_ancestor(m, key) {
            Some(v) => Some(f(v)),
            None => None,
        }),
    decreases key.len(),
{
    if key.len() > 0 {
        lemma_nearest_map_values(m, f, key.drop_last());
    }
}

/// The views of a sequence of borrowed strings.
pub open spec fn ref_views(v: Seq<&String>) -> Seq<Seq<char>> {
    v.map_values(|p: &String| p@)
}

/// `SequenceTrie::new`: a trie with no entries.
#[verifier::external_body]
fn empty_index_trie() -> (fresh: IndexTrie)
    ensures
        trie_entries(fresh).dom() == Set::<Seq<Seq<char>>>::empty(),
{
    IndexTrie { trie: SequenceTrie::new() }
}

/// `SequenceTrie::insert_owned`: stores `value` under `key`, replacing the
/// value stored there before, which it returns.
#[verifier::external_body]
fn index_trie_insert(t: &mut IndexTrie, key: Vec<String>, value: usize) -> (prev:
    Option<usize>)
    ensures
        trie_entries(*final(t)) == trie_entries(*old(t)).insert(
            key@.map_values(|p: String| p@),
            value,
        ),
        prev == (if trie_entries(*old(t)).contains_key(key@.map_values(|p: String| p@)) {
            Some(trie_entries(*old(t))[key@.map_values(|p: String| p@)])
        } else {
            None
        }),
{
    t.trie.insert_owned(key, value)
}

/// `SequenceTrie::get_ancestor`: the value of the nearest node on the
/// path of `key` that has one.
#[verifier::external_body]
fn index_trie_ancestor(t: &IndexTrie, key: Vec<&String>) -> (r: Option<usize>)
    ensures
        r == nearest_ancestor(trie_entries(*t), ref_views(key@)),
{
    t.trie.get_ancestor(key).copied()
}

/// Settings of type `V` keyed by sequences of name pieces.
pub struct MethodTrie<V> {
    index: IndexTrie,
    values: Vec<V>,
}

impl<V> MethodTrie<V> {
    /// Every node of the trie refers to a stored setting.
    #[verifier::type_invariant]
    closed spec fn wf(&self) -> bool {
        forall|k: Seq<Seq<char>>| #[trigger]
            trie_entries(self.index).contains_key(k) ==> trie_entries(self.index)[k]
                < self.values.len()
    }

    /// The setting stored under each key.
    pub closed spec fn entries(&self) -> Map<Seq<Seq<char>>, V> {
        Map::new(
            |k: Seq<Seq<char>>| trie_entries(self.index).contains_key(k),
            |k: Seq<Seq<char>>| self.values@[trie_entries(self.index)[k] as int],
        )
    }

    /// A trie with no settings.
    pub fn new() -> (t: MethodTrie<V>)
        ensures
            t.entries() == Map::<Seq<Seq<char>>, V>::empty(),
    {
        let t = MethodTrie { index: empty_index_trie(), values: Vec::new() };
        assert(t.entries() =~= Map::<Seq<Seq<char>>, V>::empty());
        t
    }

    /// Stores `value` under `key`.
    pub fn insert(&mut self, key: Vec<String>, value: V)
        ensures
            final(self).entries() == old(self).entries().insert(
                key@.map_values(|p: String| p@),
                value,
            ),
    {
        let ghost k = key@.map_values(|p: String| p@);
        let mut taken = MethodTrie::new();
        std::mem::swap(self, &mut taken);
        proof {
            use_type_invariant(&taken);
        }
        let MethodTrie { mut index, mut values } = taken;
        let idx = values.len();
        values.push(value);
        let _ = index_trie_insert(&mut index, key, idx);
        *self = MethodTrie { index, values };
        assert(self.entries() =~= old(self).entries().insert(k, value));
    }

    /// The setting of the longest prefix of `key` that has one.
    pub fn lookup(&self, key: Vec<&String>) -> (r: Option<&V>)
        ensures
            r is Some <==> nearest_ancestor(self.entries(), ref_views(key@)) is Some,
            r matches Some(v) ==> nearest_ancestor(self.entries(), ref_views(key@)) == Some(*v),
    {
        let ghost k = ref_views(key@);
        proof {
            use_type_invariant(self);
            self.lemma_nearest(k);
        }
        match index_trie_ancestor(&self.index, key) {
            Some(i) => Some(&self.values[i]),
            None => None,
        }
    }

    proof fn lemma_nearest(&self, key: Seq<Seq<char>>)
        requires
            self.wf(),
        ensures
            nearest_ancestor(self.entries(), key) == (match nearest_ancestor(
                trie_entries(self.index),
                key,
            ) {
                Some(i) => Some(self.values@[i as int]),
                None => None,
            }),
            nearest_ancestor(trie_entries(self.index), key) matches Some(i) ==> i
                < self.values.len(),
        decreases key.len(),
    {
        if key.len() > 0 {
            self.lemma_nearest(key.drop_last());
        }
    }
}

} // verus!
