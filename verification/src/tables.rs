//! Small string-keyed tables: a map from names to names and a set of
//! names.

use vstd::prelude::*;

use vstd::set_lib::lemma_len_subset;

use crate::text::same_text;

verus! {

/// The views of the entries of a `StringMap`.
pub open spec fn pair_views(s: Seq<(String, String)>) -> Seq<(Seq<char>, Seq<char>)> {
    s.map_values(|p: (String, String)| (p.0@, p.1@))
}

/// The value of the first entry named `key`.
pub open spec fn first_value(s: Seq<(Seq<char>, Seq<char>)>, key: Seq<char>) -> Option<Seq<char>>
    decreases s.len(),
{
    if s.len() == 0 {
        None
    } else if s[0].0 == key {
        Some(s[0].1)
    } else {
        first_value(s.drop_first(), key)
    }
}

/// The names of the entries.
pub open spec fn entry_keys(s: Seq<(Seq<char>, Seq<char>)>) -> Seq<Seq<char>> {
    s.map_values(|p: (Seq<char>, Seq<char>)| p.0)
}

/// A name with a value is the name of an entry.
proof fn lemma_first_value_key(s: Seq<(Seq<char>, Seq<char>)>, key: Seq<char>)
    requires
        first_value(s, key) is Some,
    ensures
        entry_keys(s).contains(key),
    decreases s.len(),
{
    if s[0].0 == key {
        assert(entry_keys(s)[0] == key);
    } else {
        lemma_first_value_key(s.drop_first(), key);
        let i = choose|i: int| 0 <= i < entry_keys(s.drop_first()).len() && entry_keys(s.drop_first())[i] == key;
        assert(entry_keys(s)[i + 1] == key);
    }
}

/// A map from names to names. The newest entry for a name shadows the
/// older ones.
pub struct StringMap {
    entries: Vec<(String, String)>,
}

impl View for StringMap {
    type V = Map<Seq<char>, Seq<char>>;

    closed spec fn view(&self) -> Map<Seq<char>, Seq<char>> {
        Map::new(
            |k: Seq<char>| first_value(pair_views(self.entries@), k) is Some,
            |k: Seq<char>| first_value(pair_views(self.entries@), k)->0,
        )
    }
}

impl StringMap {
    /// An empty map.
    pub fn new() -> (m: StringMap)
        ensures
            m@ == Map::<Seq<char>, Seq<char>>::empty(),
    {
        let m = StringMap { entries: Vec::new() };
        assert(m@ =~= Map::<Seq<char>, Seq<char>>::empty());
        m
    }

    /// Maps `key` to `value`, replacing what `key` mapped to before.
    pub fn insert(&mut self, key: String, value: String)
        ensures
            final(self)@ == old(self)@.insert(key@, value@),
    {
        let ghost old_views = pair_views(self.entries@);
        self.entries.insert(0, (key, value));
        let ghost new_views = pair_views(self.entries@);
        assert(new_views.drop_first() =~= old_views);
        assert(new_views[0] == (key@, value@));
        assert(self@ =~= old(self)@.insert(key@, value@));
    }

    /// A map holds finitely many names.
    pub proof fn lemma_finite(&self)
        ensures
            self@.dom().finite(),
    {
        let keys = entry_keys(pair_views(self.entries@));
        assert forall|k: Seq<char>| #[trigger] self@.dom().contains(k) implies keys.to_set().contains(k) by {
            lemma_first_value_key(pair_views(self.entries@), k);
        }
        vstd::seq_lib::seq_to_set_is_finite(keys);
        lemma_len_subset(self@.dom(), keys.to_set());
    }

    /// The name that `key` maps to.
    pub fn get(&self, key: &str) -> (r: Option<&String>)
        ensures
            r is Some <==> self@.contains_key(key@),
            r matches Some(v) ==> v@ == self@[key@],
    {
        let ghost pv = pair_views(self.entries@);
        let n = self.entries.len();
        let mut i: usize = 0;
        assert(pv.skip(0) =~= pv);
        while i < n
            invariant
                n == self.entries.len(),
                pv == pair_views(self.entries@),
                i <= n,
                first_value(pv, key@) == first_value(pv.skip(i as int), key@),
            decreases n - i,
        {
            assert(pv.skip(i as int)[0] == pv[i as int]);
            assert(pv.skip(i as int).drop_first() =~= pv.skip(i + 1));
            if same_text(self.entries[i].0.as_str(), key) {
                return Some(&self.entries[i].1);
            }
            i = i + 1;
        }
        None
    }
}

/// A set of names.
pub struct StringSet {
    items: Vec<String>,
}

impl View for StringSet {
    type V = Set<Seq<char>>;

    closed spec fn view(&self) -> Set<Seq<char>> {
        Set::new(|s: Seq<char>| exists|i: int| 0 <= i < self.items.len() && self.items@[i]@ == s)
    }
}

impl StringSet {
    /// An empty set.
    pub fn new() -> (s: StringSet)
        ensures
            s@ == Set::<Seq<char>>::empty(),
    {
        let s = StringSet { items: Vec::new() };
        assert(s@ =~= Set::<Seq<char>>::empty());
        s
    }

    /// Adds `name` to the set.
    pub fn insert(&mut self, name: String)
        ensures
            final(self)@ == old(self)@.insert(name@),
    {
        let ghost old_items = self.items@;
        self.items.push(name);
        assert forall|s: Seq<char>| #[trigger] old(self)@.insert(name@).contains(s) implies self@.contains(
            s,
        ) by {
            if s == name@ {
                assert(self.items@[old_items.len() as int]@ == s);
            } else {
                let i = choose|i: int| 0 <= i < old_items.len() && old_items[i]@ == s;
                assert(self.items@[i]@ == s);
            }
        }
        assert forall|s: Seq<char>| #[trigger] self@.contains(s) implies old(self)@.insert(
            name@,
        ).contains(s) by {
            let i = choose|i: int| 0 <= i < self.items.len() && self.items@[i]@ == s;
            if i < old_items.len() {
                assert(old_items[i]@ == s);
            }
        }
        assert(self@ =~= old(self)@.insert(name@));
    }

    /// Whether `name` is in the set.
    pub fn contains(&self, name: &str) -> (r: bool)
        ensures
            r == self@.contains(name@),
    {
        let n = self.items.len();
        let mut i: usize = 0;
        while i < n
            invariant
                n == self.items.len(),
                i <= n,
                forall|j: int| 0 <= j < i ==> self.items@[j]@ != name@,
            decreases n - i,
        {
            if same_text(self.items[i].as_str(), name) {
                return true;
            }
            i = i + 1;
        }
        false
    }
}

} // verus!
