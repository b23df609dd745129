//! The configuration: how long responses are cached, where methods are
//! sent, and which methods are renamed, all keyed by method names.

use vstd::prelude::*;

use crate::tables::{StringMap, StringSet};
use crate::text::{split_dots, split_on_dots, views};
use crate::trie::{lemma_nearest_map_values, nearest_ancestor, ref_views, MethodTrie};

verus! {

/// How long a response may be cached.
#[derive(Debug, Clone, Copy, PartialEq, Eq, Structural)]
pub enum TtlValue {
    /// Never cache the response
    NoCache,
    /// Cache the response forever
    NoExpire,
    /// If irreversible, cache forever.  Otherwise, cache for 9 seconds
    ExpireIfReversible,
    /// Expect the upstream server to tell us how long to cache via a `Cache-Control: max-age=`  HTTP header
    HonorUpstreamCacheControl,
    /// Cache response for a fixed amount of time
    DurationInSeconds(u32),
}

/// The service settings.
#[derive(Debug)]
pub struct DroneConfig {
    /// the port to listen on
    pub port: u16,
    /// the endpoint (usually an IP like 0.0.0.0, but can be a hostname)
    pub hostname: String,
    /// initial cache capacity, roughly the max size in bytes
    pub cache_max_capacity: u64,
    /// String used to identify this software, returned in the response for / and /health endpoints
    pub operator_message: String,
    /// number of threads used for connections between drone and the backends
    pub middleware_connection_threads: usize,
}

/// The named time-to-live settings of the configuration file.
#[derive(Debug, Clone, Copy, PartialEq, Eq, Structural)]
pub enum YamlSpecialTtlValue {
    NoCache,
    NoExpire,
    ExpireIfReversible,
    HonorUpstreamCacheControl,
}

/// A time-to-live setting as the configuration file writes it: a name or a
/// number of seconds.
#[derive(Debug, Clone, Copy, PartialEq, Eq, Structural)]
pub enum YamlTtlValue {
    SpecialValue(YamlSpecialTtlValue),
    DurationInSeconds(u32),
}

pub open spec fn ttl_from_yaml_spec(ttl: YamlTtlValue) -> TtlValue {
    match ttl {
        YamlTtlValue::SpecialValue(YamlSpecialTtlValue::NoCache) => TtlValue::NoCache,
        YamlTtlValue::SpecialValue(YamlSpecialTtlValue::NoExpire) => TtlValue::NoExpire,
        YamlTtlValue::SpecialValue(YamlSpecialTtlValue::ExpireIfReversible) => TtlValue::ExpireIfReversible,
        YamlTtlValue::SpecialValue(YamlSpecialTtlValue::HonorUpstreamCacheControl) => TtlValue::HonorUpstreamCacheControl,
        YamlTtlValue::DurationInSeconds(n) => TtlValue::DurationInSeconds(n),
    }
}

/// The setting a configuration-file time-to-live stands for.
pub fn ttl_value_from_yaml(ttl: &YamlTtlValue) -> (r: TtlValue)
    ensures
        r == ttl_from_yaml_spec(*ttl),
{
    match ttl {
        YamlTtlValue::SpecialValue(YamlSpecialTtlValue::NoCache) => TtlValue::NoCache,
        YamlTtlValue::SpecialValue(YamlSpecialTtlValue::NoExpire) => TtlValue::NoExpire,
        YamlTtlValue::SpecialValue(YamlSpecialTtlValue::ExpireIfReversible) => TtlValue::ExpireIfReversible,
        YamlTtlValue::SpecialValue(YamlSpecialTtlValue::HonorUpstreamCacheControl) => TtlValue::HonorUpstreamCacheControl,
        YamlTtlValue::DurationInSeconds(n) => TtlValue::DurationInSeconds(*n),
    }
}

/// The configuration file's contents, each table in the order it was read.
pub struct YamlConfig {
    pub drone: DroneConfig,
    /// backend name and URL
    pub backends: Vec<(String, String)>,
    /// namespaces whose calls are translated to `condenser_api`
    pub translate_to_appbase: Vec<String>,
    /// method prefix and backend name
    pub urls: Vec<(String, String)>,
    /// method prefix and time-to-live
    pub ttls: Vec<(String, YamlTtlValue)>,
    /// method prefix and timeout
    pub timeouts: Vec<(String, u32)>,
    /// target method and the methods renamed to it
    pub equivalent_methods: Vec<(String, Vec<String>)>,
}

/// Pairs of names, later pairs replacing earlier ones with the same first
/// name.
pub open spec fn pairs_map(s: Seq<(Seq<char>, Seq<char>)>) -> Map<Seq<char>, Seq<char>>
    decreases s.len(),
{
    if s.len() == 0 {
        Map::empty()
    } else {
        pairs_map(s.drop_last()).insert(s.last().0, s.last().1)
    }
}

/// The set of the names.
pub open spec fn names_set(s: Seq<Seq<char>>) -> Set<Seq<char>>
    decreases s.len(),
{
    if s.len() == 0 {
        Set::empty()
    } else {
        names_set(s.drop_last()).insert(s.last())
    }
}

/// The URL table: each method prefix, split on dots, mapped to the URL of
/// its backend, later entries replacing earlier ones.
pub open spec fn url_fold(urls: Seq<(Seq<char>, Seq<char>)>, backends: Map<Seq<char>, Seq<char>>) -> Map<
    Seq<Seq<char>>,
    Seq<char>,
>
    decreases urls.len(),
{
    if urls.len() == 0 {
        Map::empty()
    } else {
        url_fold(urls.drop_last(), backends).insert(
            split_dots(urls.last().0),
            backends[urls.last().1],
        )
    }
}

/// A table keyed by method prefixes split on dots, later entries replacing
/// earlier ones.
pub open spec fn prefix_fold<V>(s: Seq<(Seq<char>, V)>) -> Map<Seq<Seq<char>>, V>
    decreases s.len(),
{
    if s.len() == 0 {
        Map::empty()
    } else {
        prefix_fold(s.drop_last()).insert(split_dots(s.last().0), s.last().1)
    }
}

/// `m` with each of `sources` mapped to `target`.
pub open spec fn sources_fold(m: Map<Seq<char>, Seq<char>>, sources: Seq<Seq<char>>, target: Seq<char>) -> Map<
    Seq<char>,
    Seq<char>,
>
    decreases sources.len(),
{
    if sources.len() == 0 {
        m
    } else {
        sources_fold(m, sources.drop_last(), target).insert(sources.last(), target)
    }
}

/// The renaming table: each source method mapped to its target, later
/// entries replacing earlier ones.
pub open spec fn equivalents_fold(s: Seq<(Seq<char>, Seq<Seq<char>>)>) -> Map<Seq<char>, Seq<char>>
    decreases s.len(),
{
    if s.len() == 0 {
        Map::empty()
    } else {
        sources_fold(equivalents_fold(s.drop_last()), s.last().1, s.last().0)
    }
}

impl YamlConfig {
    pub open spec fn backend_pairs(&self) -> Seq<(Seq<char>, Seq<char>)> {
        self.backends@.map_values(|p: (String, String)| (p.0@, p.1@))
    }

    pub open spec fn url_pairs(&self) -> Seq<(Seq<char>, Seq<char>)> {
        self.urls@.map_values(|p: (String, String)| (p.0@, p.1@))
    }

    pub open spec fn ttl_pairs(&self) -> Seq<(Seq<char>, TtlValue)> {
        self.ttls@.map_values(|p: (String, YamlTtlValue)| (p.0@, ttl_from_yaml_spec(p.1)))
    }

    pub open spec fn timeout_pairs(&self) -> Seq<(Seq<char>, u32)> {
        self.timeouts@.map_values(|p: (String, u32)| (p.0@, p.1))
    }

    pub open spec fn equivalent_pairs(&self) -> Seq<(Seq<char>, Seq<Seq<char>>)> {
        self.equivalent_methods@.map_values(|p: (String, Vec<String>)| (p.0@, views(p.1@)))
    }

    /// The backend table.
    pub open spec fn backend_table(&self) -> Map<Seq<char>, Seq<char>> {
        pairs_map(self.backend_pairs())
    }

    /// Every method prefix is sent to a backend that the configuration
    /// names.
    pub open spec fn backends_defined(&self) -> bool {
        forall|i: int|
            0 <= i < self.urls.len() ==> #[trigger] self.backend_table().contains_key(
                self.url_pairs()[i].1,
            )
    }

    /// The position of the first method prefix sent to a backend that the
    /// configuration does not name.
    pub fn undefined_backend(&self) -> (r: Option<usize>)
        ensures
            r is None <==> self.backends_defined(),
            r matches Some(i) ==> {
                &&& i < self.urls.len()
                &&& !self.backend_table().contains_key(self.url_pairs()[i as int].1)
                &&& forall|j: int|
                    0 <= j < i ==> #[trigger] self.backend_table().contains_key(
                        self.url_pairs()[j].1,
                    )
            },
    {
        let backends = build_string_map(&self.backends);
        let n = self.urls.len();
        let mut i: usize = 0;
        while i < n
            invariant
                n == self.urls.len(),
                backends@ == self.backend_table(),
                i <= n,
                forall|j: int|
                    0 <= j < i ==> #[trigger] self.backend_table().contains_key(
                        self.url_pairs()[j].1,
                    ),
            decreases n - i,
        {
            if backends.get(self.urls[i].1.as_str()).is_none() {
                assert(self.url_pairs()[i as int].1 == self.urls@[i as int].1@);
                assert(!self.backend_table().contains_key(self.url_pairs()[i as int].1));
                return Some(i);
            }
            i = i + 1;
        }
        None
    }
}

/// A pair that no later pair renames again is in the map with its value;
/// the map holds no other names.
proof fn lemma_pairs_map_entry(s: Seq<(Seq<char>, Seq<char>)>, i: int, k: Seq<char>)
    requires
        0 <= i < s.len(),
        forall|l: int| i < l < s.len() ==> #[trigger] s[l].0 != s[i].0,
    ensures
        pairs_map(s).contains_key(s[i].0),
        pairs_map(s)[s[i].0] == s[i].1,
        pairs_map(s).contains_key(k) <==> exists|l: int| 0 <= l < s.len() && #[trigger] s[l].0 == k,
    decreases s.len(),
{
    lemma_pairs_map_keys(s, k);
    if i < s.len() - 1 {
        let init = s.drop_last();
        assert forall|l: int| i < l < init.len() implies #[trigger] init[l].0 != init[i].0 by {
            assert(init[l] == s[l]);
        }
        lemma_pairs_map_entry(init, i, k);
        assert(s[s.len() - 1].0 != s[i].0);
    }
}

proof fn lemma_pairs_map_keys(s: Seq<(Seq<char>, Seq<char>)>, k: Seq<char>)
    ensures
        pairs_map(s).contains_key(k) <==> exists|l: int| 0 <= l < s.len() && #[trigger] s[l].0 == k,
    decreases s.len(),
{
    if s.len() > 0 {
        let init = s.drop_last();
        lemma_pairs_map_keys(init, k);
        if exists|l: int| 0 <= l < s.len() && #[trigger] s[l].0 == k {
            let l = choose|l: int| 0 <= l < s.len() && #[trigger] s[l].0 == k;
            if l < s.len() - 1 {
                assert(init[l].0 == k);
            }
        }
        if exists|l: int| 0 <= l < init.len() && #[trigger] init[l].0 == k {
            let l = choose|l: int| 0 <= l < init.len() && #[trigger] init[l].0 == k;
            assert(s[l].0 == k);
        }
    }
}

/// A prefix entry that no later entry with the same pieces replaces is in
/// the table with its value; the table holds no other keys.
proof fn lemma_prefix_fold_entry<V>(s: Seq<(Seq<char>, V)>, i: int, k: Seq<Seq<char>>)
    requires
        0 <= i < s.len(),
        forall|l: int| i < l < s.len() ==> split_dots(#[trigger] s[l].0) != split_dots(s[i].0),
    ensures
        prefix_fold(s).contains_key(split_dots(s[i].0)),
        prefix_fold(s)[split_dots(s[i].0)] == s[i].1,
        prefix_fold(s).contains_key(k) <==> exists|l: int|
            0 <= l < s.len() && split_dots(#[trigger] s[l].0) == k,
    decreases s.len(),
{
    lemma_prefix_fold_keys(s, k);
    if i < s.len() - 1 {
        let init = s.drop_last();
        assert forall|l: int| i < l < init.len() implies split_dots(#[trigger] init[l].0) != split_dots(
            init[i].0,
        ) by {
            assert(init[l] == s[l]);
        }
        lemma_prefix_fold_entry(init, i, k);
        assert(split_dots(s[s.len() - 1].0) != split_dots(s[i].0));
    }
}

proof fn lemma_prefix_fold_keys<V>(s: Seq<(Seq<char>, V)>, k: Seq<Seq<char>>)
    ensures
        prefix_fold(s).contains_key(k) <==> exists|l: int|
            0 <= l < s.len() && split_dots(#[trigger] s[l].0) == k,
    decreases s.len(),
{
    if s.len() > 0 {
        let init = s.drop_last();
        lemma_prefix_fold_keys(init, k);
        if exists|l: int| 0 <= l < s.len() && split_dots(#[trigger] s[l].0) == k {
            let l = choose|l: int| 0 <= l < s.len() && split_dots(#[trigger] s[l].0) == k;
            if l < s.len() - 1 {
                assert(init[l] == s[l]);
            }
        }
        if exists|l: int| 0 <= l < init.len() && split_dots(#[trigger] init[l].0) == k {
            let l = choose|l: int| 0 <= l < init.len() && split_dots(#[trigger] init[l].0) == k;
            assert(init[l] == s[l]);
        }
    }
}

/// A URL entry that no later entry with the same pieces replaces is in the
/// table with the URL of its backend.
proof fn lemma_url_fold_entry(s: Seq<(Seq<char>, Seq<char>)>, backends: Map<Seq<char>, Seq<char>>, i: int)
    requires
        0 <= i < s.len(),
        forall|l: int| i < l < s.len() ==> split_dots(#[trigger] s[l].0) != split_dots(s[i].0),
    ensures
        url_fold(s, backends).contains_key(split_dots(s[i].0)),
        url_fold(s, backends)[split_dots(s[i].0)] == backends[s[i].1],
    decreases s.len(),
{
    if i < s.len() - 1 {
        let init = s.drop_last();
        assert forall|l: int| i < l < init.len() implies split_dots(#[trigger] init[l].0) != split_dots(
            init[i].0,
        ) by {
            assert(init[l] == s[l]);
        }
        lemma_url_fold_entry(init, backends, i);
        assert(split_dots(s[s.len() - 1].0) != split_dots(s[i].0));
    }
}

/// Mapping `sources` to `target` over `m`: each source then maps to
/// `target`, and every other name keeps what it had.
proof fn lemma_sources_fold(m: Map<Seq<char>, Seq<char>>, sources: Seq<Seq<char>>, target: Seq<char>, k: Seq<char>)
    ensures
        sources_fold(m, sources, target).contains_key(k) <==> (m.contains_key(k) || sources.contains(k)),
        sources.contains(k) ==> sources_fold(m, sources, target)[k] == target,
        !sources.contains(k) ==> sources_fold(m, sources, target)[k] == m[k],
    decreases sources.len(),
{
    if sources.len() > 0 {
        let init = sources.drop_last();
        lemma_sources_fold(m, init, target, k);
        if sources.contains(k) && k != sources.last() {
            let l = choose|l: int| 0 <= l < sources.len() && sources[l] == k;
            assert(init[l] == k);
        }
        if init.contains(k) {
            let l = choose|l: int| 0 <= l < init.len() && init[l] == k;
            assert(sources[l] == k);
        }
    }
}

/// The names that the renaming table holds are those that some entry lists.
proof fn lemma_equivalents_fold_keys(s: Seq<(Seq<char>, Seq<Seq<char>>)>, k: Seq<char>)
    ensures
        equivalents_fold(s).contains_key(k) <==> exists|l: int|
            0 <= l < s.len() && (#[trigger] s[l]).1.contains(k),
    decreases s.len(),
{
    if s.len() > 0 {
        let init = s.drop_last();
        let last = s.len() - 1;
        lemma_equivalents_fold_keys(init, k);
        lemma_sources_fold(equivalents_fold(init), s[last].1, s[last].0, k);
        if exists|l: int| 0 <= l < s.len() && (#[trigger] s[l]).1.contains(k) {
            let l = choose|l: int| 0 <= l < s.len() && (#[trigger] s[l]).1.contains(k);
            if l < last {
                assert(init[l] == s[l]);
            }
        }
        if exists|l: int| 0 <= l < init.len() && (#[trigger] init[l]).1.contains(k) {
            let l = choose|l: int| 0 <= l < init.len() && (#[trigger] init[l]).1.contains(k);
            assert(init[l] == s[l]);
        }
    }
}

/// A source name that no later entry lists again is renamed to the target
/// of its entry.
proof fn lemma_equivalents_fold_value(s: Seq<(Seq<char>, Seq<Seq<char>>)>, k: Seq<char>, i: int)
    requires
        0 <= i < s.len(),
        s[i].1.contains(k),
        forall|l: int| i < l < s.len() ==> !(#[trigger] s[l]).1.contains(k),
    ensures
        equivalents_fold(s).contains_key(k),
        equivalents_fold(s)[k] == s[i].0,
    decreases s.len(),
{
    let init = s.drop_last();
    let last = s.len() - 1;
    lemma_sources_fold(equivalents_fold(init), s[last].1, s[last].0, k);
    if i < last {
        assert(init[i] == s[i]);
        assert forall|l: int| i < l < init.len() implies !(#[trigger] init[l]).1.contains(k) by {
            assert(init[l] == s[l]);
        }
        lemma_equivalents_fold_value(init, k, i);
        assert(!s[last].1.contains(k));
    }
}

proof fn lemma_names_set(s: Seq<Seq<char>>, n: Seq<char>)
    ensures
        names_set(s).contains(n) <==> s.contains(n),
    decreases s.len(),
{
    if s.len() > 0 {
        let init = s.drop_last();
        lemma_names_set(init, n);
        if s.contains(n) && n != s.last() {
            let l = choose|l: int| 0 <= l < s.len() && s[l] == n;
            assert(init[l] == n);
        }
        if init.contains(n) {
            let l = choose|l: int| 0 <= l < init.len() && init[l] == n;
            assert(s[l] == n);
        }
    }
}

impl YamlConfig {
    /// Loading the file's `ttls`: a method prefix that no later entry names
    /// again (as the same dot-separated pieces) gets its time-to-live, and the
    /// table holds no prefix that no entry names.
    pub proof fn lemma_ttls_loaded(&self, i: int, key: Seq<Seq<char>>)
        requires
            0 <= i < self.ttls.len(),
            forall|l: int|
                i < l < self.ttls.len() ==> split_dots((#[trigger] self.ttls@[l]).0@) != split_dots(
                    self.ttls@[i].0@,
                ),
        ensures
            prefix_fold(self.ttl_pairs()).contains_key(split_dots(self.ttls@[i].0@)),
            prefix_fold(self.ttl_pairs())[split_dots(self.ttls@[i].0@)] == ttl_from_yaml_spec(
                self.ttls@[i].1,
            ),
            prefix_fold(self.ttl_pairs()).contains_key(key) <==> exists|l: int|
                0 <= l < self.ttls.len() && split_dots((#[trigger] self.ttls@[l]).0@) == key,
    {
        let s = self.ttl_pairs();
        assert forall|l: int| i < l < s.len() implies split_dots(#[trigger] s[l].0) != split_dots(
            s[i].0,
        ) by {
            assert(s[l].0 == self.ttls@[l].0@);
        }
        lemma_prefix_fold_entry(s, i, key);
        if exists|l: int| 0 <= l < s.len() && split_dots(#[trigger] s[l].0) == key {
            let l = choose|l: int| 0 <= l < s.len() && split_dots(#[trigger] s[l].0) == key;
            assert(s[l].0 == self.ttls@[l].0@);
        }
        if exists|l: int| 0 <= l < self.ttls.len() && split_dots((#[trigger] self.ttls@[l]).0@) == key {
            let l = choose|l: int|
                0 <= l < self.ttls.len() && split_dots((#[trigger] self.ttls@[l]).0@) == key;
            assert(s[l].0 == self.ttls@[l].0@);
        }
    }

    /// Loading the file's `timeouts`: a method prefix that no later entry
    /// names again gets its timeout, and the table holds no prefix that no
    /// entry names.
    pub proof fn lemma_timeouts_loaded(&self, i: int, key: Seq<Seq<char>>)
        requires
            0 <= i < self.timeouts.len(),
            forall|l: int|
                i < l < self.timeouts.len() ==> split_dots((#[trigger] self.timeouts@[l]).0@)
                    != split_dots(self.timeouts@[i].0@),
        ensures
            prefix_fold(self.timeout_pairs()).contains_key(split_dots(self.timeouts@[i].0@)),
            prefix_fold(self.timeout_pairs())[split_dots(self.timeouts@[i].0@)] == self.timeouts@[i].1,
            prefix_fold(self.timeout_pairs()).contains_key(key) <==> exists|l: int|
                0 <= l < self.timeouts.len() && split_dots((#[trigger] self.timeouts@[l]).0@) == key,
    {
        let s = self.timeout_pairs();
        assert forall|l: int| i < l < s.len() implies split_dots(#[trigger] s[l].0) != split_dots(
            s[i].0,
        ) by {
            assert(s[l].0 == self.timeouts@[l].0@);
        }
        lemma_prefix_fold_entry(s, i, key);
        if exists|l: int| 0 <= l < s.len() && split_dots(#[trigger] s[l].0) == key {
            let l = choose|l: int| 0 <= l < s.len() && split_dots(#[trigger] s[l].0) == key;
            assert(s[l].0 == self.timeouts@[l].0@);
        }
        if exists|l: int|
            0 <= l < self.timeouts.len() && split_dots((#[trigger] self.timeouts@[l]).0@) == key {
            let l = choose|l: int|
                0 <= l < self.timeouts.len() && split_dots((#[trigger] self.timeouts@[l]).0@) == key;
            assert(s[l].0 == self.timeouts@[l].0@);
        }
    }

    /// Loading the file's `urls`: a method prefix that no later entry names
    /// again is sent to the URL of its backend, as the backends list it.
    pub proof fn lemma_urls_loaded(&self, i: int, b: int)
        requires
            0 <= i < self.urls.len(),
            forall|l: int|
                i < l < self.urls.len() ==> split_dots((#[trigger] self.urls@[l]).0@) != split_dots(
                    self.urls@[i].0@,
                ),
            0 <= b < self.backends.len(),
            self.backends@[b].0@ == self.urls@[i].1@,
            forall|l: int|
                b < l < self.backends.len() ==> (#[trigger] self.backends@[l]).0@ != self.backends@[b].0@,
        ensures
            url_fold(self.url_pairs(), self.backend_table()).contains_key(split_dots(self.urls@[i].0@)),
            url_fold(self.url_pairs(), self.backend_table())[split_dots(self.urls@[i].0@)]
                == self.backends@[b].1@,
    {
        let s = self.url_pairs();
        let bp = self.backend_pairs();
        assert forall|l: int| i < l < s.len() implies split_dots(#[trigger] s[l].0) != split_dots(
            s[i].0,
        ) by {
            assert(s[l].0 == self.urls@[l].0@);
        }
        lemma_url_fold_entry(s, self.backend_table(), i);
        assert forall|l: int| b < l < bp.len() implies #[trigger] bp[l].0 != bp[b].0 by {
            assert(bp[l].0 == self.backends@[l].0@);
        }
        lemma_pairs_map_entry(bp, b, bp[b].0);
    }

    /// Loading the file's `backends`: a backend that no later entry names
    /// again has its URL, and the table holds no other backend.
    pub proof fn lemma_backends_loaded(&self, b: int, name: Seq<char>)
        requires
            0 <= b < self.backends.len(),
            forall|l: int|
                b < l < self.backends.len() ==> (#[trigger] self.backends@[l]).0@ != self.backends@[b].0@,
        ensures
            self.backend_table().contains_key(self.backends@[b].0@),
            self.backend_table()[self.backends@[b].0@] == self.backends@[b].1@,
            self.backend_table().contains_key(name) <==> exists|l: int|
                0 <= l < self.backends.len() && (#[trigger] self.backends@[l]).0@ == name,
    {
        let bp = self.backend_pairs();
        assert forall|l: int| b < l < bp.len() implies #[trigger] bp[l].0 != bp[b].0 by {
            assert(bp[l].0 == self.backends@[l].0@);
        }
        lemma_pairs_map_entry(bp, b, name);
        if exists|l: int| 0 <= l < bp.len() && #[trigger] bp[l].0 == name {
            let l = choose|l: int| 0 <= l < bp.len() && #[trigger] bp[l].0 == name;
            assert(bp[l].0 == self.backends@[l].0@);
        }
        if exists|l: int| 0 <= l < self.backends.len() && (#[trigger] self.backends@[l]).0@ == name {
            let l = choose|l: int|
                0 <= l < self.backends.len() && (#[trigger] self.backends@[l]).0@ == name;
            assert(bp[l].0 == self.backends@[l].0@);
        }
    }

    /// Loading the file's `translate_to_appbase`: the set holds exactly the
    /// namespaces listed.
    pub proof fn lemma_translate_loaded(&self, namespace: Seq<char>)
        ensures
            names_set(views(self.translate_to_appbase@)).contains(namespace) <==> exists|l: int|
                0 <= l < self.translate_to_appbase.len() && (#[trigger] self.translate_to_appbase@[l])@
                    == namespace,
    {
        let v = views(self.translate_to_appbase@);
        lemma_names_set(v, namespace);
        if v.contains(namespace) {
            let l = choose|l: int| 0 <= l < v.len() && v[l] == namespace;
            assert(self.translate_to_appbase@[l]@ == namespace);
        }
        if exists|l: int|
            0 <= l < self.translate_to_appbase.len() && (#[trigger] self.translate_to_appbase@[l])@
                == namespace {
            let l = choose|l: int|
                0 <= l < self.translate_to_appbase.len() && (#[trigger] self.translate_to_appbase@[l])@
                    == namespace;
            assert(v[l] == namespace);
        }
    }

    /// Loading the file's `equivalent_methods`: every method listed under a
    /// target, and listed under no later target, is renamed to that target;
    /// a method that no entry lists is not renamed.
    pub proof fn lemma_equivalent_methods_loaded(&self, i: int, j: int, name: Seq<char>)
        requires
            0 <= i < self.equivalent_methods.len(),
            0 <= j < self.equivalent_methods@[i].1.len(),
            forall|l: int, k: int|
                i < l < self.equivalent_methods.len() && 0 <= k < self.equivalent_methods@[l].1.len()
                    ==> (#[trigger] self.equivalent_methods@[l].1@[k])@
                    != self.equivalent_methods@[i].1@[j]@,
        ensures
            equivalents_fold(self.equivalent_pairs()).contains_key(self.equivalent_methods@[i].1@[j]@),
            equivalents_fold(self.equivalent_pairs())[self.equivalent_methods@[i].1@[j]@]
                == self.equivalent_methods@[i].0@,
            equivalents_fold(self.equivalent_pairs()).contains_key(name) <==> exists|l: int, k: int|
                0 <= l < self.equivalent_methods.len() && 0 <= k
                    < self.equivalent_methods@[l].1.len() && (#[trigger] self.equivalent_methods@[l].1@[k])@
                    == name,
    {
        let s = self.equivalent_pairs();
        let src = self.equivalent_methods@[i].1@[j]@;
        lemma_equivalents_fold_keys(s, name);
        assert(s[i].1[j] == src);
        assert(s[i].1.contains(src));
        assert forall|l: int| i < l < s.len() implies !(#[trigger] s[l]).1.contains(src) by {
            if s[l].1.contains(src) {
                let k = choose|k: int| 0 <= k < s[l].1.len() && s[l].1[k] == src;
                assert(self.equivalent_methods@[l].1@[k]@ == src);
            }
        }
        lemma_equivalents_fold_value(s, src, i);
        if exists|l: int| 0 <= l < s.len() && (#[trigger] s[l]).1.contains(name) {
            let l = choose|l: int| 0 <= l < s.len() && (#[trigger] s[l]).1.contains(name);
            let k = choose|k: int| 0 <= k < s[l].1.len() && s[l].1[k] == name;
            assert(self.equivalent_methods@[l].1@[k]@ == name);
        }
        if exists|l: int, k: int|
            0 <= l < self.equivalent_methods.len() && 0 <= k < self.equivalent_methods@[l].1.len()
                && (#[trigger] self.equivalent_methods@[l].1@[k])@ == name {
            let (l, k) = choose|l: int, k: int|
                0 <= l < self.equivalent_methods.len() && 0 <= k
                    < self.equivalent_methods@[l].1.len() && (#[trigger] self.equivalent_methods@[l].1@[k])@
                    == name;
            assert(s[l].1[k] == name);
            assert(s[l].1.contains(name));
        }
    }
}

/// The map of a list of name pairs.
fn build_string_map(pairs: &Vec<(String, String)>) -> (m: StringMap)
    ensures
        m@ == pairs_map(pairs@.map_values(|p: (String, String)| (p.0@, p.1@))),
{
    let ghost pv = pairs@.map_values(|p: (String, String)| (p.0@, p.1@));
    let mut m = StringMap::new();
    let n = pairs.len();
    let mut i: usize = 0;
    assert(pv.take(0) =~= Seq::<(Seq<char>, Seq<char>)>::empty());
    while i < n
        invariant
            n == pairs.len(),
            pv == pairs@.map_values(|p: (String, String)| (p.0@, p.1@)),
            i <= n,
            m@ == pairs_map(pv.take(i as int)),
        decreases n - i,
    {
        m.insert(pairs[i].0.clone(), pairs[i].1.clone());
        assert(pv.take(i + 1).drop_last() =~= pv.take(i as int));
        i = i + 1;
    }
    assert(pv.take(n as int) =~= pv);
    m
}

/// The set of a list of names.
fn build_string_set(names: &Vec<String>) -> (s: StringSet)
    ensures
        s@ == names_set(views(names@)),
{
    let ghost nv = views(names@);
    let mut s = StringSet::new();
    let n = names.len();
    let mut i: usize = 0;
    assert(nv.take(0) =~= Seq::<Seq<char>>::empty());
    while i < n
        invariant
            n == names.len(),
            nv == views(names@),
            i <= n,
            s@ == names_set(nv.take(i as int)),
        decreases n - i,
    {
        s.insert(names[i].clone());
        assert(nv.take(i + 1).drop_last() =~= nv.take(i as int));
        i = i + 1;
    }
    assert(nv.take(n as int) =~= nv);
    s
}

/// The parsed, ready-to-use configuration.
pub struct AppConfig {
    pub drone: DroneConfig,
    pub backends: StringMap,
    pub translate_to_appbase: StringSet,
    pub urls: MethodTrie<String>,
    pub ttls: MethodTrie<TtlValue>,
    pub timeouts: MethodTrie<u32>,
    pub equivalent_methods: StringMap,
}

impl AppConfig {
    /// The backend table.
    pub open spec fn backend_table(&self) -> Map<Seq<char>, Seq<char>> {
        self.backends@
    }

    /// The URL of each method prefix.
    pub open spec fn url_table(&self) -> Map<Seq<Seq<char>>, Seq<char>> {
        self.urls.entries().map_values(|u: String| u@)
    }

    /// The time-to-live of each method prefix.
    pub open spec fn ttl_table(&self) -> Map<Seq<Seq<char>>, TtlValue> {
        self.ttls.entries()
    }

    /// The timeout of each method prefix.
    pub open spec fn timeout_table(&self) -> Map<Seq<Seq<char>>, u32> {
        self.timeouts.entries()
    }

    /// The configuration that a configuration file describes.
    pub fn from_yaml(config: YamlConfig) -> (app: AppConfig)
        requires
            config.backends_defined(),
        ensures
            app.drone == config.drone,
            app.backend_table() == config.backend_table(),
            app.translate_to_appbase@ == names_set(views(config.translate_to_appbase@)),
            app.url_table() == url_fold(config.url_pairs(), config.backend_table()),
            app.ttl_table() == prefix_fold(config.ttl_pairs()),
            app.timeout_table() == prefix_fold(config.timeout_pairs()),
            app.equivalent_methods@ == equivalents_fold(config.equivalent_pairs()),
    {
        let backends = build_string_map(&config.backends);
        let translate_to_appbase = build_string_set(&config.translate_to_appbase);
        let urls = build_url_trie(&config, &backends);
        let ttls = build_ttl_trie(&config.ttls);
        let timeouts = build_timeout_trie(&config.timeouts);
        let equivalent_methods = build_equivalents(&config.equivalent_methods);
        AppConfig {
            drone: config.drone,
            backends,
            translate_to_appbase,
            urls,
            ttls,
            timeouts,
            equivalent_methods,
        }
    }

    /// The URL of the backend for the longest configured prefix of the
    /// method name.
    pub fn lookup_url(&self, method_name_parts: Vec<&String>) -> (r: Option<&String>)
        ensures
            r is Some <==> nearest_ancestor(self.url_table(), ref_views(method_name_parts@)) is Some,
            r matches Some(u) ==> nearest_ancestor(self.url_table(), ref_views(method_name_parts@))
                == Some(u@),
    {
        proof {
            lemma_nearest_map_values(
                self.urls.entries(),
                |u: String| u@,
                ref_views(method_name_parts@),
            );
        }
        self.urls.lookup(method_name_parts)
    }

    /// The time-to-live of the longest configured prefix of the method name.
    pub fn lookup_ttl(&self, method_name_parts: Vec<&String>) -> (r: Option<&TtlValue>)
        ensures
            r is Some <==> nearest_ancestor(self.ttl_table(), ref_views(method_name_parts@)) is Some,
            r matches Some(t) ==> nearest_ancestor(self.ttl_table(), ref_views(method_name_parts@))
                == Some(*t),
    {
        self.ttls.lookup(method_name_parts)
    }

    /// The timeout of the longest configured prefix of the method name.
    pub fn lookup_timeout(&self, method_name_parts: Vec<&String>) -> (r: Option<&u32>)
        ensures
            r is Some <==> nearest_ancestor(self.timeout_table(), ref_views(method_name_parts@)) is Some,
            r matches Some(t) ==> nearest_ancestor(
                self.timeout_table(),
                ref_views(method_name_parts@),
            ) == Some(*t),
    {
        self.timeouts.lookup(method_name_parts)
    }

    /// The method that `original_method_name` is renamed to, or the name
    /// itself where it is not renamed.
    pub fn lookup_equivalent_method(&self, original_method_name: String) -> (r: String)
        ensures
            r@ == (if self.equivalent_methods@.contains_key(original_method_name@) {
                self.equivalent_methods@[original_method_name@]
            } else {
                original_method_name@
            }),
    {
        match self.equivalent_methods.get(original_method_name.as_str()) {
            Some(replacement_method_name) => replacement_method_name.clone(),
            None => original_method_name,
        }
    }
}

fn build_url_trie(config: &YamlConfig, backends: &StringMap) -> (t: MethodTrie<String>)
    requires
        config.backends_defined(),
        backends@ == config.backend_table(),
    ensures
        t.entries().map_values(|u: String| u@) == url_fold(config.url_pairs(), config.backend_table()),
{
    let ghost up = config.url_pairs();
    let ghost bt = config.backend_table();
    let mut t: MethodTrie<String> = MethodTrie::new();
    let n = config.urls.len();
    let mut i: usize = 0;
    assert(up.take(0) =~= Seq::<(Seq<char>, Seq<char>)>::empty());
    assert(t.entries().map_values(|u: String| u@) =~= Map::<Seq<Seq<char>>, Seq<char>>::empty());
    while i < n
        invariant
            n == config.urls.len(),
            up == config.url_pairs(),
            bt == config.backend_table(),
            backends@ == bt,
            config.backends_defined(),
            i <= n,
            t.entries().map_values(|u: String| u@) == url_fold(up.take(i as int), bt),
        decreases n - i,
    {
        let parts = split_on_dots(config.urls[i].0.as_str());
        assert(bt.contains_key(up[i as int].1));
        let url = match backends.get(config.urls[i].1.as_str()) {
            Some(u) => u.clone(),
            None => String::new(),
        };
        let ghost before = t.entries();
        t.insert(parts, url);
        assert(up.take(i + 1).drop_last() =~= up.take(i as int));
        assert(t.entries().map_values(|u: String| u@) =~= before.map_values(|u: String| u@).insert(
            split_dots(up[i as int].0),
            bt[up[i as int].1],
        ));
        i = i + 1;
    }
    assert(up.take(n as int) =~= up);
    t
}

fn build_ttl_trie(ttls: &Vec<(String, YamlTtlValue)>) -> (t: MethodTrie<TtlValue>)
    ensures
        t.entries() == prefix_fold(
            ttls@.map_values(|p: (String, YamlTtlValue)| (p.0@, ttl_from_yaml_spec(p.1))),
        ),
{
    let ghost tp = ttls@.map_values(|p: (String, YamlTtlValue)| (p.0@, ttl_from_yaml_spec(p.1)));
    let mut t: MethodTrie<TtlValue> = MethodTrie::new();
    let n = ttls.len();
    let mut i: usize = 0;
    assert(tp.take(0) =~= Seq::<(Seq<char>, TtlValue)>::empty());
    assert(t.entries() =~= prefix_fold(tp.take(0)));
    while i < n
        invariant
            n == ttls.len(),
            tp == ttls@.map_values(|p: (String, YamlTtlValue)| (p.0@, ttl_from_yaml_spec(p.1))),
            i <= n,
            t.entries() == prefix_fold(tp.take(i as int)),
        decreases n - i,
    {
        let parts = split_on_dots(ttls[i].0.as_str());
        let ttl = ttl_value_from_yaml(&ttls[i].1);
        t.insert(parts, ttl);
        assert(tp.take(i + 1).drop_last() =~= tp.take(i as int));
        i = i + 1;
    }
    assert(tp.take(n as int) =~= tp);
    t
}

fn build_timeout_trie(timeouts: &Vec<(String, u32)>) -> (t: MethodTrie<u32>)
    ensures
        t.entries() == prefix_fold(timeouts@.map_values(|p: (String, u32)| (p.0@, p.1))),
{
    let ghost tp = timeouts@.map_values(|p: (String, u32)| (p.0@, p.1));
    let mut t: MethodTrie<u32> = MethodTrie::new();
    let n = timeouts.len();
    let mut i: usize = 0;
    assert(tp.take(0) =~= Seq::<(Seq<char>, u32)>::empty());
    assert(t.entries() =~= prefix_fold(tp.take(0)));
    while i < n
        invariant
            n == timeouts.len(),
            tp == timeouts@.map_values(|p: (String, u32)| (p.0@, p.1)),
            i <= n,
            t.entries() == prefix_fold(tp.take(i as int)),
        decreases n - i,
    {
        let parts = split_on_dots(timeouts[i].0.as_str());
        t.insert(parts, timeouts[i].1);
        assert(tp.take(i + 1).drop_last() =~= tp.take(i as int));
        i = i + 1;
    }
    assert(tp.take(n as int) =~= tp);
    t
}

fn build_equivalents(equivalent_methods: &Vec<(String, Vec<String>)>) -> (m: StringMap)
    ensures
        m@ == equivalents_fold(
            equivalent_methods@.map_values(|p: (String, Vec<String>)| (p.0@, views(p.1@))),
        ),
{
    let ghost ep = equivalent_methods@.map_values(|p: (String, Vec<String>)| (p.0@, views(p.1@)));
    let mut m = StringMap::new();
    let n = equivalent_methods.len();
    let mut i: usize = 0;
    assert(ep.take(0) =~= Seq::<(Seq<char>, Seq<Seq<char>>)>::empty());
    while i < n
        invariant
            n == equivalent_methods.len(),
            ep == equivalent_methods@.map_values(
                |p: (String, Vec<String>)| (p.0@, views(p.1@)),
            ),
            i <= n,
            m@ == equivalents_fold(ep.take(i as int)),
        decreases n - i,
    {
        let target = &equivalent_methods[i].0;
        let sources = &equivalent_methods[i].1;
        let ghost start = m@;
        let ghost sv = views(sources@);
        let k = sources.len();
        let mut j: usize = 0;
        assert(sv.take(0) =~= Seq::<Seq<char>>::empty());
        while j < k
            invariant
                k == sources.len(),
                sv == views(sources@),
                j <= k,
                m@ == sources_fold(start, sv.take(j as int), target@),
            decreases k - j,
        {
            m.insert(sources[j].clone(), target.clone());
            assert(sv.take(j + 1).drop_last() =~= sv.take(j as int));
            j = j + 1;
        }
        assert(sv.take(k as int) =~= sv);
        assert(ep.take(i + 1).drop_last() =~= ep.take(i as int));
        assert(ep[i as int] == (target@, sv));
        i = i + 1;
    }
    assert(ep.take(n as int) =~= ep);
    m
}

} // verus!
