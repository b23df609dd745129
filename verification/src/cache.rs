//! Cache entries and how long each one lives.

use vstd::prelude::*;
use vstd::string::*;
use vstd::utf8::{decode_utf8, encode_utf8, is_char_boundary};

use crate::config::{AppConfig, TtlValue};
use crate::json::{JsonModel, JsonValue};
use crate::method_renamer::{name_parts, MethodAndParams, MethodModel};
use crate::protocol::{ErrorData, ErrorDataModel};
use crate::text::{parse_hex_u32, radix16_u32};
use crate::trie::{lemma_nearest_is_longest_prefix, nearest_ancestor, ref_views};

verus! {

broadcast use vstd::utf8::encode_utf8_decode_utf8;

/// How long a cache entry lives.
#[derive(Debug, Copy, Clone, PartialEq, Eq, Structural)]
pub enum CacheTtl {
    NoCache,
    NoExpire,
    /// That many seconds.
    CacheForDuration(u64),
}

/// A successful upstream answer.
#[derive(Debug, PartialEq)]
pub struct ApiCallResponseData {
    pub result: JsonValue,
    // the following fields are for emitting debugging headers, not strictly necessary:
    pub backend_url: String,
    pub upstream_method: String,
}

/// The model of an `ApiCallResponseData`.
pub struct ResponseDataModel {
    pub result: JsonModel,
    pub backend_url: Seq<char>,
    pub upstream_method: Seq<char>,
}

impl View for ApiCallResponseData {
    type V = ResponseDataModel;

    open spec fn view(&self) -> ResponseDataModel {
        ResponseDataModel {
            result: self.result@,
            backend_url: self.backend_url@,
            upstream_method: self.upstream_method@,
        }
    }
}

/// What the cache keeps for a call: the answer or the error, its size and
/// how long it lives.
#[derive(Debug, PartialEq)]
pub struct CacheEntry {
    pub result: Result<ApiCallResponseData, ErrorData>,
    pub size: u32,
    pub ttl: CacheTtl,
}

/// The model of a `CacheEntry`.
pub struct CacheEntryModel {
    pub result: Result<ResponseDataModel, ErrorDataModel>,
    pub size: u32,
    pub ttl: CacheTtl,
}

impl View for CacheEntry {
    type V = CacheEntryModel;

    open spec fn view(&self) -> CacheEntryModel {
        CacheEntryModel {
            result: match self.result {
                Ok(d) => Ok(d@),
                Err(e) => Err(e@),
            },
            size: self.size,
            ttl: self.ttl,
        }
    }
}

impl CacheEntry {
    /// A copy of the entry.
    pub fn copy_entry(&self) -> (r: CacheEntry)
        ensures
            r@ == self@,
    {
        let result = match &self.result {
            Ok(d) => Ok(
                ApiCallResponseData {
                    result: d.result.copy_value(),
                    backend_url: d.backend_url.clone(),
                    upstream_method: d.upstream_method.clone(),
                },
            ),
            Err(e) => Err(ErrorData { code: e.code, message: e.message.clone(), error: e.error.copy_field() }),
        };
        CacheEntry { result, size: self.size, ttl: self.ttl }
    }
}

/// The expiry policy of the cache.
#[derive(Debug, Clone, Copy)]
pub struct MyExpiry;

/// The lifetime of an entry in seconds; `None` for no expiry.
pub open spec fn expiration_of(ttl: CacheTtl) -> Option<u64> {
    match ttl {
        CacheTtl::NoExpire => None,
        CacheTtl::NoCache => Some(0),
        CacheTtl::CacheForDuration(d) => Some(d),
    }
}

impl MyExpiry {
    /// How long, in seconds, the entry stays in the cache after it is
    /// written: not at all for `NoCache`, for ever (`None`) for `NoExpire`.
    pub fn get_expiration(&self, key: &String, value: &CacheEntry) -> (r: Option<u64>)
        ensures
            r == expiration_of(value.ttl),
    {
        match value.ttl {
            CacheTtl::NoExpire => None,
            CacheTtl::NoCache => Some(0),
            CacheTtl::CacheForDuration(duration) => Some(duration),
        }
    }
}

/// The text of the string at `result[key]`.
pub open spec fn text_at(result: JsonModel, key: Seq<char>) -> Option<Seq<char>> {
    match result.get(key) {
        Some(v) => v.as_str(),
        None => None,
    }
}

/// The text of the string at `result[outer][inner]`.
pub open spec fn text_at2(result: JsonModel, outer: Seq<char>, inner: Seq<char>) -> Option<Seq<char>> {
    match result.get(outer) {
        Some(v) => text_at(v, inner),
        None => None,
    }
}

/// A block id's first eight bytes can be cut off (`&id[..8]` does not
/// panic).
pub open spec fn id_cuttable(id: Seq<char>) -> bool {
    is_char_boundary(encode_utf8(id), 8)
}

/// The text of a block id's first eight bytes.
pub open spec fn id_head(id: Seq<char>) -> Seq<char> {
    decode_utf8(encode_utf8(id).subrange(0, 8))
}

/// The block number in the head of a block id, where there is one.
pub open spec fn id_number(id: Option<Seq<char>>) -> Option<u32> {
    match id {
        Some(t) => radix16_u32(id_head(t)),
        None => None,
    }
}

/// The id of the block in a `get_block` result (appbase form).
pub open spec fn appbase_block_id(r: JsonModel) -> Option<Seq<char>> {
    text_at2(r, "block"@, "block_id"@)
}

/// The id of the previous block in a `get_block_header` result (appbase form).
pub open spec fn appbase_previous_id(r: JsonModel) -> Option<Seq<char>> {
    text_at2(r, "header"@, "previous"@)
}

/// The id of the block in a `get_block` result (hived form).
pub open spec fn hived_block_id(r: JsonModel) -> Option<Seq<char>> {
    text_at(r, "block_id"@)
}

/// The id of the previous block in a `get_block_header` result (hived form).
pub open spec fn hived_previous_id(r: JsonModel) -> Option<Seq<char>> {
    text_at(r, "previous"@)
}

/// The number of the block that a block or block-header result is about:
/// the first of the four forms that yields a number.
pub open spec fn block_number_spec(r: JsonModel) -> Option<u32> {
    match id_number(appbase_block_id(r)) {
        Some(n) => Some(n),
        None => match id_number(appbase_previous_id(r)) {
            Some(p) => Some((p + 1) as u32),
            None => match id_number(hived_block_id(r)) {
                Some(n) => Some(n),
                None => match id_number(hived_previous_id(r)) {
                    Some(p) => Some((p + 1) as u32),
                    None => None,
                },
            },
        },
    }
}

/// An id that is present can be cut.
pub open spec fn cuttable_if_present(id: Option<Seq<char>>) -> bool {
    match id {
        Some(t) => id_cuttable(t),
        None => true,
    }
}

/// A previous-block number that is present can be incremented.
pub open spec fn incrementable_if_present(n: Option<u32>) -> bool {
    match n {
        Some(p) => p < u32::MAX,
        None => true,
    }
}

/// Reading the block number does not panic: every id that is read can be
/// cut, and a previous-block number that is read is not the largest.
pub open spec fn block_number_readable(r: JsonModel) -> bool {
    &&& cuttable_if_present(appbase_block_id(r))
    &&& id_number(appbase_block_id(r)) is None ==> {
        &&& cuttable_if_present(appbase_previous_id(r))
        &&& incrementable_if_present(id_number(appbase_previous_id(r)))
        &&& id_number(appbase_previous_id(r)) is None ==> {
            &&& cuttable_if_present(hived_block_id(r))
            &&& id_number(hived_block_id(r)) is None ==> {
                &&& cuttable_if_present(hived_previous_id(r))
                &&& incrementable_if_present(id_number(hived_previous_id(r)))
            }
        }
    }
}

/// The number in the first eight bytes of a block id.
fn id_head_number(id: &str) -> (r: Option<u32>)
    requires
        id_cuttable(id@),
    ensures
        r == radix16_u32(id_head(id@)),
{
    let (head, _rest) = id.split_at(8);
    assert(head@ == id_head(id@));
    parse_hex_u32(head)
}

/// The text at `v[key]`.
fn text_field<'a>(v: &'a JsonValue, key: &str) -> (r: Option<&'a str>)
    ensures
        r is Some <==> text_at(v@, key@) is Some,
        r matches Some(t) ==> text_at(v@, key@) == Some(t@),
{
    match v.get(key) {
        Some(x) => x.as_str(),
        None => None,
    }
}

/// The text at `v[outer][inner]`.
fn text_field2<'a>(v: &'a JsonValue, outer: &str, inner: &str) -> (r: Option<&'a str>)
    ensures
        r is Some <==> text_at2(v@, outer@, inner@) is Some,
        r matches Some(t) ==> text_at2(v@, outer@, inner@) == Some(t@),
{
    match v.get(outer) {
        Some(x) => text_field(x, inner),
        None => None,
    }
}

/// Whether the block number can be read from `result` without a panic.
pub fn block_number_is_readable(result: &JsonValue) -> (r: bool)
    ensures
        r == block_number_readable(result@),
{
    if let Some(t) = text_field2(result, "block", "block_id") {
        if !t.is_char_boundary(8) {
            return false;
        }
        if id_head_number(t).is_some() {
            return true;
        }
    }
    if let Some(t) = text_field2(result, "header", "previous") {
        if !t.is_char_boundary(8) {
            return false;
        }
        if let Some(p) = id_head_number(t) {
            return p < 0xffff_ffff;
        }
    }
    if let Some(t) = text_field(result, "block_id") {
        if !t.is_char_boundary(8) {
            return false;
        }
        if id_head_number(t).is_some() {
            return true;
        }
    }
    if let Some(t) = text_field(result, "previous") {
        if !t.is_char_boundary(8) {
            return false;
        }
        if let Some(p) = id_head_number(t) {
            return p < 0xffff_ffff;
        }
    }
    true
}

/// The number of the block that a block or block-header result is about.
pub fn get_block_number_from_result(result: &JsonValue) -> (r: Option<u32>)
    requires
        block_number_readable(result@),
    ensures
        r == block_number_spec(result@),
{
    // appbase get_block
    if let Some(id_str) = text_field2(result, "block", "block_id") {
        if let Some(block_num) = id_head_number(id_str) {
            return Some(block_num);
        }
    }
    // appbase get_block_header
    if let Some(id_str) = text_field2(result, "header", "previous") {
        if let Some(prev_block_num) = id_head_number(id_str) {
            return Some(prev_block_num + 1);
        }
    }
    // hived get_block
    if let Some(id_str) = text_field(result, "block_id") {
        if let Some(block_num) = id_head_number(id_str) {
            return Some(block_num);
        }
    }
    // hived get_block_header
    if let Some(id_str) = text_field(result, "previous") {
        if let Some(prev_block_num) = id_head_number(id_str) {
            return Some(prev_block_num + 1);
        }
    }
    None
}

/// A result that should not be cached: an empty array, null, or an empty
/// block list.
pub open spec fn uncacheable_result(result: JsonModel) -> bool {
    result.is_empty_array() || result.is_null() || result.index("blocks"@).is_empty_array()
}

/// The configured time-to-live of the method (`NoCache` where none is
/// configured).
pub open spec fn configured_ttl(config: &AppConfig, m: MethodModel) -> TtlValue {
    match nearest_ancestor(config.ttl_table(), name_parts(m)) {
        Some(t) => t,
        None => TtlValue::NoCache,
    }
}

/// The configured time-to-live of a call is that of the longest
/// configured prefix of its name parts, whether or not the call names an
/// api; a configured number of seconds then gives a cacheable answer that
/// many seconds.
pub proof fn lemma_configured_ttl_is_longest_prefix(
    config: &AppConfig,
    m: MethodModel,
    j: int,
    result: JsonModel,
    lib: u32,
    max_age: Option<u64>,
)
    requires
        0 <= j <= name_parts(m).len(),
        config.ttl_table().contains_key(name_parts(m).take(j)),
        forall|l: int|
            j < l <= name_parts(m).len() ==> !config.ttl_table().contains_key(
                #[trigger] name_parts(m).take(l),
            ),
    ensures
        configured_ttl(config, m) == config.ttl_table()[name_parts(m).take(j)],
        config.ttl_table()[name_parts(m).take(j)] matches TtlValue::DurationInSeconds(secs)
            ==> (!uncacheable_result(result) ==> cache_ttl_spec(config, m, result, lib, max_age)
            == CacheTtl::CacheForDuration(secs as u64)),
        config.ttl_table()[name_parts(m).take(j)] == TtlValue::NoExpire ==> (!uncacheable_result(
            result,
        ) ==> cache_ttl_spec(config, m, result, lib, max_age) == CacheTtl::NoExpire),
        config.ttl_table()[name_parts(m).take(j)] == TtlValue::NoCache ==> cache_ttl_spec(
            config,
            m,
            result,
            lib,
            max_age,
        ) == CacheTtl::NoCache,
{
    let key = name_parts(m);
    let t = config.ttl_table();
    lemma_nearest_is_longest_prefix(t, key);
    match nearest_ancestor(t, key) {
        Some(v) => {
            let j2 = choose|j2: int|
                0 <= j2 <= key.len() && t.contains_key(#[trigger] key.take(j2)) && t[key.take(j2)] == v
                    && forall|l: int| j2 < l <= key.len() ==> !t.contains_key(#[trigger] key.take(l));
            if j2 < j {
                assert(!t.contains_key(key.take(j)));
            }
            if j < j2 {
                assert(!t.contains_key(key.take(j2)));
            }
        },
        None => {
            assert(!t.contains_key(key.take(j)));
        },
    }
}

/// A call none of whose name prefixes is configured is not cached.
pub proof fn lemma_unconfigured_not_cached(config: &AppConfig, m: MethodModel, result: JsonModel, lib: u32, max_age: Option<u64>)
    requires
        forall|l: int|
            0 <= l <= name_parts(m).len() ==> !config.ttl_table().contains_key(
                #[trigger] name_parts(m).take(l),
            ),
    ensures
        configured_ttl(config, m) == TtlValue::NoCache,
        cache_ttl_spec(config, m, result, lib, max_age) == CacheTtl::NoCache,
{
    let key = name_parts(m);
    lemma_nearest_is_longest_prefix(config.ttl_table(), key);
    if nearest_ancestor(config.ttl_table(), key) is Some {
        let j2 = choose|j2: int|
            0 <= j2 <= key.len() && config.ttl_table().contains_key(#[trigger] key.take(j2))
                && config.ttl_table()[key.take(j2)] == nearest_ancestor(config.ttl_table(), key)->0
                && forall|l: int|
                j2 < l <= key.len() ==> !config.ttl_table().contains_key(#[trigger] key.take(l));
        assert(!config.ttl_table().contains_key(key.take(j2)));
    }
}

/// How long the answer `result` to the call `m` lives, the last
/// irreversible block being `lib` and the upstream's `Cache-Control`
/// header allowing `max_age` seconds (`None` where it sets no `max-age`).
pub open spec fn cache_ttl_spec(config: &AppConfig, m: MethodModel, result: JsonModel, lib: u32, max_age: Option<u64>) -> CacheTtl {
    if uncacheable_result(result) {
        CacheTtl::NoCache
    } else {
        match configured_ttl(config, m) {
            TtlValue::NoCache => CacheTtl::NoCache,
            TtlValue::NoExpire => CacheTtl::NoExpire,
            TtlValue::ExpireIfReversible => match block_number_spec(result) {
                Some(block_number) => if block_number > lib {
                    CacheTtl::CacheForDuration(9)
                } else {
                    CacheTtl::NoExpire
                },
                None => CacheTtl::NoCache,
            },
            TtlValue::HonorUpstreamCacheControl => match max_age {
                Some(seconds) => CacheTtl::CacheForDuration(seconds),
                None => CacheTtl::NoCache,
            },
            TtlValue::DurationInSeconds(seconds) => CacheTtl::CacheForDuration(seconds as u64),
        }
    }
}

/// Deciding the lifetime reads a block number only where that does not
/// panic.
pub open spec fn cache_ttl_decidable(config: &AppConfig, m: MethodModel, result: JsonModel) -> bool {
    (!uncacheable_result(result) && configured_ttl(config, m) == TtlValue::ExpireIfReversible)
        ==> block_number_readable(result)
}

/// An empty answer is never cached, whatever the configuration says.
pub proof fn lemma_uncacheable_never_cached(config: &AppConfig, m: MethodModel, result: JsonModel, lib: u32, max_age: Option<u64>)
    requires
        uncacheable_result(result),
    ensures
        cache_ttl_spec(config, m, result, lib, max_age) == CacheTtl::NoCache,
{
}

/// Under `ExpireIfReversible`, an answer about an irreversible block (one
/// at or below the last irreversible block) lives for ever, and one about a
/// later block for nine seconds.
pub proof fn lemma_reversible_blocks_expire(config: &AppConfig, m: MethodModel, result: JsonModel, lib: u32, max_age: Option<u64>)
    requires
        !uncacheable_result(result),
        configured_ttl(config, m) == TtlValue::ExpireIfReversible,
        block_number_spec(result) is Some,
    ensures
        block_number_spec(result)->0 <= lib ==> cache_ttl_spec(config, m, result, lib, max_age)
            == CacheTtl::NoExpire,
        block_number_spec(result)->0 > lib ==> cache_ttl_spec(config, m, result, lib, max_age)
            == CacheTtl::CacheForDuration(9),
        expiration_of(cache_ttl_spec(config, m, result, lib, max_age)) is None <==> block_number_spec(
            result,
        )->0 <= lib,
{
}

/// Under `HonorUpstreamCacheControl`, an answer lives as long as the
/// upstream's `max-age` allows, and is not kept where it sets none.
pub proof fn lemma_upstream_max_age_honoured(config: &AppConfig, m: MethodModel, result: JsonModel, lib: u32, max_age: Option<u64>)
    requires
        !uncacheable_result(result),
        configured_ttl(config, m) == TtlValue::HonorUpstreamCacheControl,
    ensures
        max_age matches Some(seconds) ==> cache_ttl_spec(config, m, result, lib, max_age)
            == CacheTtl::CacheForDuration(seconds),
        max_age is None ==> cache_ttl_spec(config, m, result, lib, max_age) == CacheTtl::NoCache,
        expiration_of(cache_ttl_spec(config, m, result, lib, max_age)) == Some(
            match max_age {
                Some(seconds) => seconds,
                None => 0u64,
            },
        ),
{
}

/// Whether `result[key]` is an empty array.
fn empty_array_at(result: &JsonValue, key: &str) -> (r: bool)
    ensures
        r == result@.index(key@).is_empty_array(),
{
    match result.get(key) {
        Some(v) => v.is_empty_array(),
        None => false,
    }
}

/// Whether the answer is one that should not be cached.
pub fn is_uncacheable_result(result: &JsonValue) -> (r: bool)
    ensures
        r == uncacheable_result(result@),
{
    result.is_empty_array() || result.is_null() || empty_array_at(result, "blocks")
}

/// The configured time-to-live of the method.
pub fn configured_ttl_of(config: &AppConfig, mapped_method: &MethodAndParams) -> (r: TtlValue)
    ensures
        r == configured_ttl(config, mapped_method@),
{
    match config.lookup_ttl(mapped_method.get_method_name_parts()) {
        Some(t) => *t,
        None => TtlValue::NoCache,
    }
}

/// How long the answer `result` to `mapped_method` lives in the cache,
/// the upstream's `Cache-Control` header allowing `max_age` seconds.
pub fn cache_ttl_for(config: &AppConfig, mapped_method: &MethodAndParams, result: &JsonValue, lib: u32, max_age: Option<u64>) -> (r: CacheTtl)
    requires
        cache_ttl_decidable(config, mapped_method@, result@),
    ensures
        r == cache_ttl_spec(config, mapped_method@, result@, lib, max_age),
{
    if is_uncacheable_result(result) {
        // then this result shouldn't be cached
        CacheTtl::NoCache
    } else {
        let ttl_from_config = configured_ttl_of(config, mapped_method);
        match ttl_from_config {
            TtlValue::NoCache => CacheTtl::NoCache,
            TtlValue::NoExpire => CacheTtl::NoExpire,
            TtlValue::ExpireIfReversible => {
                // we cache forever if the block is irreversible, or 9 seconds if it's reversible
                if let Some(block_number) = get_block_number_from_result(result) {
                    if block_number > lib {
                        CacheTtl::CacheForDuration(9)
                    } else {
                        CacheTtl::NoExpire
                    }
                } else {
                    // no block number in the result: probably an error result, or a method
                    // whose results carry none
                    CacheTtl::NoCache
                }
            },
            TtlValue::HonorUpstreamCacheControl => match max_age {
                Some(seconds) => CacheTtl::CacheForDuration(seconds),
                None => CacheTtl::NoCache,
            },
            TtlValue::DurationInSeconds(seconds) => CacheTtl::CacheForDuration(seconds as u64),
        }
    }
}

} // verus!
