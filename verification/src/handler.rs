//! The decisions of the request handler: what the cache keeps for an
//! upstream answer or failure, what a caller is answered, and the limits
//! on batches.

use vstd::prelude::*;

use crate::cache::{expiration_of, cache_ttl_decidable, cache_ttl_for, cache_ttl_spec, ApiCallResponseData, CacheEntry, CacheEntryModel, CacheTtl, ResponseDataModel};
use crate::chain::{after_properties, properties_acceptable, BlockchainState};
use crate::config::{AppConfig, DroneConfig};
use crate::json::{json_text, to_json_text, JsonModel, JsonValue};
use crate::method_renamer::{dotted, MethodAndParams, MethodModel};
use crate::protocol::{opt_json_view, APIRequest, ErrorData, ErrorDataModel, ErrorField, ErrorFieldModel, ErrorStructure, ErrorStructureModel, ID, IdModel};
use crate::text::same_text;

verus! {

/// Why no answer came from the upstream.
#[derive(Debug, PartialEq)]
pub enum UpstreamFailure {
    /// No backend is configured for the method.
    NoEndpoint,
    /// The request could not be sent; the error's text and the endpoint.
    SendFailed { error: String, endpoint: String },
    /// The answer's body could not be read; the error's text.
    BodyUnreadable(String),
    /// The answer's body is not JSON; the error's text.
    BodyUnparsable(String),
}

/// The error that the cache keeps for a failure.
pub open spec fn failure_error(failure: UpstreamFailure) -> ErrorDataModel {
    match failure {
        UpstreamFailure::NoEndpoint => ErrorDataModel {
            code: -32603i32,
            message: "Unable to map request to endpoint."@,
            error: ErrorFieldModel::Message("Unable to map request to endpoint."@),
        },
        UpstreamFailure::SendFailed { error, endpoint } => ErrorDataModel {
            code: -32700i32,
            message: "Unable to send request to endpoint."@,
            error: ErrorFieldModel::Message(error@ + endpoint@),
        },
        UpstreamFailure::BodyUnreadable(error) => ErrorDataModel {
            code: -32600i32,
            message: "Received an invalid response from the endpoint."@,
            error: ErrorFieldModel::Message(error@),
        },
        UpstreamFailure::BodyUnparsable(error) => ErrorDataModel {
            code: -32602i32,
            message: "Unable to parse endpoint data."@,
            error: ErrorFieldModel::Message(error@),
        },
    }
}

/// What the cache keeps for a failed upstream call: the error, size 0, not
/// cached.
pub fn failure_entry(failure: UpstreamFailure) -> (entry: CacheEntry)
    ensures
        entry@ == (CacheEntryModel {
            result: Err(failure_error(failure)),
            size: 0,
            ttl: CacheTtl::NoCache,
        }),
{
    let ghost f = failure;
    let error = match failure {
        UpstreamFailure::NoEndpoint => ErrorData {
            code: -32603i32,
            message: "Unable to map request to endpoint.".to_owned(),
            error: ErrorField::Message("Unable to map request to endpoint.".to_owned()),
        },
        UpstreamFailure::SendFailed { error, endpoint } => {
            let mut error_message = error;
            error_message.append(endpoint.as_str());
            ErrorData {
                code: -32700,
                message: "Unable to send request to endpoint.".to_owned(),
                error: ErrorField::Message(error_message),
            }
        },
        UpstreamFailure::BodyUnreadable(error) => ErrorData {
            code: -32600i32,
            message: "Received an invalid response from the endpoint.".to_owned(),
            error: ErrorField::Message(error),
        },
        UpstreamFailure::BodyUnparsable(error) => ErrorData {
            code: -32602i32,
            message: "Unable to parse endpoint data.".to_owned(),
            error: ErrorField::Message(error),
        },
    };
    CacheEntry { result: Err(error), size: 0, ttl: CacheTtl::NoCache }
}

/// The upstream answered with an error object.
pub open spec fn error_reply(body: JsonModel) -> bool {
    body.index("error"@).is_object()
}

/// The call reports the chain's global properties.
pub open spec fn reports_global_properties(m: MethodModel) -> bool {
    m.method == "get_dynamic_global_properties"@
}

/// The chain state after an upstream answer.
pub open spec fn state_after_body(s: BlockchainState, m: MethodModel, body: JsonModel) -> BlockchainState {
    if !error_reply(body) && reports_global_properties(m) {
        if properties_acceptable(s, body.index("result"@)) {
            after_properties(s, body.index("result"@))
        } else {
            s
        }
    } else {
        s
    }
}

/// An answer can be processed without a panic: its body is an object or
/// null, a report of global properties in it can be taken in, and its
/// lifetime can be decided.
pub open spec fn body_processable(s: BlockchainState, config: &AppConfig, m: MethodModel, body: JsonModel) -> bool {
    &&& body.is_object() || body.is_null()
    &&& !error_reply(body) ==> {
        &&& reports_global_properties(m) ==> properties_acceptable(s, body.index("result"@))
        &&& cache_ttl_decidable(config, m, body.index("result"@))
    }
}

/// What the cache keeps for an upstream answer, the chain state after it
/// being `s`.
pub open spec fn body_entry_spec(
    s: BlockchainState,
    config: &AppConfig,
    m: MethodModel,
    body: JsonModel,
    body_len: usize,
    max_age: Option<u64>,
    endpoint: Seq<char>,
    upstream_method: Seq<char>,
) -> CacheEntryModel {
    if error_reply(body) {
        CacheEntryModel {
            result: Err(
                ErrorDataModel {
                    code: -32700i32,
                    message: "Endpoint returned an error."@,
                    error: ErrorFieldModel::Object(body.index("error"@)),
                },
            ),
            size: 0,
            ttl: CacheTtl::NoCache,
        }
    } else {
        CacheEntryModel {
            result: Ok(
                ResponseDataModel {
                    result: body.index("result"@),
                    backend_url: endpoint,
                    upstream_method,
                },
            ),
            size: body_len as u32,
            ttl: cache_ttl_spec(config, m, body.index("result"@), s.last_irreversible_block_number, max_age),
        }
    }
}

/// An error is never cached: an entry that holds one has size 0 and does
/// not live.
pub proof fn lemma_errors_not_cached(
    s: BlockchainState,
    config: &AppConfig,
    m: MethodModel,
    body: JsonModel,
    body_len: usize,
    max_age: Option<u64>,
    endpoint: Seq<char>,
    upstream_method: Seq<char>,
)
    ensures
        body_entry_spec(s, config, m, body, body_len, max_age, endpoint, upstream_method).result is Err
            ==> body_entry_spec(s, config, m, body, body_len, max_age, endpoint, upstream_method).ttl
            == CacheTtl::NoCache && body_entry_spec(
            s,
            config,
            m,
            body,
            body_len,
            max_age,
            endpoint,
            upstream_method,
        ).size == 0,
        expiration_of(CacheTtl::NoCache) == Some(0u64),
{
}

/// A copy of `v[key]`; null where there is no such member.
fn copy_member(v: &JsonValue, key: &str) -> (r: JsonValue)
    ensures
        r@ == v@.index(key@),
{
    match v.get(key) {
        Some(x) => x.copy_value(),
        None => JsonValue::Null,
    }
}

/// What the cache keeps for the parsed answer `json_body` of an upstream
/// (`body_len` bytes long, its `Cache-Control` header allowing
/// `upstream_max_age` seconds) to `mapped_method`, sent to `endpoint` as
/// `upstream_method`; a report of global properties in it is taken into
/// `state` first.
pub fn entry_from_upstream_body(
    state: &mut BlockchainState,
    config: &AppConfig,
    mapped_method: &MethodAndParams,
    json_body: JsonValue,
    body_len: usize,
    upstream_max_age: Option<u64>,
    endpoint: &str,
    upstream_method: &str,
) -> (entry: CacheEntry)
    requires
        body_processable(*old(state), config, mapped_method@, json_body@),
    ensures
        *final(state) == state_after_body(*old(state), mapped_method@, json_body@),
        entry@ == body_entry_spec(
            *final(state),
            config,
            mapped_method@,
            json_body@,
            body_len,
            upstream_max_age,
            endpoint@,
            upstream_method@,
        ),
{
    let error = copy_member(&json_body, "error");
    if error.is_object() {
        return CacheEntry {
            result: Err(
                ErrorData {
                    code: -32700,
                    message: "Endpoint returned an error.".to_owned(),
                    error: ErrorField::Object(error),
                },
            ),
            size: 0,
            ttl: CacheTtl::NoCache,
        };
    }
    let result = copy_member(&json_body, "result");
    // if the call was to get_dynamic_global_properties, save off the last irreversible block
    if same_text(mapped_method.method.as_str(), "get_dynamic_global_properties") {
        let _ = state.observe_global_properties(&result);
    }
    let ttl = cache_ttl_for(
        config,
        mapped_method,
        &result,
        state.last_irreversible_block_number,
        upstream_max_age,
    );
    CacheEntry {
        result: Ok(
            ApiCallResponseData {
                result,
                backend_url: endpoint.to_owned(),
                upstream_method: upstream_method.to_owned(),
            },
        ),
        size: body_len as u32,
        ttl,
    }
}

/// `entry_from_upstream_body` where the answer can be processed; `None`,
/// with the state unchanged, where it cannot.
pub fn entry_from_upstream_body_checked(
    state: &mut BlockchainState,
    config: &AppConfig,
    mapped_method: &MethodAndParams,
    json_body: JsonValue,
    body_len: usize,
    upstream_max_age: Option<u64>,
    endpoint: &str,
    upstream_method: &str,
) -> (entry: Option<CacheEntry>)
    ensures
        entry is None <==> !body_processable(*old(state), config, mapped_method@, json_body@),
        entry is None ==> *final(state) == *old(state),
        entry matches Some(e) ==> {
            &&& *final(state) == state_after_body(*old(state), mapped_method@, json_body@)
            &&& e@ == body_entry_spec(
                *final(state),
                config,
                mapped_method@,
                json_body@,
                body_len,
                upstream_max_age,
                endpoint@,
                upstream_method@,
            )
        },
{
    if !(json_body.is_object() || json_body.is_null()) {
        return None;
    }
    let error = copy_member(&json_body, "error");
    if !error.is_object() {
        let result = copy_member(&json_body, "result");
        if same_text(mapped_method.method.as_str(), "get_dynamic_global_properties") {
            if !state.properties_are_acceptable(&result) {
                return None;
            }
        }
        if !cache_ttl_is_decidable(config, mapped_method, &result) {
            return None;
        }
    }
    Some(
        entry_from_upstream_body(
            state,
            config,
            mapped_method,
            json_body,
            body_len,
            upstream_max_age,
            endpoint,
            upstream_method,
        ),
    )
}

/// Whether the lifetime of the answer `result` can be decided.
fn cache_ttl_is_decidable(config: &AppConfig, mapped_method: &MethodAndParams, result: &JsonValue) -> (r: bool)
    ensures
        r == cache_ttl_decidable(config, mapped_method@, result@),
{
    if crate::cache::is_uncacheable_result(result) {
        return true;
    }
    match crate::cache::configured_ttl_of(config, mapped_method) {
        crate::config::TtlValue::ExpireIfReversible => crate::cache::block_number_is_readable(result),
        _ => true,
    }
}

/// The error answered to a call whose method name does not parse.
pub fn method_parse_error(request: &APIRequest) -> (e: ErrorStructure)
    ensures
        e@ == (ErrorStructureModel {
            jsonrpc: request.jsonrpc@,
            id: request.id@,
            code: -32700i32,
            message: "Unable to parse request method."@,
            error: ErrorFieldModel::Message("Unable to parse request method."@),
        }),
{
    ErrorStructure {
        jsonrpc: request.jsonrpc.clone(),
        id: request.id.copy_id(),
        code: -32700,
        message: "Unable to parse request method.".to_owned(),
        error: ErrorField::Message("Unable to parse request method.".to_owned()),
    }
}

/// The key under which the answer to a call is cached: the dotted method
/// name followed by the serialized parameters in parentheses.
pub fn cache_key(mapped_method: &MethodAndParams, params_str: &str) -> (key: String)
    ensures
        key@ == dotted(mapped_method@) + "("@ + params_str@ + ")"@,
{
    mapped_method.get_dotted_method_name().concat("(").concat(params_str).concat(")")
}

/// A block requested by a `get_block` call, where it is past the head
/// block (`block_num` taken modulo 2^32).
pub open spec fn future_block_spec(m: MethodModel, head: u32) -> Option<u64> {
    if m.method == "get_block"@ {
        match m.params {
            Some(p) => match p.index("block_num"@).as_u64() {
                Some(b) => if (b as u32) > head {
                    Some(b)
                } else {
                    None
                },
                None => None,
            },
            None => None,
        }
    } else {
        None
    }
}

/// The block a `get_block` call asks for, where it does not exist yet (it
/// is past the head block last reported).
pub fn check_for_future_block_requests(mapped_method: &MethodAndParams, current_head_block_number: u32) -> (r: Option<u64>)
    ensures
        r == future_block_spec(mapped_method@, current_head_block_number),
{
    if same_text(mapped_method.method.as_str(), "get_block") {
        let block_num = match &mapped_method.params {
            Some(v) => match v.get("block_num") {
                Some(b) => b.as_u64(),
                None => None,
            },
            None => None,
        };
        if let Some(block_num) = block_num {
            if block_num as u32 > current_head_block_number {
                return Some(block_num);
            }
        }
    }
    None
}

/// The answer to one call.
#[derive(Debug, PartialEq)]
pub struct APICallResponse {
    /// the original value of jsonrpc request made by the caller (usually "2.0")
    pub jsonrpc: String,
    pub result: JsonValue,
    /// the id the caller used in their request
    pub id: ID,
    // data returned just for logging/debugging
    pub cached: bool,
    /// the method, parsed and transformed
    pub mapped_method: MethodAndParams,
    pub backend_url: String,
    pub upstream_method: String,
}

/// The model of an `APICallResponse`.
pub struct CallResponseModel {
    pub jsonrpc: Seq<char>,
    pub result: JsonModel,
    pub id: IdModel,
    pub cached: bool,
    pub mapped_method: MethodModel,
    pub backend_url: Seq<char>,
    pub upstream_method: Seq<char>,
}

impl View for APICallResponse {
    type V = CallResponseModel;

    open spec fn view(&self) -> CallResponseModel {
        CallResponseModel {
            jsonrpc: self.jsonrpc@,
            result: self.result@,
            id: self.id@,
            cached: self.cached,
            mapped_method: self.mapped_method@,
            backend_url: self.backend_url@,
            upstream_method: self.upstream_method@,
        }
    }
}

/// The answer to a call built from what the cache holds for it; `cached`
/// when the upstream was not called for it.
pub open spec fn response_spec(
    request: APIRequest,
    entry: CacheEntryModel,
    upstream_was_called: bool,
    m: MethodModel,
) -> Result<CallResponseModel, ErrorStructureModel> {
    match entry.result {
        Ok(data) => Ok(
            CallResponseModel {
                jsonrpc: request.jsonrpc@,
                result: data.result,
                id: request.id@,
                cached: !upstream_was_called,
                mapped_method: m,
                backend_url: data.backend_url,
                upstream_method: data.upstream_method,
            },
        ),
        Err(error) => Err(
            ErrorStructureModel {
                jsonrpc: request.jsonrpc@,
                id: request.id@,
                code: error.code,
                message: error.message,
                error: error.error,
            },
        ),
    }
}

/// The answer to `request` from the cache entry for it.
pub fn response_from_entry(
    request: APIRequest,
    cache_entry: CacheEntry,
    upstream_was_called: bool,
    mapped_method: MethodAndParams,
) -> (r: Result<APICallResponse, ErrorStructure>)
    ensures
        match r {
            Ok(resp) => response_spec(request, cache_entry@, upstream_was_called, mapped_method@)
                == Ok::<CallResponseModel, ErrorStructureModel>(resp@),
            Err(e) => response_spec(request, cache_entry@, upstream_was_called, mapped_method@)
                == Err::<CallResponseModel, ErrorStructureModel>(e@),
        },
{
    match cache_entry.result {
        Ok(api_call_response) => Ok(
            APICallResponse {
                jsonrpc: request.jsonrpc,
                result: api_call_response.result,
                id: request.id,
                cached: !upstream_was_called,
                mapped_method,
                backend_url: api_call_response.backend_url,
                upstream_method: api_call_response.upstream_method,
            },
        ),
        Err(error_data) => Err(
            ErrorStructure {
                jsonrpc: request.jsonrpc,
                id: request.id,
                code: error_data.code,
                message: error_data.message,
                error: error_data.error,
            },
        ),
    }
}

/// The text of the api header of an answer: the api, or `<Empty>` where
/// the call names none.
pub fn api_header(mapped_method: &MethodAndParams) -> (h: String)
    ensures
        h@ == (match mapped_method.api {
            Some(api) => api@,
            None => "<Empty>"@,
        }),
{
    match &mapped_method.api {
        Some(api) => api.clone(),
        None => "<Empty>".to_owned(),
    }
}

/// The text of a call's parameters as the cache key and the params header
/// show them: their compact JSON text, or `[]` where the call has none.
pub open spec fn params_text_spec(params: Option<JsonModel>) -> Seq<char> {
    match params {
        Some(p) => json_text(p),
        None => "[]"@,
    }
}

/// The text of a call's parameters, as the cache key and the params header
/// show them.
pub fn params_text(params: &Option<JsonValue>) -> (t: String)
    ensures
        t@ == params_text_spec(opt_json_view(*params)),
{
    match params {
        Some(p) => to_json_text(p),
        None => "[]".to_owned(),
    }
}

/// The key under which the answer to a request with parameters `params`,
/// routed as `mapped_method`, is cached.
pub fn request_cache_key(mapped_method: &MethodAndParams, params: &Option<JsonValue>) -> (key: String)
    ensures
        key@ == dotted(mapped_method@) + "("@ + params_text_spec(opt_json_view(*params)) + ")"@,
{
    let params_str = params_text(params);
    cache_key(mapped_method, params_str.as_str())
}

/// One answer of a batch taken in: an answer joins `responses`; an error
/// ends the batch and is what the whole batch is answered.
pub fn batch_step(
    responses: &mut Vec<APICallResponse>,
    result: Result<APICallResponse, ErrorStructure>,
) -> (stop: Option<ErrorStructure>)
    ensures
        match result {
            Ok(r) => stop is None && final(responses)@ == old(responses)@.push(r),
            Err(e) => stop == Some(e) && final(responses)@ == old(responses)@,
        },
{
    match result {
        Ok(r) => {
            responses.push(r);
            None
        },
        Err(e) => Some(e),
    }
}

/// The error answered when the proxy's client-address header is not text.
pub fn proxy_header_error() -> (e: ErrorStructure)
    ensures
        e@ == (ErrorStructureModel {
            jsonrpc: "2.0"@,
            id: IdModel::Int(0),
            code: -32000i32,
            message: "Internal Server Error"@,
            error: ErrorFieldModel::Message("Invalid Cloudflare Proxy Header."@),
        }),
{
    ErrorStructure {
        jsonrpc: "2.0".to_owned(),
        id: ID::Int(0),
        code: -32000,
        message: "Internal Server Error".to_owned(),
        error: ErrorField::Message("Invalid Cloudflare Proxy Header.".to_owned()),
    }
}

/// The largest batch accepted.
pub const MAX_BATCH_SIZE: usize = 100;

/// The error answered to a batch of `batch_len` calls, where it is larger
/// than allowed.
pub fn batch_size_error(batch_len: usize) -> (r: Option<ErrorStructure>)
    ensures
        r is Some <==> batch_len > MAX_BATCH_SIZE,
        r matches Some(e) ==> e@ == (ErrorStructureModel {
            jsonrpc: "2.0"@,
            id: IdModel::Int(0),
            code: -32600i32,
            message: "Request parameter error."@,
            error: ErrorFieldModel::Message("Batch size too large, maximum allowed is 100."@),
        }),
{
    if batch_len > MAX_BATCH_SIZE {
        Some(
            ErrorStructure {
                jsonrpc: "2.0".to_owned(),
                id: ID::Int(0),
                code: -32600,
                message: "Request parameter error.".to_owned(),
                error: ErrorField::Message("Batch size too large, maximum allowed is 100.".to_owned()),
            },
        )
    } else {
        None
    }
}

/// A batch counts as cached when each of its answers is.
pub fn batch_cached(responses: &Vec<APICallResponse>) -> (cached: bool)
    ensures
        cached == (forall|i: int| 0 <= i < responses.len() ==> #[trigger] responses@[i].cached),
{
    let mut cached = true;
    let n = responses.len();
    let mut i: usize = 0;
    while i < n
        invariant
            n == responses.len(),
            i <= n,
            cached == (forall|j: int| 0 <= j < i ==> #[trigger] responses@[j].cached),
        decreases n - i,
    {
        if !responses[i].cached {
            cached = false;
        }
        i = i + 1;
    }
    cached
}

/// The answer to a health check.
#[derive(Debug, PartialEq)]
pub struct HealthCheck {
    pub status: String,
    pub drone_version: String,
    pub message: String,
}

/// The health-check answer: status `OK`, the version, and the operator's
/// message.
pub fn health_check(drone: &DroneConfig, drone_version: &str) -> (h: HealthCheck)
    ensures
        h.status@ == "OK"@,
        h.drone_version@ == drone_version@,
        h.message@ == drone.operator_message@,
{
    HealthCheck {
        status: "OK".to_owned(),
        drone_version: drone_version.to_owned(),
        message: drone.operator_message.clone(),
    }
}

} // verus!
