use drone::cache::{ApiCallResponseData, CacheEntry, CacheTtl};
use drone::chain::{BlockTime, BlockchainState, PropertiesOutcome};
use drone::config::{AppConfig, DroneConfig, YamlConfig, YamlSpecialTtlValue, YamlTtlValue};
use drone::handler::{
    api_header, batch_cached, batch_size_error, batch_step, cache_key, params_text, request_cache_key, check_for_future_block_requests,
    entry_from_upstream_body, entry_from_upstream_body_checked, failure_entry, health_check,
    method_parse_error, proxy_header_error, response_from_entry, APICallResponse,
    UpstreamFailure,
};
use drone::json::{JsonNumber, JsonValue};
use drone::method_renamer::convert_method_name;
use drone::protocol::{APIRequest, ErrorData, ErrorField, ID};

fn text(s: &str) -> JsonValue {
    JsonValue::Str(s.to_string())
}

fn num(n: u64) -> JsonValue {
    JsonValue::Number(JsonNumber::PosInt(n))
}

fn obj(members: Vec<(&str, JsonValue)>) -> JsonValue {
    JsonValue::Object(members.into_iter().map(|(k, v)| (k.to_string(), v)).collect())
}

fn drone_settings() -> DroneConfig {
    DroneConfig {
        port: 8999,
        hostname: "0.0.0.0".to_string(),
        cache_max_capacity: 1024,
        operator_message: "Drone by Deathwing".to_string(),
        middleware_connection_threads: 8,
    }
}

fn config() -> AppConfig {
    AppConfig::from_yaml(YamlConfig {
        drone: drone_settings(),
        backends: vec![],
        translate_to_appbase: vec![],
        urls: vec![],
        ttls: vec![
            ("appbase".to_string(), YamlTtlValue::DurationInSeconds(3)),
            (
                "appbase.condenser_api.get_block".to_string(),
                YamlTtlValue::SpecialValue(YamlSpecialTtlValue::ExpireIfReversible),
            ),
        ],
        timeouts: vec![],
        equivalent_methods: vec![],
    })
}

fn request(method: &str) -> APIRequest {
    APIRequest {
        jsonrpc: "2.0".to_string(),
        id: ID::Str("abc".to_string()),
        method: method.to_string(),
        params: None,
    }
}

fn error_of(e: &CacheEntry) -> &ErrorData {
    match &e.result {
        Err(d) => d,
        Ok(_) => panic!("expected an error entry"),
    }
}

#[test]
fn failure_entries_carry_codes_and_are_not_cached() {
    let e = failure_entry(UpstreamFailure::NoEndpoint);
    assert_eq!(error_of(&e).code, -32603);
    assert_eq!(error_of(&e).message, "Unable to map request to endpoint.");
    assert_eq!((e.size, e.ttl), (0, CacheTtl::NoCache));
    let e = failure_entry(UpstreamFailure::SendFailed {
        error: "connection refused ".to_string(),
        endpoint: "http://hived:8091".to_string(),
    });
    assert_eq!(error_of(&e).code, -32700);
    assert_eq!(
        error_of(&e).error,
        ErrorField::Message("connection refused http://hived:8091".to_string())
    );
    let e = failure_entry(UpstreamFailure::BodyUnreadable("eof".to_string()));
    assert_eq!(error_of(&e).code, -32600);
    assert_eq!(error_of(&e).message, "Received an invalid response from the endpoint.");
    let e = failure_entry(UpstreamFailure::BodyUnparsable("bad json".to_string()));
    assert_eq!(error_of(&e).code, -32602);
    assert_eq!(error_of(&e).error, ErrorField::Message("bad json".to_string()));
    assert_eq!(e.ttl, CacheTtl::NoCache);
}

#[test]
fn upstream_error_object_is_kept_uncached() {
    let cfg = config();
    let mut state = BlockchainState::new();
    let m = convert_method_name("condenser_api.get_accounts", &None).unwrap();
    let err = obj(vec![("code", num(1)), ("message", text("boom"))]);
    let body = obj(vec![("error", err.copy_value())]);
    let e = entry_from_upstream_body(&mut state, &cfg, &m, body, 40, None, "http://h", "condenser_api.get_accounts");
    assert_eq!(error_of(&e).code, -32700);
    assert_eq!(error_of(&e).message, "Endpoint returned an error.");
    assert_eq!(error_of(&e).error, ErrorField::Object(err));
    assert_eq!((e.size, e.ttl), (0, CacheTtl::NoCache));
}

#[test]
fn upstream_result_is_cached_by_config() {
    let cfg = config();
    let mut state = BlockchainState::new();
    let m = convert_method_name("condenser_api.get_accounts", &None).unwrap();
    let body = obj(vec![("jsonrpc", text("2.0")), ("result", JsonValue::Array(vec![num(1)]))]);
    let e = entry_from_upstream_body(&mut state, &cfg, &m, body, 57, None, "http://h", "condenser_api.get_accounts");
    assert_eq!(
        e.result,
        Ok(ApiCallResponseData {
            result: JsonValue::Array(vec![num(1)]),
            backend_url: "http://h".to_string(),
            upstream_method: "condenser_api.get_accounts".to_string(),
        })
    );
    assert_eq!((e.size, e.ttl), (57, CacheTtl::CacheForDuration(3)));
    let body = obj(vec![("result", JsonValue::Array(vec![]))]);
    let e = entry_from_upstream_body(&mut state, &cfg, &m, body, 10, None, "http://h", "x");
    assert_eq!(e.ttl, CacheTtl::NoCache);
    let e = entry_from_upstream_body(&mut state, &cfg, &m, JsonValue::Null, 4, None, "http://h", "x");
    assert_eq!(e.ttl, CacheTtl::NoCache);
    assert_eq!(e.result.unwrap().result, JsonValue::Null);
}

#[test]
fn global_properties_update_the_chain_state() {
    let cfg = config();
    let mut state = BlockchainState::new();
    let m = convert_method_name("condenser_api.get_dynamic_global_properties", &None).unwrap();
    let result = obj(vec![
        ("head_block_number", num(120)),
        ("last_irreversible_block_num", num(100)),
        ("time", text("2024-01-01T00:00:00")),
    ]);
    let body = obj(vec![("result", result)]);
    let e = entry_from_upstream_body_checked(&mut state, &cfg, &m, body, 99, None, "http://h", "x").unwrap();
    assert_eq!(e.ttl, CacheTtl::CacheForDuration(3));
    assert_eq!(state.last_irreversible_block_number, 100);
    assert_eq!(state.head_block_number, 120);
    assert_eq!(state.head_block_time, BlockTime { secs: 1704067200, nanos: 0 });
    // a block after the last irreversible one is cached for nine seconds
    let gb = convert_method_name("condenser_api.get_block", &None).unwrap();
    let body = obj(vec![("result", obj(vec![("block", obj(vec![("block_id", text("00000065ab"))]))]))]);
    let e = entry_from_upstream_body(&mut state, &cfg, &gb, body, 9, None, "http://h", "x");
    assert_eq!(e.ttl, CacheTtl::CacheForDuration(9));
    let body = obj(vec![("result", obj(vec![("block", obj(vec![("block_id", text("00000064ab"))]))]))]);
    let e = entry_from_upstream_body(&mut state, &cfg, &gb, body, 9, None, "http://h", "x");
    assert_eq!(e.ttl, CacheTtl::NoExpire);
}

#[test]
fn unprocessable_bodies_are_refused() {
    let cfg = config();
    let mut state = BlockchainState::new();
    let m = convert_method_name("condenser_api.get_accounts", &None).unwrap();
    let body = JsonValue::Array(vec![num(1)]);
    assert!(entry_from_upstream_body_checked(&mut state, &cfg, &m, body, 3, None, "h", "x").is_none());
    let gdgp = convert_method_name("condenser_api.get_dynamic_global_properties", &None).unwrap();
    let result = obj(vec![
        ("head_block_number", num(5)),
        ("last_irreversible_block_num", num(4)),
        ("time", text("not a time")),
    ]);
    let body = obj(vec![("result", result)]);
    assert!(entry_from_upstream_body_checked(&mut state, &cfg, &gdgp, body, 3, None, "h", "x").is_none());
    assert_eq!(state, BlockchainState::new());
    let gb = convert_method_name("condenser_api.get_block", &None).unwrap();
    let body = obj(vec![("result", obj(vec![("block_id", text("0001"))]))]);
    assert!(entry_from_upstream_body_checked(&mut state, &cfg, &gb, body, 3, None, "h", "x").is_none());
}

#[test]
fn chain_state_reports() {
    let mut state = BlockchainState::new();
    assert_eq!(state.head_block_time, BlockTime { secs: 0, nanos: 0 });
    let missing = obj(vec![("head_block_number", num(5))]);
    assert_eq!(state.observe_global_properties(&missing), PropertiesOutcome::Ignored);
    let report = obj(vec![
        ("head_block_number", num(10)),
        ("last_irreversible_block_num", num(8)),
        ("time", text("1970-01-01T00:01:00")),
    ]);
    assert_eq!(state.observe_global_properties(&report), PropertiesOutcome::Recorded);
    assert_eq!(
        (state.last_irreversible_block_number, state.head_block_number, state.head_block_time.secs),
        (8, 10, 60)
    );
    // a report that is not newer changes nothing
    let before = state;
    state.apply_global_properties(7, 8, "garbage");
    assert_eq!(state, before);
    // same head: the time is not read again
    state.apply_global_properties(9, 10, "garbage");
    assert_eq!((state.last_irreversible_block_number, state.head_block_time.secs), (9, 60));
    let bad = obj(vec![
        ("head_block_number", num(20)),
        ("last_irreversible_block_num", num(19)),
        ("time", text("yesterday")),
    ]);
    assert_eq!(state.observe_global_properties(&bad), PropertiesOutcome::TimeUnparsable);
    assert_eq!(state.head_block_number, 10);
}

#[test]
fn request_level_answers() {
    let req = request("a.b.c.d");
    let e = method_parse_error(&req);
    assert_eq!((e.code, e.message.as_str()), (-32700, "Unable to parse request method."));
    assert_eq!(e.id, ID::Str("abc".to_string()));
    let m = convert_method_name("condenser_api.get_block", &None).unwrap();
    assert_eq!(cache_key(&m, "[1]"), "appbase.condenser_api.get_block([1])");
    let p = proxy_header_error();
    assert_eq!((p.code, p.id), (-32000, ID::Int(0)));
    assert_eq!(p.error, ErrorField::Message("Invalid Cloudflare Proxy Header.".to_string()));
}

#[test]
fn future_block_requests() {
    let m = convert_method_name("get_block", &Some(obj(vec![("block_num", num(50))]))).unwrap();
    assert_eq!(check_for_future_block_requests(&m, 40), Some(50));
    assert_eq!(check_for_future_block_requests(&m, 50), None);
    let other = convert_method_name("get_blocks", &Some(obj(vec![("block_num", num(50))]))).unwrap();
    assert_eq!(check_for_future_block_requests(&other, 0), None);
    let no_num = convert_method_name("get_block", &Some(JsonValue::Array(vec![num(50)]))).unwrap();
    assert_eq!(check_for_future_block_requests(&no_num, 0), None);
}

#[test]
fn responses_from_cache_entries() {
    let m = convert_method_name("condenser_api.get_block", &None).unwrap();
    let ok = CacheEntry {
        result: Ok(ApiCallResponseData {
            result: num(3),
            backend_url: "http://h".to_string(),
            upstream_method: "condenser_api.get_block".to_string(),
        }),
        size: 5,
        ttl: CacheTtl::NoExpire,
    };
    let r = response_from_entry(request("condenser_api.get_block"), ok, false, m.clone_method())
        .unwrap();
    assert!(r.cached);
    assert_eq!(r.result, num(3));
    assert_eq!(r.id, ID::Str("abc".to_string()));
    let bad = failure_entry(UpstreamFailure::NoEndpoint);
    let e = response_from_entry(request("x"), bad, true, m).unwrap_err();
    assert_eq!((e.code, e.jsonrpc.as_str()), (-32603, "2.0"));
}

#[test]
fn batch_limits_and_cache_status() {
    assert!(batch_size_error(100).is_none());
    let e = batch_size_error(101).unwrap();
    assert_eq!(e.code, -32600);
    assert_eq!(e.error, ErrorField::Message("Batch size too large, maximum allowed is 100.".to_string()));
    let m = convert_method_name("a.b", &None).unwrap();
    let resp = |cached: bool| APICallResponse {
        jsonrpc: "2.0".to_string(),
        result: JsonValue::Null,
        id: ID::Int(1),
        cached,
        mapped_method: m.clone_method(),
        backend_url: String::new(),
        upstream_method: String::new(),
    };
    assert!(batch_cached(&vec![]));
    assert!(batch_cached(&vec![resp(true), resp(true)]));
    assert!(!batch_cached(&vec![resp(true), resp(false)]));
}

#[test]
fn health_check_answer() {
    let h = health_check(&drone_settings(), "0.1.0");
    assert_eq!(h.status, "OK");
    assert_eq!(h.drone_version, "0.1.0");
    assert_eq!(h.message, "Drone by Deathwing");
}

#[test]
fn upstream_max_age_sets_the_lifetime() {
    let ttls = vec![(
        "appbase.condenser_api.get_state".to_string(),
        YamlTtlValue::SpecialValue(YamlSpecialTtlValue::HonorUpstreamCacheControl),
    )];
    let cfg = AppConfig::from_yaml(YamlConfig {
        drone: drone_settings(),
        backends: vec![],
        translate_to_appbase: vec![],
        urls: vec![],
        ttls,
        timeouts: vec![],
        equivalent_methods: vec![],
    });
    let mut state = BlockchainState::new();
    let m = convert_method_name("condenser_api.get_state", &None).unwrap();
    let body = obj(vec![("result", obj(vec![("a", num(1))]))]);
    let e = entry_from_upstream_body(&mut state, &cfg, &m, body.copy_value(), 20, Some(45), "h", "x");
    assert_eq!(e.ttl, CacheTtl::CacheForDuration(45));
    let e = entry_from_upstream_body(&mut state, &cfg, &m, body, 20, None, "h", "x");
    assert_eq!(e.ttl, CacheTtl::NoCache);
}

#[test]
fn header_texts() {
    let m = convert_method_name("bridge.get_post", &None).unwrap();
    assert_eq!(api_header(&m), "<Empty>");
    let m = convert_method_name("condenser_api.get_block", &None).unwrap();
    assert_eq!(api_header(&m), "condenser_api");
    assert_eq!(params_text(&None), "[]");
    assert_eq!(params_text(&Some(JsonValue::Array(vec![num(1)]))), "[1]");
}

#[test]
fn batch_stops_at_first_error() {
    let m = convert_method_name("a.b", &None).unwrap();
    let resp = APICallResponse {
        jsonrpc: "2.0".to_string(),
        result: JsonValue::Null,
        id: ID::Int(1),
        cached: true,
        mapped_method: m.clone_method(),
        backend_url: String::new(),
        upstream_method: String::new(),
    };
    let mut responses = Vec::new();
    assert!(batch_step(&mut responses, Ok(resp)).is_none());
    assert_eq!(responses.len(), 1);
    let stop = batch_step(&mut responses, Err(proxy_header_error()));
    assert_eq!(stop, Some(proxy_header_error()));
    assert_eq!(responses.len(), 1);
}

#[test]
fn cache_key_holds_the_request_params_text() {
    let m = convert_method_name("condenser_api.get_block", &None).unwrap();
    assert_eq!(request_cache_key(&m, &None), "appbase.condenser_api.get_block([])");
    let params = Some(JsonValue::Array(vec![
        num(7),
        text("a\"b"),
        JsonValue::Number(JsonNumber::NegInt(-2)),
        JsonValue::Number(JsonNumber::Float("1.5".to_string())),
        JsonValue::Bool(true),
        JsonValue::Null,
        obj(vec![("z", num(1)), ("a", JsonValue::Array(vec![]))]),
    ]));
    assert_eq!(
        request_cache_key(&m, &params),
        "appbase.condenser_api.get_block([7,\"a\\\"b\",-2,1.5,true,null,{\"a\":[],\"z\":1}])"
    );
}
