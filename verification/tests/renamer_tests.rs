use drone::config::{AppConfig, DroneConfig, YamlConfig};
use drone::json::{JsonNumber, JsonValue};
use drone::method_renamer::{
    convert_method_name, decode_api_if_numeric, map_method_name, map_method_name_within,
    parse_call, translate_to_appbase, MethodAndParams,
};
use drone::protocol::ID;

fn text(s: &str) -> JsonValue {
    JsonValue::Str(s.to_string())
}

fn num(n: u64) -> JsonValue {
    JsonValue::Number(JsonNumber::PosInt(n))
}

fn arr(items: Vec<JsonValue>) -> JsonValue {
    JsonValue::Array(items)
}

fn obj(members: Vec<(&str, JsonValue)>) -> JsonValue {
    JsonValue::Object(members.into_iter().map(|(k, v)| (k.to_string(), v)).collect())
}

fn config(translate: &[&str], equivalents: Vec<(&str, Vec<&str>)>) -> AppConfig {
    AppConfig::from_yaml(YamlConfig {
        drone: DroneConfig {
            port: 8999,
            hostname: "0.0.0.0".to_string(),
            cache_max_capacity: 1024,
            operator_message: "Drone by Deathwing".to_string(),
            middleware_connection_threads: 8,
        },
        backends: vec![],
        translate_to_appbase: translate.iter().map(|s| s.to_string()).collect(),
        urls: vec![],
        ttls: vec![],
        timeouts: vec![],
        equivalent_methods: equivalents
            .into_iter()
            .map(|(t, srcs)| (t.to_string(), srcs.into_iter().map(|s| s.to_string()).collect()))
            .collect(),
    })
}

fn check(m: &MethodAndParams, namespace: &str, api: Option<&str>, method: &str, full: &str) {
    assert_eq!(m.namespace, namespace);
    assert_eq!(m.api.as_deref(), api);
    assert_eq!(m.method, method);
    assert_eq!(m.full_method, full);
}

#[test]
fn bare_method_is_a_hived_database_api_call() {
    let params = Some(arr(vec![num(1)]));
    let m = convert_method_name("get_block", &params).unwrap();
    check(&m, "hived", Some("database_api"), "get_block", "get_block");
    assert_eq!(m.params, params);
}

#[test]
fn api_suffix_and_jsonrpc_are_appbase() {
    let m = convert_method_name("condenser_api.get_block", &None).unwrap();
    check(&m, "appbase", Some("condenser_api"), "get_block", "condenser_api.get_block");
    let m = convert_method_name("jsonrpc.get_methods", &None).unwrap();
    check(&m, "appbase", Some("jsonrpc"), "get_methods", "jsonrpc.get_methods");
}

#[test]
fn namespace_and_method_without_api() {
    let m = convert_method_name("bridge.get_post", &None).unwrap();
    check(&m, "bridge", None, "get_post", "bridge.get_post");
    assert_eq!(m.get_dotted_method_name(), "bridge.get_post");
}

#[test]
fn three_parts_and_too_many_parts() {
    let m = convert_method_name("hived.database_api.get_block", &None).unwrap();
    check(&m, "hived", Some("database_api"), "get_block", "hived.database_api.get_block");
    assert_eq!(m.get_dotted_method_name(), "hived.database_api.get_block");
    assert_eq!(
        convert_method_name("a.b.c.d", &None).unwrap_err(),
        "Error parsing method"
    );
}

#[test]
fn call_with_api_name_and_params() {
    let params = Some(arr(vec![text("condenser_api"), text("get_block"), arr(vec![num(7)])]));
    let m = convert_method_name("call", &params).unwrap();
    check(&m, "appbase", Some("condenser_api"), "get_block", "condenser_api.get_block");
    assert_eq!(m.params, Some(arr(vec![num(7)])));
}

#[test]
fn call_with_numbered_apis() {
    let m = parse_call(&Some(arr(vec![num(0), text("get_config")]))).unwrap();
    check(&m, "appbase", Some("database_api"), "get_config", "database_api.get_config");
    assert_eq!(m.params, None);
    let m = parse_call(&Some(arr(vec![num(1), text("login"), arr(vec![])]))).unwrap();
    check(&m, "hived", Some("login_api"), "login", "login_api.login");
}

#[test]
fn call_namespace_follows_api_or_params() {
    let m = parse_call(&Some(arr(vec![text("database_api"), text("find"), arr(vec![])]))).unwrap();
    assert_eq!(m.namespace, "hived");
    let m = parse_call(&Some(arr(vec![text("database_api"), text("find"), obj(vec![])]))).unwrap();
    assert_eq!(m.namespace, "appbase");
    let m = parse_call(&Some(arr(vec![text("jsonrpc"), text("get_methods"), arr(vec![])]))).unwrap();
    assert_eq!(m.namespace, "appbase");
}

#[test]
fn call_errors() {
    assert_eq!(parse_call(&Some(arr(vec![num(2), text("x")]))).unwrap_err(), "Invalid API number");
    assert_eq!(
        parse_call(&Some(arr(vec![JsonValue::Bool(true), text("x")]))).unwrap_err(),
        "Invalid API"
    );
    assert_eq!(
        parse_call(&Some(arr(vec![text("condenser_api"), num(5)]))).unwrap_err(),
        "Invalid method name"
    );
    assert_eq!(parse_call(&Some(arr(vec![text("a")]))).unwrap_err(), "error");
    assert_eq!(parse_call(&Some(obj(vec![]))).unwrap_err(), "error");
    assert_eq!(parse_call(&None).unwrap_err(), "error");
}

#[test]
fn decode_api_numbers_and_names() {
    assert_eq!(decode_api_if_numeric(&num(0)).unwrap(), "database_api");
    assert_eq!(decode_api_if_numeric(&num(1)).unwrap(), "login_api");
    assert_eq!(
        decode_api_if_numeric(&JsonValue::Number(JsonNumber::NegInt(-1))).unwrap_err(),
        "Invalid API number"
    );
    assert_eq!(decode_api_if_numeric(&text("follow_api")).unwrap(), "follow_api");
    assert_eq!(decode_api_if_numeric(&JsonValue::Null).unwrap_err(), "Invalid API");
    assert_eq!(
        decode_api_if_numeric(&JsonValue::Number(JsonNumber::Float("0.5".to_string())))
            .unwrap_err(),
        "Invalid API"
    );
}

#[test]
fn translation_to_condenser_api() {
    let m = convert_method_name("get_block", &None).unwrap();
    let t = translate_to_appbase(m).unwrap();
    check(&t, "appbase", Some("condenser_api"), "get_block", "condenser_api.get_block");
    assert_eq!(t.params, Some(arr(vec![])));
    let m = convert_method_name("hived.database_api.get_block", &Some(arr(vec![num(3)]))).unwrap();
    let t = translate_to_appbase(m).unwrap();
    assert_eq!(t.params, Some(arr(vec![num(3)])));
}

#[test]
fn map_translates_marked_namespaces() {
    let cfg = config(&["hived"], vec![]);
    let m = map_method_name(&cfg, "get_block", &Some(arr(vec![num(5)]))).unwrap();
    check(&m, "appbase", Some("condenser_api"), "get_block", "condenser_api.get_block");
    assert_eq!(m.params, Some(arr(vec![num(5)])));
    let cfg = config(&[], vec![]);
    let m = map_method_name(&cfg, "get_block", &None).unwrap();
    check(&m, "hived", Some("database_api"), "get_block", "get_block");
}

#[test]
fn map_follows_renaming_rules() {
    let cfg = config(&[], vec![("bridge.get_ranked_posts", vec!["hived.database_api.get_trending"])]);
    let params = Some(obj(vec![("sort", text("trending"))]));
    let m = map_method_name(&cfg, "hived.database_api.get_trending", &params).unwrap();
    check(&m, "bridge", None, "get_ranked_posts", "bridge.get_ranked_posts");
    assert_eq!(m.params, params);
    let e = map_method_name(&cfg, "x.y.z.w", &None).unwrap_err();
    assert_eq!(e, "Error parsing method");
}

#[test]
fn bounded_map_detects_endless_renaming() {
    let cfg = config(&[], vec![("a.b", vec!["a.b"])]);
    assert!(map_method_name_within(&cfg, "a.b", &None, 50).is_none());
    let cfg = config(&[], vec![("c.d", vec!["a.b"])]);
    let m = map_method_name_within(&cfg, "a.b", &None, 2).unwrap().unwrap();
    assert_eq!(m.get_dotted_method_name(), "c.d");
    assert!(map_method_name_within(&cfg, "a.b", &None, 1).is_none());
}

#[test]
fn name_parts_and_upstream_request() {
    let m = convert_method_name("condenser_api.get_block", &Some(arr(vec![num(9)]))).unwrap();
    let p = m.get_method_name_parts();
    assert_eq!(p.iter().map(|s| s.as_str()).collect::<Vec<_>>(), vec!["appbase", "condenser_api", "get_block"]);
    assert_eq!(m.get_dotted_method_name(), "appbase.condenser_api.get_block");
    let m2 = convert_method_name("bridge.get_post", &None).unwrap();
    assert_eq!(m2.get_method_name_parts().len(), 2);
    let cfg = config(&[], vec![]);
    let req = m.format_for_upstream(&cfg);
    assert_eq!(req.jsonrpc, "2.0");
    assert_eq!(req.id, ID::Int(1));
    assert_eq!(req.method, "condenser_api.get_block");
    assert_eq!(req.params, Some(arr(vec![num(9)])));
}

#[test]
fn renamed_call_is_the_renaming_of_the_new_name() {
    let cfg = config(
        &[],
        vec![("c.d", vec!["b.c"]), ("b.c", vec!["a.b"])],
    );
    let params = Some(arr(vec![num(2)]));
    let direct = map_method_name(&cfg, "a.b", &params).unwrap();
    let restarted = map_method_name(&cfg, "b.c", &params).unwrap();
    assert_eq!(direct, restarted);
    check(&direct, "c", None, "d", "c.d");
}

#[test]
fn chain_without_repeats_ends_within_rules_plus_one() {
    let cfg = config(
        &[],
        vec![("d.e", vec!["c.d"]), ("c.d", vec!["b.c"]), ("b.c", vec!["a.b"])],
    );
    let m = map_method_name_within(&cfg, "a.b", &None, 4).unwrap().unwrap();
    assert_eq!(m.get_dotted_method_name(), "d.e");
    assert!(map_method_name_within(&cfg, "a.b", &None, 3).is_none());
}
