use drone::cache::{
    block_number_is_readable, cache_ttl_for, get_block_number_from_result, is_uncacheable_result,
    CacheEntry, CacheTtl, MyExpiry,
};
use drone::cache_control::{max_age_from_cache_control, MAX_DELTA_SECONDS};
use drone::config::{AppConfig, DroneConfig, YamlConfig, YamlSpecialTtlValue, YamlTtlValue};
use drone::json::{JsonNumber, JsonValue};
use drone::method_renamer::convert_method_name;

fn text(s: &str) -> JsonValue {
    JsonValue::Str(s.to_string())
}

fn obj(members: Vec<(&str, JsonValue)>) -> JsonValue {
    JsonValue::Object(members.into_iter().map(|(k, v)| (k.to_string(), v)).collect())
}

fn config() -> AppConfig {
    AppConfig::from_yaml(YamlConfig {
        drone: DroneConfig {
            port: 8999,
            hostname: "0.0.0.0".to_string(),
            cache_max_capacity: 1024,
            operator_message: "Drone by Deathwing".to_string(),
            middleware_connection_threads: 8,
        },
        backends: vec![],
        translate_to_appbase: vec![],
        urls: vec![],
        ttls: vec![
            ("appbase".to_string(), YamlTtlValue::DurationInSeconds(3)),
            (
                "appbase.condenser_api.get_block".to_string(),
                YamlTtlValue::SpecialValue(YamlSpecialTtlValue::ExpireIfReversible),
            ),
            (
                "appbase.condenser_api.get_config".to_string(),
                YamlTtlValue::SpecialValue(YamlSpecialTtlValue::NoExpire),
            ),
            (
                "appbase.condenser_api.get_state".to_string(),
                YamlTtlValue::SpecialValue(YamlSpecialTtlValue::HonorUpstreamCacheControl),
            ),
        ],
        timeouts: vec![],
        equivalent_methods: vec![],
    })
}

fn entry(ttl: CacheTtl) -> CacheEntry {
    CacheEntry { result: Ok(drone::cache::ApiCallResponseData {
        result: JsonValue::Null,
        backend_url: "u".to_string(),
        upstream_method: "m".to_string(),
    }), size: 1, ttl }
}

#[test]
fn expiration_per_ttl() {
    let key = "k".to_string();
    assert_eq!(MyExpiry.get_expiration(&key, &entry(CacheTtl::NoExpire)), None);
    assert_eq!(MyExpiry.get_expiration(&key, &entry(CacheTtl::NoCache)), Some(0));
    assert_eq!(MyExpiry.get_expiration(&key, &entry(CacheTtl::CacheForDuration(9))), Some(9));
}

#[test]
fn block_numbers_from_the_four_forms() {
    let appbase_block = obj(vec![("block", obj(vec![("block_id", text("0000000a5f2e9c"))]))]);
    assert_eq!(get_block_number_from_result(&appbase_block), Some(10));
    let appbase_header = obj(vec![("header", obj(vec![("previous", text("0000000bffffff"))]))]);
    assert_eq!(get_block_number_from_result(&appbase_header), Some(12));
    let hived_block = obj(vec![("block_id", text("04c4b3a1deadbeef"))]);
    assert_eq!(get_block_number_from_result(&hived_block), Some(0x04c4b3a1));
    let hived_header = obj(vec![("previous", text("0000FFFF00"))]);
    assert_eq!(get_block_number_from_result(&hived_header), Some(0x10000));
    let nothing = obj(vec![("other", text("x"))]);
    assert_eq!(get_block_number_from_result(&nothing), None);
    let plus = obj(vec![("block_id", text("+000000f1234"))]);
    assert_eq!(get_block_number_from_result(&plus), Some(15));
}

#[test]
fn block_number_falls_through_bad_ids() {
    let r = obj(vec![
        ("block", obj(vec![("block_id", text("zzzzzzzz"))])),
        ("block_id", text("00000005aaaa")),
    ]);
    assert!(block_number_is_readable(&r));
    assert_eq!(get_block_number_from_result(&r), Some(5));
}

#[test]
fn short_block_ids_are_not_readable() {
    let r = obj(vec![("block_id", text("abc"))]);
    assert!(!block_number_is_readable(&r));
    let r = obj(vec![("previous", text("ffffffff0000"))]);
    assert!(!block_number_is_readable(&r));
    let r = obj(vec![("previous", text("fffffffe0000"))]);
    assert!(block_number_is_readable(&r));
    assert_eq!(get_block_number_from_result(&r), Some(0xffffffff));
}

#[test]
fn empty_results_are_not_cached() {
    assert!(is_uncacheable_result(&JsonValue::Null));
    assert!(is_uncacheable_result(&JsonValue::Array(vec![])));
    assert!(is_uncacheable_result(&obj(vec![("blocks", JsonValue::Array(vec![]))])));
    assert!(!is_uncacheable_result(&obj(vec![("blocks", JsonValue::Array(vec![JsonValue::Null]))])));
    let cfg = config();
    let m = convert_method_name("condenser_api.get_accounts", &None).unwrap();
    assert_eq!(cache_ttl_for(&cfg, &m, &JsonValue::Null, 0, None), CacheTtl::NoCache);
    assert_eq!(
        cache_ttl_for(&cfg, &m, &JsonValue::Number(JsonNumber::PosInt(1)), 0, None),
        CacheTtl::CacheForDuration(3)
    );
}

#[test]
fn reversible_blocks_expire_after_nine_seconds() {
    let cfg = config();
    let m = convert_method_name("condenser_api.get_block", &None).unwrap();
    let result = obj(vec![("block", obj(vec![("block_id", text("0000000a00"))]))]);
    assert_eq!(cache_ttl_for(&cfg, &m, &result, 5, None), CacheTtl::CacheForDuration(9));
    assert_eq!(cache_ttl_for(&cfg, &m, &result, 10, None), CacheTtl::NoExpire);
    let no_block = obj(vec![("other", text("x"))]);
    assert_eq!(cache_ttl_for(&cfg, &m, &no_block, 10, None), CacheTtl::NoCache);
}

#[test]
fn configured_ttls_apply() {
    let cfg = config();
    let r = obj(vec![("x", JsonValue::Bool(true))]);
    let m = convert_method_name("condenser_api.get_config", &None).unwrap();
    assert_eq!(cache_ttl_for(&cfg, &m, &r, 0, None), CacheTtl::NoExpire);
    let m = convert_method_name("condenser_api.get_state", &None).unwrap();
    assert_eq!(cache_ttl_for(&cfg, &m, &r, 0, None), CacheTtl::NoCache);
    assert_eq!(cache_ttl_for(&cfg, &m, &r, 0, Some(30)), CacheTtl::CacheForDuration(30));
    assert_eq!(cache_ttl_for(&cfg, &m, &JsonValue::Null, 0, Some(30)), CacheTtl::NoCache);
    let m = convert_method_name("bridge.get_post", &None).unwrap();
    assert_eq!(cache_ttl_for(&cfg, &m, &r, 0, None), CacheTtl::NoCache);
}

#[test]
fn entry_copies_are_equal() {
    let e = entry(CacheTtl::CacheForDuration(4));
    assert_eq!(e.copy_entry(), e);
}

#[test]
fn upstream_max_age_is_honoured() {
    let cfg = config();
    let r = obj(vec![("x", JsonValue::Bool(true))]);
    let m = convert_method_name("condenser_api.get_state", &None).unwrap();
    let max_age = max_age_from_cache_control("public, max-age=120");
    assert_eq!(max_age, Some(120));
    assert_eq!(cache_ttl_for(&cfg, &m, &r, 0, max_age), CacheTtl::CacheForDuration(120));
    let m = convert_method_name("condenser_api.get_config", &None).unwrap();
    assert_eq!(cache_ttl_for(&cfg, &m, &r, 0, max_age), CacheTtl::NoExpire);
}

#[test]
fn cache_control_max_age() {
    assert_eq!(max_age_from_cache_control("max-age=60"), Some(60));
    assert_eq!(max_age_from_cache_control("no-cache, Max-Age=7"), Some(7));
    assert_eq!(max_age_from_cache_control(" \tMAX-AGE=0 ,max-age=9"), Some(0));
    assert_eq!(max_age_from_cache_control(""), None);
    assert_eq!(max_age_from_cache_control("no-store"), None);
    assert_eq!(max_age_from_cache_control("max-age="), None);
    assert_eq!(max_age_from_cache_control("max-age=1x"), None);
    assert_eq!(max_age_from_cache_control("max-age=-1"), None);
    assert_eq!(max_age_from_cache_control("s-maxage=5"), None);
    assert_eq!(max_age_from_cache_control("max-age=99999999999999999999999"), Some(MAX_DELTA_SECONDS));
    assert_eq!(max_age_from_cache_control("max-age=2147483648"), Some(2147483648));
    assert_eq!(max_age_from_cache_control("max-age=2147483649"), Some(2147483648));
}
