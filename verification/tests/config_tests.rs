use drone::config::{
    ttl_value_from_yaml, AppConfig, DroneConfig, TtlValue, YamlConfig, YamlSpecialTtlValue,
    YamlTtlValue,
};

fn drone_settings() -> DroneConfig {
    DroneConfig {
        port: 8999,
        hostname: "0.0.0.0".to_string(),
        cache_max_capacity: 4 << 30,
        operator_message: "Drone by Deathwing".to_string(),
        middleware_connection_threads: 8,
    }
}

fn pair(a: &str, b: &str) -> (String, String) {
    (a.to_string(), b.to_string())
}

fn sample_yaml() -> YamlConfig {
    YamlConfig {
        drone: drone_settings(),
        backends: vec![
            pair("hived", "http://hived:8091"),
            pair("hivemind", "http://hivemind:8080"),
        ],
        translate_to_appbase: vec!["hived".to_string()],
        urls: vec![
            pair("appbase", "hived"),
            pair("hived", "hived"),
            pair("bridge", "hivemind"),
            pair("appbase.condenser_api.get_followers", "hivemind"),
        ],
        ttls: vec![
            ("appbase".to_string(), YamlTtlValue::DurationInSeconds(3)),
            (
                "appbase.condenser_api.get_block".to_string(),
                YamlTtlValue::SpecialValue(YamlSpecialTtlValue::ExpireIfReversible),
            ),
            ("bridge".to_string(), YamlTtlValue::SpecialValue(YamlSpecialTtlValue::NoExpire)),
        ],
        timeouts: vec![("appbase".to_string(), 3), ("bridge".to_string(), 30)],
        equivalent_methods: vec![(
            "bridge.get_ranked_posts".to_string(),
            vec!["hived.database_api.get_trending".to_string()],
        )],
    }
}

fn parts(names: &[&str]) -> Vec<String> {
    names.iter().map(|s| s.to_string()).collect()
}

#[test]
fn ttl_values_from_yaml() {
    let cases = [
        (YamlTtlValue::SpecialValue(YamlSpecialTtlValue::NoCache), TtlValue::NoCache),
        (YamlTtlValue::SpecialValue(YamlSpecialTtlValue::NoExpire), TtlValue::NoExpire),
        (
            YamlTtlValue::SpecialValue(YamlSpecialTtlValue::ExpireIfReversible),
            TtlValue::ExpireIfReversible,
        ),
        (
            YamlTtlValue::SpecialValue(YamlSpecialTtlValue::HonorUpstreamCacheControl),
            TtlValue::HonorUpstreamCacheControl,
        ),
        (YamlTtlValue::DurationInSeconds(42), TtlValue::DurationInSeconds(42)),
    ];
    for (yaml, expected) in cases.iter() {
        assert_eq!(ttl_value_from_yaml(yaml), *expected);
    }
}

#[test]
fn url_lookup_takes_longest_configured_prefix() {
    let config = AppConfig::from_yaml(sample_yaml());
    let p = parts(&["appbase", "condenser_api", "get_followers"]);
    let refs: Vec<&String> = p.iter().collect();
    assert_eq!(config.lookup_url(refs).unwrap(), "http://hivemind:8080");
    let p = parts(&["appbase", "condenser_api", "get_block"]);
    let refs: Vec<&String> = p.iter().collect();
    assert_eq!(config.lookup_url(refs).unwrap(), "http://hived:8091");
    let p = parts(&["bridge", "get_post"]);
    let refs: Vec<&String> = p.iter().collect();
    assert_eq!(config.lookup_url(refs).unwrap(), "http://hivemind:8080");
    let p = parts(&["unknown", "method"]);
    let refs: Vec<&String> = p.iter().collect();
    assert!(config.lookup_url(refs).is_none());
}

#[test]
fn ttl_and_timeout_lookups() {
    let config = AppConfig::from_yaml(sample_yaml());
    let p = parts(&["appbase", "condenser_api", "get_block"]);
    let refs: Vec<&String> = p.iter().collect();
    assert_eq!(*config.lookup_ttl(refs).unwrap(), TtlValue::ExpireIfReversible);
    let p = parts(&["appbase", "condenser_api", "get_accounts"]);
    let refs: Vec<&String> = p.iter().collect();
    assert_eq!(*config.lookup_ttl(refs).unwrap(), TtlValue::DurationInSeconds(3));
    let p = parts(&["bridge", "get_post"]);
    let refs: Vec<&String> = p.iter().collect();
    assert_eq!(*config.lookup_ttl(refs.clone()).unwrap(), TtlValue::NoExpire);
    assert_eq!(*config.lookup_timeout(refs).unwrap(), 30);
    let p = parts(&["hived", "database_api", "get_block"]);
    let refs: Vec<&String> = p.iter().collect();
    assert!(config.lookup_ttl(refs.clone()).is_none());
    assert!(config.lookup_timeout(refs).is_none());
}

#[test]
fn later_entries_replace_earlier_ones() {
    let mut yaml = sample_yaml();
    yaml.timeouts.push(("bridge".to_string(), 5));
    yaml.equivalent_methods.push((
        "bridge.get_discussion".to_string(),
        vec!["hived.database_api.get_trending".to_string()],
    ));
    let config = AppConfig::from_yaml(yaml);
    let p = parts(&["bridge", "get_post"]);
    let refs: Vec<&String> = p.iter().collect();
    assert_eq!(*config.lookup_timeout(refs).unwrap(), 5);
    assert_eq!(
        config.lookup_equivalent_method("hived.database_api.get_trending".to_string()),
        "bridge.get_discussion"
    );
}

#[test]
fn equivalent_method_lookup() {
    let config = AppConfig::from_yaml(sample_yaml());
    assert_eq!(
        config.lookup_equivalent_method("hived.database_api.get_trending".to_string()),
        "bridge.get_ranked_posts"
    );
    assert_eq!(
        config.lookup_equivalent_method("bridge.get_post".to_string()),
        "bridge.get_post"
    );
}

#[test]
fn undefined_backend_is_found() {
    let yaml = sample_yaml();
    assert_eq!(yaml.undefined_backend(), None);
    let mut yaml = sample_yaml();
    yaml.urls.push(pair("condenser_api", "nowhere"));
    yaml.urls.push(pair("other", "elsewhere"));
    assert_eq!(yaml.undefined_backend(), Some(4));
}

#[test]
fn translate_set_and_backends() {
    let config = AppConfig::from_yaml(sample_yaml());
    assert!(config.translate_to_appbase.contains("hived"));
    assert!(!config.translate_to_appbase.contains("appbase"));
    assert_eq!(config.backends.get("hivemind").unwrap(), "http://hivemind:8080");
    assert!(config.backends.get("nope").is_none());
    assert_eq!(config.drone.port, 8999);
}
