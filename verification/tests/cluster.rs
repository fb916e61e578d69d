use std::time::Duration;

use fluvio_control::cluster::{
    check_spu_local_override, parse_spu_retry_env_u32, parse_spu_retry_env_u64, spu_retry_config,
    ClusterFields, EnvOverrides, FluvioClusterConfig, SpuRetryConfig, TlsPolicy, TlsSource,
};
use toml::{Table, Value};

/// What a profile says of a cluster.
fn fields(profile: &str, cluster: &str) -> ClusterFields {
    let file: Table = profile.parse().unwrap();
    let table = file["cluster"][cluster].as_table().unwrap();
    let number = |name: &str| table.get(name).map(|v| v.as_integer().unwrap());
    ClusterFields {
        endpoint: table["endpoint"].as_str().unwrap().to_string(),
        use_spu_local_address: table
            .get("use_spu_local_address")
            .map(|v| v.as_bool().unwrap()),
        tls: None,
        spu_retry_count: number("spu_retry_count").map(|n| n as u32),
        spu_retry_initial_delay_ms: number("spu_retry_initial_delay_ms").map(|n| n as u64),
        spu_retry_max_delay_ms: number("spu_retry_max_delay_ms").map(|n| n as u64),
        metadata: table.get("metadata").map(|v| v.as_table().unwrap().clone()),
    }
}

fn load_cluster(profile: &str) -> FluvioClusterConfig {
    FluvioClusterConfig::from_fields(fields(profile, "local"))
}

fn one_entry(name: &str, value: &str) -> Value {
    let mut table = Table::new();
    table.insert(name.to_string(), Value::String(value.to_string()));
    Value::Table(table)
}

fn entry<'a>(config: &'a FluvioClusterConfig, name: &str, key: &str) -> Option<&'a str> {
    config.query_metadata_by_name(name)?.get(key)?.as_str()
}

#[test]
fn test_get_metadata_path() {
    let toml = r#"version = "2"
[profile.local]
cluster = "local"

[cluster.local]
endpoint = "127.0.0.1:9003"

[cluster.local.metadata.custom]
name = "foo"
"#;
    let config = load_cluster(toml);
    assert_eq!(
        config.query_metadata_by_name("custom"),
        Some(&one_entry("name", "foo"))
    );
}

#[test]
fn test_create_metadata() {
    let toml = r#"version = "2"
[profile.local]
cluster = "local"

[cluster.local]
endpoint = "127.0.0.1:9003"
"#;
    let mut config = load_cluster(toml);
    let preference = one_entry("connection", "wired");
    config.update_metadata_by_name("preference", preference.clone());
    let metadata = config.query_metadata_by_name("preference").expect("");
    assert_eq!(&preference, metadata);
}

#[test]
fn test_update_old_metadata() {
    let toml = r#"version = "2"
[profile.local]
cluster = "local"

[cluster.local]
endpoint = "127.0.0.1:9003"

[cluster.local.metadata.installation]
type = "local"
"#;
    let mut config = load_cluster(toml);
    assert_eq!(
        config.query_metadata_by_name("installation"),
        Some(&one_entry("type", "local"))
    );
    config.update_metadata_by_name("installation", one_entry("type", "cloud"));
    assert_eq!(entry(&config, "installation", "type"), Some("cloud"));
}

#[test]
fn test_update_with_new_metadata() {
    let toml = r#"version = "2"
[profile.local]
cluster = "local"

[cluster.local]
endpoint = "127.0.0.1:9003"

[cluster.local.metadata.installation]
type = "local"
"#;
    let mut config = load_cluster(toml);
    config.update_metadata_by_name("preference", one_entry("connection", "wired"));
    assert_eq!(entry(&config, "installation", "type"), Some("local"));
    assert_eq!(entry(&config, "preference", "connection"), Some("wired"));
    assert!(config.has_metadata("preference"));
    assert!(!config.has_metadata("connection"));
    assert_eq!(config.query_metadata_by_name("connection"), None);
}

#[test]
fn test_profile_with_metadata() {
    let toml = r#"version = "2"
[profile.extra]
cluster = "extra"

[cluster.extra]
endpoint = "127.0.0.1:9003"

[cluster.extra.metadata.deep.nesting.example]
key = "custom field"

[cluster.extra.metadata.installation]
type = "local"
"#;
    let cluster = FluvioClusterConfig::from_fields(fields(toml, "extra"));
    let table: Table = r#"
[deep.nesting.example]
key = "custom field"

[installation]
type = "local"
"#
    .parse()
    .unwrap();
    assert_eq!(cluster.metadata, table);
}

/// A profile with one cluster, as it is written.
fn profile_of(name: &str, cluster: &FluvioClusterConfig) -> String {
    let mut fields = Table::new();
    fields.insert("endpoint".to_string(), Value::String(cluster.endpoint.clone()));
    fields.insert("metadata".to_string(), Value::Table(cluster.metadata.clone()));
    let mut clusters = Table::new();
    clusters.insert(name.to_string(), Value::Table(fields));
    let mut file = Table::new();
    file.insert("cluster".to_string(), Value::Table(clusters));
    file.to_string()
}

#[test]
fn test_save_updated_metadata() {
    let toml = r#"version = "2"
[profile.updated]
cluster = "updated"

[cluster.updated]
endpoint = "127.0.0.1:9003"

[cluster.updated.metadata.installation]
type = "local"
"#;
    let mut cluster = FluvioClusterConfig::from_fields(fields(toml, "updated"));
    let table: Table = "[installation]\ntype = \"local\"\n".parse().unwrap();
    assert_eq!(cluster.metadata, table);

    cluster.update_metadata_by_name("installation", one_entry("type", "cloud"));
    let updated_table: Table = "[installation]\ntype = \"cloud\"\n".parse().unwrap();
    assert_eq!(cluster.metadata, updated_table);

    let saved = profile_of("updated", &cluster);
    let mut cluster = FluvioClusterConfig::from_fields(fields(&saved, "updated"));
    assert_eq!(cluster.metadata, updated_table);

    cluster.update_metadata_by_name("installation", one_entry("type", "local"));
    assert_eq!(cluster.metadata, table);
}

#[test]
fn test_spu_local_override_true() {
    assert!(check_spu_local_override("true"));
}

#[test]
fn test_spu_local_override_1() {
    assert!(check_spu_local_override("1"));
}

#[test]
fn test_spu_local_override_case_insensitive() {
    assert!(check_spu_local_override("TRUE"));
    assert!(check_spu_local_override("True"));
    assert!(check_spu_local_override("tRuE"));
}

#[test]
fn test_spu_local_override_ignores_invalid() {
    assert!(!check_spu_local_override("yes"));
    assert!(!check_spu_local_override("0"));
    assert!(!check_spu_local_override("false"));
    assert!(!check_spu_local_override(""));
}

#[test]
fn test_spu_local_address_default_false() {
    let config = FluvioClusterConfig::new("localhost:9003".to_string());
    assert!(!config.use_spu_local_address);
}

#[test]
fn test_spu_retry_defaults() {
    let config = FluvioClusterConfig::new("localhost:9003".to_string());
    assert_eq!(config.spu_retry_count, 16);
    assert_eq!(config.spu_retry_initial_delay_ms, 1000);
    assert_eq!(config.spu_retry_max_delay_ms, 30000);
}

#[test]
fn test_spu_retry_duration_helpers() {
    let config = FluvioClusterConfig::new("localhost:9003".to_string());
    assert_eq!(config.spu_retry_initial_delay(), Duration::from_millis(1000));
    assert_eq!(config.spu_retry_max_delay(), Duration::from_millis(30000));
}

#[test]
fn test_spu_retry_config_deserialization_defaults() {
    let toml = r#"version = "2"
[profile.local]
cluster = "local"

[cluster.local]
endpoint = "127.0.0.1:9003"
"#;
    let config = load_cluster(toml);
    assert_eq!(config.spu_retry_count, 16);
    assert_eq!(config.spu_retry_initial_delay_ms, 1000);
    assert_eq!(config.spu_retry_max_delay_ms, 30000);
}

#[test]
fn test_spu_retry_config_deserialization_custom() {
    let toml = r#"version = "2"
[profile.local]
cluster = "local"

[cluster.local]
endpoint = "127.0.0.1:9003"
spu_retry_count = 5
spu_retry_initial_delay_ms = 200
spu_retry_max_delay_ms = 10000
"#;
    let config = load_cluster(toml);
    assert_eq!(config.spu_retry_count, 5);
    assert_eq!(config.spu_retry_initial_delay_ms, 200);
    assert_eq!(config.spu_retry_max_delay_ms, 10000);
}

#[test]
fn test_spu_retry_env_var_parsing() {
    assert_eq!(parse_spu_retry_env_u32("5"), Some(5));
    assert_eq!(parse_spu_retry_env_u32("0"), Some(0));
    assert_eq!(parse_spu_retry_env_u32("abc"), None);
    assert_eq!(parse_spu_retry_env_u32(""), None);

    assert_eq!(parse_spu_retry_env_u64("500"), Some(500));
    assert_eq!(parse_spu_retry_env_u64("0"), Some(0));
    assert_eq!(parse_spu_retry_env_u64("abc"), None);
}

#[test]
fn numbers_are_read_as_the_standard_library_reads_them() {
    for text in [
        "+7", "-0", "007", "+", "-", " 1", "1 ", "4294967295", "4294967296",
        "18446744073709551615", "18446744073709551616", "1_000", "\u{0661}",
    ] {
        assert_eq!(parse_spu_retry_env_u32(text), text.parse().ok(), "{text}");
        assert_eq!(parse_spu_retry_env_u64(text), text.parse().ok(), "{text}");
    }
}

#[test]
fn test_spu_retry_config_global_default() {
    let cfg = SpuRetryConfig::default();
    assert_eq!(cfg.retry_count, 16);
    assert_eq!(cfg.initial_delay, Duration::from_millis(1000));
    assert_eq!(cfg.max_delay, Duration::from_millis(30000));
}

fn no_overrides() -> EnvOverrides {
    EnvOverrides {
        spu_local: None,
        retry_count: None,
        initial_delay_ms: None,
        max_delay_ms: None,
    }
}

#[test]
fn variables_have_precedence() {
    let mut config = FluvioClusterConfig::new("localhost:9003".to_string());
    config.apply_env_overrides(&no_overrides());
    assert_eq!(config.spu_retry_count, 16);
    config.apply_env_overrides(&EnvOverrides {
        spu_local: Some("True".to_string()),
        retry_count: Some("3".to_string()),
        initial_delay_ms: Some("x".to_string()),
        max_delay_ms: Some("5000".to_string()),
    });
    assert!(config.use_spu_local_address);
    assert_eq!(config.spu_retry_count, 3);
    assert_eq!(config.spu_retry_initial_delay_ms, 1000);
    assert_eq!(config.spu_retry_max_delay_ms, 5000);
    config.apply_env_overrides(&EnvOverrides {
        spu_local: Some("false".to_string()),
        ..no_overrides()
    });
    assert!(config.use_spu_local_address);
}

#[test]
fn what_is_published_first_stays() {
    let profile = "[cluster.local]\nendpoint = \"a\"\nspu_retry_count = 1\n\
                   [cluster.other]\nendpoint = \"b\"\nspu_retry_count = 2\n";
    let mut published = None;
    assert_eq!(spu_retry_config(&published), SpuRetryConfig::default());
    let overrides = EnvOverrides {
        max_delay_ms: Some("9".to_string()),
        ..no_overrides()
    };
    let first = FluvioClusterConfig::load(fields(profile, "local"), &overrides, &mut published);
    assert_eq!((first.endpoint.as_str(), first.spu_retry_count), ("a", 1));
    let second = FluvioClusterConfig::load(fields(profile, "other"), &overrides, &mut published);
    assert_eq!((second.endpoint.as_str(), second.spu_retry_count), ("b", 2));
    let active = spu_retry_config(&published);
    assert_eq!(active.retry_count, 1);
    assert_eq!(active.initial_delay, Duration::from_millis(1000));
    assert_eq!(active.max_delay, Duration::from_millis(9));
}

#[test]
fn a_profile_that_is_not_there() {
    let mut published = None;
    let none = FluvioClusterConfig::load_with_profile(None, &no_overrides(), &mut published);
    assert!(none.is_none() && published.is_none());
    let profile = "[cluster.local]\nendpoint = \"a\"\nspu_retry_count = 7\n";
    let some = FluvioClusterConfig::load_with_profile(
        Some(fields(profile, "local")),
        &no_overrides(),
        &mut published,
    );
    assert_eq!(some.unwrap().spu_retry_count, 7);
    assert_eq!(published.unwrap().retry_count, 7);
}

#[test]
fn a_secured_connection() {
    let source = || TlsSource::Files {
        domain: "d".to_string(),
        key: "k".to_string(),
        cert: "c".to_string(),
        ca_cert: "a".to_string(),
    };
    let config = FluvioClusterConfig::new("h".to_string());
    assert_eq!(config.tls, TlsPolicy::Disabled);
    let config = config.with_tls(TlsPolicy::Verified(source()));
    assert_eq!(config.tls, TlsPolicy::Verified(source()));
    assert_eq!(config.endpoint, "h");
    assert_eq!(config.client_id, None);
}
