use std::path::Path;
use vibealong::config::{
    in_app_discovery_path, normalize_base_url, normalize_in_app_config,
    parse_allowed_sender_items, resolve_path, CliOptions, ConfigError, DebugConfig,
    DiscoveryConfig, ForwardTarget, InAppConfig, NormalizedConfig, OscListen, PathPlace,
    RelayPaths,
};
use vibealong::config_file::{
    discovery_path, load_config_text, merge_with_defaults, normalize_config,
};
use vibealong::float::{from_bits, FloatBits};
use vibealong::ip::IpAddress;
use vibealong::json;
use vibealong::json::JsonValue;
use vibealong::mapping::{Curve, Mapping, UpperBound};
use vibealong::smoothing::OutputTuning;

fn number(x: f64) -> FloatBits {
    from_bits(x.to_bits())
}

fn value(x: FloatBits) -> f64 {
    f64::from_bits(x.bits)
}

fn upper(mapping: &Mapping) -> f64 {
    match mapping.max {
        UpperBound::Value(max) => value(max),
        UpperBound::OneAboveMin => value(mapping.min) + 1.0,
    }
}

fn document(text: &str) -> JsonValue {
    json::parse(text).expect("json")
}

fn merged(text: &str) -> JsonValue {
    merge_with_defaults(&document(text))
}

fn merged_minimal_valid() -> JsonValue {
    merged(r#"{"creatorUsername": "Vee", "streamKey": "key_123"}"#)
}

fn sample_in_app_config() -> InAppConfig {
    InAppConfig {
        website_base_url: "https://dev.vrlewds.com".to_string(),
        creator_username: "Vee".to_string(),
        allow_insecure_http: false,
        osc_listen: OscListen {
            host: "127.0.0.1".to_string(),
            port: 9001,
        },
        allow_network_osc: false,
        osc_allowed_senders: Vec::new(),
        relay: RelayPaths {
            session_path: "/api/sps/session".to_string(),
            ingest_path: "/api/sps/ingest".to_string(),
        },
        debug: DebugConfig {
            log_osc: false,
            log_unmapped_only: false,
            log_configured_only: false,
            log_relay: false,
        },
        discovery: DiscoveryConfig {
            enabled: false,
            file_path: "scripts/vrl-osc-discovered.txt".to_string(),
            include_arg_types: false,
        },
        forward_targets: vec![ForwardTarget {
            host: "127.0.0.1".to_string(),
            port: 9000,
        }],
        mappings: vec![Mapping::new(
            "/avatar/parameters/SPS_Contact",
            number(1.0),
            number(0.02),
            false,
            Curve::Linear,
            number(0.0),
            number(1.0),
        )
        .expect("valid mapping")],
        output: OutputTuning::default(),
    }
}

fn place_of(path: &str) -> PathPlace {
    PathPlace {
        absolute: Path::new(path).is_absolute(),
        from_here: Ok(Path::new("/work").join(path).to_string_lossy().into_owned()),
    }
}

fn normalized(config: &JsonValue, cli: &CliOptions) -> Result<NormalizedConfig, ConfigError> {
    normalize_config(config, cli, &place_of(&discovery_path(config, cli)))
}

fn normalized_in_app(config: &InAppConfig, key: &str) -> Result<NormalizedConfig, ConfigError> {
    normalize_in_app_config(config, key, &place_of(&in_app_discovery_path(config)))
}

#[test]
fn deep_merge_merges_objects_and_replaces_arrays() {
    let merged = merged(
        r#"{
            "oscListen": { "port": 6010 },
            "inputs": [{ "address": "/avatar/parameters/X", "weight": 2 }]
        }"#,
    );
    assert_eq!(
        json::text_of(json::get2(&merged, "oscListen", "host")),
        Some("127.0.0.1")
    );
    assert_eq!(
        value(json::js_to_number(json::get2(&merged, "oscListen", "port"))),
        6010.0
    );
    let inputs_len = json::array_of(merged.get("inputs"))
        .map(Vec::len)
        .unwrap_or_default();
    assert_eq!(inputs_len, 1);
}

#[test]
fn requires_creator_and_stream_key() {
    let merged = merged("{}");
    let error = normalized(&merged, &CliOptions::default()).expect_err("must fail");
    assert_eq!(error.message, "config.creatorUsername is required");
}

#[test]
fn enforces_https_unless_explicitly_allowed() {
    let insecure = merged(
        r#"{
            "websiteBaseUrl": "http://example.com",
            "creatorUsername": "Vee",
            "streamKey": "k"
        }"#,
    );
    let error = normalized(&insecure, &CliOptions::default()).expect_err("must fail");
    assert_eq!(
        error.message,
        "websiteBaseUrl must use HTTPS unless allowInsecureHttp=true for local testing"
    );

    let local_ok = merged(
        r#"{
            "websiteBaseUrl": "http://localhost:3000",
            "creatorUsername": "Vee",
            "streamKey": "k"
        }"#,
    );
    assert!(normalized(&local_ok, &CliOptions::default()).is_ok());
}

#[test]
fn rejects_non_loopback_osc_host_without_explicit_network_flag() {
    let merged = merged(
        r#"{
            "creatorUsername": "Vee",
            "streamKey": "k",
            "oscListen": { "host": "0.0.0.0", "port": 9001 }
        }"#,
    );
    let error = normalized(&merged, &CliOptions::default()).expect_err("must fail");
    assert_eq!(
        error.message,
        "config.oscListen.host must be loopback unless allowNetworkOsc=true"
    );
}

#[test]
fn parses_sender_allowlist_when_network_mode_enabled() {
    let merged = merged(
        r#"{
            "creatorUsername": "Vee",
            "streamKey": "k",
            "allowNetworkOsc": true,
            "oscListen": { "host": "0.0.0.0", "port": 9001 },
            "oscAllowedSenders": ["127.0.0.1", "192.168.1.20"]
        }"#,
    );
    let normalized = normalized(&merged, &CliOptions::default()).expect("valid config");
    assert!(normalized.allow_network_osc);
    assert_eq!(normalized.osc_allowed_senders.len(), 2);
}

#[test]
fn validates_osc_port() {
    let merged = merged(
        r#"{
            "creatorUsername": "Vee",
            "streamKey": "k",
            "oscListen": { "port": 0 }
        }"#,
    );
    let error = normalized(&merged, &CliOptions::default()).expect_err("must fail");
    assert_eq!(
        error.message,
        "config.oscListen.port must be a valid UDP port"
    );
}

#[test]
fn debug_precedence_matches_cli_rules() {
    let merged = merged(
        r#"{
            "creatorUsername": "Vee",
            "streamKey": "k",
            "debug": {
                "logUnmappedOnly": true,
                "logConfiguredOnly": false
            }
        }"#,
    );
    let cli = CliOptions {
        debug_configured_only: true,
        ..CliOptions::default()
    };
    let normalized = normalized(&merged, &cli).expect("valid config");
    assert!(normalized.debug.log_osc);
    assert!(normalized.debug.log_configured_only);
    assert!(!normalized.debug.log_unmapped_only);
}

#[test]
fn discovery_cli_path_enables_and_resolves() {
    let merged = merged_minimal_valid();
    let cli = CliOptions {
        discovery_path: Some("tmp/discovered.txt".to_string()),
        discovery_include_arg_types: true,
        ..CliOptions::default()
    };
    let normalized = normalized(&merged, &cli).expect("valid config");
    assert!(normalized.discovery.enabled);
    assert!(normalized.discovery.include_arg_types);
    assert!(normalized.discovery.file_path.ends_with("tmp/discovered.txt"));
    assert_eq!(normalized.discovery.file_path, "/work/tmp/discovered.txt");
}

#[test]
fn mappings_are_normalized_and_invalid_addresses_dropped() {
    let merged = merged(
        r#"{
            "creatorUsername": "Vee",
            "streamKey": "k",
            "inputs": [
                { "address": "invalid", "weight": 1 },
                {
                    "address": "/avatar/parameters/Valid",
                    "weight": "2",
                    "curve": "easeOutQuad",
                    "invert": true,
                    "deadzone": 1.2,
                    "min": 4,
                    "max": 4
                }
            ]
        }"#,
    );
    let normalized = normalized(&merged, &CliOptions::default()).expect("valid config");
    assert_eq!(normalized.mappings.len(), 1);
    let mapping = &normalized.mappings[0];
    assert_eq!(mapping.address, "/avatar/parameters/Valid");
    assert_eq!(value(mapping.weight), 2.0);
    assert_eq!(value(mapping.deadzone), 1.0);
    assert!(mapping.invert);
    assert_eq!(mapping.curve, Curve::EaseOutQuad);
    assert_eq!(value(mapping.min), 4.0);
    assert_eq!(upper(mapping), 5.0);
}

#[test]
fn forward_targets_filter_invalid_entries() {
    let merged = merged(
        r#"{
            "creatorUsername": "Vee",
            "streamKey": "k",
            "forwardTargets": [
                { "host": "127.0.0.1", "port": 9000 },
                { "host": "", "port": 9001 },
                { "host": "localhost", "port": 70000 }
            ]
        }"#,
    );
    let normalized = normalized(&merged, &CliOptions::default()).expect("valid config");
    assert_eq!(normalized.forward_targets.len(), 1);
    assert_eq!(normalized.forward_targets[0].port, 9000);
}

#[test]
fn output_clamps_match_js_limits() {
    let merged = merged(
        r#"{
            "creatorUsername": "Vee",
            "streamKey": "k",
            "output": {
                "emitHz": 500,
                "attackMs": 1,
                "releaseMs": 9000,
                "emaAlpha": 0,
                "minDelta": -5,
                "heartbeatMs": 50
            }
        }"#,
    );
    let normalized = normalized(&merged, &CliOptions::default()).expect("valid config");
    assert_eq!(value(normalized.output.emit_hz), 60.0);
    assert_eq!(value(normalized.output.attack_ms), 10.0);
    assert_eq!(value(normalized.output.release_ms), 5000.0);
    assert_eq!(value(normalized.output.ema_alpha), 0.01);
    assert_eq!(value(normalized.output.min_delta), 0.0);
    assert_eq!(normalized.output.heartbeat_ms, 200);
}

#[test]
fn output_defaults_match_js_defaults() {
    let merged = merged_minimal_valid();
    let normalized = normalized(&merged, &CliOptions::default()).expect("valid config");
    assert_eq!(value(normalized.output.emit_hz), 20.0);
    assert_eq!(value(normalized.output.attack_ms), 55.0);
    assert_eq!(value(normalized.output.release_ms), 220.0);
    assert_eq!(value(normalized.output.ema_alpha), 0.35);
    assert_eq!(value(normalized.output.min_delta), 0.015);
    assert_eq!(normalized.output.heartbeat_ms, 1000);
}

#[test]
fn in_app_normalization_validates_and_sanitizes() {
    let mut in_app = sample_in_app_config();
    in_app.output.emit_hz = number(500.0);
    in_app.output.attack_ms = number(1.0);
    in_app.debug.log_configured_only = true;
    in_app.debug.log_unmapped_only = true;
    in_app.discovery.file_path = String::new();

    let normalized =
        normalized_in_app(&in_app, "stream_key_123").expect("valid in-app config");
    assert_eq!(value(normalized.output.emit_hz), 60.0);
    assert_eq!(value(normalized.output.attack_ms), 10.0);
    assert!(normalized.debug.log_configured_only);
    assert!(!normalized.debug.log_unmapped_only);
    assert!(normalized
        .discovery
        .file_path
        .ends_with("scripts/vrl-osc-discovered.txt"));
}

#[test]
fn in_app_normalization_rejects_missing_stream_key() {
    let in_app = sample_in_app_config();
    let error = normalized_in_app(&in_app, "").expect_err("must fail");
    assert_eq!(error.message, "config.streamKey is required");
}

#[test]
fn in_app_normalization_allows_empty_mappings() {
    let mut in_app = sample_in_app_config();
    in_app.mappings.clear();
    let normalized =
        normalized_in_app(&in_app, "stream_key_123").expect("valid in-app config");
    assert!(normalized.mappings.is_empty());
}

#[test]
fn base_url_is_read_by_its_parts() {
    let url = normalize_base_url("  HTTPS://Dev.VRLewds.com/path  ", false).expect("url");
    assert_eq!(url.text, "https://dev.vrlewds.com/path");
    assert_eq!(url.scheme, "https");
    assert_eq!(url.host.as_deref(), Some("dev.vrlewds.com"));
    assert!(normalize_base_url("http://10.0.0.1", true).is_ok());
    assert!(normalize_base_url("http://127.0.0.1:3000", false).is_ok());
    assert_eq!(
        normalize_base_url("not a url", false).expect_err("refused").message,
        "config.websiteBaseUrl must be a valid URL"
    );
    assert_eq!(
        normalize_base_url("   ", false).expect_err("refused").message,
        "config.websiteBaseUrl is required"
    );
}

#[test]
fn in_app_normalization_reports_each_broken_rule() {
    let mut config = sample_in_app_config();
    config.creator_username = "  ".to_string();
    assert_eq!(
        normalized_in_app(&config, "k").expect_err("refused").message,
        "config.creatorUsername is required"
    );

    let mut config = sample_in_app_config();
    config.osc_listen.host = " ".to_string();
    assert_eq!(
        normalized_in_app(&config, "k").expect_err("refused").message,
        "config.oscListen.host is required"
    );

    let mut config = sample_in_app_config();
    config.osc_listen.port = 0;
    assert_eq!(
        normalized_in_app(&config, "k").expect_err("refused").message,
        "config.oscListen.port must be a valid UDP port"
    );

    let mut config = sample_in_app_config();
    config.osc_allowed_senders = vec!["192.168.1.20".to_string()];
    assert_eq!(
        normalized_in_app(&config, "k").expect_err("refused").message,
        "config.oscAllowedSenders requires allowNetworkOsc=true"
    );

    let mut config = sample_in_app_config();
    config.allow_network_osc = true;
    config.osc_allowed_senders = vec!["somewhere".to_string()];
    assert_eq!(
        normalized_in_app(&config, "k").expect_err("refused").message,
        "Invalid sender IP 'somewhere'"
    );
}

#[test]
fn senders_are_listed_once_in_order() {
    let items = vec![
        " 192.168.1.20 ".to_string(),
        "".to_string(),
        "::1".to_string(),
        "192.168.1.20".to_string(),
    ];
    let senders = parse_allowed_sender_items(&items).expect("senders");
    assert_eq!(
        senders,
        vec![IpAddress::V4(0xC0A8_0114), IpAddress::V6(1)]
    );
}

#[test]
fn config_text_is_merged_and_faults_are_told() {
    let loaded = load_config_text("/etc/bridge.json", r#"{"creatorUsername": "Vee"}"#)
        .expect("loaded");
    assert_eq!(loaded.full_path, "/etc/bridge.json");
    assert_eq!(json::text_of(loaded.value.get("creatorUsername")), Some("Vee"));
    assert!(loaded.value.get("oscListen").is_some());
    assert!(load_config_text("/etc/bridge.json", "{ nope").is_err());
}

#[test]
fn network_hosts_are_allowed_with_the_flag() {
    let mut config = sample_in_app_config();
    config.osc_listen.host = "0.0.0.0".to_string();
    assert!(normalized_in_app(&config, "k").is_err());
    config.allow_network_osc = true;
    let normalized = normalized_in_app(&config, "  k  ").expect("valid");
    assert_eq!(normalized.stream_key, "k");
    assert_eq!(normalized.osc_listen.host, "0.0.0.0");
}

#[test]
fn discovery_paths_are_made_absolute() {
    let mut config = sample_in_app_config();
    config.discovery.file_path = "logs/found.txt".to_string();
    let resolved = normalized_in_app(&config, "k").expect("valid");
    assert_eq!(resolved.discovery.file_path, "/work/logs/found.txt");
    config.discovery.file_path = "/var/found.txt".to_string();
    let resolved = normalized_in_app(&config, "k").expect("valid");
    assert_eq!(resolved.discovery.file_path, "/var/found.txt");

    let lost = PathPlace {
        absolute: false,
        from_here: Err("gone".to_string()),
    };
    let message = "Failed to resolve current directory: gone";
    assert_eq!(resolve_path("x", &lost).expect_err("lost").message, message);
    config.discovery.file_path = "x".to_string();
    let error = normalize_in_app_config(&config, "k", &lost).expect_err("lost");
    assert_eq!(error.message, message);
    let document = merged_minimal_valid();
    let error = normalize_config(&document, &CliOptions::default(), &lost).expect_err("lost");
    assert_eq!(error.message, message);
    let absolute = PathPlace {
        absolute: true,
        from_here: Err("gone".to_string()),
    };
    assert_eq!(resolve_path("/x", &absolute).expect("absolute"), "/x");
    let error = normalize_in_app_config(&config, "", &lost).expect_err("key");
    assert_eq!(error.message, "config.streamKey is required");
}
