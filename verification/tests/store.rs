use std::path::Path;
use vibealong::config::{
    in_app_discovery_path, normalize_in_app_config, ConfigError, DebugConfig, DiscoveryConfig,
    ForwardTarget, InAppConfig, NormalizedConfig, OscListen, PathPlace, RelayPaths,
};
use vibealong::float::{from_bits, FloatBits};
use vibealong::ip::IpAddress;
use vibealong::mapping::{Curve, Mapping, UpperBound};
use vibealong::model::Duplicate;
use vibealong::relay::MockTransport;
use vibealong::rows::{
    format_osc_sender_lines, i64_to_bool, is_duplicate_column, mapping_from_row, mapping_row,
    parse_osc_sender_lines, parse_preference, preference_text, profile_from_rows, profile_row,
    target_from_row, target_row,
};
use vibealong::service::{
    socket_address, ActiveRuntime, BridgeRuntime, DefaultRelayPublisherFactory, ServiceError,
    prepare_start,
};
use vibealong::smoothing::OutputTuning;
use vibealong::store::{
    assign_profile_id, build_sanitized_profile, check_stream_key, keyring_step, profile_id_or,
    selected_profile_id, AppProfile, InMemorySecretStore, KeyringRead, KeyringSecretStore,
    LoadedProfile, LookupStep, ProfileDocument, SecretStore, StoreError,
};

fn number(x: f64) -> FloatBits {
    from_bits(x.to_bits())
}

fn place_of(path: &str) -> PathPlace {
    PathPlace {
        absolute: Path::new(path).is_absolute(),
        from_here: Ok(Path::new("/work").join(path).to_string_lossy().into_owned()),
    }
}

fn normalized(config: &InAppConfig, key: &str) -> Result<NormalizedConfig, ConfigError> {
    normalize_in_app_config(config, key, &place_of(&in_app_discovery_path(config)))
}

fn sanitized_under(profile: &AppProfile, key: &str, id: &str) -> Result<AppProfile, ConfigError> {
    build_sanitized_profile(profile, key, id, &place_of(&in_app_discovery_path(&profile.config)))
}

fn started(
    id: &str,
    loaded: Result<Option<LoadedProfile>, StoreError>,
) -> Result<NormalizedConfig, ServiceError> {
    let place = match &loaded {
        Ok(Some(found)) => place_of(&in_app_discovery_path(&found.profile.config)),
        _ => place_of(""),
    };
    prepare_start(id, loaded, &place)
}

fn sample_profile() -> AppProfile {
    AppProfile {
        id: String::new(),
        name: "Default".to_string(),
        config: InAppConfig {
            website_base_url: "https://dev.vrlewds.com".to_string(),
            creator_username: "Vee".to_string(),
            allow_insecure_http: false,
            osc_listen: OscListen {
                host: "127.0.0.1".to_string(),
                port: 9001,
            },
            allow_network_osc: false,
            osc_allowed_senders: Vec::new(),
            relay: RelayPaths {
                session_path: "/api/sps/session".to_string(),
                ingest_path: "/api/sps/ingest".to_string(),
            },
            debug: DebugConfig {
                log_osc: false,
                log_unmapped_only: false,
                log_configured_only: false,
                log_relay: false,
            },
            discovery: DiscoveryConfig {
                enabled: false,
                file_path: "scripts/vrl-osc-discovered.txt".to_string(),
                include_arg_types: false,
            },
            forward_targets: vec![ForwardTarget {
                host: "127.0.0.1".to_string(),
                port: 9000,
            }],
            mappings: vec![Mapping::new(
                "/avatar/parameters/SPS_Contact",
                number(1.0),
                number(0.02),
                false,
                Curve::Linear,
                number(0.0),
                number(1.0),
            )
            .expect("valid mapping")],
            output: OutputTuning::default(),
        },
    }
}

fn saved(document: &mut ProfileDocument, secrets: &mut InMemorySecretStore, key: &str) -> String {
    let profile = sample_profile();
    let id = assign_profile_id(&profile.id);
    let sanitized = sanitized_under(&profile, key, &id).expect("valid");
    secrets.set_stream_key(&id, key).expect("secret");
    document.upsert(&sanitized, 5);
    id
}

#[test]
fn upsert_and_load_profile_round_trip() {
    let profile = sample_profile();
    let id = assign_profile_id(&profile.id);
    let sanitized = sanitized_under(&profile, "stream_secret", &id).expect("valid");
    let normalized = normalized(&sanitized.config, "stream_secret").expect("valid");
    let row = profile_row(&id, &sanitized.name, &normalized, sanitized.config.allow_insecure_http);
    let mappings: Vec<Mapping> = normalized
        .mappings
        .iter()
        .filter_map(|mapping| mapping_from_row(&mapping_row(mapping)))
        .collect();
    let targets: Vec<ForwardTarget> = normalized
        .forward_targets
        .iter()
        .map(|target| target_from_row(&target_row(target)))
        .collect();
    let loaded = profile_from_rows(&row, mappings, targets);
    let mut secrets = InMemorySecretStore::default();
    secrets.set_stream_key(&id, "stream_secret").expect("set");

    assert_eq!(loaded.name, "Default");
    assert_eq!(
        loaded.config.creator_username,
        profile.config.creator_username
    );
    assert_eq!(loaded.config.mappings.len(), 1);
    assert_eq!(loaded, sanitized);
    assert_eq!(
        secrets.get_stream_key(&id).expect("get").as_deref(),
        Some("stream_secret")
    );
}

#[test]
fn sqlite_schema_does_not_store_stream_key() {
    let profile = sample_profile();
    let normalized =
        normalized(&profile.config, "super_secret_value").expect("valid");
    let row = profile_row("id", "Default", &normalized, false);
    assert!(!format!("{row:?}").contains("super_secret_value"));
}

#[test]
fn delete_profile_removes_secret() {
    let mut document = ProfileDocument::default();
    let mut secrets = InMemorySecretStore::default();
    let id = saved(&mut document, &mut secrets, "super_secret_value");
    document.delete(&id);
    secrets.delete_stream_key(&id).expect("delete");
    assert!(document.load(&id).is_none());
    assert_eq!(secrets.get_stream_key(&id).expect("get"), None);
}

#[test]
fn last_selected_profile_meta_round_trip() {
    let mut document = ProfileDocument::default();
    assert_eq!(document.last_selected_profile_id, None);

    document.set_last_selected(Some("abc-123"));
    assert_eq!(
        document.last_selected_profile_id,
        Some("abc-123".to_string())
    );
    assert_eq!(selected_profile_id(Some("abc-123")), Some("abc-123".to_string()));

    document.set_last_selected(None);
    assert_eq!(document.last_selected_profile_id, None);
    assert_eq!(selected_profile_id(None), None);
}

#[test]
fn deleting_selected_profile_clears_last_selected_meta() {
    let mut document = ProfileDocument::default();
    let mut secrets = InMemorySecretStore::default();
    let id = saved(&mut document, &mut secrets, "super_secret_value");
    document.set_last_selected(Some(&id));
    assert_eq!(document.last_selected_profile_id, Some(id.clone()));

    document.delete(&id);
    assert_eq!(document.last_selected_profile_id, None);
}

#[test]
fn close_to_background_meta_round_trip() {
    assert_eq!(parse_preference(None), None);
    assert_eq!(parse_preference(Some(preference_text(true))), Some(true));
    assert_eq!(parse_preference(Some(preference_text(false))), Some(false));
    assert_eq!(parse_preference(Some("perhaps")), None);
}

#[test]
fn json_store_round_trip_and_no_stream_key_in_file() {
    let mut document = ProfileDocument::default();
    let mut secrets = InMemorySecretStore::default();
    let id = saved(&mut document, &mut secrets, "super_secret_value");
    let loaded = document.load(&id).expect("profile");
    assert_eq!(loaded.name, "Default");
    assert_eq!(
        secrets.get_stream_key(&id).expect("get").as_deref(),
        Some("super_secret_value")
    );
    assert!(!format!("{document:?}").contains("super_secret_value"));
}

#[test]
fn json_store_close_to_background_round_trip() {
    let mut document = ProfileDocument::default();
    assert_eq!(document.close_to_background, None);
    document.set_close_to_background(true);
    assert_eq!(document.close_to_background, Some(true));
}

#[test]
fn listings_show_the_latest_first() {
    let mut document = ProfileDocument::default();
    let mut first = sample_profile();
    first.id = "a".to_string();
    let mut second = sample_profile();
    second.id = "b".to_string();
    document.upsert(&first, 1);
    document.upsert(&second, 2);
    document.upsert(&first, 3);
    let listing = document.listing();
    assert_eq!(listing.len(), 2);
    assert_eq!(listing[0].id, "a");
    assert_eq!(listing[0].created_at_ms, 1);
    assert_eq!(listing[0].updated_at_ms, 3);
    let summary = listing[1].summary(true);
    assert_eq!(summary.id, "b");
    assert_eq!(summary.creator_username, "Vee");
    assert!(summary.has_stream_key);
}

#[test]
fn ids_are_made_where_none_is_given() {
    assert_eq!(assign_profile_id(" given "), profile_id_or(" given ", "x"));
    let one = assign_profile_id("");
    let other = assign_profile_id("  ");
    assert_eq!(one.len(), 36);
    assert_ne!(one, other);
}

#[test]
fn profiles_are_checked_before_they_are_kept() {
    assert!(check_stream_key("  ").is_err());
    assert!(check_stream_key("k").is_ok());
    let mut profile = sample_profile();
    profile.config.creator_username = String::new();
    let error = sanitized_under(&profile, "k", "id").expect_err("refused");
    assert!(!error.message.is_empty());
    let mut profile = sample_profile();
    profile.config.output.emit_hz = number(900.0);
    let sanitized = sanitized_under(&profile, "k", "id").expect("kept");
    assert_eq!(f64::from_bits(sanitized.config.output.emit_hz.bits), 60.0);
    assert_eq!(sanitized.id, "id");
}

#[test]
fn secrets_are_looked_up_in_older_places() {
    let store = KeyringSecretStore::new("Vibealong")
        .with_legacy_service_names(vec!["VRLewdsBridge".to_string()]);
    let places = store.places("p1");
    assert_eq!(places[0], store.primary_place("p1"));
    assert_eq!(places[0].service, "Vibealong");
    assert!(places.iter().any(|place| place.service == "VRLewdsBridge"));
    assert!(matches!(
        keyring_step(KeyringRead::Found("k".to_string()), 0, places.len()),
        LookupStep::Found { migrate: false, .. }
    ));
    assert!(matches!(
        keyring_step(KeyringRead::Found("k".to_string()), 1, places.len()),
        LookupStep::Found { migrate: true, .. }
    ));
    assert!(matches!(
        keyring_step(KeyringRead::Failed("no".to_string()), 0, places.len()),
        LookupStep::Failed(_)
    ));
}

#[test]
fn store_errors_have_their_texts() {
    assert_eq!(
        StoreError::Sqlite("x".to_string()).message(),
        "SQLite error: x"
    );
    assert_eq!(StoreError::Io("x".to_string()).message(), "I/O error: x");
    assert_eq!(StoreError::Json("x".to_string()).message(), "JSON error: x");
    assert_eq!(
        StoreError::Secret("x".to_string()).message(),
        "Secret storage error: x"
    );
    assert_eq!(StoreError::Time("x".to_string()).message(), "Time error: x");
}

#[test]
fn rows_read_back() {
    let senders = vec![IpAddress::V4(0xC0A8_0114), IpAddress::V6(1)];
    let lines = format_osc_sender_lines(&senders);
    assert_eq!(lines, "192.168.1.20\n::1");
    assert_eq!(
        parse_osc_sender_lines(&lines),
        vec!["192.168.1.20".to_string(), "::1".to_string()]
    );
    assert_eq!(
        parse_osc_sender_lines("10.0.0.1;nowhere, ::1"),
        vec!["10.0.0.1".to_string(), "::1".to_string()]
    );
    let mapping = Mapping::new(
        "/a",
        number(2.0),
        number(0.5),
        true,
        Curve::EaseInQuad,
        number(3.0),
        number(3.0),
    )
    .expect("mapping");
    assert_eq!(mapping.max, UpperBound::OneAboveMin);
    assert_eq!(mapping_from_row(&mapping_row(&mapping)), Some(mapping));
    assert!(i64_to_bool(2));
    assert!(!i64_to_bool(0));
    assert!(is_duplicate_column("duplicate column name: x"));
    assert!(!is_duplicate_column("no such table"));
}

#[test]
fn service_returns_missing_profile_if_unknown() {
    let error = started("missing-profile", Ok(None)).expect_err("must fail");
    assert!(matches!(error, ServiceError::MissingProfile(_)));
    assert_eq!(error.message(), "Profile not found: missing-profile");
}

#[test]
fn starts_need_a_credential_and_a_valid_profile() {
    let loaded = LoadedProfile {
        profile: sample_profile(),
        stream_key: None,
    };
    let error = started("p", Ok(Some(loaded))).expect_err("no key");
    assert_eq!(error.message(), "Profile is missing stream key: p");

    let error = started("p", Err(StoreError::Io("gone".to_string()))).expect_err("store");
    assert_eq!(error.message(), "I/O error: gone");

    let mut profile = sample_profile();
    profile.config.osc_listen.port = 0;
    let loaded = LoadedProfile {
        profile,
        stream_key: Some("k".to_string()),
    };
    let error = started("p", Ok(Some(loaded))).expect_err("config");
    assert_eq!(
        error.message(),
        "config.oscListen.port must be a valid UDP port"
    );

    let loaded = LoadedProfile {
        profile: sample_profile(),
        stream_key: Some("k".to_string()),
    };
    let normalized = started("p", Ok(Some(loaded))).expect("starts");
    assert_eq!(normalized.stream_key, "k");
    assert_eq!(BridgeRuntime::listen_address(&normalized), "127.0.0.1:9001");
    assert_eq!(
        BridgeRuntime::forward_address(&normalized.forward_targets[0]),
        "127.0.0.1:9000"
    );
    assert_eq!(socket_address("h", 7), "h:7");
    assert_eq!(
        ServiceError::Runtime("x".to_string()).message(),
        "Runtime error: x"
    );
    assert_eq!(
        ServiceError::RelayFactory("x".to_string()).message(),
        "Relay factory error: x"
    );
    assert_eq!(
        ServiceError::MutexPoisoned("store".to_string()).message(),
        "Mutex poisoned: store"
    );
}

#[test]
fn default_factory_builds_reqwest_client() {
    let normalized =
        normalized(&sample_profile().config, "stream_key").expect("valid");
    let factory = DefaultRelayPublisherFactory;
    let relay = factory.build(&normalized, MockTransport::with_responses(Vec::new()));
    let state = relay.state();
    assert_eq!(state.relay_token, "");
    assert_eq!(relay.config().creator_username, "Vee");
    assert_eq!(relay.config().stream_key, "stream_key");
    assert_eq!(relay.config().ingest_path, "/api/sps/ingest");
}

#[test]
fn one_profile_runs_at_a_time() {
    let mut active: ActiveRuntime<u32> = ActiveRuntime::new();
    assert_eq!(active.active_profile_id(), None);
    assert_eq!(active.replace("a", 1), None);
    assert_eq!(active.replace("b", 2), Some(1));
    assert_eq!(active.active_profile_id().as_deref(), Some("b"));
    assert_eq!(active.on_deleted("a"), None);
    assert_eq!(active.handle(), Some(&2));
    assert_eq!(active.on_deleted("b"), Some(2));
    assert_eq!(active.take(), None);
    active.replace("c", 3);
    assert_eq!(active.take(), Some(3));
    assert_eq!(active.handle(), None);
}

#[test]
fn copies_model_the_same_profile() {
    let profile = sample_profile();
    assert_eq!(profile.duplicate(), profile);
}

#[test]
fn new_ids_have_the_usual_form() {
    let id = assign_profile_id("  ");
    assert_eq!(id.len(), 36);
    for (i, c) in id.chars().enumerate() {
        if [8, 13, 18, 23].contains(&i) {
            assert_eq!(c, '-');
        } else {
            assert!(c.is_ascii_digit() || ('a'..='f').contains(&c));
        }
    }
    assert_eq!(&id[14..15], "4");
    assert!("89ab".contains(&id[19..20]));
    assert_ne!(id, assign_profile_id(""));
    assert_eq!(assign_profile_id(" own "), "own");
}

#[test]
fn sanitizing_again_changes_nothing() {
    let mut profile = sample_profile();
    profile.name = "  Stage  ".to_string();
    profile.config.website_base_url = " https://dev.vrlewds.com ".trim().to_string();
    let once = sanitized_under(&profile, "key", "p1").expect("valid");
    assert_eq!(once.name, "Stage");
    assert_eq!(once.id, "p1");
    assert_eq!(once.config.discovery.file_path, "/work/scripts/vrl-osc-discovered.txt");
    let twice = sanitized_under(&once, "key", "p1").expect("valid");
    assert_eq!(twice, once);
}

#[test]
fn rows_do_not_depend_on_the_key() {
    let profile = sample_profile();
    let first = normalized(&profile.config, "first").expect("valid");
    let second = normalized(&profile.config, "second").expect("valid");
    assert_eq!(
        profile_row("p1", &profile.name, &first, false),
        profile_row("p1", &profile.name, &second, false)
    );
    assert_eq!(first.mappings, second.mappings);
    assert_eq!(first.forward_targets, second.forward_targets);
}

#[test]
fn deleted_profiles_are_not_listed() {
    let mut document = ProfileDocument::default();
    for id in ["a", "b"] {
        let kept = sanitized_under(&sample_profile(), "key", id).expect("valid");
        document.upsert(&kept, 5);
    }
    document.last_selected_profile_id = Some("a".to_string());
    document.delete("b");
    assert_eq!(document.last_selected_profile_id.as_deref(), Some("a"));
    document.delete("a");
    assert_eq!(document.last_selected_profile_id, None);
    assert!(document.listing().is_empty());
    assert!(document.load("a").is_none());
}
