use vibealong::bridge_loop::{
    auto_disengaged_message, backoff_message, discovery_entry_for, failure_message,
    is_sender_allowed, started_message, Admission, BridgeLoop, DiscoveryEntries, RuntimeSnapshot,
    TickAction, DISENGAGE_FAILURES,
};
use vibealong::config::{
    BaseUrl, DebugConfig, DiscoveryConfig, ForwardTarget, InAppConfig, NormalizedConfig, OscListen,
    PathPlace, RelayPaths,
};
use vibealong::float;
use vibealong::float::{from_bits, FloatBits};
use vibealong::ip::IpAddress;
use vibealong::mapping::{Curve, Mapping};
use vibealong::osc::{parse_osc_packet, OscArg, OscMessage, OscNumber};
use vibealong::relay::RelayError;
use vibealong::runtime::{
    classify_message_mapping, exponential_backoff_ms, osc_log_line, param_key_from_address,
    retry_backoff_ms_for_error, should_log_osc, LogHistory, MappingState, ParamCache,
    RuntimeParamValue, AVATAR_PARAM_HISTORY_LIMIT, LOG_HISTORY_LIMIT,
};
use vibealong::service::{prepare_start, ActiveRuntime};
use vibealong::smoothing::OutputTuning;
use vibealong::store::{
    assign_profile_id, build_sanitized_profile, AppProfile, InMemorySecretStore, LoadedProfile,
    ProfileDocument, SecretStore,
};

fn number(x: f64) -> FloatBits {
    from_bits(x.to_bits())
}

fn value(x: FloatBits) -> f64 {
    f64::from_bits(x.bits)
}

fn absolute() -> PathPlace {
    PathPlace {
        absolute: true,
        from_here: Err("not asked".to_string()),
    }
}

fn make_config() -> NormalizedConfig {
    NormalizedConfig {
        base_url: BaseUrl {
            text: "https://dev.vrlewds.com/".to_string(),
            scheme: "https".to_string(),
            host: Some("dev.vrlewds.com".to_string()),
        },
        creator_username: "Vee".to_string(),
        stream_key: "stream_key".to_string(),
        osc_listen: OscListen {
            host: "127.0.0.1".to_string(),
            port: 9001,
        },
        allow_network_osc: false,
        osc_allowed_senders: Vec::new(),
        relay: RelayPaths {
            session_path: "/api/sps/session".to_string(),
            ingest_path: "/api/sps/ingest".to_string(),
        },
        debug: DebugConfig {
            log_osc: false,
            log_unmapped_only: false,
            log_configured_only: false,
            log_relay: false,
        },
        discovery: DiscoveryConfig {
            enabled: false,
            file_path: "scripts/vrl-osc-discovered.txt".to_string(),
            include_arg_types: false,
        },
        forward_targets: Vec::new(),
        mappings: vec![Mapping::new(
            "/avatar/parameters/SPS_Contact",
            number(1.0),
            number(0.0),
            false,
            Curve::Linear,
            number(0.0),
            number(1.0),
        )
        .expect("mapping")],
        output: OutputTuning {
            emit_hz: number(30.0),
            attack_ms: number(10.0),
            release_ms: number(20.0),
            ema_alpha: number(1.0),
            min_delta: number(0.01),
            heartbeat_ms: 200,
        },
    }
}

fn write_osc_string(buf: &mut Vec<u8>, value: &str) {
    buf.extend_from_slice(value.as_bytes());
    buf.push(0);
    while buf.len() % 4 != 0 {
        buf.push(0);
    }
}

fn osc_message_float(address: &str, value: f32) -> Vec<u8> {
    let mut msg = Vec::new();
    write_osc_string(&mut msg, address);
    write_osc_string(&mut msg, ",f");
    msg.extend_from_slice(&value.to_bits().to_be_bytes());
    msg
}

fn osc_message_bool(address: &str, value: bool) -> Vec<u8> {
    let mut msg = Vec::new();
    write_osc_string(&mut msg, address);
    write_osc_string(&mut msg, if value { ",T" } else { ",F" });
    msg
}

fn message(address: &str, args: Vec<OscArg>, types: &str) -> OscMessage {
    OscMessage {
        address: address.to_string(),
        args,
        arg_type: types.chars().next(),
        arg_types: types.to_string(),
    }
}

fn feed(state: &mut BridgeLoop, messages: &Vec<OscMessage>) {
    let requests = state.engine.sample_requests(messages);
    let samples: Vec<FloatBits> = requests
        .iter()
        .map(|request| match request.raw {
            OscNumber::Float(bits) => float::clamp01(number(f32::from_bits(bits) as f64)),
            OscNumber::Int(n) => float::clamp01(number(n as f64)),
            OscNumber::Bool(flag) => number(flag as u8 as f64),
        })
        .collect();
    if state.engine.record_samples(&requests, &samples) {
        let mut sum = 0.0;
        let mut total = 0.0;
        for (sample, weight) in state.engine.terms() {
            sum += value(sample) * value(weight);
            total += value(weight);
        }
        state.engine.set_target(number(total), number(sum / total));
    }
}

fn tick(state: &mut BridgeLoop, now_ms: i64) -> TickAction {
    let (dt, tau) = state.begin_step(now_ms);
    let target = value(float::clamp01(state.smoother.target_intensity));
    let current = value(state.smoother.current_intensity);
    let alpha = 1.0 - (-(dt as f64) / value(tau)).exp();
    let next = current + (target - current) * alpha;
    let decayed = value(state.smoother.peak_intensity) - 0.025;
    state.smoother.settle(number(next), number(decayed));
    let delta = (value(state.smoother.current_intensity)
        - value(state.smoother.last_sent_intensity))
    .abs();
    state.decide(number(delta), now_ms, now_ms)
}

#[test]
fn runtime_receives_osc_and_emits_relay_event() {
    let mut state = BridgeLoop::new(make_config(), DiscoveryEntries::new(), 1_000);
    let mut snapshot = RuntimeSnapshot::started(1_000);
    assert_eq!(
        state.admission_of(IpAddress::V4(0x7F00_0001)),
        Admission::Accept
    );
    let packet = osc_message_float("/avatar/parameters/SPS_Contact", 1.0);
    let messages = parse_osc_packet(&packet);
    let mut mapped = 0;
    for message in &messages {
        if state.observe(message).state == MappingState::Mapped {
            mapped += 1;
        }
    }
    snapshot.note_packet(mapped, messages.len() as u64 - mapped, messages.len() as u64, "127.0.0.1:5");
    feed(&mut state, &messages);
    let action = tick(&mut state, 1_033);
    let event = match action {
        TickAction::Emit(event) => event,
        _ => panic!("an event was expected"),
    };
    assert_eq!(event.source.address, "/avatar/parameters/SPS_Contact");
    assert_eq!(event.source.arg_type, "f");
    assert_eq!(event.seq, 1);
    state.on_sent(1_033);
    state.report(&mut snapshot, 1_033);
    assert!(snapshot.last_tick_ms > 0);
    assert!(snapshot.osc_packets_received >= 1);
    assert!(snapshot.osc_messages_received >= 1);
    assert!(snapshot.mapped_messages_received >= 1);
}

#[test]
fn runtime_caches_avatar_params() {
    let mut cache = ParamCache::new();
    let packet = osc_message_bool("/avatar/parameters/TestToggle", true);
    for message in &parse_osc_packet(&packet) {
        cache.update(message);
    }
    let params = cache.avatar_params();
    assert!(params.iter().any(|(key, _)| key == "TestToggle"));
    assert_eq!(params[0].1, RuntimeParamValue::Bool(true));
}

#[test]
fn caches_keep_the_last_value_in_order() {
    let mut cache = ParamCache::new();
    cache.insert("b".to_string(), RuntimeParamValue::Int(1));
    cache.insert("a".to_string(), RuntimeParamValue::Int(2));
    cache.insert("b".to_string(), RuntimeParamValue::Int(3));
    assert_eq!(
        cache.avatar_params(),
        vec![
            ("a".to_string(), RuntimeParamValue::Int(2)),
            ("b".to_string(), RuntimeParamValue::Int(3)),
        ]
    );
    let mut full = ParamCache::new();
    for i in 0..AVATAR_PARAM_HISTORY_LIMIT + 1 {
        full.insert(format!("{i:05}"), RuntimeParamValue::Bool(false));
    }
    let params = full.avatar_params();
    assert_eq!(params.len(), AVATAR_PARAM_HISTORY_LIMIT);
    assert_eq!(params[0].0, "00001");
}

#[test]
fn logs_keep_the_last_lines() {
    let mut logs = LogHistory::new();
    for i in 0..LOG_HISTORY_LIMIT + 2 {
        logs.push(i as i64, "INFO", "line");
    }
    let all = logs.recent_logs(usize::MAX);
    assert_eq!(all.len(), LOG_HISTORY_LIMIT);
    assert_eq!(all[0].ts_ms, 2);
    let last = logs.recent_logs(1);
    assert_eq!(last[0].ts_ms, LOG_HISTORY_LIMIT as i64 + 1);
}

#[test]
fn backoff_doubles_up_to_its_limit() {
    assert_eq!(exponential_backoff_ms(1_200, 45_000, 1), 1_200);
    assert_eq!(exponential_backoff_ms(1_200, 45_000, 2), 2_400);
    assert_eq!(exponential_backoff_ms(1_200, 45_000, 30), 45_000);
    assert_eq!(
        retry_backoff_ms_for_error(&RelayError::Throttled, 1),
        8_000
    );
    assert_eq!(
        retry_backoff_ms_for_error(&RelayError::RelayTokenRejected, 1),
        4_000
    );
    assert_eq!(
        retry_backoff_ms_for_error(&RelayError::Transport("x".to_string()), 1),
        1_200
    );
}

#[test]
fn failures_leave_the_relay_alone() {
    let mut state = BridgeLoop::new(make_config(), DiscoveryEntries::new(), 10_000);
    feed(
        &mut state,
        &vec![message(
            "/avatar/parameters/SPS_Contact",
            vec![OscArg::Int(1)],
            "i",
        )],
    );
    assert!(matches!(tick(&mut state, 10_033), TickAction::Emit(_)));
    let delay = state.on_failed(&RelayError::Transport("down".to_string()), 10_033);
    assert_eq!(delay, 1_200);
    match tick(&mut state, 10_100) {
        TickAction::Backoff { remaining_ms, log } => {
            assert_eq!(remaining_ms, 1_133);
            assert!(log);
        }
        _ => panic!("backoff expected"),
    }
    match tick(&mut state, 11_233) {
        TickAction::Emit(event) => assert_eq!(event.seq, 2),
        _ => panic!("event expected"),
    }
    state.on_sent(11_233);
    assert!(matches!(tick(&mut state, 11_240), TickAction::Idle));
    assert_eq!(
        failure_message(&RelayError::Throttled, "8.0"),
        format!("{} (retry in 8.0s)", RelayError::Throttled.message())
    );
    assert_eq!(
        backoff_message("1.2"),
        "Relay reconnect backoff active (retry in 1.2s)"
    );
    assert_eq!(
        started_message(&make_config()),
        "Bridge runtime started (OSC 127.0.0.1:9001, mappings=1, forwardTargets=0)"
    );
}

#[test]
fn senders_are_checked() {
    let mut config = make_config();
    assert!(is_sender_allowed(&config, IpAddress::V4(0x7F00_0005)));
    assert!(!is_sender_allowed(&config, IpAddress::V4(0x0A00_0001)));
    config.allow_network_osc = true;
    assert!(is_sender_allowed(&config, IpAddress::V4(0x0A00_0001)));
    config.osc_allowed_senders = vec![IpAddress::V4(0x0A00_0001)];
    assert!(is_sender_allowed(&config, IpAddress::V4(0x0A00_0001)));
    assert!(!is_sender_allowed(&config, IpAddress::V4(0x0A00_0002)));

    let mut state = BridgeLoop::new(make_config(), DiscoveryEntries::new(), 0);
    let stranger = IpAddress::V4(0x0A00_0001);
    assert_eq!(state.admission_of(stranger), Admission::IgnoreAndLog);
    assert_eq!(state.admission_of(stranger), Admission::Ignore);
}

#[test]
fn discovery_takes_each_entry_once() {
    let mut config = make_config();
    config.discovery.enabled = true;
    config.discovery.include_arg_types = true;
    let mut state = BridgeLoop::new(config, DiscoveryEntries::load("/old\n\n/old\n"), 0);
    assert_eq!(state.discovery.count(), 1);
    let fresh = message("/new", vec![OscArg::Int(1)], "i");
    let entry = discovery_entry_for(&fresh, true).expect("entry");
    assert!(entry.starts_with("/new"));
    assert_eq!(state.observe(&fresh).discovered, Some(entry));
    assert_eq!(state.observe(&fresh).discovered, None);
    assert_eq!(state.discovery.count(), 2);
    let mut entries = DiscoveryEntries::new();
    assert!(!entries.consider(&"x".repeat(300)));
    assert!(entries.consider("/a"));
    assert!(!entries.consider("/a"));
}

#[test]
fn messages_are_classified_and_logged() {
    let mut config = make_config();
    let mapped = message("/avatar/parameters/SPS_Contact", vec![OscArg::Int(1)], "i");
    let other = message("/other", vec![OscArg::Int(1)], "i");
    assert_eq!(
        classify_message_mapping(&mapped, &config.mappings),
        MappingState::Mapped
    );
    let unmapped = classify_message_mapping(&other, &config.mappings);
    assert_ne!(unmapped, MappingState::Mapped);
    assert!(!should_log_osc(&config, MappingState::Mapped));
    config.debug.log_osc = true;
    assert!(should_log_osc(&config, MappingState::Mapped));
    config.debug.log_unmapped_only = true;
    assert!(!should_log_osc(&config, MappingState::Mapped));
    assert!(should_log_osc(&config, unmapped));
    assert!(osc_log_line(&mapped, MappingState::Mapped, &vec!["1".to_string()])
        .contains("/avatar/parameters/SPS_Contact"));
}

#[test]
fn parameters_are_named_by_their_address() {
    assert_eq!(param_key_from_address("/avatar/parameters/OGB/x"), "OGB/x");
    assert_eq!(param_key_from_address("/other"), "/other");
    assert_eq!(RuntimeParamValue::Bool(true).display_string("?"), "true");
    assert_eq!(RuntimeParamValue::Int(1).display_string("1.000000"), "1.000000");
    assert_eq!(
        RuntimeParamValue::Text("t".to_string()).display_string("?"),
        "t"
    );
}

#[test]
fn snapshots_take_notes() {
    let mut snapshot = RuntimeSnapshot::started(5);
    assert!(snapshot.running);
    assert_eq!(snapshot.started_at_ms, 5);
    snapshot.note_disconnected("down");
    assert!(!snapshot.relay_connected);
    assert_eq!(snapshot.last_error, "down");
    snapshot.note_sent(9);
    assert!(snapshot.relay_connected);
    assert_eq!(snapshot.last_sent_at_ms, 9);
    snapshot.note_discovery();
    assert_eq!(snapshot.discovery_entries_written, 1);
    snapshot.set_error("bad");
    assert_eq!(snapshot.last_error, "bad");
    snapshot.note_stopped();
    assert!(!snapshot.running);
}

#[test]
fn samples_are_held_between_zero_and_one() {
    let mut state = BridgeLoop::new(make_config(), DiscoveryEntries::new(), 1_000);
    let messages = vec![message(
        "/avatar/parameters/SPS_Contact",
        vec![OscArg::Int(1)],
        "i",
    )];
    let requests = state.engine.sample_requests(&messages);
    assert_eq!(requests.len(), 1);
    for (sample, kept) in [
        (f64::NAN, 0.0),
        (f64::INFINITY, 0.0),
        (-1.0, 0.0),
        (7.5, 1.0),
        (0.25, 0.25),
    ] {
        assert!(state.engine.record_samples(&requests, &vec![number(sample)]));
        assert_eq!(value(state.engine.current_inputs[0].1), kept);
    }
    state.engine.set_target(number(1.0), number(f64::NAN));
    assert_eq!(value(state.engine.target_intensity), 0.0);
    let action = tick(&mut state, 1_033);
    if let TickAction::Emit(event) = action {
        for level in [event.intensity, event.peak, event.raw] {
            assert!((0.0..=1.0).contains(&value(level)));
        }
    }
    assert_eq!(exponential_backoff_ms(-5, 10, 3), -5);
}

#[test]
fn service_profile_lifecycle_and_runtime_start_stop() {
    let mut document = ProfileDocument::default();
    let mut secrets = InMemorySecretStore::default();
    let config = make_config();
    let profile = AppProfile {
        id: String::new(),
        name: "MVP Profile".to_string(),
        config: InAppConfig {
            website_base_url: "https://dev.vrlewds.com".to_string(),
            creator_username: "Vee".to_string(),
            allow_insecure_http: false,
            osc_listen: config.osc_listen,
            allow_network_osc: false,
            osc_allowed_senders: Vec::new(),
            relay: config.relay,
            debug: config.debug,
            discovery: config.discovery,
            forward_targets: vec![ForwardTarget {
                host: "127.0.0.1".to_string(),
                port: 9000,
            }],
            mappings: config.mappings,
            output: OutputTuning {
                heartbeat_ms: 300,
                ..config.output
            },
        },
    };
    let profile_id = assign_profile_id(&profile.id);
    let kept = build_sanitized_profile(&profile, "stream_key_abc", &profile_id, &absolute()).expect("valid");
    document.upsert(&kept, 5);
    secrets
        .set_stream_key(&profile_id, "stream_key_abc")
        .expect("secret");

    let profiles = document.listing();
    assert_eq!(profiles.len(), 1);
    assert_eq!(profiles[0].id, profile_id);
    let key = secrets.get_stream_key(&profile_id).expect("secret");
    assert!(profiles[0].summary(key.is_some()).has_stream_key);

    let loaded = LoadedProfile {
        profile: document.load(&profile_id).expect("profile"),
        stream_key: key,
    };
    let normalized = prepare_start(&profile_id, Ok(Some(loaded)), &absolute()).expect("start runtime");
    assert_eq!(normalized.stream_key, "stream_key_abc");
    let state = BridgeLoop::new(normalized, DiscoveryEntries::new(), 1_000);
    let mut active: ActiveRuntime<BridgeLoop> = ActiveRuntime::new();
    assert!(active.replace(&profile_id, state).is_none());
    assert_eq!(active.active_profile_id(), Some(profile_id.clone()));

    let mut state = active.take().expect("the bridge runs");
    assert_eq!(active.active_profile_id(), None);
    let mut snapshot = RuntimeSnapshot::started(1_000);
    let packet = osc_message_float("/avatar/parameters/SPS_Contact", 0.8);
    feed(&mut state, &parse_osc_packet(&packet));
    match tick(&mut state, 1_060) {
        TickAction::Emit(event) => {
            assert_eq!(event.source.address, "/avatar/parameters/SPS_Contact")
        }
        _ => panic!("an event was expected"),
    }
    state.report(&mut snapshot, 1_060);
    assert!(snapshot.running);
    assert!(snapshot.last_tick_ms > 0);
    assert!(active.replace(&profile_id, state).is_none());
    assert!(active.on_deleted("another").is_none());
    assert!(active.on_deleted(&profile_id).is_some());
    assert!(active.handle().is_none());
}

#[test]
fn repeated_failures_disengage_the_bridge() {
    let mut state = BridgeLoop::new(make_config(), DiscoveryEntries::new(), 10_000);
    let mut snapshot = RuntimeSnapshot::started(10_000);
    let mut now_ms = 10_000;
    for attempt in 1..=DISENGAGE_FAILURES {
        match tick(&mut state, now_ms) {
            TickAction::Emit(event) => assert_eq!(event.seq, u64::from(attempt)),
            _ => panic!("an event was expected"),
        }
        let delay_ms = state.on_failed(&RelayError::Throttled, now_ms);
        state.report(&mut snapshot, now_ms);
        assert_eq!(snapshot.auto_disengaged, attempt == DISENGAGE_FAILURES);
        assert_eq!(snapshot.auto_disengaged, state.is_disengaged());
        now_ms += delay_ms;
    }
    for _ in 0..3 {
        now_ms += 1_000_000;
        assert_eq!(tick(&mut state, now_ms), TickAction::Disengaged);
        state.report(&mut snapshot, now_ms);
        assert!(snapshot.auto_disengaged);
        assert_eq!(snapshot.seq, u64::from(DISENGAGE_FAILURES));
    }
    snapshot.note_disengaged(&auto_disengaged_message(&RelayError::Throttled));
    assert!(!snapshot.relay_connected);
    assert!(snapshot.auto_disengaged);
    assert_eq!(
        snapshot.last_error,
        format!(
            "{} (auto-disengaged after 10 failures in a row)",
            RelayError::Throttled.message()
        )
    );
}

#[test]
fn a_sent_event_starts_the_count_of_failures_again() {
    let mut state = BridgeLoop::new(make_config(), DiscoveryEntries::new(), 10_000);
    let mut now_ms = 10_000;
    for _ in 0..3 {
        for _ in 1..DISENGAGE_FAILURES {
            assert!(matches!(tick(&mut state, now_ms), TickAction::Emit(_)));
            now_ms += state.on_failed(&RelayError::RelayTokenRejected, now_ms);
        }
        assert!(!state.is_disengaged());
        assert!(matches!(tick(&mut state, now_ms), TickAction::Emit(_)));
        state.on_sent(now_ms);
        assert_eq!(state.clock.backoff_attempts, 0);
        now_ms += 1_000;
    }
    assert_eq!(state.clock.seq, 3 * u64::from(DISENGAGE_FAILURES));
}

#[test]
fn the_next_attempt_waits_for_the_delay() {
    let mut state = BridgeLoop::new(make_config(), DiscoveryEntries::new(), 10_000);
    let mut now_ms = 10_000;
    for expected in [1_200, 2_400, 4_800] {
        assert!(matches!(tick(&mut state, now_ms), TickAction::Emit(_)));
        let delay_ms = state.on_failed(&RelayError::Transport("down".to_string()), now_ms);
        assert_eq!(delay_ms, expected);
        assert!(matches!(
            tick(&mut state, now_ms + delay_ms - 1),
            TickAction::Backoff { remaining_ms: 1, .. }
        ));
        now_ms += delay_ms;
    }
}

#[test]
fn a_split_packet_leaves_what_the_whole_leaves() {
    let first = message(
        "/avatar/parameters/SPS_Contact",
        vec![OscArg::Float(0.25f32.to_bits())],
        "f",
    );
    let second = message("/avatar/parameters/SPS_Contact", vec![OscArg::Int(1)], "i");
    let third = message("/unmapped", vec![OscArg::Int(1)], "i");
    let copy = |m: &OscMessage| {
        message(&m.address, m.args.iter().map(copy_arg).collect(), &m.arg_types)
    };
    let mut apart = BridgeLoop::new(make_config(), DiscoveryEntries::new(), 1_000);
    feed(&mut apart, &vec![copy(&first)]);
    feed(&mut apart, &vec![copy(&second), copy(&third)]);
    let mut together = BridgeLoop::new(make_config(), DiscoveryEntries::new(), 1_000);
    feed(&mut together, &vec![first, second, third]);
    assert_eq!(apart.engine, together.engine);
    assert_eq!(value(together.engine.target_intensity), 1.0);
    assert_eq!(together.engine.last_source.arg_type, "i");
}

fn copy_arg(arg: &OscArg) -> OscArg {
    match arg {
        OscArg::Int(n) => OscArg::Int(*n),
        OscArg::Float(bits) => OscArg::Float(*bits),
        _ => panic!("a number was expected"),
    }
}

#[test]
fn the_key_is_not_logged() {
    let mut config = make_config();
    let line = started_message(&config);
    config.stream_key = "another".to_string();
    assert_eq!(started_message(&config), line);
    assert!(!line.contains("stream_key"));
}
