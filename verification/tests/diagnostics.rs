use vibealong::diagnostics::{
    collect_vrchat_diagnostics, extract_osc_launch_config_from_log_line,
    extract_oscquery_port_from_log_line, find_latest_vrchat_log, log_tail_start, registry_flag,
    registry_name_matches, scan_vrchat_log, LogFile, LogOutcome, RegistryFlags, LOG_TAIL_BYTES,
};
use vibealong::json;
use vibealong::json::JsonValue;
use vibealong::oscquery::{
    avatar_param_name_from_full_path, avatar_parameters, check_host_info, collect_oscquery_values,
    endpoint_url, filter_values_under_path, host_discovery_priority, host_for_url,
    normalize_query_path, order_hosts, DiscoveryStep, OscQueryStatus,
};

fn document(text: &str) -> JsonValue {
    json::parse(text).expect("json")
}

fn find<'a>(values: &'a [(String, JsonValue)], key: &str) -> Option<&'a JsonValue> {
    values.iter().find(|entry| entry.0 == key).map(|entry| &entry.1)
}

#[test]
fn extracts_oscquery_port_from_log_line() {
    let line = "Some text [OSC] service of type OSCQuery on 37015 in process";
    assert_eq!(extract_oscquery_port_from_log_line(line), Some(37015));
    assert_eq!(extract_oscquery_port_from_log_line("no match"), None);
}

#[test]
fn extracts_osc_launch_config_from_log_line() {
    let line = "Debug - Arg: --osc=6009:127.0.0.1:6010";
    let parsed = extract_osc_launch_config_from_log_line(line).expect("parsed launch arg");
    assert_eq!(parsed.input_port, 6009);
    assert_eq!(parsed.output_host, "127.0.0.1");
    assert_eq!(parsed.output_port, 6010);
    assert_eq!(parsed.raw, "6009:127.0.0.1:6010");
}

#[test]
fn scans_vrchat_log_for_failure_and_port() {
    let log = "hello\nservice of type OSCQuery on 39999\nArg: --osc=6009:127.0.0.1:6010\nCould not Start OSC because socket in use\n";
    let scan = scan_vrchat_log(log.as_bytes(), false);
    assert_eq!(scan.oscquery_port, Some(39999));
    assert_eq!(scan.osc_input_port, Some(6009));
    assert_eq!(scan.osc_output_host.as_deref(), Some("127.0.0.1"));
    assert_eq!(scan.osc_output_port, Some(6010));
    assert!(scan
        .osc_start_failure
        .as_deref()
        .is_some_and(|line| line.contains("Could not Start OSC")));
}

#[test]
fn a_log_that_was_cut_loses_its_first_line() {
    let bytes = b"vice of type OSCQuery on 1234\nservice of type OSCQuery on 4321\n\xFF\n";
    let scan = scan_vrchat_log(bytes, true);
    assert_eq!(scan.oscquery_port, Some(4321));
    assert_eq!(log_tail_start(10), 0);
    assert_eq!(log_tail_start(LOG_TAIL_BYTES + 7), 7);
}

#[test]
fn the_latest_log_is_found() {
    let files = vec![
        LogFile { name: "output_log_a.txt".to_string(), modified: 5 },
        LogFile { name: "other.txt".to_string(), modified: 99 },
        LogFile { name: "output_log_b.txt".to_string(), modified: 8 },
    ];
    assert_eq!(find_latest_vrchat_log(&files), Some(2));
    assert_eq!(find_latest_vrchat_log(&Vec::new()), None);
}

#[test]
fn registry_values_become_flags() {
    assert!(registry_name_matches("VRC_INPUT_OSC_h123", "VRC_INPUT_OSC"));
    assert!(!registry_name_matches("VRC_OTHER", "VRC_INPUT_OSC"));
    assert_eq!(registry_flag(Some(1), 1), Some(true));
    assert_eq!(registry_flag(Some(0), 1), Some(false));
    assert_eq!(registry_flag(None, 1), None);
}

#[test]
fn diagnoses_collect_what_went_wrong() {
    let flags = RegistryFlags {
        osc_enabled: Some(false),
        self_interact_enabled: Some(true),
        everyone_interact_enabled: None,
    };
    let scan = scan_vrchat_log(b"Could not Start OSC\n", false);
    let found = collect_vrchat_diagnostics(
        7,
        Ok(flags),
        LogOutcome::Scanned { path: "/tmp/log".to_string(), scan },
    );
    assert_eq!(found.checked_at_ms, 7);
    assert_eq!(found.osc_enabled, Some(false));
    assert_eq!(found.latest_log_path.as_deref(), Some("/tmp/log"));
    assert!(found.errors.is_empty());
    assert!(!found.warning_lines().is_empty());

    let failed = collect_vrchat_diagnostics(
        8,
        Err("denied".to_string()),
        LogOutcome::NoLog { directory: "/logs".to_string() },
    );
    assert_eq!(
        failed.errors,
        vec![
            "Registry check failed: denied".to_string(),
            "No output_log file found in /logs".to_string(),
        ]
    );
    let listed = collect_vrchat_diagnostics(
        8,
        Ok(flags),
        LogOutcome::ListFailed { directory: "/logs".to_string(), error: "gone".to_string() },
    );
    assert_eq!(
        listed.errors,
        vec!["Failed to enumerate VRChat logs in /logs: gone".to_string()]
    );
    let unscanned = collect_vrchat_diagnostics(
        8,
        Ok(flags),
        LogOutcome::ScanFailed { path: "/logs/a".to_string(), error: "gone".to_string() },
    );
    assert_eq!(unscanned.errors, vec!["Failed scanning VRChat log: gone".to_string()]);
    let nowhere = collect_vrchat_diagnostics(8, Ok(flags), LogOutcome::NoDirectory);
    assert_eq!(
        nowhere.errors,
        vec!["Could not resolve VRChat log directory".to_string()]
    );
}

#[test]
fn collect_values_extracts_full_path_nodes() {
    let tree = document(
        r#"{
            "FULL_PATH": "/avatar/parameters/A",
            "VALUE": [0.5],
            "CONTENTS": {
                "child": {
                    "FULL_PATH": "/avatar/parameters/B",
                    "VALUE": [true]
                }
            }
        }"#,
    );
    let mut out = Vec::new();
    collect_oscquery_values(&tree, &mut out);
    assert_eq!(find(&out, "/avatar/parameters/A"), Some(&document("0.5")));
    assert_eq!(find(&out, "/avatar/parameters/B"), Some(&document("true")));
}

#[test]
fn avatar_param_name_from_full_path_strips_prefix() {
    assert_eq!(
        avatar_param_name_from_full_path("/avatar/parameters/SPS_Contact"),
        Some("SPS_Contact")
    );
    assert_eq!(
        avatar_param_name_from_full_path("/avatar/parameters/"),
        None
    );
    assert_eq!(avatar_param_name_from_full_path("/other/path"), None);
}

#[test]
fn normalize_query_path_handles_empty_and_slashes() {
    assert_eq!(normalize_query_path(""), "/");
    assert_eq!(normalize_query_path("/"), "/");
    assert_eq!(
        normalize_query_path("avatar/parameters"),
        "/avatar/parameters"
    );
    assert_eq!(
        normalize_query_path("/avatar/parameters/"),
        "/avatar/parameters"
    );
}

#[test]
fn filter_values_under_path_keeps_matching_subtree() {
    let input = vec![
        ("/avatar/parameters/A".to_string(), document("1.0")),
        ("/avatar/parameters/B".to_string(), document("false")),
        ("/chatbox/input".to_string(), document("\"hello\"")),
    ];
    let filtered = filter_values_under_path(input, "/avatar/parameters");
    assert_eq!(filtered.len(), 2);
    assert!(find(&filtered, "/avatar/parameters/A").is_some());
    assert!(find(&filtered, "/avatar/parameters/B").is_some());
}

#[test]
fn host_for_url_wraps_ipv6() {
    assert_eq!(host_for_url("127.0.0.1"), "127.0.0.1");
    assert_eq!(host_for_url("::1"), "[::1]");
    assert_eq!(host_for_url("[::1]"), "[::1]");
}

#[test]
fn avatar_parameters_are_named_without_their_path() {
    let values = vec![
        ("/avatar/parameters/A".to_string(), document("1")),
        ("/chatbox".to_string(), document("2")),
    ];
    let params = avatar_parameters(&values);
    assert_eq!(params.len(), 1);
    assert_eq!(params[0].0, "A");
    assert_eq!(endpoint_url("::1", 9000, "/avatar"), "http://[::1]:9000/avatar");
}

#[test]
fn host_information_is_checked() {
    let info = document(r#"{"NAME": "VRChat-Client-1", "OSC_IP": "127.0.0.1", "OSC_PORT": 9000}"#);
    let endpoint = check_host_info("127.0.0.1", 9001, &info).expect("endpoint");
    assert_eq!(endpoint.oscquery_port, 9001);
    assert_eq!(endpoint.osc_host, "127.0.0.1");
    assert_eq!(endpoint.osc_port, 9000);
    assert_eq!(
        check_host_info("h", 0, &info).expect_err("refused"),
        "invalid OSCQuery port 0"
    );
    assert_eq!(
        check_host_info("h", 1, &document(r#"{"NAME": "Other"}"#)).expect_err("refused"),
        "endpoint host info NAME is not VRChat client: Other"
    );
    assert_eq!(
        check_host_info("h", 1, &document(r#"{"NAME": "VRChat-Client-1"}"#)).expect_err("refused"),
        "HOST_INFO missing OSC_IP"
    );
    assert!(check_host_info(
        "h",
        1,
        &document(r#"{"NAME": "VRChat-Client-1", "OSC_IP": "x", "OSC_PORT": 70000}"#)
    )
    .is_err());
}

#[test]
fn near_hosts_are_tried_first() {
    assert_eq!(host_discovery_priority("127.0.0.1"), 0);
    assert_eq!(host_discovery_priority("::1"), 1);
    assert_eq!(host_discovery_priority("10.0.0.1"), 2);
    assert_eq!(host_discovery_priority("fe80::1"), 3);
    assert_eq!(host_discovery_priority("name.local"), 4);
    let hosts = vec![
        "name.local".to_string(),
        "10.0.0.1".to_string(),
        "127.0.0.1".to_string(),
        "10.0.0.1".to_string(),
    ];
    let ordered = order_hosts(&hosts);
    assert_eq!(ordered[0], "127.0.0.1");
    assert_eq!(ordered[1], "10.0.0.1");
}

#[test]
fn the_search_keeps_its_status() {
    let info = document(r#"{"NAME": "VRChat-Client-1", "OSC_IP": "127.0.0.1", "OSC_PORT": 9000}"#);
    let endpoint = || check_host_info("127.0.0.1", 9001, &info);
    let mut status = OscQueryStatus::default();
    assert_eq!(status.discover(), DiscoveryStep::Browse);
    assert_eq!(status.on_browsed(None, None), DiscoveryStep::Failed);
    assert_eq!(
        status.last_error.as_deref(),
        Some("OSCQuery endpoint not discovered")
    );
    assert_eq!(
        status.on_browsed(None, Some(9001)),
        DiscoveryStep::CheckHint { port: 9001 }
    );
    assert_eq!(
        status.on_hint_check(Err("hint".to_string())),
        DiscoveryStep::Failed
    );
    assert_eq!(status.last_error.as_deref(), Some("hint"));
    assert_eq!(status.on_browsed(None, None), DiscoveryStep::Failed);
    assert_eq!(status.last_error.as_deref(), Some("hint"));
    assert_eq!(status.on_hint_check(endpoint()), DiscoveryStep::Found);
    assert_eq!(
        status.endpoint.as_ref().map(|e| e.source.as_str()),
        Some("vrchat-log")
    );
    assert_eq!(
        status.on_browsed(Some(endpoint().expect("endpoint")), Some(1)),
        DiscoveryStep::Found
    );
    assert_eq!(status.last_error, None);
    assert_eq!(
        status.discover(),
        DiscoveryStep::CheckKnown {
            host: "127.0.0.1".to_string(),
            port: 9001
        }
    );
    assert_eq!(status.on_cached_check(endpoint()), DiscoveryStep::Found);
    assert_eq!(status.endpoint.as_ref().map(|e| e.source.as_str()), Some("mdns"));
    assert_eq!(
        status.on_cached_check(Err("closed".to_string())),
        DiscoveryStep::Browse
    );
    assert_eq!(
        status.last_error.as_deref(),
        Some("cached endpoint check failed: closed")
    );
}

#[test]
fn the_later_part_of_a_log_wins() {
    let earlier = "service of type OSCQuery on 39999\nArg: --osc=6009:127.0.0.1:6010\r\nCould not Start OSC now\n";
    let later = "service of type OSCQuery on 40000\nnothing\nArg: --osc=7000:10.0.0.2:7001";
    let whole = scan_vrchat_log(format!("{earlier}{later}").as_bytes(), false);
    let first = scan_vrchat_log(earlier.as_bytes(), false);
    let second = scan_vrchat_log(later.as_bytes(), false);
    assert_eq!(whole.oscquery_port, second.oscquery_port);
    assert_eq!(whole.oscquery_port, Some(40_000));
    assert_eq!(whole.osc_start_failure, first.osc_start_failure);
    assert_eq!(whole.osc_start_failure.as_deref(), Some("Could not Start OSC now"));
    assert_eq!(second.osc_start_failure, None);
    assert_eq!(whole.osc_launch_arg.as_deref(), Some("7000:10.0.0.2:7001"));
    assert_eq!(whole.osc_input_port, Some(7_000));
    assert_eq!(whole.osc_output_host.as_deref(), Some("10.0.0.2"));
    assert_eq!(whole.osc_output_port, Some(7_001));
    let none = scan_vrchat_log(b"Arg: --osc=7000:10.0.0.2\n", false);
    assert_eq!(none.osc_launch_arg, None);
    assert_eq!(none.osc_input_port, None);
    assert_eq!(none.osc_output_host, None);
    assert_eq!(none.osc_output_port, None);
}
