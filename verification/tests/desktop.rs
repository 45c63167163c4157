use vibealong::bridge_loop::RuntimeSnapshot;
use vibealong::desktop::{
    apply_auto_bridge_policy, available_curves, close_step, current_live_gate_request,
    curve_label, disable_bridge_auto_mode, disengaged_message, enable_bridge_auto_mode,
    engaged_message, live_gate_step, live_streams_url, loaded_message, option_bool_text,
    read_live_streams, restore_last_selected_profile, tray_labels, tray_start_report,
    tray_stop_report, AutoStep, CloseStep, DesktopTab, GateEvent, LiveGateCommand,
    LiveGateRequest, LiveGateStatus, Restore, TrayBridge, TrayStep,
};
use vibealong::diagnostics::{collect_vrchat_diagnostics, LogOutcome, RegistryFlags};
use vibealong::float::{from_bits, FloatBits};
use vibealong::forms::{build_profile_from_form, KeptCredential, ProfileForm};
use vibealong::intiface::{
    IntifaceBridgeSnapshot, IntifaceClient, IntifaceConfig, IntifaceFeature,
};
use vibealong::json;
use vibealong::json::JsonValue;
use vibealong::login::{
    apply_companion_browser_auth_result, build_callback_page_html, build_http_response,
    callback_listener_failed, callback_timed_out, callback_url, check_website,
    handle_companion_auth_callback, html_escape, login_url, login_website, new_login_state,
    poll_companion_browser_login, read_answer, signed_in_message, PollStep, Received,
};
use vibealong::mapping::Curve;
use vibealong::oscquery::{check_host_info, OscQueryStatus};
use vibealong::panels::{
    discovery_report, find_test_actuator, held_max_output, mapping_change_message, probe_report,
    write_credential_hint, write_diagnostics, write_direct_bridge, write_feature, write_gate,
    write_log_line, write_oscquery, write_probe, write_profile, write_snapshot, Checklist,
    Environment,
    LevelTexts, MappingChange, PanelLine, Tone,
};
use vibealong::params::{
    build_intiface_source_values, bulk_values, is_listed_osc_param_key,
    json_value_to_runtime_param, merge_params, param_reading, refresh_runtime_params,
    take_oscquery_params, visible_params,
};
use vibealong::runtime::{RuntimeLogLine, RuntimeParamValue};
use vibealong::store::{LoadedProfile, ProfileSummary};

fn number(x: f64) -> FloatBits {
    from_bits(x.to_bits())
}

fn value(x: FloatBits) -> f64 {
    f64::from_bits(x.bits)
}

fn document(text: &str) -> JsonValue {
    json::parse(text).expect("json")
}

fn pairs(items: &[(&str, &str)]) -> Vec<(String, String)> {
    items
        .iter()
        .map(|(name, value)| (name.to_string(), value.to_string()))
        .collect()
}

fn texts(lines: &[PanelLine]) -> Vec<&str> {
    lines.iter().map(|line| line.text.as_str()).collect()
}

fn request() -> LiveGateRequest {
    LiveGateRequest {
        base_url: "https://vrlewds.com//".to_string(),
        creator_username: "Vee".to_string(),
    }
}

#[test]
fn pages_show_texts_as_they_are() {
    assert_eq!(
        html_escape("<a href=\"x\">'&amp;'</a>"),
        "&lt;a href=&quot;x&quot;&gt;&#39;&amp;amp;&#39;&lt;/a&gt;"
    );
    let page = build_callback_page_html("T<", "M>", true);
    assert!(page.starts_with("<!doctype html><html lang='en'><head><meta charset='utf-8'/>"));
    assert!(page.contains("<title>T&lt;</title>"));
    assert!(page.contains("--accent: #ff6b7a;"));
    assert!(page.contains("<p class='kicker'>LOGIN ERROR</p><h1>T&lt;</h1><p>M&gt;</p>"));
    assert!(page.ends_with("</body></html>"));
    assert!(build_callback_page_html("T", "M", false).contains("VIBEALONG"));
    assert_eq!(
        build_http_response("HTTP/1.1 200 OK", "h\u{e9}"),
        "HTTP/1.1 200 OK\r\nContent-Type: text/html; charset=utf-8\r\nCache-Control: no-store\r\nContent-Length: 3\r\nConnection: close\r\n\r\nh\u{e9}"
    );
}

#[test]
fn answers_of_the_browser_are_read() {
    let request = b"GET /callback?state=s1&token=vca1.%20x&creatorUsername=Vee+Bee&mode=&creatorOffline=TRUE HTTP/1.1\r\nHost: x\r\n\r\n";
    let (reply, result) = handle_companion_auth_callback(request, "s1").expect("answer");
    assert!(reply.starts_with("HTTP/1.1 200 OK\r\n"));
    assert!(reply.contains("will activate once you are live"));
    assert_eq!(result.state, "s1");
    assert_eq!(result.token.as_deref(), Some("vca1. x"));
    assert_eq!(result.creator_username.as_deref(), Some("Vee Bee"));
    assert_eq!(result.mode, None);
    assert_eq!(result.error, None);
    assert!(result.creator_offline);

    let (_, result) = handle_companion_auth_callback(request, "other").expect("answer");
    assert_eq!(result.token, None);
    assert_eq!(result.error.as_deref(), Some("State validation failed"));

    assert_eq!(
        handle_companion_auth_callback(b"", "s").expect_err("none"),
        "browser callback closed without request"
    );
    assert_eq!(
        handle_companion_auth_callback(b"GET :99999999/ HTTP/1.1", "s").expect_err("none"),
        "invalid callback URL"
    );
    let (_, result) = handle_companion_auth_callback(b"\n", "").expect("answer");
    assert_eq!(
        result.error.as_deref(),
        Some("No token returned from browser login")
    );
}

#[test]
fn tokens_count_only_without_an_error() {
    let (page, result) = read_answer(&pairs(&[("state", "s"), ("error", "no <b>")]), "s");
    assert!(page.contains("no &lt;b&gt;"));
    assert_eq!(result.error.as_deref(), Some("no <b>"));
    let (_, result) = read_answer(
        &pairs(&[("state", "s"), ("error", "no"), ("token", "t")]),
        "s",
    );
    assert_eq!(result.token, None);
    let (_, result) = read_answer(&pairs(&[("state", "s"), ("token", " ")]), "s");
    assert_eq!(result.token, None);
    let (page, result) = read_answer(
        &pairs(&[("state", "s"), ("token", "t"), ("streamId", "x"), ("token", "u")]),
        "s",
    );
    assert_eq!(result.token.as_deref(), Some("t"));
    assert_eq!(result.stream_id.as_deref(), Some("x"));
    assert!(page.contains("You&#39;re Signed In"));
    assert_eq!(
        callback_timed_out("s").error.as_deref(),
        Some("Timed out waiting for browser callback")
    );
    assert_eq!(
        callback_listener_failed("s", "x").error.as_deref(),
        Some("Local callback listener failed: x")
    );
}

#[test]
fn the_login_page_is_told_where_to_answer() {
    let state = new_login_state();
    assert_eq!(state.len(), 36);
    assert_ne!(state, new_login_state());
    let base = login_website(" https://vrlewds.com/// ", false).expect("website");
    let url = login_url(&base, "a b&c", &callback_url(8123)).expect("url");
    assert_eq!(
        url,
        "https://vrlewds.com/api/vibealong/companion/desktop-login?mode=creator&state=a+b%26c&redirect_uri=http%3A%2F%2F127.0.0.1%3A8123%2Fcallback"
    );
    assert_eq!(
        login_website(" / ", false).expect_err("none"),
        "Website Base URL is required before opening Vibealong login"
    );
    assert_eq!(
        login_website("http://x.test", false).expect_err("none"),
        "Website Base URL must use HTTPS unless 'Allow Insecure HTTP' is enabled."
    );
    assert!(login_website("http://x.test", true).is_ok());
    assert_eq!(
        login_website("ftp://x.test", true).expect_err("none"),
        "Website Base URL must use HTTP or HTTPS"
    );
    assert_eq!(
        login_website("nothing", false).expect_err("none"),
        "Website Base URL is invalid: relative URL without a base"
    );
    assert_eq!(
        check_website(Err("x".to_string()), true),
        Err("Website Base URL is invalid: x".to_string())
    );
}

#[test]
fn signing_in_fills_the_form() {
    let (_, result) = read_answer(
        &pairs(&[
            ("state", "s"),
            ("token", "t"),
            ("creatorUsername", "Vee"),
            ("websiteBaseUrl", "https://other"),
            ("mode", "creator"),
            ("streamId", "x"),
            ("expiresAt", "soon"),
            ("creatorOffline", "1"),
        ]),
        "s",
    );
    let mut form = ProfileForm::default();
    assert_eq!(apply_companion_browser_auth_result(&mut form, &result), Ok(()));
    assert_eq!(form.stream_key, "t");
    assert_eq!(form.creator_username, "Vee");
    assert_eq!(form.website_base_url, "https://vrlewds.com");
    assert_eq!(
        signed_in_message(&result),
        "Companion login complete. Credential saved. mode=creator stream=x expires=soon creator is offline; bridge will engage once stream is live"
    );
    let failed = callback_timed_out("s");
    assert_eq!(
        apply_companion_browser_auth_result(&mut form, &failed),
        Err("Companion login failed: Timed out waiting for browser callback".to_string())
    );
    let (_, mut empty) = read_answer(&pairs(&[("state", "s"), ("token", "t")]), "s");
    empty.token = Some(" ".to_string());
    assert_eq!(
        apply_companion_browser_auth_result(&mut form, &empty),
        Err("Companion login failed: empty token".to_string())
    );
}

#[test]
fn sign_ins_are_polled() {
    let result = callback_timed_out("s");
    assert_eq!(
        poll_companion_browser_login(299, Received::Nothing, "s"),
        PollStep::Wait
    );
    assert!(matches!(
        poll_companion_browser_login(300, Received::Nothing, "s"),
        PollStep::Fail(_)
    ));
    assert!(matches!(
        poll_companion_browser_login(1, Received::Disconnected, "s"),
        PollStep::Fail(_)
    ));
    assert_eq!(
        poll_companion_browser_login(1, Received::Answer(callback_timed_out("s")), "s"),
        PollStep::Apply(result)
    );
    assert_eq!(
        poll_companion_browser_login(1, Received::Answer(callback_timed_out("t")), "s"),
        PollStep::Fail("Companion login failed: state mismatch".to_string())
    );
    assert_eq!(
        poll_companion_browser_login(1, Received::Answer(callback_timed_out("")), ""),
        PollStep::Fail("Companion login failed: state mismatch".to_string())
    );
}

#[test]
fn live_streams_are_found() {
    assert_eq!(
        live_streams_url(&request()),
        "https://vrlewds.com/api/streams/live"
    );
    let payload = document(
        r#"{"streams": [
            {"creatorUsername": "other", "status": "live"},
            {"creatorUsername": "VEE", "status": "ended"},
            {"creatorUsername": "vee", "status": "LIVE", "streamId": "s1", "title": "T"},
            {"creatorUsername": "vee", "status": "live", "streamId": "s2"}
        ]}"#,
    );
    let status = read_live_streams(&request(), 5, &payload);
    assert_eq!(status.is_live, Some(true));
    assert_eq!(status.stream_id.as_deref(), Some("s1"));
    assert_eq!(status.stream_title.as_deref(), Some("T"));
    let flagged = document(r#"{"streams": [{"creatorUsername": "Vee", "creatorIsLive": true}]}"#);
    assert_eq!(read_live_streams(&request(), 5, &flagged).is_live, Some(true));
    let none = document(r#"{"streams": []}"#);
    assert_eq!(read_live_streams(&request(), 5, &none).is_live, Some(false));
    let broken = read_live_streams(&request(), 5, &document("{}"));
    assert_eq!(broken.is_live, None);
    assert_eq!(broken.last_error.as_deref(), Some("missing streams array"));
    let failed = LiveGateStatus::failed(&request(), 5, "x".to_string());
    assert_eq!(failed.last_error.as_deref(), Some("x"));
    assert_eq!(LiveGateStatus::default().checked_at_ms, 0);
}

#[test]
fn the_bridge_follows_the_stream() {
    let mut form = ProfileForm::default();
    form.creator_username = " Vee ".to_string();
    assert_eq!(current_live_gate_request(false, true, &form), None);
    assert_eq!(current_live_gate_request(true, false, &form), None);
    let wanted = current_live_gate_request(true, true, &form);
    assert_eq!(
        wanted.as_ref().map(|r| r.creator_username.as_str()),
        Some("Vee")
    );
    let live = document(r#"{"streams": [{"creatorUsername": "Vee", "status": "live"}]}"#);
    let status = read_live_streams(wanted.as_ref().expect("request"), 5, &live);
    let step = |status: &LiveGateStatus, running, due| {
        apply_auto_bridge_policy(true, true, &wanted, status, running, due)
    };
    assert_eq!(step(&status, false, true), AutoStep::Start);
    assert_eq!(step(&status, false, false), AutoStep::Nothing);
    assert_eq!(step(&status, true, true), AutoStep::Nothing);
    let offline = read_live_streams(
        wanted.as_ref().expect("request"),
        5,
        &document(r#"{"streams": []}"#),
    );
    assert_eq!(step(&offline, true, true), AutoStep::Stop);
    assert_eq!(step(&offline, false, true), AutoStep::Nothing);
    let other = read_live_streams(&request(), 5, &live);
    assert_eq!(step(&other, false, true), AutoStep::Nothing);
    assert_eq!(
        apply_auto_bridge_policy(false, true, &wanted, &status, false, true),
        AutoStep::Nothing
    );
    assert_eq!(engaged_message("Vee"), "Bridge auto-engaged for Vee (stream live)");
    assert_eq!(
        disengaged_message("Vee"),
        "Bridge auto-disengaged for Vee (stream offline)"
    );
}

#[test]
fn the_automatic_mode_is_reported() {
    let (on, report) = enable_bridge_auto_mode(false, true, "home");
    assert!(on && !report.is_error);
    assert_eq!(report.message, "Bridge auto mode enabled (home)");
    let (on, report) = enable_bridge_auto_mode(true, true, "home");
    assert!(on);
    assert_eq!(report.message, "Bridge auto mode already enabled (home)");
    let (on, report) = enable_bridge_auto_mode(false, false, "home");
    assert!(!on && report.is_error);
    assert_eq!(
        disable_bridge_auto_mode(None, "home").message,
        "Bridge auto mode disabled (home)"
    );
    assert_eq!(
        disable_bridge_auto_mode(Some(Ok(())), "home").message,
        "Bridge disengaged and auto mode disabled (home)"
    );
    assert!(disable_bridge_auto_mode(Some(Err("x".to_string())), "home").is_error);
}

#[test]
fn the_tray_switches_the_bridge() {
    let mut tray = TrayBridge::default();
    assert_eq!(
        tray.toggle(None),
        TrayStep::Refuse("No selected profile to start from tray".to_string())
    );
    assert!(!tray.auto_bridge_enabled);
    assert_eq!(
        tray.toggle(Some("last".to_string())),
        TrayStep::Start("last".to_string())
    );
    assert!(tray.auto_bridge_enabled);
    assert_eq!(tray.toggle(None), TrayStep::Stop);
    tray.selected_profile_id = Some("p".to_string());
    assert_eq!(tray.toggle(Some("last".to_string())), TrayStep::Start("p".to_string()));
    assert_eq!(
        tray.check_profile("p", Err("x".to_string())),
        Err("load profile failed: x".to_string())
    );
    assert_eq!(
        tray.check_profile("p", Ok(None)),
        Err("Profile not found: p".to_string())
    );
    assert!(tray.auto_bridge_enabled);
    let mut form = ProfileForm::default();
    form.creator_username = "Vee".to_string();
    form.stream_key = "k".to_string();
    let (profile, _) =
        build_profile_from_form(&form, &None, KeptCredential::NoProfile).expect("profile");
    let blank = LoadedProfile {
        profile,
        stream_key: Some(" ".to_string()),
    };
    assert_eq!(
        tray.check_profile("p", Ok(Some(blank))),
        Err("Profile has no bridge credential: p".to_string())
    );
    assert!(!tray.auto_bridge_enabled);
    assert_eq!(
        tray_stop_report(Ok(())),
        Ok("Bridge auto mode disabled from tray".to_string())
    );
    assert_eq!(
        tray_stop_report(Err("x".to_string())),
        Err("stop runtime failed: x".to_string())
    );
    assert_eq!(
        tray_start_report("p", Ok(())),
        Ok("Bridge enabled from tray for profile p".to_string())
    );
    assert_eq!(
        tray_start_report("p", Err("x".to_string())),
        Err("start profile failed: x".to_string())
    );
    let labels = tray_labels(true, false, false, false);
    assert_eq!(labels.state, "Bridge State: Connected");
    assert_eq!(labels.toggle, "Toggle Bridge: Enable");
    assert!(!labels.can_toggle);
    assert!(tray_labels(false, true, false, false).can_toggle);
}

#[test]
fn the_first_profile_is_chosen() {
    let profiles = vec![
        ProfileSummary {
            id: "a".to_string(),
            name: "A".to_string(),
            creator_username: String::new(),
            updated_at_ms: 0,
            has_stream_key: false,
        },
        ProfileSummary {
            id: "b".to_string(),
            name: "B".to_string(),
            creator_username: String::new(),
            updated_at_ms: 0,
            has_stream_key: false,
        },
    ];
    assert_eq!(
        restore_last_selected_profile(&profiles, Some("b".to_string())),
        Restore::Last("b".to_string())
    );
    assert_eq!(
        restore_last_selected_profile(&profiles, Some("c".to_string())),
        Restore::First("a".to_string())
    );
    assert_eq!(
        restore_last_selected_profile(&Vec::new(), None),
        Restore::New
    );
    assert_eq!(loaded_message("A", true), "Loaded profile A (credential present)");
    assert_eq!(close_step(false, true, false), CloseStep::Close);
    assert_eq!(close_step(true, true, false), CloseStep::Hide);
    assert_eq!(close_step(true, true, true), CloseStep::StayHidden);
    assert_eq!(close_step(true, false, false), CloseStep::Minimize);
}

#[test]
fn labels_are_fixed() {
    let tabs = DesktopTab::all();
    assert_eq!(tabs.len(), 8);
    assert_eq!(tabs[1].label(), "Setup Wizard");
    assert_eq!(DesktopTab::Login.shown(true), DesktopTab::Home);
    assert_eq!(DesktopTab::Logs.shown(true), DesktopTab::Logs);
    assert_eq!(option_bool_text(None), "unknown");
    assert_eq!(available_curves().len(), 4);
    assert_eq!(curve_label(Curve::EaseInOutQuad), "EaseInOutQuad");
    assert_eq!(Environment::of(" HTTPS://vrlewds.com "), Environment::Stable);
    assert_eq!(Environment::of("https://dev.vrlewds.com"), Environment::Nightly);
    assert_eq!(Environment::of("https://x"), Environment::Custom);
    assert_eq!(Environment::Custom.base_url("https://x"), "https://x");
    assert_eq!(Environment::Nightly.base_url("https://x"), "https://dev.vrlewds.com");
    assert_eq!(Environment::Stable.label(), "Stable (vrlewds.com)");
}

#[test]
fn parameters_are_listed_and_merged() {
    assert!(is_listed_osc_param_key("OGB"));
    assert!(is_listed_osc_param_key("OGB/x"));
    assert!(!is_listed_osc_param_key("OGBx"));
    let current = vec![
        ("OGB/b".to_string(), RuntimeParamValue::Int(1)),
        ("z".to_string(), RuntimeParamValue::Int(2)),
    ];
    assert_eq!(visible_params(&current, false).len(), 1);
    let fresh = vec![
        ("OGB/a".to_string(), RuntimeParamValue::Int(3)),
        ("OGB/b".to_string(), RuntimeParamValue::Int(4)),
        ("y".to_string(), RuntimeParamValue::Int(5)),
    ];
    assert_eq!(
        refresh_runtime_params(&current, &fresh, false),
        vec![
            ("OGB/a".to_string(), RuntimeParamValue::Int(3)),
            ("OGB/b".to_string(), RuntimeParamValue::Int(4)),
        ]
    );
    assert_eq!(
        merge_params(&current, &fresh, false)[1],
        ("OGB/b".to_string(), RuntimeParamValue::Int(1))
    );
    assert_eq!(refresh_runtime_params(&current, &Vec::new(), true), current);
    let values = vec![
        ("OGB/c".to_string(), document("0.5")),
        ("OGB/b".to_string(), document("true")),
        ("OGB/n".to_string(), document("null")),
        ("other".to_string(), document("1")),
    ];
    let updated = take_oscquery_params(&current, &values, false, true).expect("updated");
    assert_eq!(
        updated,
        vec![
            ("OGB/b".to_string(), RuntimeParamValue::Int(1)),
            ("OGB/c".to_string(), RuntimeParamValue::Number(number(0.5))),
        ]
    );
    let replaced = take_oscquery_params(&current, &values, false, false).expect("updated");
    assert_eq!(replaced[0].1, RuntimeParamValue::Bool(true));
    assert_eq!(take_oscquery_params(&current, &Vec::new(), false, true), None);
    assert_eq!(
        bulk_values(&values)[0],
        ("OGB/b".to_string(), RuntimeParamValue::Text("true".to_string()))
    );
    assert_eq!(
        json_value_to_runtime_param(&document("\"s\"")),
        Some(RuntimeParamValue::Text("s".to_string()))
    );
    assert_eq!(json_value_to_runtime_param(&document("[]")), None);
}

#[test]
fn parameters_become_sources() {
    let widened = number(0.25);
    assert_eq!(param_reading(&RuntimeParamValue::Int(3), widened), Some(widened));
    assert_eq!(
        param_reading(&RuntimeParamValue::Bool(true), widened).map(value),
        Some(1.0)
    );
    assert_eq!(
        param_reading(&RuntimeParamValue::Text("2.5".to_string()), widened).map(value),
        Some(2.5)
    );
    assert_eq!(
        param_reading(&RuntimeParamValue::Text("x".to_string()), widened),
        None
    );
    let sources =
        build_intiface_source_values(Some(number(0.5)), &vec![("X".to_string(), number(7.0))]);
    assert_eq!(sources[0], ("intensity".to_string(), number(0.5)));
    assert_eq!(sources[1], ("avatar:X".to_string(), number(1.0)));
    assert_eq!(value(build_intiface_source_values(None, &Vec::new())[0].1), 0.0);
}

#[test]
fn panels_are_written() {
    let flags = RegistryFlags {
        osc_enabled: Some(true),
        self_interact_enabled: Some(false),
        everyone_interact_enabled: None,
    };
    let diagnostics = collect_vrchat_diagnostics(9, Ok(flags), LogOutcome::NoDirectory);
    let client = IntifaceClient::new(IntifaceConfig::default());
    let probe = client.probe_snapshot(4, Err("gone".to_string()));
    let oscquery = OscQueryStatus::default();
    let checklist = Checklist::new(true, false, false, true, &diagnostics, &oscquery, &probe);
    let lines = checklist.lines();
    assert_eq!(lines[0].text, "[x] Configuration loaded");
    assert_eq!(lines[0].tone, Tone::Ready);
    assert_eq!(lines[1].text, "[ ] Credential configured");
    assert_eq!(lines[4].text, "[x] VRChat OSC enabled");
    assert_eq!(lines[5].text, "[ ] VRChat self interact enabled");
    assert_eq!(lines.len(), 9);

    let shown = write_diagnostics(&diagnostics);
    assert_eq!(shown[0].text, "Checked at: 9");
    assert_eq!(shown[3].text, "VRChat everyone interact enabled: unknown");
    assert!(texts(&shown).contains(&"Diagnostics Errors"));
    assert_eq!(texts(&write_oscquery(&oscquery)), vec!["Endpoint: not discovered"]);
    assert_eq!(
        texts(&write_probe(&probe)),
        vec!["Connected: false", "Server: ", "Checked at: 4", "Last error: gone"]
    );
    assert_eq!(probe_report(&probe).message, "Intiface probe failed: gone");
    let direct = IntifaceBridgeSnapshot::started(3);
    assert_eq!(
        texts(&write_direct_bridge(true, &direct, "0.000")),
        vec![
            "Status: engaged",
            "Connected: false",
            "Devices: 0",
            "Commands sent: 0",
            "Last level: 0.000",
            "Last sent at: 0",
        ]
    );

    let status = LiveGateStatus::failed(&request(), 5, "x".to_string());
    assert_eq!(
        texts(&write_gate(true, &Some(request()), &status)),
        vec![
            "Engage toggle: ON (auto)",
            "Stream live gate: unknown",
            "Gate target: Vee @ https://vrlewds.com//",
            "Last live check: 5",
            "Live check error: x",
        ]
    );
    let levels = LevelTexts {
        current: "0.100".to_string(),
        target: "0.200".to_string(),
        peak: "0.300".to_string(),
    };
    let mut snapshot = RuntimeSnapshot::started(5);
    snapshot.set_error("bad");
    let home = write_snapshot(true, &None, &Some(snapshot), &levels);
    assert_eq!(home[0].text, "Status: Engaged");
    assert_eq!(home[1].text, "Active config: -");
    assert_eq!(home[3].text, "Current intensity: 0.100");
    assert_eq!(home[13].text, "Last source: - [f]");
    assert_eq!(home[14].text, "Last error: bad");
    assert_eq!(home[14].tone, Tone::Fault);
    assert_eq!(
        texts(&write_snapshot(false, &Some("p".to_string()), &None, &levels)),
        vec!["Status: Disengaged", "Active config: p", "Runtime not started."]
    );
}

#[test]
fn reports_are_written() {
    let line = RuntimeLogLine {
        ts_ms: 7,
        level: "INFO".to_string(),
        message: "hello".to_string(),
    };
    assert_eq!(write_log_line(&line), "[7][INFO] hello");
    assert_eq!(write_credential_hint(" a\nb ", false), "2 chars entered");
    assert_eq!(write_credential_hint(" ", true), "(leave blank to keep existing)");
    assert_eq!(write_credential_hint(" ", false), "No credential entered");
    assert_eq!(
        mapping_change_message(MappingChange::Removed(2), "X"),
        "Removed 2 mapping(s) for /avatar/parameters/X. Save settings to persist."
    );
    assert_eq!(
        mapping_change_message(MappingChange::Added, "X"),
        "Added default mapping for /avatar/parameters/X. Save settings to persist."
    );
    assert_eq!(
        mapping_change_message(MappingChange::AlreadyThere, "X"),
        "Mapping already exists for /avatar/parameters/X."
    );
    let info = document(r#"{"NAME": "VRChat-Client-1", "OSC_IP": "127.0.0.1", "OSC_PORT": 9000}"#);
    let mut status = OscQueryStatus::default();
    let found = check_host_info("127.0.0.1", 9001, &info).expect("endpoint");
    let _ = status.on_browsed(Some(found), None);
    assert_eq!(
        discovery_report(&status.endpoint, &None).message,
        "OSCQuery discovered via mdns at 127.0.0.1:9001 -> OSC 127.0.0.1:9000"
    );
    assert_eq!(
        texts(&write_oscquery(&status)),
        vec![
            "Endpoint: 127.0.0.1:9001 (source mdns)",
            "VRChat OSC target: 127.0.0.1:9000"
        ]
    );
    let failed = discovery_report(&None, &None);
    assert!(failed.is_error);
    assert_eq!(failed.message, "OSCQuery discovery failed: not discovered");
    let feature = IntifaceFeature {
        command_type: "ScalarCmd".to_string(),
        index: 2,
        actuator_type: None,
    };
    assert_eq!(write_feature(&feature), "ScalarCmd #2 -");
    assert_eq!(find_test_actuator(&feature).as_deref(), Some("Vibrate"));
    let linear = IntifaceFeature {
        command_type: "LinearCmd".to_string(),
        index: 2,
        actuator_type: None,
    };
    assert_eq!(find_test_actuator(&linear), None);
    assert_eq!(value(held_max_output(number(0.5), number(0.25))), 0.5);
    assert_eq!(value(held_max_output(number(0.5), number(0.75))), 0.75);
}

#[test]
fn profiles_are_listed_by_name() {
    let summary = ProfileSummary {
        id: "p".to_string(),
        name: "Default".to_string(),
        creator_username: "Vee".to_string(),
        updated_at_ms: 42,
        has_stream_key: false,
    };
    assert_eq!(write_profile(&summary), "Default | Vee | key=missing | updated=42");
}

#[test]
fn the_watch_follows_the_last_request() {
    let request = |name: &str| LiveGateRequest {
        base_url: "https://a".to_string(),
        creator_username: name.to_string(),
    };
    assert_eq!(live_gate_step(None, GateEvent::Timeout, Vec::new()), (None, false));
    assert_eq!(
        live_gate_step(Some(request("a")), GateEvent::Timeout, Vec::new()),
        (Some(request("a")), true)
    );
    assert_eq!(
        live_gate_step(None, GateEvent::Command(LiveGateCommand::Trigger), Vec::new()),
        (None, true)
    );
    assert_eq!(
        live_gate_step(None, GateEvent::Timeout, vec![LiveGateCommand::Trigger]),
        (None, true)
    );
    assert_eq!(
        live_gate_step(
            Some(request("a")),
            GateEvent::Command(LiveGateCommand::Configure(Some(request("b")))),
            vec![
                LiveGateCommand::Configure(None),
                LiveGateCommand::Configure(Some(request("c"))),
                LiveGateCommand::Trigger,
            ],
        ),
        (Some(request("c")), true)
    );
    assert_eq!(
        live_gate_step(
            Some(request("a")),
            GateEvent::Command(LiveGateCommand::Configure(None)),
            Vec::new(),
        ),
        (None, true)
    );
}
