use vibealong::cli;
use vibealong::cli::{ArgumentError, ProfileArguments};
use vibealong::config::{ForwardTarget, OscListen};
use vibealong::float::{from_bits, FloatBits};
use vibealong::forms::{
    build_intiface_route_rules, build_profile_from_form, checked_entry, load_profile_into_form,
    mapping_address_for_param_key, new_configuration, normalized_stream_key_input,
    parse_forward_target, parse_intiface_config, parse_osc_allowed_senders, resolve_credential,
    IntifaceForm, IntifaceRouteForm, IntifaceSourceMode, KeptCredential, MappingRowForm,
    ProfileForm,
};
use vibealong::intiface::IntifaceSourceKind;
use vibealong::mapping::{Curve, UpperBound};
use vibealong::store::{AppProfile, LoadedProfile, ProfileSummary};

fn number(x: f64) -> FloatBits {
    from_bits(x.to_bits())
}

fn value(x: FloatBits) -> f64 {
    f64::from_bits(x.bits)
}

fn form() -> ProfileForm {
    let mut form = ProfileForm::default();
    form.creator_username = " Vee ".to_string();
    form.stream_key = " ab\r\ncd \n".to_string();
    form
}

fn built(form: &ProfileForm) -> Result<(AppProfile, String), String> {
    build_profile_from_form(form, &None, KeptCredential::NoProfile)
}

fn refusal(form: &ProfileForm) -> String {
    built(form).expect_err("refused")
}

#[test]
fn forms_become_profiles() {
    let mut form = form();
    form.mappings.push(MappingRowForm::default());
    let mut row = MappingRowForm::with_address(" /avatar/parameters/X ");
    row.weight = " 2.5 ".to_string();
    row.deadzone = String::new();
    row.max = "0".to_string();
    row.invert = true;
    row.curve = Curve::EaseInQuad;
    form.mappings.push(row);
    form.forward_targets = "127.0.0.1:9000\n\n localhost : 9100 \n".to_string();
    form.osc_allowed_senders = "10.0.0.1\n\n10.0.0.1\n::1\n".to_string();
    let (profile, key) = built(&form).expect("profile");
    assert_eq!(key, "abcd");
    assert_eq!(profile.id, "default");
    assert_eq!(profile.name, "Default");
    assert_eq!(profile.config.creator_username, "Vee");
    assert_eq!(profile.config.website_base_url, "https://vrlewds.com");
    assert_eq!(profile.config.osc_listen.port, 9001);
    assert_eq!(profile.config.osc_allowed_senders, vec!["10.0.0.1", "::1"]);
    assert_eq!(profile.config.forward_targets.len(), 2);
    assert_eq!(profile.config.forward_targets[1].host, "localhost");
    assert_eq!(profile.config.forward_targets[1].port, 9100);
    assert_eq!(profile.config.mappings.len(), 1);
    let mapping = &profile.config.mappings[0];
    assert_eq!(mapping.address, "/avatar/parameters/X");
    assert_eq!(value(mapping.weight), 2.5);
    assert_eq!(value(mapping.deadzone), 0.02);
    assert_eq!(mapping.max, UpperBound::OneAboveMin);
    assert!(mapping.invert);
    assert!(profile.config.discovery.enabled);
    assert_eq!(profile.config.discovery.file_path, "data/osc-discovered.txt");

    let selected = Some("p1".to_string());
    let (profile, _) = build_profile_from_form(&form, &selected, KeptCredential::NoProfile)
        .expect("profile");
    assert_eq!(profile.id, "p1");
}

#[test]
fn forms_say_what_is_wrong() {
    let mut broken = form();
    broken.name = "  ".to_string();
    assert_eq!(refusal(&broken), "Profile name is required");

    let mut broken = form();
    broken.creator_username = String::new();
    assert_eq!(refusal(&broken), "Creator username is required");

    let mut broken = form();
    broken.osc_port = "70000".to_string();
    assert_eq!(refusal(&broken), "OSC port must be a valid integer");
    broken.osc_port = "0".to_string();
    assert_eq!(refusal(&broken), "OSC port must be > 0");

    let mut broken = form();
    broken.mappings.push(MappingRowForm::default());
    broken.mappings.push(MappingRowForm::with_address("x"));
    assert_eq!(refusal(&broken), "Mapping 2: address must start with '/'");
    broken.mappings[1].address = "/x".to_string();
    broken.mappings[1].min = "low".to_string();
    assert_eq!(refusal(&broken), "Mapping 2: min must be a valid number");

    let mut broken = form();
    broken.forward_targets = "nowhere".to_string();
    assert_eq!(
        refusal(&broken),
        "Invalid forward target 'nowhere', expected host:port"
    );

    let mut broken = form();
    broken.osc_allowed_senders = "\nhere".to_string();
    assert_eq!(
        refusal(&broken),
        "Allowed sender line 2 is invalid IP address: 'here'"
    );

    let mut broken = form();
    broken.stream_key = " \n".to_string();
    assert_eq!(refusal(&broken), "Stream key is required");
}

#[test]
fn credentials_are_kept_where_none_is_entered() {
    assert_eq!(normalized_stream_key_input(" a\r\nb "), "ab");
    assert_eq!(
        resolve_credential("", KeptCredential::Loaded(Some("kept".to_string()))),
        Ok("kept".to_string())
    );
    assert_eq!(
        resolve_credential("new", KeptCredential::Missing),
        Ok("new".to_string())
    );
    assert_eq!(
        resolve_credential("", KeptCredential::Missing),
        Err("Selected profile could not be loaded. Refresh and try again.".to_string())
    );
    assert_eq!(
        resolve_credential("", KeptCredential::Failed("x".to_string())),
        Err("Failed to load existing credential: x".to_string())
    );
    assert!(resolve_credential("", KeptCredential::Loaded(None))
        .expect_err("none")
        .starts_with("Stream key is required for this profile."));
}

#[test]
fn forward_targets_are_read() {
    assert_eq!(
        parse_forward_target(" host : 9000 "),
        Ok(ForwardTarget {
            host: "host".to_string(),
            port: 9000
        })
    );
    assert_eq!(parse_forward_target("  "), Err("empty line".to_string()));
    for raw in ["host", "host:", ":9", "a:1:2"] {
        assert_eq!(
            parse_forward_target(raw),
            Err(format!("Invalid forward target '{raw}', expected host:port"))
        );
    }
    for raw in ["host:0", "host:x", "host:65536"] {
        assert_eq!(
            parse_forward_target(raw),
            Err(format!("Invalid port in forward target '{raw}'"))
        );
    }
    assert_eq!(
        parse_osc_allowed_senders("::0001\n1.2.3.4\n::1"),
        Ok(vec!["::1".to_string(), "1.2.3.4".to_string()])
    );
}

#[test]
fn entries_are_checked_for_every_reading() {
    let one = number(1.0);
    assert_eq!(checked_entry(" ", None, one, "weight", 3), Ok(one));
    assert_eq!(
        checked_entry("2", Some(2.0_f64.to_bits()), one, "weight", 3),
        Ok(number(2.0))
    );
    assert_eq!(
        checked_entry("x", None, one, "weight", 3),
        Err("Mapping 3: weight must be a valid number".to_string())
    );
}

#[test]
fn parameters_are_mapped_once() {
    let mut form = ProfileForm::default();
    assert_eq!(
        mapping_address_for_param_key("OGB/x"),
        "/avatar/parameters/OGB/x"
    );
    assert_eq!(mapping_address_for_param_key("/a"), "/a");
    assert!(form.add_default_mapping_for_param_key("OGB/x"));
    assert!(!form.add_default_mapping_for_param_key("OGB/x"));
    assert!(form.has_mapping_for_param_key("OGB/x"));
    form.mappings
        .push(MappingRowForm::with_address(" /avatar/parameters/OGB/x "));
    form.mappings.push(MappingRowForm::with_address("/other"));
    assert_eq!(form.remove_mappings_for_param_key("OGB/x"), 2);
    assert!(!form.has_mapping_for_param_key("OGB/x"));
    assert_eq!(form.mappings.len(), 1);
    assert_eq!(form.mappings[0].address, "/other");
}

#[test]
fn device_servers_and_routes_are_read() {
    let mut form = IntifaceForm::default();
    let config = parse_intiface_config(&form).expect("config");
    assert_eq!(config.host, "127.0.0.1");
    assert_eq!(config.port, 12345);
    form.port = "0".to_string();
    assert_eq!(
        parse_intiface_config(&form),
        Err("Intiface port must be > 0".to_string())
    );
    form.port = "x".to_string();
    assert_eq!(
        parse_intiface_config(&form),
        Err("Intiface port must be a valid integer".to_string())
    );
    form.host = " ".to_string();
    assert_eq!(
        parse_intiface_config(&form),
        Err("Intiface host is required".to_string())
    );

    let mut route = IntifaceRouteForm::default();
    route.source_mode = IntifaceSourceMode::AvatarParam;
    let rules = build_intiface_route_rules(&vec![IntifaceRouteForm::default(), route]);
    assert_eq!(rules[0].source, IntifaceSourceKind::Intensity);
    assert_eq!(
        rules[1].source,
        IntifaceSourceKind::AvatarParam("SPS_Contact".to_string())
    );
    assert_eq!(rules[1].label, "All Scalar <- Intensity");
}

#[test]
fn profiles_are_shown_without_their_credential() {
    let (profile, _) = built(&form()).expect("profile");
    let shown = load_profile_into_form(&profile, vec![MappingRowForm::with_address("/a")]);
    assert_eq!(shown.stream_key, "");
    assert_eq!(shown.osc_port, "9001");
    assert_eq!(shown.forward_targets, "127.0.0.1:9000");
    assert_eq!(shown.creator_username, "Vee");
    assert_eq!(shown.mappings.len(), 1);
}

fn arguments() -> ProfileArguments {
    ProfileArguments {
        website_base_url: "https://dev.vrlewds.com".to_string(),
        creator_username: "Vee".to_string(),
        allow_insecure_http: false,
        osc_host: "127.0.0.1".to_string(),
        osc_port: 9001,
        allow_network_osc: false,
        osc_allowed_senders: Vec::new(),
        input_addresses: Vec::new(),
        forward_targets: vec!["127.0.0.1:9000".to_string()],
    }
}

#[test]
fn arguments_become_configurations() {
    let config = cli::build_profile_config(arguments()).expect("config");
    assert_eq!(config.mappings.len(), 1);
    assert_eq!(config.mappings, cli::default_mappings());
    assert_eq!(config.mappings[0].address, "/avatar/parameters/SPS_Contact");
    assert_eq!(config.forward_targets[0].port, 9000);
    assert_eq!(config.relay.session_path, "/api/sps/session");

    let mut some = arguments();
    some.input_addresses = vec!["bad".to_string(), "/a".to_string()];
    let config = cli::build_profile_config(some).expect("config");
    assert_eq!(config.mappings.len(), 1);
    assert_eq!(config.mappings[0].address, "/a");
}

#[test]
fn arguments_say_what_is_wrong() {
    let mut broken = arguments();
    broken.input_addresses = vec!["bad".to_string()];
    assert_eq!(
        cli::build_profile_config(broken),
        Err(ArgumentError::Message(
            "No valid input mappings were provided".to_string()
        ))
    );
    let mut broken = arguments();
    broken.forward_targets = vec!["a:b".to_string()];
    assert_eq!(
        cli::build_profile_config(broken),
        Err(ArgumentError::Port("b".to_string()))
    );
    assert_eq!(
        cli::parse_forward_target("a:0"),
        Err(ArgumentError::Message(
            "Invalid forward target 'a:0', port must be > 0".to_string()
        ))
    );
    assert_eq!(
        cli::parse_forward_target(" a"),
        Err(ArgumentError::Message(
            "Invalid forward target ' a', expected host:port".to_string()
        ))
    );
    let mut broken = arguments();
    broken.osc_allowed_senders = vec!["".to_string(), "x".to_string()];
    assert_eq!(
        cli::build_profile_config(broken),
        Err(ArgumentError::Message(
            "Invalid --allowed-sender at position 2: 'x'".to_string()
        ))
    );
    let mut broken = arguments();
    broken.osc_allowed_senders = vec!["10.0.0.1".to_string()];
    assert_eq!(
        cli::build_profile_config(broken),
        Err(ArgumentError::Message(
            "--allowed-sender requires --allow-network-osc (loopback mode ignores external senders)"
                .to_string()
        ))
    );
}

#[test]
fn profiles_are_printed() {
    let summary = ProfileSummary {
        id: "id1".to_string(),
        name: "N".to_string(),
        creator_username: "Vee".to_string(),
        updated_at_ms: -5,
        has_stream_key: false,
    };
    assert_eq!(
        cli::list_line(&summary),
        "id1 | N | creator=Vee | credential=missing | updated=-5"
    );
    let loaded = LoadedProfile {
        profile: AppProfile {
            id: "id1".to_string(),
            name: "N".to_string(),
            config: cli::build_profile_config(arguments()).expect("config"),
        },
        stream_key: Some("k".to_string()),
    };
    assert_eq!(
        cli::show_lines(&loaded),
        vec![
            "id=id1",
            "name=N",
            "creator=Vee",
            "website=https://dev.vrlewds.com",
            "osc=127.0.0.1:9001",
            "allowNetworkOsc=false",
            "allowedSenders=0",
            "mappings=1",
            "forwardTargets=1",
            "credential=set",
        ]
    );
    assert_eq!(
        cli::status_line(true, 7, "0.500", "1.000", false, ""),
        "running=true seq=7 intensity=0.500 target=1.000 relayConnected=false lastError=-"
    );
    let made = new_configuration(
        "u".to_string(),
        "c".to_string(),
        true,
        OscListen {
            host: "h".to_string(),
            port: 1,
        },
        true,
        Vec::new(),
        Vec::new(),
        Vec::new(),
    );
    assert!(made.allow_insecure_http);
    assert_eq!(made.relay.ingest_path, "/api/sps/ingest");
}

#[test]
fn the_last_row_is_replaced() {
    let mut form = ProfileForm::default();
    form.mappings.push(MappingRowForm::with_address("/a"));
    form.mappings.push(MappingRowForm::with_address("/b"));
    form.drop_row(0);
    assert_eq!(form.mappings.len(), 1);
    assert_eq!(form.mappings[0].address, "/b");
    form.drop_row(0);
    assert_eq!(form.mappings, vec![MappingRowForm::default()]);
}
