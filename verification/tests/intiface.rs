use vibealong::float;
use vibealong::float::{from_bits, FloatBits};
use vibealong::intiface::{
    command_for, device_list_packet, highest, limit_sources, parse_buttplug_packet,
    parse_device_list, read_server_name, route_devices, route_inputs, route_limits, scalar_packet,
    should_emit_level, IntifaceBridgeConfig, IntifaceBridgeSnapshot, IntifaceClient,
    IntifaceConfig, IntifaceDevice, IntifaceFeature, IntifaceLoop, IntifaceRouteRule,
    IntifaceScalarCommand, IntifaceSourceKind, PacketReader, ReadStep, SocketMessage,
};
use vibealong::json;
use vibealong::json::JsonValue;
use vibealong::payload::Payload;

fn number(x: f64) -> FloatBits {
    from_bits(x.to_bits())
}

fn value(x: FloatBits) -> f64 {
    f64::from_bits(x.bits)
}

fn document(text: &str) -> JsonValue {
    json::parse(text).expect("json")
}

fn delta(last: f64, next: f64) -> FloatBits {
    number((next - last).abs())
}

fn map_route_level(route: &IntifaceRouteRule, raw: f64) -> f64 {
    let limits = route_limits(route);
    let mut level = value(float::limit01(number(raw)));
    if route.invert {
        level = 1.0 - level;
    }
    level *= value(limits.scale);
    let idle = value(limits.idle);
    if idle > 0.0 {
        level = level * (1.0 - idle) + idle;
    }
    value(limits.hold(number(level)))
}

fn rule(source: IntifaceSourceKind, device: &str, actuator: &str) -> IntifaceRouteRule {
    IntifaceRouteRule {
        enabled: true,
        label: "Rule".to_string(),
        target_device_contains: device.to_string(),
        target_actuator_type: actuator.to_string(),
        source,
        scale: number(1.0),
        idle: number(0.0),
        min_output: number(0.0),
        max_output: number(1.0),
        invert: false,
    }
}

fn device() -> IntifaceDevice {
    IntifaceDevice {
        device_index: 1,
        name: "Test Device".to_string(),
        features: vec![IntifaceFeature {
            command_type: "ScalarCmd".to_string(),
            index: 0,
            actuator_type: Some("Vibrate".to_string()),
        }],
    }
}

#[test]
fn parse_device_list_extracts_features() {
    let body = document(
        r#"{
            "Devices": [{
                "DeviceIndex": 2,
                "DeviceName": "Test Toy",
                "DeviceMessages": {
                    "ScalarCmd": [{ "ActuatorType": "Vibrate" }],
                    "LinearCmd": [{}, {}],
                    "RotateCmd": [{}]
                }
            }]
        }"#,
    );
    let devices = parse_device_list(&body);
    assert_eq!(devices.len(), 1);
    assert_eq!(devices[0].device_index, 2);
    assert_eq!(devices[0].name, "Test Toy");
    assert_eq!(devices[0].features.len(), 4);
}

#[test]
fn parse_buttplug_packet_decodes_array_payload() {
    let payload = r#"[{"ServerInfo":{"Id":1,"ServerName":"Intiface"}}]"#;
    let messages = parse_buttplug_packet(payload).expect("parse packet");
    assert_eq!(messages.len(), 1);
    assert_eq!(messages[0].0, "ServerInfo");
    assert_eq!(
        json::text_of(messages[0].1.get("ServerName")).unwrap_or(""),
        "Intiface"
    );
}

#[test]
fn emit_level_respects_delta_and_heartbeat() {
    assert!(should_emit_level(delta(0.0, 0.5), 1000, 0, number(0.02), 1200));
    assert!(should_emit_level(delta(0.10, 0.13), 2000, 1500, number(0.02), 1200));
    assert!(!should_emit_level(delta(0.10, 0.11), 2000, 1500, number(0.02), 1200));
    assert!(should_emit_level(delta(0.10, 0.11), 3000, 1500, number(0.02), 1200));
}

#[test]
fn route_scalar_level_uses_matching_route() {
    let device = IntifaceDevice {
        device_index: 1,
        name: "Test Device".to_string(),
        features: Vec::new(),
    };
    let feature = IntifaceFeature {
        command_type: "ScalarCmd".to_string(),
        index: 0,
        actuator_type: Some("Vibrate".to_string()),
    };
    let routes = vec![rule(
        IntifaceSourceKind::AvatarParam("SPS_Contact".to_string()),
        "test",
        "vibrate",
    )];
    let sources = vec![("avatar:SPS_Contact".to_string(), number(0.7))];
    let inputs = route_inputs(&device, &feature, &sources, &routes);
    let levels: Vec<FloatBits> = inputs
        .iter()
        .map(|input| number(map_route_level(&routes[input.route_index], value(input.value))))
        .collect();
    let level = value(highest(&levels).expect("level"));
    assert!((level - 0.7).abs() < 1e-6);
}

#[test]
fn map_route_applies_idle_and_invert() {
    let route = IntifaceRouteRule {
        idle: number(0.2),
        invert: true,
        ..rule(IntifaceSourceKind::Intensity, "", "")
    };
    let out = map_route_level(&route, 0.75);
    assert!(out > 0.35 && out < 0.45);
}

#[test]
fn routes_pick_devices_and_actuators() {
    let sources = vec![
        ("intensity".to_string(), number(0.5)),
        ("avatar:X".to_string(), number(0.9)),
    ];
    let mut disabled = rule(IntifaceSourceKind::Intensity, "", "");
    disabled.enabled = false;
    let routes = vec![
        rule(IntifaceSourceKind::Intensity, "", ""),
        rule(IntifaceSourceKind::AvatarParam(" X ".to_string()), "TEST", ""),
        rule(IntifaceSourceKind::Intensity, "other", ""),
        rule(IntifaceSourceKind::Intensity, "", "Rotate"),
        rule(IntifaceSourceKind::AvatarParam("Missing".to_string()), "", ""),
        disabled,
    ];
    let routed = route_devices(&vec![device()], &sources, &routes);
    assert_eq!(routed.len(), 1);
    assert_eq!(routed[0].inputs.len(), 2);
    assert_eq!(routed[0].inputs[0].route_index, 0);
    assert_eq!(routed[0].inputs[1].route_index, 1);
    assert_eq!(value(routed[0].inputs[1].value), 0.9);
    let command = command_for(&routed[0], &vec![number(0.5), number(0.9)]).expect("command");
    assert_eq!(value(command.level), 0.9);
    assert_eq!(command.actuator_type, "Vibrate");
    assert_eq!(command_for(&routed[0], &Vec::new()), None);
}

#[test]
fn limits_of_routes_are_in_order() {
    let mut route = rule(IntifaceSourceKind::Intensity, "", "");
    route.scale = number(-2.0);
    route.idle = number(4.0);
    route.min_output = number(0.8);
    route.max_output = number(0.3);
    let limits = route_limits(&route);
    assert_eq!(value(limits.scale), 0.0);
    assert_eq!(value(limits.idle), 1.0);
    assert_eq!(value(limits.min_output), 0.8);
    assert_eq!(value(limits.max_output), 0.8);
    assert_eq!(value(limits.hold(number(0.1))), 0.8);
}

#[test]
fn the_highest_level_wins() {
    assert_eq!(highest(&Vec::new()), None);
    assert_eq!(
        highest(&vec![number(0.2), number(0.7), number(0.5)]).map(value),
        Some(0.7)
    );
    let held = limit_sources(&vec![("a".to_string(), number(3.0))]);
    assert_eq!(value(held[0].1), 1.0);
}

#[test]
fn packets_name_their_message() {
    let command = IntifaceScalarCommand {
        device_index: 3,
        scalar_index: 1,
        actuator_type: "Vibrate".to_string(),
        level: number(0.5),
    };
    let packet = scalar_packet(9, &command);
    let list = match packet {
        Payload::List(list) => list,
        _ => panic!("list expected"),
    };
    let members = match &list[0] {
        Payload::Members(members) => members,
        _ => panic!("members expected"),
    };
    assert_eq!(members[0].0, "ScalarCmd");
    assert!(matches!(device_list_packet(), Payload::List(_)));
    let client = IntifaceClient::new(IntifaceConfig::default());
    assert_eq!(client.url(), "ws://127.0.0.1:12345/");
    assert_eq!(client.connect_url().as_deref(), Ok("ws://127.0.0.1:12345/"));
    let broken = IntifaceClient::new(IntifaceConfig {
        host: "no host".to_string(),
        port: 1,
        secure: true,
    });
    assert_eq!(broken.url(), "wss://no host:1/");
    assert!(broken.connect_url().is_err());
    assert!(matches!(client.hello_packet(), Payload::List(_)));
}

#[test]
fn conversations_are_numbered_from_the_greeting() {
    let client = IntifaceClient::new(IntifaceConfig::default());
    let probe = client.probe_conversation();
    assert_eq!(probe.len(), 2);
    assert_eq!(probe[0].packet, client.hello_packet());
    assert_eq!((probe[0].reply.as_str(), probe[0].max_reads), ("ServerInfo", 12));
    assert_eq!(probe[1].packet, device_list_packet());
    assert_eq!((probe[1].reply.as_str(), probe[1].max_reads), ("DeviceList", 16));

    assert!(client.set_scalar_levels(&Vec::new()).is_empty());
    let command = |index: u32| IntifaceScalarCommand {
        device_index: 4,
        scalar_index: index,
        actuator_type: "Vibrate".to_string(),
        level: number(0.25),
    };
    let levels = client.set_scalar_levels(&vec![command(0), command(1)]);
    assert_eq!(levels.len(), 3);
    assert_eq!(levels[0].packet, client.hello_packet());
    assert_eq!((levels[0].reply.as_str(), levels[0].max_reads), ("ServerInfo", 8));
    assert_eq!(levels[1].packet, scalar_packet(2, &command(0)));
    assert_eq!(levels[2].packet, scalar_packet(3, &command(1)));
    assert_eq!((levels[2].reply.as_str(), levels[2].max_reads), ("Ok", 8));
    let one = client.set_scalar_level(4, 1, "Vibrate", number(0.25));
    assert_eq!(one.len(), 2);
    assert_eq!(one[1].packet, scalar_packet(2, &command(1)));
}

#[test]
fn readers_wait_for_one_message() {
    let mut reader = PacketReader::new("ServerInfo", 5);
    assert!(matches!(reader.next(SocketMessage::Ping), ReadStep::AnswerPing));
    assert!(matches!(reader.next(SocketMessage::Binary(vec![0xFF])), ReadStep::Continue));
    assert!(matches!(
        reader.next(SocketMessage::Text(r#"[{"Ok":{"Id":1}}]"#.to_string())),
        ReadStep::Continue
    ));
    let bytes = br#"[{"ServerInfo":{"ServerName":"S"}}]"#.to_vec();
    match reader.next(SocketMessage::Binary(bytes)) {
        ReadStep::Found(info) => assert_eq!(read_server_name(&info), "S"),
        _ => panic!("found expected"),
    }
    assert_eq!(reader.timed_out(), None);
    match reader.next(SocketMessage::Close) {
        ReadStep::Failed(message) => assert_eq!(message, "Intiface closed the websocket"),
        _ => panic!("failure expected"),
    }
    assert_eq!(
        reader.timed_out().as_deref(),
        Some("Timed out waiting for Buttplug message type ServerInfo")
    );
}

#[test]
fn packets_that_are_none_are_refused() {
    assert!(parse_buttplug_packet("nope").is_err());
    assert!(parse_buttplug_packet("{}").is_err());
    assert!(parse_buttplug_packet("[1]").is_err());
}

#[test]
fn the_loop_probes_and_sends() {
    let config = IntifaceBridgeConfig::default();
    let mut state = IntifaceLoop::new();
    let mut snapshot = IntifaceBridgeSnapshot::started(10_000);
    assert!(snapshot.running);
    assert!(state.probe_due(10_000));
    assert!(!state.probe_due(12_000));
    assert!(!state.emission_due(number(1.0), 10_000, &config));
    let client = IntifaceClient::new(IntifaceConfig::default());
    let probe = client.probe_snapshot(10_000, Ok(("S".to_string(), vec![device()])));
    state.on_probe(probe, &mut snapshot, 10_000, 2);
    assert!(snapshot.connected);
    assert_eq!(snapshot.device_count, 1);
    assert_eq!(snapshot.route_count, 2);
    assert!(state.emission_due(number(1.0), 10_000, &config));
    state.on_sent(&mut snapshot, 3, number(0.4), 10_001);
    assert_eq!(snapshot.commands_sent, 3);
    assert_eq!(value(snapshot.last_level), 0.4);
    let probe = client.probe_snapshot(13_000, Err("gone".to_string()));
    state.on_probe(probe, &mut snapshot, 13_000, 2);
    assert_eq!(snapshot.last_error, "gone");
    assert_eq!(state.devices.len(), 1);
    snapshot.note_failed("lost");
    assert!(!snapshot.connected);
    snapshot.note_stopped();
    assert!(!snapshot.running);
}

fn level_of(routes: &Vec<IntifaceRouteRule>) -> Option<f64> {
    let device = device();
    let sources = vec![
        ("avatar:A".to_string(), number(0.4)),
        ("intensity".to_string(), number(0.7)),
    ];
    let inputs = route_inputs(&device, &device.features[0], &sources, routes);
    let levels: Vec<FloatBits> = inputs
        .iter()
        .map(|input| number(map_route_level(&routes[input.route_index], value(input.value))))
        .collect();
    highest(&levels).map(value)
}

#[test]
fn the_order_of_routes_and_disabled_routes_do_not_count() {
    let low = || rule(IntifaceSourceKind::AvatarParam("A".to_string()), "", "");
    let high = || rule(IntifaceSourceKind::Intensity, "test", "vibrate");
    let missing = || rule(IntifaceSourceKind::AvatarParam("B".to_string()), "", "");
    let disabled = || IntifaceRouteRule {
        enabled: false,
        scale: number(5.0),
        ..rule(IntifaceSourceKind::Intensity, "", "")
    };
    assert_eq!(level_of(&vec![low(), high()]), Some(0.7));
    assert_eq!(level_of(&vec![high(), low()]), Some(0.7));
    assert_eq!(level_of(&vec![disabled(), high(), missing(), low()]), Some(0.7));
    assert_eq!(level_of(&vec![low(), disabled()]), Some(0.4));
    assert_eq!(level_of(&vec![disabled(), missing()]), None);
    assert_eq!(level_of(&vec![rule(IntifaceSourceKind::Intensity, "other", "")]), None);
}
