use vibealong::osc::{extract_numeric_arg, parse_osc_packet, OscArg, OscNumber};

fn write_osc_string(buf: &mut Vec<u8>, value: &str) {
    buf.extend_from_slice(value.as_bytes());
    buf.push(0);
    while buf.len() % 4 != 0 {
        buf.push(0);
    }
}

fn osc_message_float(address: &str, value: f32) -> Vec<u8> {
    let mut msg = Vec::new();
    write_osc_string(&mut msg, address);
    write_osc_string(&mut msg, ",f");
    msg.extend_from_slice(&value.to_bits().to_be_bytes());
    msg
}

fn osc_message_unsupported(address: &str) -> Vec<u8> {
    let mut msg = Vec::new();
    write_osc_string(&mut msg, address);
    write_osc_string(&mut msg, ",d");
    msg
}

fn bundle(chunks: &[Vec<u8>]) -> Vec<u8> {
    let mut packet = Vec::new();
    write_osc_string(&mut packet, "#bundle");
    packet.extend_from_slice(&0_u64.to_be_bytes());
    for chunk in chunks {
        packet.extend_from_slice(&(chunk.len() as i32).to_be_bytes());
        packet.extend_from_slice(chunk);
    }
    packet
}

fn number_of(number: OscNumber) -> f64 {
    match number {
        OscNumber::Int(n) => n as f64,
        OscNumber::Float(bits) => f32::from_bits(bits) as f64,
        OscNumber::Bool(flag) => {
            if flag {
                1.0
            } else {
                0.0
            }
        }
    }
}

#[test]
fn parses_single_message() {
    let packet = osc_message_float("/avatar/parameters/SPS_Contact", 0.5);
    let messages = parse_osc_packet(&packet);
    assert_eq!(messages.len(), 1);
    let first = &messages[0];
    assert_eq!(first.address, "/avatar/parameters/SPS_Contact");
    assert_eq!(first.arg_type, Some('f'));
    assert_eq!(first.arg_types, "f");
    assert_eq!(first.args, vec![OscArg::Float(0.5_f32.to_bits())]);
}

#[test]
fn parses_bundle_messages() {
    let one = osc_message_float("/a", 0.25);
    let two = osc_message_float("/b", 0.75);
    let packet = bundle(&[one, two]);
    let messages = parse_osc_packet(&packet);
    assert_eq!(messages.len(), 2);
    assert_eq!(messages[0].address, "/a");
    assert_eq!(messages[1].address, "/b");
}

#[test]
fn unsupported_type_discards_message() {
    let packet = osc_message_unsupported("/bad");
    let messages = parse_osc_packet(&packet);
    assert!(messages.is_empty());
}

#[test]
fn bundle_keeps_valid_messages_before_invalid_chunk() {
    let valid = osc_message_float("/ok", 1.0);
    let mut packet = bundle(&[valid.clone()]);
    packet.extend_from_slice(&(999_i32).to_be_bytes());
    packet.extend_from_slice(&[1, 2, 3, 4]);
    let messages = parse_osc_packet(&packet);
    assert_eq!(messages.len(), 1);
    assert_eq!(messages[0].address, "/ok");
}

#[test]
fn numeric_extraction_matches_js_order() {
    let args = vec![
        OscArg::Str("x".to_string()),
        OscArg::Bool(true),
        OscArg::Float(0.3_f32.to_bits()),
    ];
    let out = extract_numeric_arg(&args);
    assert_eq!(out.map(number_of), Some(1.0));
}

#[test]
fn every_argument_type_is_read() {
    let mut packet = Vec::new();
    write_osc_string(&mut packet, "/all");
    write_osc_string(&mut packet, ",ifTFs");
    packet.extend_from_slice(&(-7_i32).to_be_bytes());
    packet.extend_from_slice(&2.5_f32.to_bits().to_be_bytes());
    write_osc_string(&mut packet, "text");
    let messages = parse_osc_packet(&packet);
    assert_eq!(messages.len(), 1);
    assert_eq!(messages[0].arg_types, "ifTFs");
    assert_eq!(
        messages[0].args,
        vec![
            OscArg::Int(-7),
            OscArg::Float(2.5_f32.to_bits()),
            OscArg::Bool(true),
            OscArg::Bool(false),
            OscArg::Str("text".to_string()),
        ]
    );
}

#[test]
fn nested_bundles_are_read_through() {
    let inner = bundle(&[osc_message_float("/inner", 0.5)]);
    let outer = bundle(&[osc_message_float("/first", 0.1), inner]);
    let messages = parse_osc_packet(&outer);
    assert_eq!(messages.len(), 2);
    assert_eq!(messages[0].address, "/first");
    assert_eq!(messages[1].address, "/inner");
}

#[test]
fn truncated_packets_bring_nothing() {
    assert!(parse_osc_packet(&[]).is_empty());
    assert!(parse_osc_packet(b"/a").is_empty());
    let mut packet = osc_message_float("/a", 1.0);
    packet.pop();
    assert!(parse_osc_packet(&packet).is_empty());
}

#[test]
fn text_that_is_no_utf8_is_replaced() {
    let mut packet = vec![b'/', 0xFF, b'a', 0];
    write_osc_string(&mut packet, ",T");
    let messages = parse_osc_packet(&packet);
    assert_eq!(messages.len(), 1);
    assert_eq!(messages[0].address, "/\u{FFFD}a");
}

#[test]
fn infinite_floats_are_passed_over() {
    let args = vec![
        OscArg::Float(f32::NAN.to_bits()),
        OscArg::Float(f32::INFINITY.to_bits()),
        OscArg::Int(4),
    ];
    assert_eq!(extract_numeric_arg(&args), Some(OscNumber::Int(4)));
    assert_eq!(extract_numeric_arg(&vec![OscArg::Str("1".to_string())]), None);
}
