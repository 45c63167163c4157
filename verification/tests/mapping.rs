use vibealong::engine::BridgeEngine;
use vibealong::float::{from_bits, FloatBits};
use vibealong::float;
use vibealong::mapping::{
    composite_intensity, composite_terms, current_input, record_input, Curve, Mapping, UpperBound,
};
use vibealong::osc::{OscArg, OscMessage, OscNumber};
use vibealong::smoothing::{OutputTuning, SmootherState};

fn number(x: f64) -> FloatBits {
    from_bits(x.to_bits())
}

fn value(x: FloatBits) -> f64 {
    f64::from_bits(x.bits)
}

fn upper(mapping: &Mapping) -> f64 {
    match mapping.max {
        UpperBound::Value(max) => value(max),
        UpperBound::OneAboveMin => value(mapping.min) + 1.0,
    }
}

fn make(address: &str, weight: f64, deadzone: f64, invert: bool, curve: Curve, min: f64, max: f64) -> Mapping {
    Mapping::new(
        address,
        number(weight),
        number(deadzone),
        invert,
        curve,
        number(min),
        number(max),
    )
    .expect("mapping should be valid")
}

fn curved(curve: Curve, x: f64) -> f64 {
    match curve {
        Curve::Linear => x,
        Curve::EaseInQuad => x * x,
        Curve::EaseOutQuad => 1.0 - (1.0 - x) * (1.0 - x),
        Curve::EaseInOutQuad => {
            if x < 0.5 {
                2.0 * x * x
            } else {
                1.0 - (-2.0 * x + 2.0).powf(2.0) / 2.0
            }
        }
    }
}

fn map_input_value(raw: f64, mapping: &Mapping) -> f64 {
    let place = float::clamp01(number(
        (raw - value(mapping.min)) / (upper(mapping) - value(mapping.min)),
    ));
    let reversed = number(1.0 - value(place));
    let gated = mapping.gate(place, reversed);
    value(float::clamp01(number(curved(mapping.curve, value(gated)))))
}

fn calculate_composite_intensity(inputs: &Vec<(String, FloatBits)>, mappings: &Vec<Mapping>) -> f64 {
    let mut weighted_sum = 0.0;
    let mut total_weight = 0.0;
    for (sample, weight) in composite_terms(inputs, mappings) {
        weighted_sum += value(sample) * value(weight);
        total_weight += value(weight);
    }
    value(composite_intensity(
        number(total_weight),
        number(weighted_sum / total_weight),
    ))
}

fn step(state: &mut SmootherState, now_ms: u64, last_tick_ms: u64, tuning: OutputTuning) {
    let dt = SmootherState::step_ms(now_ms, last_tick_ms) as f64;
    let tau = value(state.time_constant(&tuning));
    let target = value(float::clamp01(state.target_intensity));
    let current = value(state.current_intensity);
    let alpha = 1.0 - (-dt / tau).exp();
    let lerped = current + (target - current) * alpha;
    let ema = value(tuning.ema_alpha);
    let next = ema * lerped + (1.0 - ema) * current;
    let decayed = value(state.peak_intensity) - 0.025;
    state.settle(number(next), number(decayed));
}

fn should_emit(state: &SmootherState, now_ms: u64, tuning: OutputTuning) -> bool {
    let delta = (value(state.current_intensity) - value(state.last_sent_intensity)).abs();
    state.should_emit(number(delta), now_ms, &tuning)
}

#[test]
fn mapping_constructor_sanitizes_bounds() {
    let mapping = make("/avatar/parameters/X", 1.0, 0.2, false, Curve::Linear, 2.0, 2.0);
    assert_eq!(value(mapping.min), 2.0);
    assert_eq!(upper(&mapping), 3.0);
}

#[test]
fn map_input_applies_deadzone_and_curve() {
    let mapping = make("/avatar/parameters/X", 1.0, 0.2, false, Curve::EaseOutQuad, 0.0, 1.0);
    assert_eq!(map_input_value(0.1, &mapping), 0.0);

    let mapped = map_input_value(0.5, &mapping);
    assert!((mapped - 0.75).abs() < 1e-9);
}

#[test]
fn map_input_applies_invert() {
    let mapping = make("/avatar/parameters/Y", 1.0, 0.0, true, Curve::Linear, 0.0, 1.0);
    let mapped = map_input_value(0.3, &mapping);
    assert!((mapped - 0.7).abs() < 1e-9);
}

#[test]
fn composite_uses_absolute_weights() {
    let mappings = vec![
        make("/avatar/parameters/A", 1.0, 0.0, false, Curve::Linear, 0.0, 1.0),
        make("/avatar/parameters/B", -3.0, 0.0, false, Curve::Linear, 0.0, 1.0),
    ];

    let mut inputs = Vec::new();
    record_input(&mut inputs, "/avatar/parameters/A", number(0.2));
    record_input(&mut inputs, "/avatar/parameters/B", number(0.8));

    let composite = calculate_composite_intensity(&inputs, &mappings);
    assert!((composite - 0.65).abs() < 1e-9);
}

#[test]
fn engine_updates_target_from_mapped_message() {
    let mapping = make(
        "/avatar/parameters/SPS_Contact",
        1.0,
        0.0,
        false,
        Curve::Linear,
        0.0,
        1.0,
    );
    let mut engine = BridgeEngine::new(vec![mapping]);
    let messages = vec![OscMessage {
        address: "/avatar/parameters/SPS_Contact".to_string(),
        args: vec![OscArg::Float(0.4_f32.to_bits())],
        arg_type: Some('f'),
        arg_types: "f".to_string(),
    }];
    let requests = engine.sample_requests(&messages);
    let mut samples = Vec::new();
    for request in &requests {
        let raw = match request.raw {
            OscNumber::Float(bits) => f32::from_bits(bits) as f64,
            OscNumber::Int(n) => n as f64,
            OscNumber::Bool(flag) => flag as u8 as f64,
        };
        samples.push(number(map_input_value(raw, &engine.mappings[request.mapping_index])));
    }
    let touched = engine.record_samples(&requests, &samples);
    let mut sum = 0.0;
    let mut total = 0.0;
    for (sample, weight) in engine.terms() {
        sum += value(sample) * value(weight);
        total += value(weight);
    }
    engine.set_target(number(total), number(sum / total));
    assert!(touched);
    assert!((value(engine.target_intensity) - 0.4).abs() < 1e-6);
    assert_eq!(engine.last_source.address, "/avatar/parameters/SPS_Contact");
    assert_eq!(engine.last_source.arg_type, "f");
}

#[test]
fn step_uses_attack_constant_when_rising() {
    let tuning = OutputTuning {
        attack_ms: number(50.0),
        release_ms: number(220.0),
        ema_alpha: number(1.0),
        ..OutputTuning::default()
    };
    let mut state = SmootherState {
        target_intensity: number(1.0),
        current_intensity: number(0.0),
        ..SmootherState::default()
    };
    step(&mut state, 100, 0, tuning);
    assert!((value(state.current_intensity) - 0.8646647167).abs() < 1e-6);
}

#[test]
fn step_uses_release_constant_when_falling() {
    let tuning = OutputTuning {
        attack_ms: number(55.0),
        release_ms: number(200.0),
        ema_alpha: number(1.0),
        ..OutputTuning::default()
    };
    let mut state = SmootherState {
        target_intensity: number(0.0),
        current_intensity: number(1.0),
        peak_intensity: number(1.0),
        ..SmootherState::default()
    };
    step(&mut state, 100, 0, tuning);
    assert!((value(state.current_intensity) - 0.6065306597).abs() < 1e-6);
    assert!((value(state.peak_intensity) - 0.975).abs() < 1e-9);
}

#[test]
fn peak_tracks_and_then_decays() {
    let tuning = OutputTuning {
        ema_alpha: number(1.0),
        attack_ms: number(10.0),
        release_ms: number(10.0),
        ..OutputTuning::default()
    };
    let mut state = SmootherState {
        target_intensity: number(1.0),
        ..SmootherState::default()
    };
    step(&mut state, 10, 0, tuning);
    let peak_after_rise = value(state.peak_intensity);
    assert!(peak_after_rise > 0.0);

    state.target_intensity = number(0.0);
    step(&mut state, 20, 10, tuning);
    assert!(value(state.peak_intensity) <= peak_after_rise);
    assert!(value(state.peak_intensity) >= value(state.current_intensity));
}

#[test]
fn emit_gates_on_delta_or_heartbeat() {
    let tuning = OutputTuning {
        min_delta: number(0.1),
        heartbeat_ms: 1_000,
        ..OutputTuning::default()
    };
    let mut state = SmootherState {
        current_intensity: number(0.05),
        last_sent_intensity: number(0.0),
        last_sent_at_ms: 100,
        ..SmootherState::default()
    };
    assert!(!should_emit(&state, 500, tuning));
    assert!(should_emit(&state, 1_200, tuning));

    state.current_intensity = number(0.3);
    assert!(should_emit(&state, 1_201, tuning));
    state.mark_emitted(1_201);
    assert_eq!(state.last_sent_at_ms, 1_201);
    assert!((value(state.last_sent_intensity) - 0.3).abs() < 1e-9);
}

#[test]
fn curves_are_found_by_name() {
    for curve in [
        Curve::Linear,
        Curve::EaseInQuad,
        Curve::EaseOutQuad,
        Curve::EaseInOutQuad,
    ] {
        assert_eq!(Curve::from_name(curve.name()), curve);
    }
    assert_eq!(Curve::from_name("unknown"), Curve::Linear);
    assert_eq!(Curve::EaseInOutQuad.name(), "easeInOutQuad");
}

#[test]
fn mappings_without_a_slash_are_refused() {
    assert!(Mapping::new(
        "avatar",
        number(1.0),
        number(0.0),
        false,
        Curve::Linear,
        number(0.0),
        number(1.0)
    )
    .is_none());
    let mapping = make("  /a  ", f64::NAN, 7.0, false, Curve::Linear, f64::NEG_INFINITY, 1.0);
    assert_eq!(mapping.address, "/a");
    assert_eq!(value(mapping.weight), 1.0);
    assert_eq!(value(mapping.deadzone), 1.0);
    assert_eq!(value(mapping.min), 0.0);
}

#[test]
fn recorded_inputs_replace_what_was_there() {
    let mut inputs = Vec::new();
    record_input(&mut inputs, "/a", number(0.1));
    record_input(&mut inputs, "/b", number(0.2));
    record_input(&mut inputs, "/a", number(0.3));
    assert_eq!(inputs.len(), 2);
    assert_eq!(current_input(&inputs, "/a").map(value), Some(0.3));
    assert_eq!(current_input(&inputs, "/b").map(value), Some(0.2));
    assert_eq!(current_input(&inputs, "/c"), None);
}

#[test]
fn composite_is_zero_without_weight() {
    assert_eq!(value(composite_intensity(number(0.0), number(f64::NAN))), 0.0);
    assert_eq!(value(composite_intensity(number(1.0), number(7.0))), 1.0);
    assert_eq!(value(composite_intensity(number(2.0), number(f64::NAN))), 0.0);
}

#[test]
fn terms_do_not_depend_on_the_order_of_mappings() {
    let mut inputs = Vec::new();
    record_input(&mut inputs, "/a", number(0.25));
    record_input(&mut inputs, "/b", number(0.75));
    let one = vec![
        make("/a", 1.0, 0.0, false, Curve::Linear, 0.0, 1.0),
        make("/c", 1.0, 0.0, false, Curve::Linear, 0.0, 1.0),
        make("/b", -2.0, 0.0, false, Curve::Linear, 0.0, 1.0),
    ];
    let other = vec![
        make("/b", -2.0, 0.0, false, Curve::Linear, 0.0, 1.0),
        make("/a", 1.0, 0.0, false, Curve::Linear, 0.0, 1.0),
        make("/c", 1.0, 0.0, false, Curve::Linear, 0.0, 1.0),
    ];
    let first: Vec<(f64, f64)> = composite_terms(&inputs, &one)
        .into_iter()
        .map(|(s, w)| (value(s), value(w)))
        .collect();
    let mut second: Vec<(f64, f64)> = composite_terms(&inputs, &other)
        .into_iter()
        .map(|(s, w)| (value(s), value(w)))
        .collect();
    second.reverse();
    assert_eq!(first, vec![(0.25, 1.0), (0.75, 2.0)]);
    assert_eq!(first, second);
}

#[test]
fn tuning_is_held_within_limits() {
    let wild = OutputTuning {
        emit_hz: number(f64::NAN),
        attack_ms: number(-4.0),
        release_ms: number(1e9),
        ema_alpha: number(3.0),
        min_delta: number(0.5),
        heartbeat_ms: 1,
    };
    let tame = wild.sanitize();
    assert_eq!(value(tame.emit_hz), 2.0);
    assert_eq!(value(tame.attack_ms), 10.0);
    assert_eq!(value(tame.release_ms), 5000.0);
    assert_eq!(value(tame.ema_alpha), 1.0);
    assert_eq!(value(tame.min_delta), 0.5);
    assert_eq!(tame.heartbeat_ms, 200);
    assert_eq!(tame.sanitize(), tame);
}

#[test]
fn floats_are_ordered_as_numbers() {
    let values = [-2.5, -0.0, 0.0, 1.0e-310, 0.5, 1.0, 4.0e200];
    for a in values {
        for b in values {
            assert_eq!(number(a).less_than(&number(b)), a < b);
            assert_eq!(number(a).less_or_equal(&number(b)), a <= b);
            assert_eq!(number(a).same_number(&number(b)), a == b);
        }
        assert!(!number(a).less_than(&number(f64::NAN)));
    }
    assert!(number(f64::NAN).is_nan());
    assert!(!number(f64::INFINITY).is_finite());
    assert_eq!(value(number(-3.0).abs()), 3.0);
    assert_eq!(number(65535.0).as_port(), Some(65535));
    assert_eq!(number(0.0).as_port(), None);
    assert_eq!(number(70000.0).as_port(), None);
    assert_eq!(value(float::limit01(number(1.5))), 1.0);
    assert_eq!(number(12.75).whole_part(), 12);
}

#[test]
fn a_lower_end_that_is_no_number_falls_back_before_it_is_compared() {
    let mapping = make("/x", 1.0, 0.0, false, Curve::Linear, f64::NAN, -1.0);
    assert_eq!(value(mapping.min), 0.0);
    assert_eq!(mapping.max, UpperBound::OneAboveMin);
    let mapping = make("/x", 1.0, 0.0, false, Curve::Linear, f64::INFINITY, 0.5);
    assert_eq!(value(mapping.min), 0.0);
    assert_eq!(mapping.max, UpperBound::Value(number(0.5)));
}

#[test]
fn an_upper_end_above_the_lower_one_is_kept() {
    let mapping = make("/x", 1.0, 0.0, false, Curve::Linear, 2.0, f64::INFINITY);
    assert_eq!(mapping.max, UpperBound::Value(number(f64::INFINITY)));
    let mapping = make("/x", 1.0, 0.0, false, Curve::Linear, 0.25, f64::NAN);
    assert_eq!(mapping.max, UpperBound::Value(number(f64::NAN)));
    let normalized = mapping.normalized().expect("kept");
    assert_eq!(normalized.max, UpperBound::Value(number(1.0)));
    let mapping = make("/x", 1.0, 0.0, false, Curve::Linear, 2.0, f64::NEG_INFINITY);
    assert_eq!(mapping.max, UpperBound::OneAboveMin);
    assert!(upper(&mapping) > value(mapping.min));
}

#[test]
fn truth_values_count_as_one_and_zero() {
    assert_eq!(OscNumber::Bool(true).truth_value().map(value), Some(1.0));
    assert_eq!(OscNumber::Bool(false).truth_value().map(value), Some(0.0));
    assert_eq!(OscNumber::Int(1).truth_value(), None);
    assert_eq!(OscNumber::Float(0).truth_value(), None);
}
