//! Laws of the way from a parameter's value to an event: what is read from a message, what passes
//! the dead zone, how values are recorded and weighed, how the output moves, and when it is sent.
use vstd::prelude::*;
use crate::bridge_loop;
use crate::bridge_loop::{ActionModel, LoopClock};
use crate::engine;
use crate::engine::{EngineModel, RequestedSample};
use crate::float;
use crate::float::FloatBits;
use crate::mapping;
use crate::mapping::{Curve, MappingModel, UpperBound};
use crate::osc;
use crate::osc::{ArgModel, MessageModel, OscNumber};
use crate::relay::ErrorModel;
use crate::runtime;
use crate::run_laws;
use crate::run_laws::{RunModel, RunStep};
use crate::smoothing;
use crate::smoothing::{OutputTuning, SmootherState};
use crate::text;

verus! {

/// An argument carries the number.
pub open spec fn carries(arg: ArgModel, number: OscNumber) -> bool {
    match number {
        OscNumber::Int(n) => arg == ArgModel::Int(n),
        OscNumber::Float(bits) => arg == ArgModel::Float(bits) && (bits < 0x7F80_0000
            || 0x8000_0000 <= bits < 0xFF80_0000),
        OscNumber::Bool(flag) => arg == ArgModel::Bool(flag),
    }
}

/// The number of a message is that of the first argument that carries one, whatever the number
/// is, and a message has none only where no argument carries one.
pub proof fn law_number_of_message(args: Seq<ArgModel>)
    ensures
        match osc::first_number(args) {
            Some(number) => exists|i: int|
                0 <= i < args.len() && #[trigger] carries(args[i], number) && forall|j: int, other: OscNumber|
                    0 <= j < i ==> !#[trigger] carries(args[j], other),
            None => forall|i: int, number: OscNumber|
                0 <= i < args.len() ==> !#[trigger] carries(args[i], number),
        },
    decreases args.len(),
{
    if args.len() > 0 {
        let rest = args.drop_first();
        law_number_of_message(rest);
        if osc::arg_number(args[0]) is Some {
            let number = osc::arg_number(args[0])->0;
            assert(carries(args[0], number));
        } else {
            assert forall|other: OscNumber| !#[trigger] carries(args[0], other) by {}
            match osc::first_number(rest) {
                Some(number) => {
                    let i = choose|i: int|
                        0 <= i < rest.len() && #[trigger] carries(rest[i], number) && forall|
                            j: int,
                            other: OscNumber,
                        |
                            0 <= j < i ==> !#[trigger] carries(rest[j], other);
                    assert(carries(args[i + 1], number));
                    assert forall|j: int, other: OscNumber| 0 <= j < i + 1 implies !#[trigger] carries(
                        args[j],
                        other,
                    ) by {
                        if j > 0 {
                            assert(args[j] == rest[j - 1]);
                        }
                    }
                },
                None => {
                    assert forall|i: int, number: OscNumber| 0 <= i < args.len() implies !#[trigger] carries(
                        args[i],
                        number,
                    ) by {
                        if i > 0 {
                            assert(args[i] == rest[i - 1]);
                        }
                    }
                },
            }
        }
    }
}

/// A message brings a sample for a mapping exactly where the addresses are equal and an argument
/// carries a number. The sample is of that number, comes once for each mapping, and says where it
/// came from.
pub proof fn law_samples_of_message(message: MessageModel, mappings: Seq<MappingModel>, k: int)
    requires
        0 <= k < mappings.len() <= usize::MAX,
    ensures
        (exists|i: int|
            0 <= i < engine::message_samples(message, mappings).len() && (
            #[trigger] engine::message_samples(message, mappings)[i]).mapping_index == k) <==> (
        mappings[k].address == message.address && exists|a: int, number: OscNumber|
            0 <= a < message.args.len() && #[trigger] carries(message.args[a], number)),
        forall|i: int|
            0 <= i < engine::message_samples(message, mappings).len() ==> {
                let sample = #[trigger] engine::message_samples(message, mappings)[i];
                &&& sample.mapping_index < mappings.len()
                &&& Some(sample.raw) == osc::first_number(message.args)
                &&& sample.source.address == message.address
                &&& message.arg_type matches Some(tag) ==> sample.source.arg_type == seq![tag]
            },
        forall|i: int, j: int|
            0 <= i < j < engine::message_samples(message, mappings).len() ==> (
            #[trigger] engine::message_samples(message, mappings)[i]).mapping_index < (
            #[trigger] engine::message_samples(message, mappings)[j]).mapping_index,
{
    lemma_samples(message, mappings);
    law_number_of_message(message.args);
    let out = engine::message_samples(message, mappings);
    if mappings[k].address == message.address && osc::first_number(message.args) is Some {
        let i = choose|i: int| 0 <= i < out.len() && (#[trigger] out[i]).mapping_index == k;
        assert(out[i].mapping_index == k);
    }
}

proof fn lemma_samples(message: MessageModel, mappings: Seq<MappingModel>)
    requires
        mappings.len() <= usize::MAX,
    ensures
        osc::first_number(message.args) is None ==> engine::message_samples(message, mappings).len()
            == 0,
        forall|k: int|
            0 <= k < mappings.len() && (#[trigger] mappings[k]).address == message.address
                && osc::first_number(message.args) is Some ==> exists|i: int|
                0 <= i < engine::message_samples(message, mappings).len() && (
                #[trigger] engine::message_samples(message, mappings)[i]).mapping_index == k,
        forall|i: int|
            0 <= i < engine::message_samples(message, mappings).len() ==> {
                let sample = #[trigger] engine::message_samples(message, mappings)[i];
                &&& sample.mapping_index < mappings.len()
                &&& mappings[sample.mapping_index as int].address == message.address
                &&& Some(sample.raw) == osc::first_number(message.args)
                &&& sample.source == engine::source_of(message)
            },
        forall|i: int, j: int|
            0 <= i < j < engine::message_samples(message, mappings).len() ==> (
            #[trigger] engine::message_samples(message, mappings)[i]).mapping_index < (
            #[trigger] engine::message_samples(message, mappings)[j]).mapping_index,
    decreases mappings.len(),
{
    if mappings.len() > 0 {
        let shorter = mappings.drop_last();
        lemma_samples(message, shorter);
        let before = engine::message_samples(message, shorter);
        let out = engine::message_samples(message, mappings);
        assert forall|k: int|
            0 <= k < mappings.len() && (#[trigger] mappings[k]).address == message.address
                && osc::first_number(message.args) is Some implies exists|i: int|
            0 <= i < out.len() && (#[trigger] out[i]).mapping_index == k by {
            if k < shorter.len() {
                assert(shorter[k] == mappings[k]);
                let i = choose|i: int| 0 <= i < before.len() && (#[trigger] before[i]).mapping_index == k;
                assert(out[i] == before[i]);
            } else {
                assert(out[out.len() - 1].mapping_index == k);
            }
        }
        assert forall|i: int| 0 <= i < before.len() implies #[trigger] out[i] == before[i]
            && mappings[before[i].mapping_index as int]
            == shorter[before[i].mapping_index as int] by {}
    }
}

/// The value that enters the curve is zero or not below the dead zone, and where the value,
/// turned round where the mapping inverts, is not below the dead zone, that very value enters.
pub proof fn law_dead_zone(mapping: MappingModel, place: FloatBits, reversed: FloatBits)
    ensures
        mapping::gated(mapping, place, reversed) == float::number(0) || !mapping::gated(
            mapping,
            place,
            reversed,
        ).below(mapping.deadzone),
        mapping.invert && !reversed.below(mapping.deadzone) ==> mapping::gated(
            mapping,
            place,
            reversed,
        ) == reversed,
        !mapping.invert && !place.below(mapping.deadzone) ==> mapping::gated(
            mapping,
            place,
            reversed,
        ) == place,
        mapping.invert && reversed.below(mapping.deadzone) ==> mapping::gated(
            mapping,
            place,
            reversed,
        ) == float::number(0),
        !mapping.invert && place.below(mapping.deadzone) ==> mapping::gated(
            mapping,
            place,
            reversed,
        ) == float::number(0),
{
}

/// Two mappings that invert, and two that do not, treat the same value the same, whatever else
/// they say but the dead zone; an inverting one sees only the turned value, a plain one only the
/// value itself.
pub proof fn law_gate_sees_one_value(
    mapping: MappingModel,
    other: MappingModel,
    place: FloatBits,
    reversed: FloatBits,
    elsewhere: FloatBits,
)
    requires
        mapping.deadzone == other.deadzone,
    ensures
        mapping.invert && other.invert ==> mapping::gated(mapping, place, reversed)
            == mapping::gated(other, elsewhere, reversed),
        !mapping.invert && !other.invert ==> mapping::gated(mapping, place, reversed)
            == mapping::gated(other, place, elsewhere),
        mapping.invert && !other.invert ==> mapping::gated(mapping, place, reversed)
            == mapping::gated(other, reversed, place),
{
}

/// A mapping keeps the curve, the direction and every number that is in range, and is refused
/// only where its address is no path.
pub proof fn law_mapping_keeps(
    address: Seq<char>,
    weight: FloatBits,
    deadzone: FloatBits,
    invert: bool,
    curve: Curve,
    min: FloatBits,
    max: FloatBits,
)
    ensures
        match mapping::mapping_of(address, weight, deadzone, invert, curve, min, max) {
            Some(made) => {
                &&& made.address == text::trimmed(address) && made.address.len() > 0
                    && made.address[0] == '/'
                &&& made.invert == invert && made.curve == curve
                &&& weight.finite() ==> made.weight == weight
                &&& made.weight.finite() && made.min.finite()
                &&& float::in_unit(deadzone) ==> made.deadzone == deadzone
                &&& float::in_unit(made.deadzone)
                &&& min.finite() ==> made.min == min
                &&& min.finite() && min.below(max) ==> made.max == UpperBound::Value(max)
                &&& min.finite() && max.at_most(min) ==> made.max == UpperBound::OneAboveMin
                &&& made.max matches UpperBound::Value(top) ==> top == max && !top.at_most(made.min)
            },
            None => text::trimmed(address).len() == 0 || text::trimmed(address)[0] != '/',
        },
{
}

/// What was recorded last for an address is what is found there, brought into the unit range, and
/// an address for which nothing was recorded keeps what it had.
pub proof fn law_last_sample_counts(
    inputs: Seq<(Seq<char>, FloatBits)>,
    mappings: Seq<MappingModel>,
    requests: Seq<RequestedSample>,
    samples: Seq<FloatBits>,
    address: Seq<char>,
)
    requires
        requests.len() == samples.len(),
        engine::requests_valid(requests, mappings.len()),
    ensures
        (forall|i: int|
            0 <= i < requests.len() ==> mappings[(
            #[trigger] requests[i]).mapping_index as int].address != address)
            ==> mapping::input_of(engine::recorded(inputs, mappings, requests, samples), address)
            == mapping::input_of(inputs, address),
        forall|i: int|
            0 <= i < requests.len() && mappings[(
            #[trigger] requests[i]).mapping_index as int].address == address && (forall|j: int|
                i < j < requests.len() ==> mappings[(
                #[trigger] requests[j]).mapping_index as int].address != address) ==> (
            mapping::input_of(engine::recorded(inputs, mappings, requests, samples), address) matches Some(
                found,
            ) && float::in_unit(found) && (float::in_unit(samples[i]) ==> found == samples[i])),
    decreases requests.len(),
{
    if requests.len() > 0 {
        let shorter = requests.drop_last();
        let last = mappings[requests.last().mapping_index as int].address;
        let value = float::clamped(
            samples[requests.len() - 1],
            float::number(0),
            float::number(float::ONE),
        );
        let before = engine::recorded(inputs, mappings, shorter, samples.drop_last());
        assert forall|i: int| 0 <= i < shorter.len() implies (
        #[trigger] shorter[i]).mapping_index < mappings.len() by {
            assert(shorter[i] == requests[i]);
        }
        lemma_recorded_prefix(inputs, mappings, shorter, samples, samples.drop_last());
        law_last_sample_counts(inputs, mappings, shorter, samples.drop_last(), address);
        mapping::law_input_recorded(before, last, value, address);
        assert(requests[requests.len() - 1] == requests.last());
        assert forall|i: int|
            0 <= i < requests.len() && mappings[(
            #[trigger] requests[i]).mapping_index as int].address == address && (forall|j: int|
                i < j < requests.len() ==> mappings[(
                #[trigger] requests[j]).mapping_index as int].address != address) implies (
        mapping::input_of(engine::recorded(inputs, mappings, requests, samples), address) matches Some(
            found,
        ) && float::in_unit(found) && (float::in_unit(samples[i]) ==> found == samples[i])) by {
            if i < shorter.len() {
                assert(shorter[i] == requests[i]);
                assert(last != address);
                assert forall|j: int| i < j < shorter.len() implies mappings[(
                #[trigger] shorter[j]).mapping_index as int].address != address by {
                    assert(shorter[j] == requests[j]);
                }
            }
        }
        if forall|i: int|
            0 <= i < requests.len() ==> mappings[(
            #[trigger] requests[i]).mapping_index as int].address != address {
            assert forall|i: int| 0 <= i < shorter.len() implies mappings[(
            #[trigger] shorter[i]).mapping_index as int].address != address by {
                assert(shorter[i] == requests[i]);
            }
        }
    }
}

proof fn lemma_recorded_prefix(
    inputs: Seq<(Seq<char>, FloatBits)>,
    mappings: Seq<MappingModel>,
    requests: Seq<RequestedSample>,
    samples: Seq<FloatBits>,
    others: Seq<FloatBits>,
)
    requires
        requests.len() <= samples.len(),
        requests.len() <= others.len(),
        forall|i: int| 0 <= i < requests.len() ==> samples[i] == others[i],
    ensures
        engine::recorded(inputs, mappings, requests, samples) == engine::recorded(
            inputs,
            mappings,
            requests,
            others,
        ),
    decreases requests.len(),
{
    if requests.len() > 0 {
        lemma_recorded_prefix(inputs, mappings, requests.drop_last(), samples, others);
    }
}

/// A packet without a sample changes nothing. One with samples leaves the mappings alone, and the
/// source is that of its last sample.
pub proof fn law_packet_effect(
    engine: EngineModel,
    messages: Seq<MessageModel>,
    samples: Seq<FloatBits>,
    total_weight: FloatBits,
    mean: FloatBits,
)
    ensures
        engine::processed(engine, messages, samples, total_weight, mean).mappings
            == engine.mappings,
        engine::samples_of(messages, engine.mappings).len() == 0 ==> engine::processed(
            engine,
            messages,
            samples,
            total_weight,
            mean,
        ) == engine,
        engine::samples_of(messages, engine.mappings).len() > 0 ==> {
            let after = engine::processed(engine, messages, samples, total_weight, mean);
            &&& after.last_source == engine::samples_of(messages, engine.mappings).last().source
            &&& float::in_unit(after.target_intensity)
            &&& float::number(0).below(total_weight) && float::in_unit(mean)
                ==> after.target_intensity == mean
            &&& total_weight.at_most(float::number(0)) ==> after.target_intensity == float::number(0)
        },
{
    float::law_clamp_bounds(mean, float::number(0), float::number(float::ONE));
}

/// Every mapping whose address has a value is one term of the mean, with that value and the size
/// of its weight, in the order of the mappings.
pub proof fn law_terms_of_mappings(
    inputs: Seq<(Seq<char>, FloatBits)>,
    mappings: Seq<MappingModel>,
    mapping: MappingModel,
)
    ensures
        mapping::terms_of(inputs, Seq::empty()).len() == 0,
        match mapping::input_of(inputs, mapping.address) {
            Some(sample) => {
                let out = mapping::terms_of(inputs, mappings.push(mapping));
                let before = mapping::terms_of(inputs, mappings);
                &&& out.len() == before.len() + 1
                &&& out.take(before.len() as int) == before
                &&& out.last().0 == sample
                &&& out.last().1.order() == mapping.weight.order() || out.last().1.order()
                    == -mapping.weight.order()
                &&& out.last().1.order() >= 0
            },
            None => mapping::terms_of(inputs, mappings.push(mapping)) == mapping::terms_of(
                inputs,
                mappings,
            ),
        },
{
    let more = mappings.push(mapping);
    assert(more.drop_last() =~= mappings);
    assert(more.last() == mapping);
    assert(mapping::input_of(inputs, mapping.address) is Some ==> mapping::terms_of(
        inputs,
        more,
    ).take(mapping::terms_of(inputs, mappings).len() as int) =~= mapping::terms_of(
        inputs,
        mappings,
    ));
}

/// An output that is to rise moves with the attack time, one that is to fall with the release
/// time.
pub proof fn law_attack_and_release(state: SmootherState, tuning: OutputTuning)
    requires
        float::in_unit(state.target_intensity),
        float::in_unit(state.current_intensity),
    ensures
        state.current_intensity.below(state.target_intensity) && float::number(float::ONE).at_most(
            tuning.attack_ms,
        ) ==> smoothing::step_constant(state, tuning) == tuning.attack_ms,
        state.target_intensity.below(state.current_intensity) && float::number(float::ONE).at_most(
            tuning.release_ms,
        ) ==> smoothing::step_constant(state, tuning) == tuning.release_ms,
        float::number(float::ONE).at_most(smoothing::step_constant(state, tuning))
            || smoothing::step_constant(state, tuning).nan(),
{
}

/// The time of a step is the time since the last tick, and one where that is no time.
pub proof fn law_step_time(now_ms: u64, last_tick_ms: u64)
    ensures
        now_ms > last_tick_ms ==> smoothing::step_time(now_ms, last_tick_ms) + last_tick_ms == now_ms,
        now_ms <= last_tick_ms ==> smoothing::step_time(now_ms, last_tick_ms) == 1,
{
}

/// The output takes the value that it moved to. Its peak follows a rise at once, and otherwise
/// decays, but not below the output.
pub proof fn law_output_follows(state: SmootherState, next: FloatBits, decayed: FloatBits)
    requires
        float::in_unit(next),
    ensures
        smoothing::settled(state, next, decayed).current_intensity == next,
        state.peak_intensity.at_most(next) ==> smoothing::settled(
            state,
            next,
            decayed,
        ).peak_intensity == next,
        next.below(state.peak_intensity) && next.below(decayed) ==> smoothing::settled(
            state,
            next,
            decayed,
        ).peak_intensity == decayed,
        next.below(state.peak_intensity) && decayed.at_most(next) ==> smoothing::settled(
            state,
            next,
            decayed,
        ).peak_intensity == next,
        smoothing::settled(state, next, decayed).target_intensity == state.target_intensity,
        smoothing::settled(state, next, decayed).last_sent_intensity == state.last_sent_intensity,
        smoothing::settled(state, next, decayed).last_sent_at_ms == state.last_sent_at_ms,
{
}

/// An event is due as soon as the output is far enough from what was sent, or enough time has
/// passed since, and not before.
pub proof fn law_when_due(
    state: SmootherState,
    delta: FloatBits,
    now_ms: u64,
    tuning: OutputTuning,
)
    ensures
        tuning.min_delta.at_most(delta) ==> smoothing::emission_due(state, delta, now_ms, tuning),
        now_ms >= state.last_sent_at_ms + tuning.heartbeat_ms ==> smoothing::emission_due(
            state,
            delta,
            now_ms,
            tuning,
        ),
        delta.below(tuning.min_delta) && now_ms < state.last_sent_at_ms + tuning.heartbeat_ms
            && tuning.heartbeat_ms > 0 ==> !smoothing::emission_due(state, delta, now_ms, tuning),
{
}

/// A tick hands over an event exactly where the relay is not left alone and an event is due. The
/// event carries the output as it is after the step, its peak and the target, under the next
/// number and the given time.
pub proof fn law_event_carries_output(
    engine: EngineModel,
    smoother: SmootherState,
    clock: LoopClock,
    tuning: OutputTuning,
    delta: FloatBits,
    now_ms: i64,
    ts: i64,
)
    requires
        now_ms >= 0,
        clock.seq < u64::MAX,
    ensures
        match bridge_loop::decided(engine, smoother, clock, tuning, delta, now_ms, ts) {
            (after, ActionModel::Emit(event)) => {
                &&& event.intensity == smoother.current_intensity
                &&& event.peak == smoother.peak_intensity
                &&& event.raw == engine.target_intensity
                &&& event.ts == ts
                &&& event.seq == clock.seq + 1 && after.seq == event.seq
                &&& event.source.address == engine.last_source.address
                &&& text::trimmed(engine.last_source.arg_type).len() > 0 ==> event.source.arg_type
                    == engine.last_source.arg_type
                &&& clock.retry_after_ms <= now_ms && clock.backoff_attempts < 10
                &&& after == (LoopClock { seq: after.seq, ..clock })
            },
            (after, ActionModel::Backoff { remaining_ms, log }) => {
                &&& now_ms + remaining_ms == clock.retry_after_ms && remaining_ms > 0
                &&& clock.backoff_attempts < 10
                &&& log <==> now_ms >= clock.last_reconnect_log_at_ms + 5000
                &&& log ==> after == (LoopClock { last_reconnect_log_at_ms: now_ms, ..clock })
                &&& !log ==> after == clock
            },
            (after, ActionModel::Idle) => {
                &&& after == clock
                &&& clock.retry_after_ms <= now_ms && clock.backoff_attempts < 10
                &&& !tuning.min_delta.at_most(delta)
                &&& now_ms < smoother.last_sent_at_ms + tuning.heartbeat_ms
            },
            (after, ActionModel::Disengaged) => after == clock && clock.backoff_attempts >= 10,
        },
        clock.backoff_attempts < 10 && clock.retry_after_ms <= now_ms && tuning.min_delta.at_most(
            delta,
        ) ==> bridge_loop::decided(engine, smoother, clock, tuning, delta, now_ms, ts).1 is Emit,
        clock.backoff_attempts < 10 && clock.retry_after_ms <= now_ms && now_ms
            >= smoother.last_sent_at_ms + tuning.heartbeat_ms ==> bridge_loop::decided(
            engine,
            smoother,
            clock,
            tuning,
            delta,
            now_ms,
            ts,
        ).1 is Emit,
{
}

/// The intensity of every event that a tick hands to the relay is the output after that tick's
/// step, its peak is the output's peak and its raw value the engine's target, so that an event's
/// intensity is never above its peak.
pub proof fn law_event_of_tick(state: RunModel, tuning: OutputTuning, log_relay: bool, step: RunStep)
    ensures
        run_laws::pushed_by(state, tuning, step) matches Some(pushed) ==> {
            let after = run_laws::stepped(state, tuning, log_relay, step);
            &&& pushed.event.intensity == after.smoother.current_intensity
            &&& pushed.event.peak == after.smoother.peak_intensity
            &&& pushed.event.raw == state.engine.target_intensity
            &&& after.engine == state.engine
            &&& float::in_unit(pushed.event.intensity)
            &&& pushed.event.intensity.at_most(pushed.event.peak)
            &&& step matches RunStep::Tick { next, ts, .. } && pushed.event.ts == ts && (
            float::in_unit(next) ==> pushed.event.intensity == next)
        },
{
    match step {
        RunStep::Packet { .. } => {},
        RunStep::Tick { next, .. } => {
            float::law_clamp_bounds(next, float::number(0), float::number(float::ONE));
        },
    }
}

/// After an event was accepted, the relay is not left alone and the failures are forgotten; the
/// log mentions it at most once a second, and only where it is asked to.
pub proof fn law_after_success(clock: LoopClock, log_relay: bool, now_ms: i64)
    ensures
        bridge_loop::sent_clock(clock, log_relay, now_ms).0.retry_after_ms == 0,
        bridge_loop::sent_clock(clock, log_relay, now_ms).0.backoff_attempts == 0,
        bridge_loop::sent_clock(clock, log_relay, now_ms).0.seq == clock.seq,
        bridge_loop::sent_clock(clock, log_relay, now_ms).0.last_tick_ms == clock.last_tick_ms,
        bridge_loop::sent_clock(clock, log_relay, now_ms).0.last_reconnect_log_at_ms
            == clock.last_reconnect_log_at_ms,
        bridge_loop::sent_clock(clock, log_relay, now_ms).1 <==> log_relay && now_ms
            >= clock.last_ack_log_at_ms + 1000,
        bridge_loop::sent_clock(clock, log_relay, now_ms).0.last_ack_log_at_ms == (
        if bridge_loop::sent_clock(clock, log_relay, now_ms).1 {
            now_ms
        } else {
            clock.last_ack_log_at_ms
        }),
{
}

/// After an event was refused, one more failure is counted and the relay is left alone for the
/// delay that the caller is told.
pub proof fn law_after_failure(
    clock: LoopClock,
    error: ErrorModel,
    now_ms: i64,
)
    requires
        0 <= now_ms <= i64::MAX - 180_000,
    ensures
        ({
            let (after, delay) = bridge_loop::failed_clock(clock, error, now_ms);
            &&& after.retry_after_ms == now_ms + delay
            &&& 500 <= delay <= 180_000
            &&& clock.backoff_attempts < u32::MAX ==> after.backoff_attempts
                == clock.backoff_attempts + 1
            &&& clock.backoff_attempts == u32::MAX ==> after.backoff_attempts == u32::MAX
            &&& after.seq == clock.seq && after.last_tick_ms == clock.last_tick_ms
            &&& after.last_ack_log_at_ms == clock.last_ack_log_at_ms
            &&& after.last_reconnect_log_at_ms == clock.last_reconnect_log_at_ms
        }),
{
    let attempts = bridge_loop::next_attempt(clock.backoff_attempts) as nat;
    runtime::law_backoff_range(1200, 45_000, attempts);
    runtime::law_backoff_range(4_000, 120_000, attempts);
    runtime::law_backoff_range(8_000, 180_000, attempts);
}

/// A truth value is one or zero, as it is true or not; a number has none.
pub proof fn law_truth_value(n: i32, bits: u32)
    ensures
        osc::truth_number(OscNumber::Bool(true)) == Some(float::number(float::ONE)),
        osc::truth_number(OscNumber::Bool(false)) == Some(float::number(0)),
        osc::truth_number(OscNumber::Int(n)) is None,
        osc::truth_number(OscNumber::Float(bits)) is None,
{
}

/// A bridge that starts rests: nothing has been sent, no failure is counted, the relay is not left
/// alone, and the first tick counts from the start.
pub proof fn law_start(engine: EngineModel, now_ms: i64)
    ensures
        ({
            let state = run_laws::starting(engine, now_ms);
            &&& state.engine == engine
            &&& state.smoother.current_intensity == float::number(0)
            &&& state.smoother.peak_intensity == float::number(0)
            &&& state.smoother.last_sent_at_ms == 0
            &&& state.clock.seq == 0 && state.clock.backoff_attempts == 0
            &&& state.clock.retry_after_ms == 0 && state.clock.last_tick_ms == now_ms
        }),
{
}

/// After an event was accepted the output that was sent is remembered with its time; after one
/// that was refused nothing of it is.
pub proof fn law_sent_is_remembered(
    state: RunModel,
    tuning: OutputTuning,
    log_relay: bool,
    step: RunStep,
)
    ensures
        ({
            let after = run_laws::stepped(state, tuning, log_relay, step);
            match run_laws::pushed_by(state, tuning, step) {
                Some(pushed) => if pushed.error is None {
                    after.smoother.last_sent_intensity == pushed.event.intensity
                        && after.smoother.last_sent_at_ms == pushed.at_ms as u64
                        && after.clock.backoff_attempts == 0
                } else {
                    after.smoother.last_sent_intensity == state.smoother.last_sent_intensity
                        && after.smoother.last_sent_at_ms == state.smoother.last_sent_at_ms
                        && after.clock.backoff_attempts > 0
                },
                None => after.smoother.last_sent_intensity == state.smoother.last_sent_intensity
                    && after.smoother.last_sent_at_ms == state.smoother.last_sent_at_ms,
            }
        }),
{
}

/// What was sent is remembered with its time and nothing else changes; until the heartbeat is over
/// nothing is sent again unless the output moves.
pub proof fn law_sent_at(
    state: SmootherState,
    now_ms: u64,
    later_ms: u64,
    delta: FloatBits,
    tuning: OutputTuning,
)
    ensures
        ({
            let after = smoothing::sent_at(state, now_ms);
            &&& after.last_sent_intensity == state.current_intensity
            &&& after.last_sent_at_ms == now_ms
            &&& after.current_intensity == state.current_intensity
            &&& after.peak_intensity == state.peak_intensity
            &&& after.target_intensity == state.target_intensity
            &&& later_ms < now_ms + tuning.heartbeat_ms && tuning.heartbeat_ms > 0 && delta.below(
                tuning.min_delta,
            ) ==> !smoothing::emission_due(after, delta, later_ms, tuning)
            &&& later_ms >= now_ms + tuning.heartbeat_ms ==> smoothing::emission_due(
                after,
                delta,
                later_ms,
                tuning,
            )
        }),
{
}

/// Aiming changes the target and nothing else.
pub proof fn law_aimed(state: SmootherState, target: FloatBits)
    ensures
        ({
            let after = smoothing::aimed(state, target);
            &&& after.target_intensity == target
            &&& after.current_intensity == state.current_intensity
            &&& after.peak_intensity == state.peak_intensity
            &&& after.last_sent_intensity == state.last_sent_intensity
            &&& after.last_sent_at_ms == state.last_sent_at_ms
        }),
{
}

} // verus!
