//! Laws of a whole run of the bridge: the packets and ticks between its start and its stop.
use vstd::prelude::*;
use crate::bridge_loop;
use crate::bridge_loop::{ActionModel, LoopClock};
use crate::engine;
use crate::engine::EngineModel;
use crate::float;
use crate::float::FloatBits;
use crate::mapping;
use crate::osc::MessageModel;
use crate::relay::{ErrorModel, EventModel};
use crate::runtime;
use crate::smoothing;
use crate::smoothing::{OutputTuning, SmootherState};

verus! {

/// What changes during a run.
#[verifier::ext_equal]
pub struct RunModel {
    pub engine: EngineModel,
    pub smoother: SmootherState,
    pub clock: LoopClock,
}

/// What happens to the bridge.
pub enum RunStep {
    /// Messages arrive. They come with the values that their mappings make of them, and with the
    /// sum of the weights and the weighted mean over all values.
    Packet {
        messages: Seq<MessageModel>,
        samples: Seq<FloatBits>,
        total_weight: FloatBits,
        mean: FloatBits,
    },
    /// Time passes. The output moves to `next` while its peak decays to `decayed`, and is then
    /// `delta` away from what was sent last; `ts` is the service's time. An event that is sent
    /// fails with `error` where there is one.
    Tick {
        next: FloatBits,
        decayed: FloatBits,
        delta: FloatBits,
        now_ms: i64,
        ts: i64,
        error: Option<ErrorModel>,
    },
}

/// An event that was handed to the relay, when, and the error that came back.
pub struct Pushed {
    pub event: EventModel,
    pub at_ms: i64,
    pub error: Option<ErrorModel>,
}

/// The output after it moved towards the engine's intensity.
pub open spec fn moved(state: RunModel, next: FloatBits, decayed: FloatBits) -> SmootherState {
    smoothing::settled(
        smoothing::aimed(state.smoother, state.engine.target_intensity),
        next,
        decayed,
    )
}

/// What a step leads to.
pub open spec fn action_of(state: RunModel, tuning: OutputTuning, step: RunStep) -> (
    LoopClock,
    ActionModel,
) {
    match step {
        RunStep::Packet { .. } => (state.clock, ActionModel::Idle),
        RunStep::Tick { next, decayed, delta, now_ms, ts, .. } => bridge_loop::decided(
            state.engine,
            moved(state, next, decayed),
            LoopClock { last_tick_ms: now_ms, ..state.clock },
            tuning,
            delta,
            now_ms,
            ts,
        ),
    }
}

/// The event that a step hands to the relay, where it does.
pub open spec fn pushed_by(state: RunModel, tuning: OutputTuning, step: RunStep) -> Option<Pushed> {
    match (step, action_of(state, tuning, step).1) {
        (RunStep::Tick { now_ms, error, .. }, ActionModel::Emit(event)) => Some(
            Pushed { event, at_ms: now_ms, error },
        ),
        _ => None,
    }
}

/// The state after a step.
pub open spec fn stepped(
    state: RunModel,
    tuning: OutputTuning,
    log_relay: bool,
    step: RunStep,
) -> RunModel {
    match step {
        RunStep::Packet { messages, samples, total_weight, mean } => RunModel {
            engine: engine::processed(state.engine, messages, samples, total_weight, mean),
            ..state
        },
        RunStep::Tick { next, decayed, now_ms, .. } => {
            let smoother = moved(state, next, decayed);
            let clock = action_of(state, tuning, step).0;
            match pushed_by(state, tuning, step) {
                Some(pushed) => match pushed.error {
                    Some(error) => RunModel {
                        smoother,
                        clock: bridge_loop::failed_clock(clock, error, now_ms).0,
                        ..state
                    },
                    None => RunModel {
                        smoother: smoothing::sent_at(smoother, now_ms as u64),
                        clock: bridge_loop::sent_clock(clock, log_relay, now_ms).0,
                        ..state
                    },
                },
                None => RunModel { smoother, clock, ..state },
            }
        },
    }
}

/// The state after a run.
pub open spec fn run(
    state: RunModel,
    tuning: OutputTuning,
    log_relay: bool,
    steps: Seq<RunStep>,
) -> RunModel
    decreases steps.len(),
{
    if steps.len() == 0 {
        state
    } else {
        stepped(run(state, tuning, log_relay, steps.drop_last()), tuning, log_relay, steps.last())
    }
}

/// The events that a run hands to the relay, in order.
pub open spec fn pushed(
    state: RunModel,
    tuning: OutputTuning,
    log_relay: bool,
    steps: Seq<RunStep>,
) -> Seq<Pushed>
    decreases steps.len(),
{
    if steps.len() == 0 {
        Seq::empty()
    } else {
        let before = pushed(state, tuning, log_relay, steps.drop_last());
        match pushed_by(
            run(state, tuning, log_relay, steps.drop_last()),
            tuning,
            steps.last(),
        ) {
            Some(event) => before.push(event),
            None => before,
        }
    }
}

/// A bridge that starts with the given engine.
pub open spec fn starting(engine: EngineModel, now_ms: i64) -> RunModel {
    RunModel {
        engine,
        smoother: smoothing::resting(),
        clock: bridge_loop::started_clock(now_ms),
    }
}

/// How many of the last events failed, one after the other.
pub open spec fn failures_in_a_row(events: Seq<Pushed>) -> nat
    decreases events.len(),
{
    if events.len() == 0 || events.last().error is None {
        0
    } else {
        failures_in_a_row(events.drop_last()) + 1
    }
}

/// Every time is one that a delay can be added to.
pub open spec fn times_fit(steps: Seq<RunStep>) -> bool {
    forall|i: int|
        0 <= i < steps.len() ==> (#[trigger] steps[i] matches RunStep::Tick { now_ms, .. } ==> 0
            <= now_ms <= i64::MAX - 180_000)
}

/// The delay before the next attempt, after the given events.
pub open spec fn delay_after(events: Seq<Pushed>) -> int
    recommends
        failures_in_a_row(events) > 0,
{
    runtime::retry_delay(events.last().error->0, failures_in_a_row(events))
}

proof fn lemma_delay_bounds(error: ErrorModel, attempts: nat)
    ensures
        0 <= runtime::retry_delay(error, attempts) <= 180_000,
{
    runtime::law_backoff_range(1200, 45_000, attempts);
    runtime::law_backoff_range(4_000, 120_000, attempts);
    runtime::law_backoff_range(8_000, 180_000, attempts);
}

proof fn lemma_run_clock(
    state: RunModel,
    tuning: OutputTuning,
    log_relay: bool,
    steps: Seq<RunStep>,
    now_ms: i64,
)
    requires
        state.clock == bridge_loop::started_clock(now_ms),
        steps.len() < u64::MAX,
        times_fit(steps),
    ensures
        ({
            let clock = run(state, tuning, log_relay, steps).clock;
            let events = pushed(state, tuning, log_relay, steps);
            &&& events.len() <= steps.len()
            &&& clock.seq == events.len()
            &&& clock.backoff_attempts == failures_in_a_row(events)
            &&& failures_in_a_row(events) <= bridge_loop::DISENGAGE_FAILURES
            &&& failures_in_a_row(events) > 0 ==> clock.retry_after_ms == events.last().at_ms
                + delay_after(events)
            &&& failures_in_a_row(events) == 0 ==> clock.retry_after_ms == 0
        }),
    decreases steps.len(),
{
    if steps.len() > 0 {
        lemma_prefix_fits(steps);
        assert(steps.last() == steps[steps.len() - 1]);
        lemma_run_clock(state, tuning, log_relay, steps.drop_last(), now_ms);
        let before = run(state, tuning, log_relay, steps.drop_last());
        let old_events = pushed(state, tuning, log_relay, steps.drop_last());
        if let Some(event) = pushed_by(before, tuning, steps.last()) {
            let events = old_events.push(event);
            assert(events.drop_last() =~= old_events);
            assert(events.last() == event);
            if let Some(error) = event.error {
                lemma_delay_bounds(error, failures_in_a_row(events));
            }
        }
    }
}

/// The k-th event of a run is numbered k, whether or not the events before it were sent.
pub proof fn law_run_numbers(
    engine: EngineModel,
    tuning: OutputTuning,
    log_relay: bool,
    steps: Seq<RunStep>,
    now_ms: i64,
)
    requires
        steps.len() < u64::MAX,
        times_fit(steps),
    ensures
        ({
            let events = pushed(starting(engine, now_ms), tuning, log_relay, steps);
            &&& run(starting(engine, now_ms), tuning, log_relay, steps).clock.seq == events.len()
            &&& forall|k: int|
                0 <= k < events.len() ==> (#[trigger] events[k]).event.seq == k + 1
        }),
    decreases steps.len(),
{
    let state = starting(engine, now_ms);
    lemma_run_clock(state, tuning, log_relay, steps, now_ms);
    if steps.len() > 0 {
        lemma_prefix_fits(steps);
        lemma_run_clock(state, tuning, log_relay, steps.drop_last(), now_ms);
        law_run_numbers(engine, tuning, log_relay, steps.drop_last(), now_ms);
    }
}

proof fn lemma_prefix_decays(
    state: RunModel,
    tuning: OutputTuning,
    log_relay: bool,
    steps: Seq<RunStep>,
)
    requires
        steps.len() > 0,
        peaks_decay(state, tuning, log_relay, steps),
    ensures
        peaks_decay(state, tuning, log_relay, steps.drop_last()),
        peak_decays(run(state, tuning, log_relay, steps.drop_last()), steps.last()),
{
    let prefix = steps.drop_last();
    assert forall|i: int| 0 <= i < prefix.len() implies peak_decays(
        run(state, tuning, log_relay, prefix.take(i)),
        #[trigger] prefix[i],
    ) by {
        assert(prefix[i] == steps[i]);
        assert(prefix.take(i) =~= steps.take(i));
    }
    assert(steps.take(steps.len() - 1) =~= prefix);
    assert(steps[steps.len() - 1] == steps.last());
}

proof fn lemma_prefix_fits(steps: Seq<RunStep>)
    requires
        steps.len() > 0,
        times_fit(steps),
    ensures
        times_fit(steps.drop_last()),
{
    assert forall|i: int| 0 <= i < steps.drop_last().len() implies (
    #[trigger] steps.drop_last()[i] matches RunStep::Tick { now_ms, .. } ==> 0 <= now_ms <= i64::MAX
        - 180_000) by {
        assert(steps.drop_last()[i] == steps[i]);
    }
}

/// The step is the tick that handed the event over.
pub open spec fn handed_over_by(step: RunStep, pushed: Pushed) -> bool {
    step matches RunStep::Tick { now_ms, ts, error, .. } && now_ms == pushed.at_ms && ts
        == pushed.event.ts && error == pushed.error
}

/// Every event of a run carries the service's time of the tick that handed it over.
pub proof fn law_run_times(
    engine: EngineModel,
    tuning: OutputTuning,
    log_relay: bool,
    steps: Seq<RunStep>,
    now_ms: i64,
)
    ensures
        ({
            let events = pushed(starting(engine, now_ms), tuning, log_relay, steps);
            forall|k: int|
                0 <= k < events.len() ==> exists|i: int|
                    0 <= i < steps.len() && handed_over_by(
                        #[trigger] steps[i],
                        #[trigger] events[k],
                    )
        }),
    decreases steps.len(),
{
    if steps.len() > 0 {
        let shorter = steps.drop_last();
        law_run_times(engine, tuning, log_relay, shorter, now_ms);
        let old_events = pushed(starting(engine, now_ms), tuning, log_relay, shorter);
        let events = pushed(starting(engine, now_ms), tuning, log_relay, steps);
        assert forall|k: int| 0 <= k < events.len() implies exists|i: int|
            0 <= i < steps.len() && handed_over_by(#[trigger] steps[i], #[trigger] events[k]) by {
            if k < old_events.len() {
                assert(events[k] == old_events[k]);
                let i = choose|i: int|
                    0 <= i < shorter.len() && handed_over_by(
                        #[trigger] shorter[i],
                        old_events[k],
                    );
                assert(shorter[i] == steps[i]);
                assert(handed_over_by(steps[i], events[k]));
            } else {
                assert(handed_over_by(steps[steps.len() - 1], events[k]));
            }
        }
    }
}

/// After an event of a run has failed, the next one waits for the delay that its error and the
/// number of failures in a row ask for.
pub proof fn law_run_waits(
    engine: EngineModel,
    tuning: OutputTuning,
    log_relay: bool,
    steps: Seq<RunStep>,
    now_ms: i64,
)
    requires
        steps.len() < u64::MAX,
        times_fit(steps),
    ensures
        ({
            let events = pushed(starting(engine, now_ms), tuning, log_relay, steps);
            forall|k: int|
                0 <= k < events.len() - 1 && (#[trigger] events[k]).error is Some ==> events[k
                    + 1].at_ms >= events[k].at_ms + delay_after(events.take(k + 1))
        }),
    decreases steps.len(),
{
    let state = starting(engine, now_ms);
    if steps.len() > 0 {
        lemma_prefix_fits(steps);
        lemma_run_clock(state, tuning, log_relay, steps.drop_last(), now_ms);
        law_run_waits(engine, tuning, log_relay, steps.drop_last(), now_ms);
        let old_events = pushed(state, tuning, log_relay, steps.drop_last());
        let events = pushed(state, tuning, log_relay, steps);
        assert forall|k: int|
            0 <= k < events.len() - 1 && (#[trigger] events[k]).error is Some implies events[k
            + 1].at_ms >= events[k].at_ms + delay_after(events.take(k + 1)) by {
            assert(events[k] == old_events[k]);
            if k + 1 < old_events.len() {
                assert(events[k + 1] == old_events[k + 1]);
                assert(events.take(k + 1) =~= old_events.take(k + 1));
            } else {
                assert(events.take(k + 1) =~= old_events);
            }
        }
    }
}

/// The bridge disengages by itself: once so many events in a row have failed, a run hands no
/// further event to the relay, and the bridge is disengaged exactly then.
pub proof fn law_run_disengages(
    engine: EngineModel,
    tuning: OutputTuning,
    log_relay: bool,
    steps: Seq<RunStep>,
    now_ms: i64,
)
    requires
        steps.len() < u64::MAX,
        times_fit(steps),
    ensures
        ({
            let events = pushed(starting(engine, now_ms), tuning, log_relay, steps);
            &&& bridge_loop::disengaged(
                run(starting(engine, now_ms), tuning, log_relay, steps).clock,
            ) <==> failures_in_a_row(events) == bridge_loop::DISENGAGE_FAILURES
            &&& forall|k: int|
                0 < k < events.len() ==> failures_in_a_row(#[trigger] events.take(k))
                    < bridge_loop::DISENGAGE_FAILURES
        }),
    decreases steps.len(),
{
    let state = starting(engine, now_ms);
    lemma_run_clock(state, tuning, log_relay, steps, now_ms);
    if steps.len() > 0 {
        lemma_prefix_fits(steps);
        lemma_run_clock(state, tuning, log_relay, steps.drop_last(), now_ms);
        law_run_disengages(engine, tuning, log_relay, steps.drop_last(), now_ms);
        let old_events = pushed(state, tuning, log_relay, steps.drop_last());
        let events = pushed(state, tuning, log_relay, steps);
        assert forall|k: int| 0 < k < events.len() implies failures_in_a_row(
            #[trigger] events.take(k),
        ) < bridge_loop::DISENGAGE_FAILURES by {
            if k < old_events.len() {
                assert(events.take(k) =~= old_events.take(k));
            } else {
                assert(events.take(k) =~= old_events);
            }
        }
    }
}

/// A disengaged bridge stays so, whatever happens: no step hands an event to the relay.
pub proof fn law_disengaged_stays(
    state: RunModel,
    tuning: OutputTuning,
    log_relay: bool,
    step: RunStep,
)
    requires
        bridge_loop::disengaged(state.clock),
    ensures
        pushed_by(state, tuning, step) is None,
        bridge_loop::disengaged(stepped(state, tuning, log_relay, step).clock),
{
}

/// The levels of a run lie between zero and one.
pub open spec fn levels_in_unit(state: RunModel) -> bool {
    &&& float::in_unit(state.engine.target_intensity)
    &&& float::in_unit(state.smoother.current_intensity)
    &&& float::in_unit(state.smoother.peak_intensity)
}

/// In a tick the peak does not grow by its decay.
pub open spec fn peak_decays(state: RunModel, step: RunStep) -> bool {
    step matches RunStep::Tick { decayed, .. } ==> !state.smoother.peak_intensity.below(decayed)
}

/// The peak never grows by its decay.
pub open spec fn peaks_decay(
    state: RunModel,
    tuning: OutputTuning,
    log_relay: bool,
    steps: Seq<RunStep>,
) -> bool {
    forall|i: int|
        0 <= i < steps.len() ==> peak_decays(
            run(state, tuning, log_relay, steps.take(i)),
            #[trigger] steps[i],
        )
}

/// The levels stay between zero and one in every step, and the event of a step has such levels.
pub proof fn law_levels_stay(
    state: RunModel,
    tuning: OutputTuning,
    log_relay: bool,
    step: RunStep,
)
    requires
        levels_in_unit(state),
        peak_decays(state, step),
    ensures
        levels_in_unit(stepped(state, tuning, log_relay, step)),
        pushed_by(state, tuning, step) matches Some(pushed) ==> event_in_unit(pushed.event),
{
    match step {
        RunStep::Packet { total_weight, mean, .. } => {
            mapping::law_composite_range(total_weight, mean);
        },
        RunStep::Tick { next, decayed, .. } => {
            let aimed = SmootherState {
                target_intensity: state.engine.target_intensity,
                ..state.smoother
            };
            smoothing::law_settled_range(aimed, next, decayed);
        },
    }
}

/// The levels of every event lie between zero and one.
pub open spec fn events_in_unit(events: Seq<Pushed>) -> bool {
    forall|k: int| 0 <= k < events.len() ==> event_in_unit((#[trigger] events[k]).event)
}

/// The levels of an event lie between zero and one.
pub open spec fn event_in_unit(event: EventModel) -> bool {
    float::in_unit(event.intensity) && float::in_unit(event.peak) && float::in_unit(event.raw)
}

proof fn lemma_levels_pushed(events: Seq<Pushed>, more: Option<Pushed>)
    requires
        events_in_unit(events),
        more matches Some(pushed) ==> event_in_unit(pushed.event),
    ensures
        more matches Some(pushed) ==> events_in_unit(events.push(pushed)),
{
}

/// Every event of a run has levels between zero and one, and so has every state of it.
pub proof fn law_run_levels(
    engine: EngineModel,
    tuning: OutputTuning,
    log_relay: bool,
    steps: Seq<RunStep>,
    now_ms: i64,
)
    requires
        float::in_unit(engine.target_intensity),
        peaks_decay(starting(engine, now_ms), tuning, log_relay, steps),
    ensures
        levels_in_unit(run(starting(engine, now_ms), tuning, log_relay, steps)),
        events_in_unit(pushed(starting(engine, now_ms), tuning, log_relay, steps)),
    decreases steps.len(),
{
    let state = starting(engine, now_ms);
    if steps.len() > 0 {
        let prefix = steps.drop_last();
        lemma_prefix_decays(state, tuning, log_relay, steps);
        law_run_levels(engine, tuning, log_relay, prefix, now_ms);
        let before = run(state, tuning, log_relay, prefix);
        law_levels_stay(before, tuning, log_relay, steps.last());
        lemma_levels_pushed(
            pushed(state, tuning, log_relay, prefix),
            pushed_by(before, tuning, steps.last()),
        );
    } else {
        assert(float::in_unit(float::number(0)));
    }
}

} // verus!
