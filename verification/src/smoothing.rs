//! Output smoothing: tuning, state and the rules of when to emit.
use vstd::prelude::*;
use crate::float;
use crate::float::FloatBits;

verus! {

/// The bits of two.
pub const TWO: u64 = 0x4000_0000_0000_0000;

/// The bits of sixty.
pub const SIXTY: u64 = 0x404E_0000_0000_0000;

/// The bits of ten.
pub const TEN: u64 = 0x4024_0000_0000_0000;

/// The bits of two thousand.
pub const TWO_THOUSAND: u64 = 0x409F_4000_0000_0000;

/// The bits of five thousand.
pub const FIVE_THOUSAND: u64 = 0x40B3_8800_0000_0000;

/// The bits of one hundredth.
pub const HUNDREDTH: u64 = 0x3F84_7AE1_47AE_147B;

/// The bits of twenty.
pub const TWENTY: u64 = 0x4034_0000_0000_0000;

/// The bits of fifty-five.
pub const FIFTY_FIVE: u64 = 0x404B_8000_0000_0000;

/// The bits of two hundred and twenty.
pub const TWO_HUNDRED_TWENTY: u64 = 0x406B_8000_0000_0000;

/// The bits of 0.35.
pub const DEFAULT_ALPHA: u64 = 0x3FD6_6666_6666_6666;

/// The bits of 0.015.
pub const DEFAULT_DELTA: u64 = 0x3F8E_B851_EB85_1EB8;

/// The bits of two hundred.
pub const TWO_HUNDRED: u64 = 0x4069_0000_0000_0000;

/// The bits of ten thousand.
pub const TEN_THOUSAND: u64 = 0x40C3_8800_0000_0000;

/// The bits of one thousand.
pub const THOUSAND: u64 = 0x408F_4000_0000_0000;

/// How the output follows its target and when it is emitted.
#[derive(Debug, Clone, Copy, PartialEq, Eq, Structural)]
pub struct OutputTuning {
    pub emit_hz: FloatBits,
    pub attack_ms: FloatBits,
    pub release_ms: FloatBits,
    pub ema_alpha: FloatBits,
    pub min_delta: FloatBits,
    pub heartbeat_ms: u64,
}

/// The tuning that is used where none is given.
pub open spec fn default_tuning() -> OutputTuning {
    OutputTuning {
        emit_hz: float::number(TWENTY),
        attack_ms: float::number(FIFTY_FIVE),
        release_ms: float::number(TWO_HUNDRED_TWENTY),
        ema_alpha: float::number(DEFAULT_ALPHA),
        min_delta: float::number(DEFAULT_DELTA),
        heartbeat_ms: 1_000,
    }
}

impl Default for OutputTuning {
    fn default() -> (r: Self)
        ensures
            r == default_tuning(),
    {
        OutputTuning {
            emit_hz: float::from_bits(TWENTY),
            attack_ms: float::from_bits(FIFTY_FIVE),
            release_ms: float::from_bits(TWO_HUNDRED_TWENTY),
            ema_alpha: float::from_bits(DEFAULT_ALPHA),
            min_delta: float::from_bits(DEFAULT_DELTA),
            heartbeat_ms: 1_000,
        }
    }
}

/// The tuning with each value held within its limits.
pub open spec fn sanitized(tuning: OutputTuning) -> OutputTuning {
    OutputTuning {
        emit_hz: float::clamped(tuning.emit_hz, float::number(TWO), float::number(SIXTY)),
        attack_ms: float::clamped(
            tuning.attack_ms,
            float::number(TEN),
            float::number(TWO_THOUSAND),
        ),
        release_ms: float::clamped(
            tuning.release_ms,
            float::number(TEN),
            float::number(FIVE_THOUSAND),
        ),
        ema_alpha: float::clamped(
            tuning.ema_alpha,
            float::number(HUNDREDTH),
            float::number(float::ONE),
        ),
        min_delta: float::clamped(tuning.min_delta, float::number(0), float::number(float::ONE)),
        heartbeat_ms: if tuning.heartbeat_ms < 200 {
            200
        } else if tuning.heartbeat_ms > 10_000 {
            10_000
        } else {
            tuning.heartbeat_ms
        },
    }
}

impl OutputTuning {
    /// The tuning with each value held within its limits.
    pub fn sanitize(self) -> (r: Self)
        ensures
            r == sanitized(self),
    {
        OutputTuning {
            emit_hz: float::clamp(self.emit_hz, float::from_bits(TWO), float::from_bits(SIXTY)),
            attack_ms: float::clamp(
                self.attack_ms,
                float::from_bits(TEN),
                float::from_bits(TWO_THOUSAND),
            ),
            release_ms: float::clamp(
                self.release_ms,
                float::from_bits(TEN),
                float::from_bits(FIVE_THOUSAND),
            ),
            ema_alpha: float::clamp(
                self.ema_alpha,
                float::from_bits(HUNDREDTH),
                float::from_bits(float::ONE),
            ),
            min_delta: float::clamp01(self.min_delta),
            heartbeat_ms: if self.heartbeat_ms < 200 {
                200
            } else if self.heartbeat_ms > 10_000 {
                10_000
            } else {
                self.heartbeat_ms
            },
        }
    }
}

/// The tuning is within its limits.
pub open spec fn within_limits(tuning: OutputTuning) -> bool {
    &&& float::number(TWO).at_most(tuning.emit_hz) && tuning.emit_hz.at_most(float::number(SIXTY))
    &&& float::number(TEN).at_most(tuning.attack_ms) && tuning.attack_ms.at_most(
        float::number(TWO_THOUSAND),
    )
    &&& float::number(TEN).at_most(tuning.release_ms) && tuning.release_ms.at_most(
        float::number(FIVE_THOUSAND),
    )
    &&& float::number(HUNDREDTH).at_most(tuning.ema_alpha) && tuning.ema_alpha.at_most(
        float::number(float::ONE),
    )
    &&& float::number(0).at_most(tuning.min_delta) && tuning.min_delta.at_most(
        float::number(float::ONE),
    )
    &&& 200 <= tuning.heartbeat_ms <= 10_000
}

/// A sanitized tuning is within its limits, a tuning within its limits is kept as it is, and the
/// default is within its limits.
pub proof fn law_sanitized_tuning(tuning: OutputTuning)
    ensures
        within_limits(sanitized(tuning)),
        within_limits(tuning) ==> sanitized(tuning) == tuning,
        sanitized(sanitized(tuning)) == sanitized(tuning),
        within_limits(default_tuning()),
{
}

/// The state of the smoothed output.
#[derive(Debug, Clone, Copy, PartialEq, Eq, Structural)]
pub struct SmootherState {
    pub target_intensity: FloatBits,
    pub current_intensity: FloatBits,
    pub peak_intensity: FloatBits,
    pub last_sent_intensity: FloatBits,
    pub last_sent_at_ms: u64,
}

/// Everything at zero.
pub open spec fn resting() -> SmootherState {
    SmootherState {
        target_intensity: float::number(0),
        current_intensity: float::number(0),
        peak_intensity: float::number(0),
        last_sent_intensity: float::number(0),
        last_sent_at_ms: 0,
    }
}

impl Default for SmootherState {
    fn default() -> (r: Self)
        ensures
            r == resting(),
    {
        SmootherState {
            target_intensity: float::from_bits(0),
            current_intensity: float::from_bits(0),
            peak_intensity: float::from_bits(0),
            last_sent_intensity: float::from_bits(0),
            last_sent_at_ms: 0,
        }
    }
}

/// The larger of two numbers, the other one where one is a NaN.
pub open spec fn larger(a: FloatBits, b: FloatBits) -> FloatBits {
    if a.nan() || a.below(b) {
        b
    } else {
        a
    }
}

/// The larger of two numbers, the other one where one is a NaN.
pub fn max(a: FloatBits, b: FloatBits) -> (r: FloatBits)
    ensures
        r == larger(a, b),
{
    if a.is_nan() || a.less_than(&b) {
        b
    } else {
        a
    }
}

/// The time that a step covers, in milliseconds: at least one.
pub open spec fn step_time(now_ms: u64, last_tick_ms: u64) -> u64 {
    if now_ms > last_tick_ms {
        (now_ms - last_tick_ms) as u64
    } else {
        1
    }
}

/// The time constant of a step: that of the attack where the target, held between zero and one,
/// is not below the current intensity, else that of the release; at least one.
pub open spec fn step_constant(state: SmootherState, tuning: OutputTuning) -> FloatBits {
    let target = float::clamped(
        state.target_intensity,
        float::number(0),
        float::number(float::ONE),
    );
    larger(
        if state.current_intensity.at_most(target) {
            tuning.attack_ms
        } else {
            tuning.release_ms
        },
        float::number(float::ONE),
    )
}

/// The state after a step that moved the intensity to `next`, where `decayed` is the peak less
/// its decay.
pub open spec fn settled(
    state: SmootherState,
    next: FloatBits,
    decayed: FloatBits,
) -> SmootherState {
    let current = float::clamped(next, float::number(0), float::number(float::ONE));
    SmootherState {
        current_intensity: current,
        peak_intensity: if state.peak_intensity.at_most(current) {
            current
        } else {
            larger(current, decayed)
        },
        ..state
    }
}

/// Whether the output is due: it moved by at least the smallest change, or its last emission is
/// a heartbeat ago.
pub open spec fn emission_due(
    state: SmootherState,
    delta: FloatBits,
    now_ms: u64,
    tuning: OutputTuning,
) -> bool {
    ||| tuning.min_delta.at_most(delta)
    ||| now_ms >= state.last_sent_at_ms && now_ms - state.last_sent_at_ms >= tuning.heartbeat_ms
    ||| tuning.heartbeat_ms == 0
}

impl SmootherState {
    /// The time that a step covers, in milliseconds.
    pub fn step_ms(now_ms: u64, last_tick_ms: u64) -> (r: u64)
        ensures
            r == step_time(now_ms, last_tick_ms),
            r >= 1,
    {
        if now_ms > last_tick_ms {
            now_ms - last_tick_ms
        } else {
            1
        }
    }

    /// The time constant of a step, in milliseconds.
    pub fn time_constant(&self, tuning: &OutputTuning) -> (r: FloatBits)
        ensures
            r == step_constant(*self, *tuning),
    {
        let target = float::clamp01(self.target_intensity);
        let tau = if self.current_intensity.less_or_equal(&target) {
            tuning.attack_ms
        } else {
            tuning.release_ms
        };
        max(tau, float::from_bits(float::ONE))
    }

    /// Takes over the intensity that a step has reached.
    pub fn settle(&mut self, next: FloatBits, decayed: FloatBits)
        ensures
            *final(self) == settled(*old(self), next, decayed),
    {
        let current = float::clamp01(next);
        self.current_intensity = current;
        if self.peak_intensity.less_or_equal(&current) {
            self.peak_intensity = current;
        } else {
            self.peak_intensity = max(current, decayed);
        }
    }

    /// Whether the output is due. `delta` is how far it moved since it was last emitted.
    pub fn should_emit(&self, delta: FloatBits, now_ms: u64, tuning: &OutputTuning) -> (r: bool)
        ensures
            r == emission_due(*self, delta, now_ms, *tuning),
    {
        if tuning.min_delta.less_or_equal(&delta) {
            return true;
        }
        let since: u64 = if now_ms > self.last_sent_at_ms {
            now_ms - self.last_sent_at_ms
        } else {
            0
        };
        since >= tuning.heartbeat_ms
    }

    /// Notes that the current intensity was emitted.
    pub fn mark_emitted(&mut self, now_ms: u64)
        ensures
            *final(self) == sent_at(*old(self), now_ms),
            *final(self) == (SmootherState {
                last_sent_intensity: old(self).current_intensity,
                last_sent_at_ms: now_ms,
                ..*old(self)
            }),
    {
        self.last_sent_intensity = self.current_intensity;
        self.last_sent_at_ms = now_ms;
    }
}

/// The state once its current intensity was sent.
pub open spec fn sent_at(state: SmootherState, now_ms: u64) -> SmootherState {
    SmootherState {
        last_sent_intensity: state.current_intensity,
        last_sent_at_ms: now_ms,
        ..state
    }
}

/// The state once it is aimed at an intensity.
pub open spec fn aimed(state: SmootherState, target: FloatBits) -> SmootherState {
    SmootherState { target_intensity: target, ..state }
}

/// A step leaves the intensity between zero and one, the peak no lower than the intensity, and the
/// peak no higher than one where it decays to no more than that.
pub proof fn law_settled_range(state: SmootherState, next: FloatBits, decayed: FloatBits)
    ensures
        float::in_unit(settled(state, next, decayed).current_intensity),
        settled(state, next, decayed).current_intensity.at_most(
            settled(state, next, decayed).peak_intensity,
        ),
        !float::number(float::ONE).below(decayed) ==> float::in_unit(
            settled(state, next, decayed).peak_intensity,
        ),
{
    float::law_clamp_bounds(next, float::number(0), float::number(float::ONE));
}

} // verus!
