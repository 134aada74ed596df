//! Horizon-crossing detection over a sampled elevation signal.
//!
//! A pass search sweeps a time window in fixed steps. At each step the
//! propagator and the frame transforms produce look angles; this module takes
//! that sample stream and runs the two-state machine that turns it into
//! passes: entering a sample at or above the threshold opens a pass, samples
//! above the threshold advance its running peak, and the first sample below
//! the threshold closes and emits it. A window that ends mid-pass drops the
//! unfinished pass; a stream with no qualifying sample yields an empty list.

use vstd::prelude::*;

use crate::angles::azimuth_wf;
use crate::angles::normalize_azimuth_mdeg;
use crate::config::PredictionConfig;
use crate::errors::StaleElementsError;
use crate::time::MAX_TIME_MS;
use crate::time::MIN_TIME_MS;
use crate::time::MS_PER_DAY;
use crate::time::abs_int;
use crate::time::abs_i64;

verus! {

/// Look angles from the observer to the object at one instant.
#[derive(Clone, Copy, Debug, PartialEq, Eq, Structural)]
pub struct LookAngles {
    /// Azimuth, millidegrees, normalized to `[0, 360°)`.
    pub azimuth_mdeg: i64,
    /// Elevation above the horizon, millidegrees, in `[-90°, 90°]`.
    pub elevation_mdeg: i64,
    /// Distance to the object, meters.
    pub range_m: i64,
}

impl LookAngles {
    /// Field ranges every constructed value satisfies.
    pub open spec fn wf(self) -> bool {
        &&& azimuth_wf(self.azimuth_mdeg)
        &&& -90_000 <= self.elevation_mdeg <= 90_000
        &&& 0 <= self.range_m <= 1_000_000_000_000
    }

    /// Build look angles from a raw azimuth (any angle, for example straight
    /// from a four-quadrant arctangent), normalizing it into `[0, 360°)`.
    pub fn new(raw_azimuth_mdeg: i64, elevation_mdeg: i64, range_m: i64) -> (r: LookAngles)
        requires
            -36_000_000 <= raw_azimuth_mdeg <= 36_000_000,
            -90_000 <= elevation_mdeg <= 90_000,
            0 <= range_m <= 1_000_000_000_000,
        ensures
            r.wf(),
            (r.azimuth_mdeg - raw_azimuth_mdeg) % 360_000int == 0,
            r.elevation_mdeg == elevation_mdeg,
            r.range_m == range_m,
    {
        LookAngles {
            azimuth_mdeg: normalize_azimuth_mdeg(raw_azimuth_mdeg),
            elevation_mdeg,
            range_m,
        }
    }
}

/// One step of the sweep: the sampling instant and the look angles there.
#[derive(Clone, Copy, Debug, PartialEq, Eq, Structural)]
pub struct Sample {
    /// Sampling instant, Unix milliseconds.
    pub time_ms: i64,
    /// Look angles at that instant.
    pub angles: LookAngles,
}

impl Sample {
    /// Field ranges every constructed value satisfies.
    pub open spec fn wf(self) -> bool {
        &&& MIN_TIME_MS <= self.time_ms <= MAX_TIME_MS
        &&& self.angles.wf()
    }

    /// Pair an instant with its look angles.
    pub fn new(time_ms: i64, angles: LookAngles) -> (r: Sample)
        requires
            MIN_TIME_MS <= time_ms <= MAX_TIME_MS,
            angles.wf(),
        ensures
            r.wf(),
            r.time_ms == time_ms,
            r.angles == angles,
    {
        Sample { time_ms, angles }
    }
}

/// All samples of a stream are well formed.
pub open spec fn samples_wf(samples: Seq<Sample>) -> bool {
    forall|i: int| 0 <= i < samples.len() ==> (#[trigger] samples[i]).wf()
}

/// Sampling instants strictly increase along the stream.
pub open spec fn samples_strictly_increasing(samples: Seq<Sample>) -> bool {
    forall|i: int, j: int|
        0 <= i < j < samples.len() ==> #[trigger] samples[i].time_ms < #[trigger] samples[j].time_ms
}

/// A visibility window: the object stayed at or above the search threshold
/// from `aos_time_ms` until just before `los_time_ms`.
#[derive(Clone, Copy, Debug, PartialEq, Eq, Structural)]
pub struct SatellitePass {
    /// Acquisition of signal: first sampled instant at or above the
    /// threshold, Unix milliseconds.
    pub aos_time_ms: i64,
    /// Loss of signal: first sampled instant back below the threshold, Unix
    /// milliseconds.
    pub los_time_ms: i64,
    /// Highest sampled elevation of the pass, millidegrees.
    pub max_elevation_mdeg: i64,
    /// Instant of the highest sampled elevation, Unix milliseconds.
    pub max_elevation_time_ms: i64,
    /// Azimuth at acquisition, millidegrees.
    pub aos_azimuth_mdeg: i64,
    /// Azimuth at the elevation peak, millidegrees.
    pub max_azimuth_mdeg: i64,
    /// Azimuth at loss, millidegrees.
    pub los_azimuth_mdeg: i64,
    /// Whole seconds from acquisition to loss.
    pub duration_seconds: i64,
    /// Range at the elevation peak, meters.
    pub max_range_m: i64,
}

impl SatellitePass {
    /// Whole minutes from acquisition to loss.
    pub fn duration_minutes(&self) -> (r: i64)
        requires
            0 <= self.duration_seconds,
        ensures
            r == self.duration_seconds as int / 60,
    {
        self.duration_seconds / 60
    }
}

/// What every emitted pass satisfies: the peak lies at or after acquisition
/// and strictly before loss, the peak elevation reaches the search threshold,
/// the duration is the window length in whole seconds, and all azimuths are
/// normalized.
pub open spec fn pass_wf(p: SatellitePass, min_elevation_mdeg: int) -> bool {
    &&& p.aos_time_ms <= p.max_elevation_time_ms < p.los_time_ms
    &&& p.max_elevation_mdeg >= min_elevation_mdeg
    &&& p.duration_seconds == (p.los_time_ms - p.aos_time_ms) / 1000
    &&& 0 <= p.duration_seconds
    &&& azimuth_wf(p.aos_azimuth_mdeg)
    &&& azimuth_wf(p.max_azimuth_mdeg)
    &&& azimuth_wf(p.los_azimuth_mdeg)
    &&& 0 <= p.max_range_m
}

/// Running record of a pass that has begun but not yet ended.
#[derive(Clone, Copy, Debug, PartialEq, Eq, Structural)]
pub struct PassProgress {
    /// First sampled instant at or above the threshold.
    pub start_ms: i64,
    /// Azimuth at that first instant.
    pub aos_azimuth_mdeg: i64,
    /// Highest elevation sampled so far.
    pub max_elevation_mdeg: i64,
    /// Instant of that highest elevation.
    pub max_elevation_time_ms: i64,
    /// Azimuth at that highest elevation.
    pub max_azimuth_mdeg: i64,
    /// Range at that highest elevation.
    pub max_range_m: i64,
}

/// The record opened by the first qualifying sample of a pass.
pub open spec fn spec_begin_pass(s: Sample) -> PassProgress {
    PassProgress {
        start_ms: s.time_ms,
        aos_azimuth_mdeg: s.angles.azimuth_mdeg,
        max_elevation_mdeg: s.angles.elevation_mdeg,
        max_elevation_time_ms: s.time_ms,
        max_azimuth_mdeg: s.angles.azimuth_mdeg,
        max_range_m: s.angles.range_m,
    }
}

/// A later qualifying sample moves the running peak if it is strictly higher.
pub open spec fn spec_advance_pass(p: PassProgress, s: Sample) -> PassProgress {
    if s.angles.elevation_mdeg > p.max_elevation_mdeg {
        PassProgress {
            start_ms: p.start_ms,
            aos_azimuth_mdeg: p.aos_azimuth_mdeg,
            max_elevation_mdeg: s.angles.elevation_mdeg,
            max_elevation_time_ms: s.time_ms,
            max_azimuth_mdeg: s.angles.azimuth_mdeg,
            max_range_m: s.angles.range_m,
        }
    } else {
        p
    }
}

/// The pass emitted when sample `s` falls back below the threshold.
pub open spec fn spec_emit_pass(p: PassProgress, s: Sample) -> SatellitePass {
    SatellitePass {
        aos_time_ms: p.start_ms,
        los_time_ms: s.time_ms,
        max_elevation_mdeg: p.max_elevation_mdeg,
        max_elevation_time_ms: p.max_elevation_time_ms,
        aos_azimuth_mdeg: p.aos_azimuth_mdeg,
        max_azimuth_mdeg: p.max_azimuth_mdeg,
        los_azimuth_mdeg: s.angles.azimuth_mdeg,
        duration_seconds: ((s.time_ms - p.start_ms) / 1000) as i64,
        max_range_m: p.max_range_m,
    }
}

/// The sweep from sample `i` on, given the machine's current state `st` and
/// the passes `acc` already emitted; stops once `max_passes` passes exist.
pub open spec fn spec_sweep_from(
    samples: Seq<Sample>,
    i: int,
    st: Option<PassProgress>,
    acc: Seq<SatellitePass>,
    min_elevation: int,
    max_passes: int,
) -> Seq<SatellitePass>
    decreases samples.len() - i,
{
    if i < 0 || i >= samples.len() || acc.len() >= max_passes {
        acc
    } else {
        let s = samples[i];
        if s.angles.elevation_mdeg >= min_elevation {
            let p = match st {
                Option::None => spec_begin_pass(s),
                Option::Some(p0) => spec_advance_pass(p0, s),
            };
            spec_sweep_from(samples, i + 1, Option::Some(p), acc, min_elevation, max_passes)
        } else {
            match st {
                Option::None => spec_sweep_from(
                    samples,
                    i + 1,
                    Option::None,
                    acc,
                    min_elevation,
                    max_passes,
                ),
                Option::Some(p0) => spec_sweep_from(
                    samples,
                    i + 1,
                    Option::None,
                    acc.push(spec_emit_pass(p0, s)),
                    min_elevation,
                    max_passes,
                ),
            }
        }
    }
}

/// The pass list a sample stream produces under a threshold and a pass cap.
pub open spec fn spec_sweep(samples: Seq<Sample>, min_elevation: int, max_passes: int) -> Seq<
    SatellitePass,
> {
    spec_sweep_from(samples, 0, Option::None, Seq::empty(), min_elevation, max_passes)
}

/// Whole days between an element set's epoch and a reference instant.
pub open spec fn spec_epoch_age_days(epoch_unix_ms: int, now_ms: int) -> int {
    abs_int(now_ms - epoch_unix_ms) / (MS_PER_DAY as int)
}

/// Epoch ages above this many days fail a prediction.
pub const MAX_EPOCH_AGE_DAYS: i64 = 90;

/// Epoch ages above this many days deserve a warning to the operator.
pub const EPOCH_WARN_AGE_DAYS: i64 = 30;

/// Whole days between an element set's epoch and a reference instant.
pub fn epoch_age_days(epoch_unix_ms: i64, now_ms: i64) -> (r: i64)
    requires
        MIN_TIME_MS <= epoch_unix_ms <= MAX_TIME_MS,
        MIN_TIME_MS <= now_ms <= MAX_TIME_MS,
    ensures
        r == spec_epoch_age_days(epoch_unix_ms as int, now_ms as int),
        0 <= r,
{
    abs_i64(now_ms - epoch_unix_ms) / MS_PER_DAY
}

/// Passes come out in chronological order: every emitted pass ends strictly
/// before the next one begins.
pub proof fn lemma_sweep_passes_chronological(
    samples: Seq<Sample>,
    min_elevation: int,
    max_passes: int,
)
    requires
        samples_strictly_increasing(samples),
    ensures
        forall|k1: int, k2: int|
            0 <= k1 < k2 < spec_sweep(samples, min_elevation, max_passes).len() ==> #[trigger] spec_sweep(
                samples,
                min_elevation,
                max_passes,
            )[k1].los_time_ms < #[trigger] spec_sweep(
                samples,
                min_elevation,
                max_passes,
            )[k2].aos_time_ms,
{
    lemma_sweep_from_chronological(
        samples,
        0,
        Option::None,
        0,
        Seq::empty(),
        min_elevation,
        max_passes,
    );
}

proof fn lemma_sweep_from_chronological(
    samples: Seq<Sample>,
    i: int,
    st: Option<PassProgress>,
    s0: int,
    acc: Seq<SatellitePass>,
    min_elevation: int,
    max_passes: int,
)
    requires
        samples_strictly_increasing(samples),
        0 <= i <= samples.len(),
        st matches Option::Some(p) ==> 0 <= s0 < i && p.start_ms == samples[s0].time_ms,
        st matches Option::Some(p) ==> forall|k: int|
            0 <= k < acc.len() ==> #[trigger] acc[k].los_time_ms < samples[s0].time_ms,
        st is None && i < samples.len() ==> forall|k: int|
            0 <= k < acc.len() ==> #[trigger] acc[k].los_time_ms < samples[i].time_ms,
        forall|k1: int, k2: int|
            0 <= k1 < k2 < acc.len() ==> #[trigger] acc[k1].los_time_ms
                < #[trigger] acc[k2].aos_time_ms,
    ensures
        forall|k1: int, k2: int|
            0 <= k1 < k2 < spec_sweep_from(samples, i, st, acc, min_elevation, max_passes).len()
                ==> #[trigger] spec_sweep_from(
                samples,
                i,
                st,
                acc,
                min_elevation,
                max_passes,
            )[k1].los_time_ms < #[trigger] spec_sweep_from(
                samples,
                i,
                st,
                acc,
                min_elevation,
                max_passes,
            )[k2].aos_time_ms,
    decreases samples.len() - i,
{
    if i >= samples.len() || acc.len() >= max_passes {
    } else {
        let s = samples[i];
        if s.angles.elevation_mdeg >= min_elevation {
            let p = match st {
                Option::None => spec_begin_pass(s),
                Option::Some(p0) => spec_advance_pass(p0, s),
            };
            let next_s0: int = match st {
                Option::None => i,
                Option::Some(p0) => s0,
            };
            lemma_sweep_from_chronological(
                samples,
                i + 1,
                Option::Some(p),
                next_s0,
                acc,
                min_elevation,
                max_passes,
            );
            assert(spec_sweep_from(samples, i, st, acc, min_elevation, max_passes)
                == spec_sweep_from(
                samples,
                i + 1,
                Option::Some(p),
                acc,
                min_elevation,
                max_passes,
            ));
        } else {
            match st {
                Option::None => {
                    if i + 1 < samples.len() {
                        assert(samples[i].time_ms < samples[i + 1].time_ms);
                    }
                    lemma_sweep_from_chronological(
                        samples,
                        i + 1,
                        Option::None,
                        0,
                        acc,
                        min_elevation,
                        max_passes,
                    );
                    assert(spec_sweep_from(samples, i, st, acc, min_elevation, max_passes)
                        == spec_sweep_from(
                        samples,
                        i + 1,
                        Option::None,
                        acc,
                        min_elevation,
                        max_passes,
                    ));
                },
                Option::Some(p0) => {
                    let emitted = spec_emit_pass(p0, s);
                    assert(samples[s0].time_ms < samples[i].time_ms);
                    if i + 1 < samples.len() {
                        assert(samples[i].time_ms < samples[i + 1].time_ms);
                    }
                    let pushed = acc.push(emitted);
                    assert(forall|k1: int, k2: int|
                        0 <= k1 < k2 < pushed.len() ==> #[trigger] pushed[k1].los_time_ms
                            < #[trigger] pushed[k2].aos_time_ms);
                    lemma_sweep_from_chronological(
                        samples,
                        i + 1,
                        Option::None,
                        0,
                        pushed,
                        min_elevation,
                        max_passes,
                    );
                    assert(spec_sweep_from(samples, i, st, acc, min_elevation, max_passes)
                        == spec_sweep_from(
                        samples,
                        i + 1,
                        Option::None,
                        pushed,
                        min_elevation,
                        max_passes,
                    ));
                },
            }
        }
    }
}

/// The samples follow a fixed-step schedule: sample `k` was taken at
/// `start_ms` plus `k` steps of `step_s` seconds. `sample_times` produces
/// exactly such instants, and any prefix of them (a propagation failure ends
/// the stream early) still satisfies this.
pub open spec fn samples_on_schedule(samples: Seq<Sample>, start_ms: int, step_s: int) -> bool {
    forall|k: int|
        0 <= k < samples.len() ==> #[trigger] samples[k].time_ms == start_ms + k * step_s * 1000
}

/// A pass spans a whole, positive number of sampling steps: its window is a
/// positive multiple of the step, and its duration in seconds is exactly
/// that many steps.
pub open spec fn pass_duration_on_schedule(p: SatellitePass, step_s: int) -> bool {
    &&& p.aos_time_ms < p.los_time_ms
    &&& (p.los_time_ms - p.aos_time_ms) % (step_s * 1000) == 0
    &&& p.duration_seconds == (p.los_time_ms - p.aos_time_ms) / 1000
    &&& (p.duration_seconds as int) % step_s == 0
    &&& p.duration_seconds >= step_s
}

/// On a fixed-step schedule, every pass the sweep emits spans a whole,
/// positive number of steps, so its duration is a positive multiple of the
/// sampling step.
pub proof fn lemma_sweep_durations_on_schedule(
    samples: Seq<Sample>,
    min_elevation: int,
    max_passes: int,
    start_ms: int,
    step_s: int,
)
    requires
        samples_wf(samples),
        samples_on_schedule(samples, start_ms, step_s),
        1 <= step_s,
    ensures
        forall|k: int|
            0 <= k < spec_sweep(samples, min_elevation, max_passes).len()
                ==> pass_duration_on_schedule(
                #[trigger] spec_sweep(samples, min_elevation, max_passes)[k],
                step_s,
            ),
{
    lemma_sweep_from_durations(
        samples,
        0,
        Option::None,
        0,
        Seq::empty(),
        min_elevation,
        max_passes,
        start_ms,
        step_s,
    );
}

proof fn lemma_sweep_from_durations(
    samples: Seq<Sample>,
    i: int,
    st: Option<PassProgress>,
    s0: int,
    acc: Seq<SatellitePass>,
    min_elevation: int,
    max_passes: int,
    start_ms: int,
    step_s: int,
)
    requires
        samples_wf(samples),
        samples_on_schedule(samples, start_ms, step_s),
        1 <= step_s,
        0 <= i <= samples.len(),
        st matches Option::Some(p) ==> 0 <= s0 < i && p.start_ms == samples[s0].time_ms,
        forall|k: int|
            0 <= k < acc.len() ==> pass_duration_on_schedule(#[trigger] acc[k], step_s),
    ensures
        forall|k: int|
            0 <= k < spec_sweep_from(samples, i, st, acc, min_elevation, max_passes).len()
                ==> pass_duration_on_schedule(
                #[trigger] spec_sweep_from(samples, i, st, acc, min_elevation, max_passes)[k],
                step_s,
            ),
    decreases samples.len() - i,
{
    if i >= samples.len() || acc.len() >= max_passes {
    } else {
        let s = samples[i];
        if s.angles.elevation_mdeg >= min_elevation {
            let p = match st {
                Option::None => spec_begin_pass(s),
                Option::Some(p0) => spec_advance_pass(p0, s),
            };
            let next_s0: int = match st {
                Option::None => i,
                Option::Some(p0) => s0,
            };
            lemma_sweep_from_durations(
                samples,
                i + 1,
                Option::Some(p),
                next_s0,
                acc,
                min_elevation,
                max_passes,
                start_ms,
                step_s,
            );
            assert(spec_sweep_from(samples, i, st, acc, min_elevation, max_passes)
                == spec_sweep_from(
                samples,
                i + 1,
                Option::Some(p),
                acc,
                min_elevation,
                max_passes,
            ));
        } else {
            match st {
                Option::None => {
                    lemma_sweep_from_durations(
                        samples,
                        i + 1,
                        Option::None,
                        0,
                        acc,
                        min_elevation,
                        max_passes,
                        start_ms,
                        step_s,
                    );
                    assert(spec_sweep_from(samples, i, st, acc, min_elevation, max_passes)
                        == spec_sweep_from(
                        samples,
                        i + 1,
                        Option::None,
                        acc,
                        min_elevation,
                        max_passes,
                    ));
                },
                Option::Some(p0) => {
                    let emitted = spec_emit_pass(p0, s);
                    lemma_emitted_pass_on_schedule(
                        samples,
                        s0,
                        i,
                        p0,
                        start_ms,
                        step_s,
                    );
                    assert(pass_duration_on_schedule(emitted, step_s));
                    let pushed = acc.push(emitted);
                    assert(forall|k: int|
                        0 <= k < pushed.len() ==> pass_duration_on_schedule(
                            #[trigger] pushed[k],
                            step_s,
                        ));
                    lemma_sweep_from_durations(
                        samples,
                        i + 1,
                        Option::None,
                        0,
                        pushed,
                        min_elevation,
                        max_passes,
                        start_ms,
                        step_s,
                    );
                    assert(spec_sweep_from(samples, i, st, acc, min_elevation, max_passes)
                        == spec_sweep_from(
                        samples,
                        i + 1,
                        Option::None,
                        pushed,
                        min_elevation,
                        max_passes,
                    ));
                },
            }
        }
    }
}

/// The pass closed at sample `i` after opening at sample `s0` spans
/// `i - s0` steps of the schedule.
proof fn lemma_emitted_pass_on_schedule(
    samples: Seq<Sample>,
    s0: int,
    i: int,
    p0: PassProgress,
    start_ms: int,
    step_s: int,
)
    requires
        samples_wf(samples),
        samples_on_schedule(samples, start_ms, step_s),
        1 <= step_s,
        0 <= s0 < i < samples.len(),
        p0.start_ms == samples[s0].time_ms,
    ensures
        pass_duration_on_schedule(spec_emit_pass(p0, samples[i]), step_s),
{
    let emitted = spec_emit_pass(p0, samples[i]);
    let step_ms = step_s * 1000;
    let n = i - s0;
    assert(samples[s0].time_ms == start_ms + s0 * step_s * 1000);
    assert(samples[i].time_ms == start_ms + i * step_s * 1000);
    assert(i * step_s * 1000 - s0 * step_s * 1000 == n * step_ms) by (nonlinear_arith)
        requires
            n == i - s0,
            step_ms == step_s * 1000;
    assert(emitted.los_time_ms - emitted.aos_time_ms == n * step_ms);
    assert(n * step_ms >= step_ms) by (nonlinear_arith)
        requires
            n >= 1,
            step_ms >= 1000;
    vstd::arithmetic::div_mod::lemma_mod_multiples_basic(n, step_ms);
    assert(n * step_ms == (n * step_s) * 1000) by (nonlinear_arith)
        requires
            step_ms == step_s * 1000;
    assert((n * step_ms) / 1000 == n * step_s);
    // The samples' timestamp bounds keep the window within `i64`, so the
    // duration recorded by the emission equals the mathematical quotient.
    assert(samples[s0].wf());
    assert(samples[i].wf());
    assert(emitted.duration_seconds == n * step_s);
    vstd::arithmetic::div_mod::lemma_mod_multiples_basic(n, step_s);
    assert(n * step_s >= step_s) by (nonlinear_arith)
        requires
            n >= 1,
            step_s >= 1,
    ;
}

/// Decide whether a sample stream is fit for a sweep: every sample well
/// formed and the instants strictly increasing. Callers that assembled the
/// stream from unchecked data test it here before searching.
pub fn samples_well_formed(samples: &Vec<Sample>) -> (r: bool)
    ensures
        r == (samples_wf(samples@) && samples_strictly_increasing(samples@)),
{
    let mut i: usize = 0;
    while i < samples.len()
        invariant
            0 <= i <= samples@.len(),
            forall|j: int| 0 <= j < i ==> (#[trigger] samples@[j]).wf(),
            forall|j: int| 1 <= j < i ==> samples@[j - 1].time_ms < #[trigger] samples@[j].time_ms,
        decreases samples@.len() - i,
    {
        let s: Sample = samples[i];
        if !(MIN_TIME_MS <= s.time_ms && s.time_ms <= MAX_TIME_MS && 0 <= s.angles.azimuth_mdeg
            && s.angles.azimuth_mdeg < 360_000 && -90_000 <= s.angles.elevation_mdeg
            && s.angles.elevation_mdeg <= 90_000 && 0 <= s.angles.range_m && s.angles.range_m
            <= 1_000_000_000_000) {
            assert(!samples@[i as int].wf());
            return false;
        }
        if i > 0 && samples[i - 1].time_ms >= s.time_ms {
            assert(samples@[i - 1].time_ms >= samples@[i as int].time_ms);
            return false;
        }
        i = i + 1;
    }
    proof {
        assert forall|j1: int, j2: int|
            0 <= j1 < j2 < samples@.len() implies samples@[j1].time_ms
            < samples@[j2].time_ms by {
            lemma_adjacent_sorted_implies_sorted(samples@, j1, j2);
        }
    }
    true
}

/// Adjacent order extends to the whole stream.
proof fn lemma_adjacent_sorted_implies_sorted(samples: Seq<Sample>, j1: int, j2: int)
    requires
        forall|j: int| 1 <= j < samples.len() ==> samples[j - 1].time_ms < #[trigger] samples[j].time_ms,
        0 <= j1 < j2 < samples.len(),
    ensures
        samples[j1].time_ms < samples[j2].time_ms,
    decreases j2 - j1,
{
    if j1 + 1 < j2 {
        lemma_adjacent_sorted_implies_sorted(samples, j1, j2 - 1);
    }
}

/// Detect the passes in a sampled search window.
///
/// `samples` is the stream the propagation adapter produced over the window,
/// in strictly increasing time order (a propagation failure mid-sweep simply
/// ends the stream early). The search fails only when the element set's epoch
/// is more than 90 days from the search start; otherwise it returns exactly
/// the passes of the two-state sweep, capped at `config.num_passes`, with an
/// unfinished pass at the stream's end dropped. No qualifying sample yields
/// an empty list, not an error.
pub fn predict_passes(
    epoch_unix_ms: i64,
    now_ms: i64,
    samples: &Vec<Sample>,
    config: &PredictionConfig,
) -> (r: Result<Vec<SatellitePass>, StaleElementsError>)
    requires
        config.wf(),
        MIN_TIME_MS <= epoch_unix_ms <= MAX_TIME_MS,
        MIN_TIME_MS <= now_ms <= MAX_TIME_MS,
        samples_wf(samples@),
        samples_strictly_increasing(samples@),
    ensures
        r is Ok <==> spec_epoch_age_days(epoch_unix_ms as int, now_ms as int)
            <= MAX_EPOCH_AGE_DAYS,
        r matches Ok(passes) ==> passes@ == spec_sweep(
            samples@,
            config.min_elevation_mdeg as int,
            config.num_passes as int,
        ),
        r matches Err(e) ==> e.age_days == spec_epoch_age_days(
            epoch_unix_ms as int,
            now_ms as int,
        ) && e.age_days > MAX_EPOCH_AGE_DAYS,
{
    let age_days: i64 = epoch_age_days(epoch_unix_ms, now_ms);
    if age_days > MAX_EPOCH_AGE_DAYS {
        return Err(StaleElementsError { age_days });
    }
    let ghost min_elevation: int = config.min_elevation_mdeg as int;
    let ghost max_passes: int = config.num_passes as int;
    let mut passes: Vec<SatellitePass> = Vec::new();
    let mut progress: Option<PassProgress> = None;
    let mut i: usize = 0;
    while i < samples.len() && passes.len() < config.num_passes
        invariant
            config.wf(),
            samples_wf(samples@),
            samples_strictly_increasing(samples@),
            min_elevation == config.min_elevation_mdeg as int,
            max_passes == config.num_passes as int,
            0 <= i <= samples@.len(),
            passes@.len() <= max_passes,
            progress matches Some(p) ==> {
                &&& 0 < i
                &&& p.start_ms <= p.max_elevation_time_ms <= samples@[i - 1].time_ms
                &&& MIN_TIME_MS <= p.start_ms
            },
            spec_sweep_from(samples@, i as int, progress, passes@, min_elevation, max_passes)
                == spec_sweep(samples@, min_elevation, max_passes),
        decreases samples@.len() - i,
    {
        let s: Sample = samples[i];
        assert(s == samples@[i as int]);
        assert(s.wf());
        if s.angles.elevation_mdeg >= config.min_elevation_mdeg {
            let next: PassProgress = match progress {
                None => PassProgress {
                    start_ms: s.time_ms,
                    aos_azimuth_mdeg: s.angles.azimuth_mdeg,
                    max_elevation_mdeg: s.angles.elevation_mdeg,
                    max_elevation_time_ms: s.time_ms,
                    max_azimuth_mdeg: s.angles.azimuth_mdeg,
                    max_range_m: s.angles.range_m,
                },
                Some(p) => {
                    if s.angles.elevation_mdeg > p.max_elevation_mdeg {
                        PassProgress {
                            start_ms: p.start_ms,
                            aos_azimuth_mdeg: p.aos_azimuth_mdeg,
                            max_elevation_mdeg: s.angles.elevation_mdeg,
                            max_elevation_time_ms: s.time_ms,
                            max_azimuth_mdeg: s.angles.azimuth_mdeg,
                            max_range_m: s.angles.range_m,
                        }
                    } else {
                        p
                    }
                },
            };
            proof {
                match progress {
                    Some(p0) => {
                        assert(next == spec_advance_pass(p0, s));
                        assert(samples@[i - 1].time_ms < samples@[i as int].time_ms);
                    },
                    None => {
                        assert(next == spec_begin_pass(s));
                    },
                }
            }
            progress = Some(next);
        } else {
            if let Some(p) = progress {
                proof {
                    assert(samples@[i - 1].time_ms < samples@[i as int].time_ms);
                }
                let pass = SatellitePass {
                    aos_time_ms: p.start_ms,
                    los_time_ms: s.time_ms,
                    max_elevation_mdeg: p.max_elevation_mdeg,
                    max_elevation_time_ms: p.max_elevation_time_ms,
                    aos_azimuth_mdeg: p.aos_azimuth_mdeg,
                    max_azimuth_mdeg: p.max_azimuth_mdeg,
                    los_azimuth_mdeg: s.angles.azimuth_mdeg,
                    duration_seconds: (s.time_ms - p.start_ms) / 1000,
                    max_range_m: p.max_range_m,
                };
                proof {
                    assert(pass == spec_emit_pass(p, s));
                }
                passes.push(pass);
                progress = None;
            }
        }
        i = i + 1;
    }
    proof {
        assert(spec_sweep_from(samples@, i as int, progress, passes@, min_elevation, max_passes)
            == passes@);
    }
    Ok(passes)
}

/// Identical sample streams and search parameters yield an identical pass
/// list: any two results that meet `predict_passes`'s contract on the same
/// inputs are equal.
pub proof fn lemma_prediction_deterministic(
    r1: Seq<SatellitePass>,
    r2: Seq<SatellitePass>,
    samples: Seq<Sample>,
    min_elevation: int,
    max_passes: int,
)
    requires
        r1 == spec_sweep(samples, min_elevation, max_passes),
        r2 == spec_sweep(samples, min_elevation, max_passes),
    ensures
        r1 == r2,
{
}

/// A stream whose elevation never reaches the threshold produces no pass.
pub proof fn lemma_no_qualifying_sample_no_pass(
    samples: Seq<Sample>,
    min_elevation: int,
    max_passes: int,
)
    requires
        forall|i: int|
            0 <= i < samples.len() ==> #[trigger] samples[i].angles.elevation_mdeg < min_elevation,
    ensures
        spec_sweep(samples, min_elevation, max_passes) == Seq::<SatellitePass>::empty(),
{
    lemma_sweep_from_below_threshold(samples, 0, Seq::empty(), min_elevation, max_passes);
}

proof fn lemma_sweep_from_below_threshold(
    samples: Seq<Sample>,
    i: int,
    acc: Seq<SatellitePass>,
    min_elevation: int,
    max_passes: int,
)
    requires
        forall|k: int|
            0 <= k < samples.len() ==> #[trigger] samples[k].angles.elevation_mdeg < min_elevation,
    ensures
        spec_sweep_from(samples, i, Option::None, acc, min_elevation, max_passes) == acc,
    decreases samples.len() - i,
{
    if 0 <= i < samples.len() && acc.len() < max_passes {
        lemma_sweep_from_below_threshold(samples, i + 1, acc, min_elevation, max_passes);
    }
}

/// What an open pass record satisfies while the sweep stands at sample `i`.
spec fn progress_ok(p: PassProgress, samples: Seq<Sample>, i: int, min_elevation: int) -> bool {
    &&& 0 < i <= samples.len()
    &&& MIN_TIME_MS <= p.start_ms
    &&& p.start_ms <= p.max_elevation_time_ms <= samples[i - 1].time_ms
    &&& p.max_elevation_mdeg >= min_elevation
    &&& azimuth_wf(p.aos_azimuth_mdeg)
    &&& azimuth_wf(p.max_azimuth_mdeg)
    &&& 0 <= p.max_range_m
}

/// Every pass the sweep emits is well formed (`pass_wf`): the elevation peak
/// lies at or after acquisition and strictly before loss, the peak reaches
/// the search threshold, the duration matches the window, and the azimuths
/// are normalized.
pub proof fn lemma_sweep_passes_well_formed(
    samples: Seq<Sample>,
    min_elevation: int,
    max_passes: int,
)
    requires
        samples_wf(samples),
        samples_strictly_increasing(samples),
    ensures
        forall|k: int|
            0 <= k < spec_sweep(samples, min_elevation, max_passes).len() ==> pass_wf(
                #[trigger] spec_sweep(samples, min_elevation, max_passes)[k],
                min_elevation,
            ),
{
    lemma_sweep_from_well_formed(samples, 0, Option::None, Seq::empty(), min_elevation, max_passes);
}

proof fn lemma_sweep_from_well_formed(
    samples: Seq<Sample>,
    i: int,
    st: Option<PassProgress>,
    acc: Seq<SatellitePass>,
    min_elevation: int,
    max_passes: int,
)
    requires
        samples_wf(samples),
        samples_strictly_increasing(samples),
        0 <= i <= samples.len(),
        st matches Option::Some(p) ==> progress_ok(p, samples, i, min_elevation),
        forall|k: int| 0 <= k < acc.len() ==> pass_wf(#[trigger] acc[k], min_elevation),
    ensures
        forall|k: int|
            0 <= k < spec_sweep_from(samples, i, st, acc, min_elevation, max_passes).len()
                ==> pass_wf(
                #[trigger] spec_sweep_from(samples, i, st, acc, min_elevation, max_passes)[k],
                min_elevation,
            ),
    decreases samples.len() - i,
{
    if i >= samples.len() || acc.len() >= max_passes {
    } else {
        let s = samples[i];
        assert(s.wf());
        if s.angles.elevation_mdeg >= min_elevation {
            let p = match st {
                Option::None => spec_begin_pass(s),
                Option::Some(p0) => spec_advance_pass(p0, s),
            };
            match st {
                Option::Some(p0) => {
                    assert(samples[i - 1].time_ms < samples[i].time_ms);
                    assert(p == spec_advance_pass(p0, s));
                },
                Option::None => {
                },
            }
            assert(progress_ok(p, samples, i + 1, min_elevation));
            lemma_sweep_from_well_formed(
                samples,
                i + 1,
                Option::Some(p),
                acc,
                min_elevation,
                max_passes,
            );
            assert(spec_sweep_from(samples, i, st, acc, min_elevation, max_passes)
                == spec_sweep_from(
                samples,
                i + 1,
                Option::Some(p),
                acc,
                min_elevation,
                max_passes,
            ));
        } else {
            match st {
                Option::None => {
                    lemma_sweep_from_well_formed(
                        samples,
                        i + 1,
                        Option::None,
                        acc,
                        min_elevation,
                        max_passes,
                    );
                    assert(spec_sweep_from(samples, i, st, acc, min_elevation, max_passes)
                        == spec_sweep_from(
                        samples,
                        i + 1,
                        Option::None,
                        acc,
                        min_elevation,
                        max_passes,
                    ));
                },
                Option::Some(p0) => {
                    assert(samples[i - 1].time_ms < samples[i].time_ms);
                    let emitted = spec_emit_pass(p0, s);
                    assert(pass_wf(emitted, min_elevation));
                    let pushed = acc.push(emitted);
                    assert(forall|k: int|
                        0 <= k < pushed.len() ==> pass_wf(#[trigger] pushed[k], min_elevation));
                    lemma_sweep_from_well_formed(
                        samples,
                        i + 1,
                        Option::None,
                        pushed,
                        min_elevation,
                        max_passes,
                    );
                    assert(spec_sweep_from(samples, i, st, acc, min_elevation, max_passes)
                        == spec_sweep_from(
                        samples,
                        i + 1,
                        Option::None,
                        pushed,
                        min_elevation,
                        max_passes,
                    ));
                },
            }
        }
    }
}

/// Sample `s` falls inside pass `p`'s window.
pub open spec fn sample_in_pass(p: SatellitePass, s: Sample) -> bool {
    p.aos_time_ms <= s.time_ms < p.los_time_ms
}

/// The pass is faithful to its sample window: every sample inside the window
/// kept the object at or above the search threshold and at or below the
/// recorded peak; some sample attains the peak at the recorded instant, with
/// the recorded azimuth and range; and no earlier sample of the window
/// reaches the peak, so the recorded instant is the first attaining sample.
/// The peak is thus the sampled maximum (sampling-limited, not an analytic
/// extremum).
pub open spec fn pass_peak_sampled_max(
    p: SatellitePass,
    samples: Seq<Sample>,
    min_elevation: int,
) -> bool {
    &&& forall|j: int|
        0 <= j < samples.len() && sample_in_pass(p, #[trigger] samples[j]) ==> min_elevation
            <= samples[j].angles.elevation_mdeg <= p.max_elevation_mdeg
    &&& forall|j: int|
        0 <= j < samples.len() && sample_in_pass(p, #[trigger] samples[j])
            && samples[j].time_ms < p.max_elevation_time_ms
            ==> samples[j].angles.elevation_mdeg < p.max_elevation_mdeg
    &&& exists|j: int|
        {
            &&& 0 <= j < samples.len()
            &&& #[trigger] samples[j].time_ms == p.max_elevation_time_ms
            &&& samples[j].angles.elevation_mdeg == p.max_elevation_mdeg
            &&& samples[j].angles.azimuth_mdeg == p.max_azimuth_mdeg
            &&& samples[j].angles.range_m == p.max_range_m
        }
}

/// An open pass record describes the samples from `s0` up to `i`: they all
/// lie between the threshold and the running peak, the peak is attained
/// among them, and nothing before the recorded peak instant reaches it.
spec fn progress_matches_window(
    p: PassProgress,
    samples: Seq<Sample>,
    i: int,
    s0: int,
    min_elevation: int,
) -> bool {
    &&& 0 <= s0 < i <= samples.len()
    &&& p.start_ms == samples[s0].time_ms
    &&& forall|j: int|
        s0 <= j < i ==> min_elevation <= (#[trigger] samples[j]).angles.elevation_mdeg
            <= p.max_elevation_mdeg
    &&& forall|j: int|
        s0 <= j < i && #[trigger] samples[j].time_ms < p.max_elevation_time_ms
            ==> samples[j].angles.elevation_mdeg < p.max_elevation_mdeg
    &&& exists|j: int|
        {
            &&& s0 <= j < i
            &&& #[trigger] samples[j].time_ms == p.max_elevation_time_ms
            &&& samples[j].angles.elevation_mdeg == p.max_elevation_mdeg
            &&& samples[j].angles.azimuth_mdeg == p.max_azimuth_mdeg
            &&& samples[j].angles.range_m == p.max_range_m
        }
}

/// Every pass the sweep emits is faithful to its sample window: all samples
/// inside the window lie between the search threshold and the pass's peak,
/// and the peak is attained at the recorded instant.
pub proof fn lemma_sweep_peak_is_sampled_maximum(
    samples: Seq<Sample>,
    min_elevation: int,
    max_passes: int,
)
    requires
        samples_strictly_increasing(samples),
    ensures
        forall|k: int|
            0 <= k < spec_sweep(samples, min_elevation, max_passes).len()
                ==> pass_peak_sampled_max(
                #[trigger] spec_sweep(samples, min_elevation, max_passes)[k],
                samples,
                min_elevation,
            ),
{
    lemma_sweep_from_peak(samples, 0, Option::None, 0, Seq::empty(), min_elevation, max_passes);
}

proof fn lemma_sweep_from_peak(
    samples: Seq<Sample>,
    i: int,
    st: Option<PassProgress>,
    s0: int,
    acc: Seq<SatellitePass>,
    min_elevation: int,
    max_passes: int,
)
    requires
        samples_strictly_increasing(samples),
        0 <= i <= samples.len(),
        st matches Option::Some(p) ==> progress_matches_window(p, samples, i, s0, min_elevation),
        forall|k: int|
            0 <= k < acc.len() ==> pass_peak_sampled_max(
                #[trigger] acc[k],
                samples,
                min_elevation,
            ),
    ensures
        forall|k: int|
            0 <= k < spec_sweep_from(samples, i, st, acc, min_elevation, max_passes).len()
                ==> pass_peak_sampled_max(
                #[trigger] spec_sweep_from(samples, i, st, acc, min_elevation, max_passes)[k],
                samples,
                min_elevation,
            ),
    decreases samples.len() - i,
{
    if i >= samples.len() || acc.len() >= max_passes {
    } else {
        let s = samples[i];
        if s.angles.elevation_mdeg >= min_elevation {
            let p = match st {
                Option::None => spec_begin_pass(s),
                Option::Some(p0) => spec_advance_pass(p0, s),
            };
            let next_s0: int = match st {
                Option::None => i,
                Option::Some(p0) => s0,
            };
            match st {
                Option::None => {
                    assert(progress_matches_window(p, samples, i + 1, i, min_elevation));
                },
                Option::Some(p0) => {
                    let jm = choose|j: int|
                        {
                            &&& s0 <= j < i
                            &&& #[trigger] samples[j].time_ms == p0.max_elevation_time_ms
                            &&& samples[j].angles.elevation_mdeg == p0.max_elevation_mdeg
                            &&& samples[j].angles.azimuth_mdeg == p0.max_azimuth_mdeg
                            &&& samples[j].angles.range_m == p0.max_range_m
                        };
                    assert(samples[jm].time_ms < samples[i].time_ms);
                    if s.angles.elevation_mdeg > p0.max_elevation_mdeg {
                        assert(samples[i].time_ms == p.max_elevation_time_ms);
                        assert forall|j: int|
                            s0 <= j < i + 1 && #[trigger] samples[j].time_ms
                                < p.max_elevation_time_ms implies samples[j].angles.elevation_mdeg
                            < p.max_elevation_mdeg by {
                            if j < i {
                                assert(samples[j].angles.elevation_mdeg
                                    <= p0.max_elevation_mdeg);
                            }
                        }
                        assert(progress_matches_window(p, samples, i + 1, s0, min_elevation));
                    } else {
                        assert(progress_matches_window(p, samples, i + 1, s0, min_elevation));
                    }
                },
            }
            lemma_sweep_from_peak(
                samples,
                i + 1,
                Option::Some(p),
                next_s0,
                acc,
                min_elevation,
                max_passes,
            );
            assert(spec_sweep_from(samples, i, st, acc, min_elevation, max_passes)
                == spec_sweep_from(
                samples,
                i + 1,
                Option::Some(p),
                acc,
                min_elevation,
                max_passes,
            ));
        } else {
            match st {
                Option::None => {
                    lemma_sweep_from_peak(
                        samples,
                        i + 1,
                        Option::None,
                        0,
                        acc,
                        min_elevation,
                        max_passes,
                    );
                    assert(spec_sweep_from(samples, i, st, acc, min_elevation, max_passes)
                        == spec_sweep_from(
                        samples,
                        i + 1,
                        Option::None,
                        acc,
                        min_elevation,
                        max_passes,
                    ));
                },
                Option::Some(p0) => {
                    let emitted = spec_emit_pass(p0, s);
                    assert(emitted.aos_time_ms == samples[s0].time_ms);
                    assert(emitted.los_time_ms == samples[i].time_ms);
                    assert forall|j: int|
                        0 <= j < samples.len() && sample_in_pass(
                            emitted,
                            #[trigger] samples[j],
                        ) implies min_elevation <= samples[j].angles.elevation_mdeg
                        <= emitted.max_elevation_mdeg by {
                        if j < s0 {
                            assert(samples[j].time_ms < samples[s0].time_ms);
                        } else if j > i {
                            assert(samples[i].time_ms < samples[j].time_ms);
                        }
                    }
                    assert forall|j: int|
                        0 <= j < samples.len() && sample_in_pass(emitted, #[trigger] samples[j])
                            && samples[j].time_ms < emitted.max_elevation_time_ms
                        implies samples[j].angles.elevation_mdeg
                        < emitted.max_elevation_mdeg by {
                        if j < s0 {
                            assert(samples[j].time_ms < samples[s0].time_ms);
                        } else if j > i {
                            assert(samples[i].time_ms < samples[j].time_ms);
                        }
                    }
                    assert(pass_peak_sampled_max(emitted, samples, min_elevation));
                    let pushed = acc.push(emitted);
                    assert(forall|k: int|
                        0 <= k < pushed.len() ==> pass_peak_sampled_max(
                            #[trigger] pushed[k],
                            samples,
                            min_elevation,
                        ));
                    lemma_sweep_from_peak(
                        samples,
                        i + 1,
                        Option::None,
                        0,
                        pushed,
                        min_elevation,
                        max_passes,
                    );
                    assert(spec_sweep_from(samples, i, st, acc, min_elevation, max_passes)
                        == spec_sweep_from(
                        samples,
                        i + 1,
                        Option::None,
                        pushed,
                        min_elevation,
                        max_passes,
                    ));
                },
            }
        }
    }
}

/// The sampling schedule of a search window: instants starting at `now_ms`,
/// advancing by the step, strictly before the window's end.
pub fn sample_times(now_ms: i64, search_days: u32, time_step_s: u32) -> (r: Vec<i64>)
    requires
        1 <= time_step_s,
        search_days <= 36_500,
        MIN_TIME_MS <= now_ms <= MAX_TIME_MS,
    ensures
        forall|k: int|
            0 <= k < r@.len() ==> #[trigger] r@[k] == now_ms + k * (time_step_s as int) * 1000,
        r@.len() * (time_step_s as int) * 1000 >= (search_days as int) * (MS_PER_DAY as int),
        r@.len() > 0 ==> (r@.len() - 1) * (time_step_s as int) * 1000 < (search_days as int) * (
        MS_PER_DAY as int),
{
    let step_ms: i64 = time_step_s as i64 * 1000;
    let window_ms: i64 = search_days as i64 * MS_PER_DAY;
    let mut times: Vec<i64> = Vec::new();
    let mut offset: i64 = 0;
    while offset < window_ms
        invariant
            1 <= step_ms <= 5_000_000_000_000,
            0 <= window_ms <= 36_500 * 86_400_000,
            step_ms == time_step_s as int * 1000,
            MIN_TIME_MS <= now_ms <= MAX_TIME_MS,
            offset == times@.len() * step_ms,
            times@.len() > 0 ==> (times@.len() - 1) * step_ms < window_ms,
            forall|k: int|
                0 <= k < times@.len() ==> #[trigger] times@[k] == now_ms + k * (
                time_step_s as int) * 1000,
        decreases
            (if window_ms - offset >= 0 {
                window_ms - offset
            } else {
                0
            }),
    {
        times.push(now_ms + offset);
        proof {
            let n = times@.len() as int;
            assert(n * (step_ms as int) == (n - 1) * (step_ms as int) + step_ms) by (nonlinear_arith);
            assert((n - 1) * (step_ms as int) == (n - 1) * (time_step_s as int) * 1000)
                by (nonlinear_arith)
                requires step_ms == time_step_s as int * 1000;
        }
        offset = offset + step_ms;
    }
    proof {
        let n = times@.len() as int;
        assert(n * (time_step_s as int) * 1000 == n * (step_ms as int))
            by (nonlinear_arith)
            requires step_ms == time_step_s as int * 1000;
        if n > 0 {
            assert((n - 1) * (time_step_s as int) * 1000 == (n - 1) * (step_ms as int))
                by (nonlinear_arith)
                requires step_ms == time_step_s as int * 1000;
        }
    }
    times
}

} // verus!
