//! Upcoming-pass alerts.
//!
//! Recomputed from scratch every cycle: for each tracked object only its
//! nearest strictly-future pass is considered, and it raises an alert exactly
//! when it peaks at or above the alert threshold and begins within the
//! configured lead time. At most one alert per object per cycle.

use vstd::prelude::*;

use crate::config::AlertsConfig;
use crate::pass_prediction::SatellitePass;
use crate::satellite::Satellite;
use crate::satellite::spec_next_pass;
use crate::time::MAX_TIME_MS;
use crate::time::MIN_TIME_MS;

verus! {

/// An upcoming pass worth the operator's attention.
#[derive(Clone, Debug)]
pub struct Alert {
    /// Name of the tracked object.
    pub satellite_name: String,
    /// The pass the alert announces.
    pub pass: SatellitePass,
    /// Whole minutes until acquisition of signal.
    pub time_until_minutes: i64,
}

/// A pass's acquisition times lie in the library's timestamp range.
pub open spec fn pass_times_bounded(p: SatellitePass) -> bool {
    MIN_TIME_MS <= p.aos_time_ms <= MAX_TIME_MS
}

/// All of a satellite's predicted passes have bounded acquisition times.
pub open spec fn satellite_passes_bounded(s: Satellite) -> bool {
    forall|k: int| 0 <= k < s.passes@.len() ==> pass_times_bounded(#[trigger] s.passes@[k])
}

/// Whether a pass raises an alert at `now`: it peaks at or above the alert
/// threshold and begins strictly in the future, at most the lead time away
/// (in whole minutes).
pub open spec fn spec_alert_due(p: SatellitePass, now_ms: int, cfg: AlertsConfig) -> bool {
    &&& p.max_elevation_mdeg >= cfg.min_elevation_for_alert_mdeg
    &&& 0 < (p.aos_time_ms - now_ms) / 60_000 <= cfg.alert_before_pass
}

/// The alert a due pass raises.
pub open spec fn spec_make_alert(s: Satellite, p: SatellitePass, now_ms: int) -> Alert {
    Alert {
        satellite_name: s.name,
        pass: p,
        time_until_minutes: ((p.aos_time_ms - now_ms) / 60_000) as i64,
    }
}

/// The alerts of the satellites from index `i` on, appended to `acc`.
pub open spec fn spec_alerts_from(
    sats: Seq<Satellite>,
    i: int,
    now_ms: int,
    cfg: AlertsConfig,
    acc: Seq<Alert>,
) -> Seq<Alert>
    decreases sats.len() - i,
{
    if i < 0 || i >= sats.len() {
        acc
    } else {
        let acc2 = match spec_next_pass(sats[i].passes@, now_ms) {
            Option::Some(p) => if spec_alert_due(p, now_ms, cfg) {
                acc.push(spec_make_alert(sats[i], p, now_ms))
            } else {
                acc
            },
            Option::None => acc,
        };
        spec_alerts_from(sats, i + 1, now_ms, cfg, acc2)
    }
}

/// The active alert set of one cycle: per object in order, the alert of its
/// nearest future pass if that pass is due; nothing while alerting is off.
pub open spec fn spec_alerts(sats: Seq<Satellite>, now_ms: int, cfg: AlertsConfig) -> Seq<Alert> {
    if cfg.enabled {
        spec_alerts_from(sats, 0, now_ms, cfg, Seq::empty())
    } else {
        Seq::empty()
    }
}

/// Decide whether every predicted pass of every object has its acquisition
/// time in the library's range. Callers holding unchecked pass data test it
/// here before computing alerts.
pub fn all_passes_bounded(satellites: &Vec<Satellite>) -> (r: bool)
    ensures
        r == forall|k: int|
            0 <= k < satellites@.len() ==> satellite_passes_bounded(#[trigger] satellites@[k]),
{
    let mut i: usize = 0;
    while i < satellites.len()
        invariant
            0 <= i <= satellites@.len(),
            forall|k: int| 0 <= k < i ==> satellite_passes_bounded(#[trigger] satellites@[k]),
        decreases satellites@.len() - i,
    {
        let satellite: &Satellite = &satellites[i];
        let mut j: usize = 0;
        while j < satellite.passes.len()
            invariant
                0 <= i < satellites@.len(),
                *satellite == satellites@[i as int],
                0 <= j <= satellite.passes@.len(),
                forall|k: int| 0 <= k < j ==> pass_times_bounded(#[trigger] satellite.passes@[k]),
            decreases satellite.passes@.len() - j,
        {
            let aos: i64 = satellite.passes[j].aos_time_ms;
            if aos < MIN_TIME_MS || aos > MAX_TIME_MS {
                proof {
                    assert(!pass_times_bounded(satellite.passes@[j as int]));
                    assert(*satellite == satellites@[i as int]);
                    assert(!satellite_passes_bounded(satellites@[i as int]));
                }
                return false;
            }
            j = j + 1;
        }
        i = i + 1;
    }
    true
}

/// Compute this cycle's alerts from the tracked objects' predicted passes.
///
/// Pure in its inputs: each cycle replaces the previous alert set wholesale.
pub fn compute_alerts(satellites: &Vec<Satellite>, now_ms: i64, cfg: &AlertsConfig) -> (r: Vec<
    Alert,
>)
    requires
        MIN_TIME_MS <= now_ms <= MAX_TIME_MS,
        forall|k: int|
            0 <= k < satellites@.len() ==> satellite_passes_bounded(#[trigger] satellites@[k]),
    ensures
        r@ == spec_alerts(satellites@, now_ms as int, *cfg),
{
    let mut alerts: Vec<Alert> = Vec::new();
    if !cfg.enabled {
        return alerts;
    }
    let mut i: usize = 0;
    while i < satellites.len()
        invariant
            MIN_TIME_MS <= now_ms <= MAX_TIME_MS,
            0 <= i <= satellites@.len(),
            forall|k: int|
                0 <= k < satellites@.len() ==> satellite_passes_bounded(#[trigger] satellites@[k]),
            spec_alerts_from(satellites@, i as int, now_ms as int, *cfg, alerts@) == spec_alerts(
                satellites@,
                now_ms as int,
                *cfg,
            ),
            cfg.enabled,
        decreases satellites@.len() - i,
    {
        let satellite: &Satellite = &satellites[i];
        match satellite.get_next_pass(now_ms) {
            Some(next_pass) => {
                proof {
                    lemma_next_pass_in_list(satellite.passes@, now_ms as int);
                }
                if next_pass.max_elevation_mdeg >= cfg.min_elevation_for_alert_mdeg {
                    let minutes_until: i64 = (next_pass.aos_time_ms - now_ms) / 60_000;
                    if 0 < minutes_until && minutes_until <= cfg.alert_before_pass {
                        let alert = Alert {
                            satellite_name: satellite.name.clone(),
                            pass: next_pass,
                            time_until_minutes: minutes_until,
                        };
                        proof {
                            assert(alert == spec_make_alert(
                                satellites@[i as int],
                                next_pass,
                                now_ms as int,
                            ));
                        }
                        alerts.push(alert);
                    }
                }
            },
            None => {},
        }
        i = i + 1;
    }
    alerts
}

/// A pass returned by the next-pass search is one of the list's passes, so
/// its times inherit the list's bounds.
proof fn lemma_next_pass_in_list(passes: Seq<SatellitePass>, now_ms: int)
    requires
        forall|k: int| 0 <= k < passes.len() ==> pass_times_bounded(#[trigger] passes[k]),
    ensures
        spec_next_pass(passes, now_ms) matches Option::Some(p) ==> pass_times_bounded(p),
{
    lemma_first_future_bounded(passes, 0, now_ms);
}

proof fn lemma_first_future_bounded(passes: Seq<SatellitePass>, i: int, now_ms: int)
    requires
        forall|k: int| 0 <= k < passes.len() ==> pass_times_bounded(#[trigger] passes[k]),
        0 <= i,
    ensures
        crate::satellite::spec_first_future_from(passes, i, now_ms) matches Option::Some(p)
            ==> pass_times_bounded(p),
    decreases passes.len() - i,
{
    if i < passes.len() && passes[i].aos_time_ms <= now_ms {
        lemma_first_future_bounded(passes, i + 1, now_ms);
    }
}

} // verus!
