use vstd::prelude::*;

use crate::config::ConfigModel;
use crate::machine::{tick_fires_phase1, tick_state, tick_terminates};
use crate::state::StateModel;

verus! {

/// One tick keeps the state invariant, whatever the sample.
pub proof fn lemma_tick_preserves_wf(c: ConfigModel, s: StateModel, idle: int, now: int)
    requires
        s.wf(),
    ensures
        tick_state(c, s, idle, now).wf(),
{
}

/// The state after ticking through a whole sequence of (idle, now) samples.
pub open spec fn run_over(c: ConfigModel, s: StateModel, samples: Seq<(int, int)>) -> StateModel
    decreases samples.len(),
{
    if samples.len() == 0 {
        s
    } else {
        run_over(c, tick_state(c, s, samples[0].0, samples[0].1), samples.drop_first())
    }
}

/// How many ticks of such a run fire phase 1.
pub open spec fn phase1_firings(c: ConfigModel, s: StateModel, samples: Seq<(int, int)>) -> int
    decreases samples.len(),
{
    if samples.len() == 0 {
        0
    } else {
        (if tick_fires_phase1(c, s, samples[0].0, samples[0].1) {
            1int
        } else {
            0int
        }) + phase1_firings(c, tick_state(c, s, samples[0].0, samples[0].1), samples.drop_first())
    }
}

proof fn lemma_fired_stays_over_run(c: ConfigModel, s: StateModel, samples: Seq<(int, int)>)
    requires
        s.wf(),
        s.phase1_fired,
    ensures
        phase1_firings(c, s, samples) == 0,
        run_over(c, s, samples).phase1_fired,
        run_over(c, s, samples).wf(),
    decreases samples.len(),
{
    if samples.len() > 0 {
        lemma_fired_stays_over_run(
            c,
            tick_state(c, s, samples[0].0, samples[0].1),
            samples.drop_first(),
        );
    }
}

/// Phase 1 fires at most once per idle episode: over any sequence of
/// samples, however many of them lie at or past the threshold, a run fires
/// phase 1 at most one time (only a reset between runs can rearm it).
pub proof fn lemma_phase1_at_most_once_over_run(
    c: ConfigModel,
    s: StateModel,
    samples: Seq<(int, int)>,
)
    requires
        s.wf(),
    ensures
        phase1_firings(c, s, samples) <= 1,
    decreases samples.len(),
{
    if samples.len() > 0 {
        let s1 = tick_state(c, s, samples[0].0, samples[0].1);
        lemma_tick_preserves_wf(c, s, samples[0].0, samples[0].1);
        if tick_fires_phase1(c, s, samples[0].0, samples[0].1) {
            lemma_fired_stays_over_run(c, s1, samples.drop_first());
        } else {
            lemma_phase1_at_most_once_over_run(c, s1, samples.drop_first());
        }
    }
}

/// While every idle sample of a run stays below the phase-1 threshold, a
/// machine starting Active never fires anything and never changes.
pub proof fn lemma_below_threshold_over_run(
    c: ConfigModel,
    s: StateModel,
    samples: Seq<(int, int)>,
)
    requires
        c.wf(),
        s.wf(),
        !s.phase1_fired,
        forall|i: int| 0 <= i < samples.len() ==> #[trigger] samples[i].0 < c.phase1_ms,
    ensures
        phase1_firings(c, s, samples) == 0,
        run_over(c, s, samples) == s,
    decreases samples.len(),
{
    if samples.len() > 0 {
        crate::machine::lemma_below_phase1_no_fire(c, s, samples[0].0, samples[0].1);
        lemma_below_threshold_over_run(c, s, samples.drop_first());
    }
}

/// Ceiling division: for `a >= 0` and `t >= 1`, the least `k` with
/// `k * t >= a`.
pub open spec fn ceil_div(a: int, t: int) -> int {
    (a + t - 1) / t
}

proof fn lemma_ceil_div(a: int, t: int)
    requires
        0 <= a,
        1 <= t,
    ensures
        0 <= ceil_div(a, t),
        ceil_div(a, t) * t >= a,
        (ceil_div(a, t) - 1) * t < a,
        a == 0 ==> ceil_div(a, t) == 0,
        a > 0 ==> ceil_div(a, t) >= 1,
{
    let q = (a + t - 1) / t;
    let r = (a + t - 1) % t;
    vstd::arithmetic::div_mod::lemma_fundamental_div_mod(a + t - 1, t);
    vstd::arithmetic::div_mod::lemma_mod_bound(a + t - 1, t);
    assert(q * t >= a && (q - 1) * t < a && q >= 0) by (nonlinear_arith)
        requires
            a + t - 1 == t * q + r,
            0 <= r < t,
            0 <= a,
            1 <= t,
    ;
    assert(a == 0 ==> q == 0) by (nonlinear_arith)
        requires
            q * t >= a,
            (q - 1) * t < a,
            q >= 0,
            1 <= t,
    ;
    assert(a > 0 ==> q >= 1) by (nonlinear_arith)
        requires
            q * t >= a,
            q >= 0,
            1 <= t,
    ;
}

/// The state after `k` ticks of an undisturbed run with a tick interval of
/// `t` milliseconds: ticks happen at times 0, t, 2t, ...; no input event
/// ever arrives, and each tick's idle sample equals its clock — idle grows
/// monotonically from 0.
pub open spec fn run_state(c: ConfigModel, t: int, k: nat) -> StateModel
    decreases k,
{
    if k == 0 {
        StateModel::baseline(0, None)
    } else {
        tick_state(c, run_state(c, t, (k - 1) as nat), (k - 1) * t, (k - 1) * t)
    }
}

/// Whether tick `k` of that run reports termination.
pub open spec fn run_terminates_at(c: ConfigModel, t: int, k: nat) -> bool {
    tick_terminates(c, run_state(c, t, k), k * t, k * t)
}

/// The tick index at which phase 1 fires in such a run.
pub open spec fn phase1_tick(c: ConfigModel, t: int) -> int {
    ceil_div(c.phase1_ms, t)
}

/// The tick index at which the phase-2 countdown starts.
pub open spec fn phase2_start_tick(c: ConfigModel, t: int) -> int {
    phase1_tick(c, t) + ceil_div(c.snooze_ms, t)
}

/// The tick index at which the run terminates.
pub open spec fn terminate_tick(c: ConfigModel, t: int) -> int {
    phase2_start_tick(c, t) + ceil_div(c.phase2_ms, t)
}

/// Closed form of `run_state`: baseline until phase 1 fires at the first
/// tick at or past `phase1_ms`; then (with a snooze configured) snoozing
/// until the first tick at or past the snooze timer; then counting down.
pub open spec fn run_profile(c: ConfigModel, t: int, k: nat) -> StateModel {
    let k1 = phase1_tick(c, t);
    let k2 = phase2_start_tick(c, t);
    if k <= k1 {
        StateModel::baseline(0, None)
    } else if c.snooze_ms > 0 && k <= k2 {
        StateModel {
            phase1_fired: true,
            snooze_until: Some(k1 * t + c.snooze_ms),
            phase2_start: None,
            last_input: 0,
            tracked_window: None,
        }
    } else {
        StateModel {
            phase1_fired: true,
            snooze_until: None,
            phase2_start: Some(k2 * t),
            last_input: 0,
            tracked_window: None,
        }
    }
}

proof fn lemma_run_profile(c: ConfigModel, t: int, k: nat)
    requires
        c.wf(),
        1 <= t,
        k <= terminate_tick(c, t),
    ensures
        run_state(c, t, k) == run_profile(c, t, k),
    decreases k,
{
    let k1 = phase1_tick(c, t);
    let k2 = phase2_start_tick(c, t);
    let k3 = terminate_tick(c, t);
    lemma_ceil_div(c.phase1_ms, t);
    lemma_ceil_div(c.snooze_ms, t);
    lemma_ceil_div(c.phase2_ms, t);
    if k > 0 {
        lemma_run_profile(c, t, (k - 1) as nat);
        let prev = run_profile(c, t, (k - 1) as nat);
        let m = (k - 1) * t;
        if k <= k1 {
            assert(m < c.phase1_ms) by (nonlinear_arith)
                requires
                    k - 1 < k1,
                    (k1 - 1) * t < c.phase1_ms,
                    1 <= t,
                    m == (k - 1) * t,
            ;
            crate::machine::lemma_below_phase1_no_fire(c, prev, m, m);
        } else if k == k1 + 1 {
            assert(m == k1 * t);
            assert(m >= c.phase1_ms);
            crate::machine::lemma_phase1_fires(c, prev, m, m);
        } else if c.snooze_ms > 0 && k <= k2 {
            // still snoozing: the clock has not reached the snooze timer
            assert(m < k1 * t + c.snooze_ms) by (nonlinear_arith)
                requires
                    k - 1 - k1 < k2 - k1,
                    (k2 - k1 - 1) * t < c.snooze_ms,
                    1 <= t,
                    m == (k - 1) * t,
                    k2 - k1 == ceil_div(c.snooze_ms, t),
            ;
            crate::machine::lemma_snooze_gates_phase2(c, prev, m, m, k1 * t + c.snooze_ms);
        } else if c.snooze_ms > 0 && k == k2 + 1 {
            // the snooze expires on this tick; the countdown starts at k2*t
            assert(m == k2 * t);
            assert(m >= k1 * t + c.snooze_ms) by (nonlinear_arith)
                requires
                    (k2 - k1) * t >= c.snooze_ms,
                    m == k2 * t,
            ;
            crate::machine::lemma_snooze_gates_phase2(c, prev, m, m, k1 * t + c.snooze_ms);
        } else {
            // counting down: started at k2*t, not yet at the threshold
            assert(prev.phase2_start == Some(k2 * t));
            assert(m >= k2 * t) by (nonlinear_arith)
                requires
                    k - 1 >= k2,
                    1 <= t,
                    m == (k - 1) * t,
            ;
            assert(m - k2 * t < c.phase2_ms) by (nonlinear_arith)
                requires
                    k - 1 - k2 < k3 - k2,
                    (k3 - k2 - 1) * t < c.phase2_ms,
                    1 <= t,
                    m == (k - 1) * t,
            ;
            crate::machine::lemma_phase2_fires_once(c, prev, m, m, k2 * t);
        }
    }
}

/// Round trip: an undisturbed run whose idle sample grows monotonically
/// from 0 terminates at exactly tick
/// `ceil(phase1_ms/t) + ceil(snooze_ms/t) + ceil(phase2_ms/t)`
/// of its `t`-millisecond tick grid — one tick-quantised threshold per
/// phase — and at no tick before it.
pub proof fn lemma_run_terminates_exactly(c: ConfigModel, t: int, k: nat)
    requires
        c.wf(),
        1 <= t,
        k <= terminate_tick(c, t),
    ensures
        run_terminates_at(c, t, k) <==> k == terminate_tick(c, t),
{
    let k1 = phase1_tick(c, t);
    let k2 = phase2_start_tick(c, t);
    let k3 = terminate_tick(c, t);
    lemma_ceil_div(c.phase1_ms, t);
    lemma_ceil_div(c.snooze_ms, t);
    lemma_ceil_div(c.phase2_ms, t);
    lemma_run_profile(c, t, k);
    let s = run_profile(c, t, k);
    let m = k * t;
    if k <= k1 {
        assert(!tick_terminates(c, s, m, m));
        assert(k < k3) by (nonlinear_arith)
            requires
                k <= k1,
                k2 >= k1,
                k3 - k2 >= 1,
        ;
    } else if c.snooze_ms > 0 && k <= k2 {
        // a snoozing tick never terminates: either frozen, or the countdown
        // starts only now
        crate::machine::lemma_snooze_gates_phase2(c, s, m, m, k1 * t + c.snooze_ms);
        assert(k < k3);
    } else {
        assert(s.phase2_start == Some(k2 * t));
        if k == k3 {
            assert(m - k2 * t >= c.phase2_ms) by (nonlinear_arith)
                requires
                    k - k2 == k3 - k2,
                    (k3 - k2) * t >= c.phase2_ms,
                    m == k * t,
                    k == k3,
            ;
            assert(m >= k2 * t) by (nonlinear_arith)
                requires
                    k >= k2,
                    1 <= t,
                    m == k * t,
            ;
            crate::machine::lemma_phase2_fires_once(c, s, m, m, k2 * t);
        } else {
            assert(m - k2 * t < c.phase2_ms) by (nonlinear_arith)
                requires
                    k - k2 < k3 - k2,
                    (k3 - k2 - 1) * t < c.phase2_ms,
                    1 <= t,
                    m == k * t,
            ;
            crate::machine::lemma_phase2_fires_once(c, s, m, m, k2 * t);
        }
    }
}

} // verus!
