use vstd::prelude::*;

use crate::config::{Config, ConfigModel};
use crate::state::{PhaseState, StateModel};

verus! {

/// The effects one tick asks the caller to perform. `run_phase1` (a
/// whitespace-split shell command line) and `close_window` are detached,
/// fire-and-forget effects; `run_phase2` (an argv-style command) is awaited,
/// and comes only together with `terminate`.
pub struct TickOutcome {
    pub terminate: bool,
    pub run_phase2: Option<Vec<String>>,
    pub run_phase1: Option<Vec<String>>,
    pub close_window: Option<String>,
}

/// Ghost result of one tick: the next state, whether the program must end,
/// and whether phase 1 fired this tick.
pub ghost struct TickResult {
    pub state: StateModel,
    pub terminate: bool,
    pub fire_phase1: bool,
}

/// Whether the snooze timer is armed and still running at `now`.
pub open spec fn snooze_holds(s: StateModel, now: int) -> bool {
    s.snooze_until matches Some(u) && now < u
}

/// Clears an expired snooze timer, starting the phase-2 countdown at `now`.
pub open spec fn resolve_snooze(s: StateModel, now: int) -> StateModel {
    if s.snooze_until matches Some(u) && now >= u {
        StateModel { snooze_until: None, phase2_start: Some(now), ..s }
    } else {
        s
    }
}

/// Time elapsed from `start` to `now` on the monotonic clock, saturating at
/// zero.
pub open spec fn spec_elapsed(start: int, now: int) -> int {
    if now >= start {
        now - start
    } else {
        0
    }
}

/// One tick of the escalation machine, given the current idle duration and a
/// monotonic timestamp (both in milliseconds):
/// 1. a running snooze timer freezes everything; an expired one starts the
///    phase-2 countdown at `now`;
/// 2. a phase-2 countdown that has reached `phase2_ms` ends the program;
/// 3. otherwise, idle time at or past `phase1_ms` fires phase 1 once,
///    arming the snooze timer (or, with no snooze configured, starting the
///    phase-2 countdown immediately).
pub open spec fn spec_tick(c: ConfigModel, s: StateModel, idle: int, now: int) -> TickResult {
    if snooze_holds(s, now) {
        TickResult { state: s, terminate: false, fire_phase1: false }
    } else {
        let s1 = resolve_snooze(s, now);
        if s1.phase2_start matches Some(st) && spec_elapsed(st, now) >= c.phase2_ms {
            TickResult { state: s1, terminate: true, fire_phase1: false }
        } else if idle >= c.phase1_ms && !s1.phase1_fired {
            let s2 = if c.snooze_ms > 0 {
                StateModel {
                    phase1_fired: true,
                    snooze_until: Some(now + c.snooze_ms),
                    phase2_start: None,
                    ..s1
                }
            } else {
                StateModel {
                    phase1_fired: true,
                    snooze_until: None,
                    phase2_start: Some(now),
                    ..s1
                }
            };
            TickResult { state: s2, terminate: false, fire_phase1: true }
        } else {
            TickResult { state: s1, terminate: false, fire_phase1: false }
        }
    }
}

/// The state after one tick.
pub open spec fn tick_state(c: ConfigModel, s: StateModel, idle: int, now: int) -> StateModel {
    spec_tick(c, s, idle, now).state
}

/// Whether one tick reports termination (phase 2 fired).
pub open spec fn tick_terminates(c: ConfigModel, s: StateModel, idle: int, now: int) -> bool {
    spec_tick(c, s, idle, now).terminate
}

/// Whether one tick fires phase 1.
pub open spec fn tick_fires_phase1(c: ConfigModel, s: StateModel, idle: int, now: int) -> bool {
    spec_tick(c, s, idle, now).fire_phase1
}

fn clone_strings(v: &Vec<String>) -> (r: Vec<String>)
    ensures
        r.deep_view() == v.deep_view(),
{
    let mut out: Vec<String> = Vec::new();
    let mut i: usize = 0;
    while i < v.len()
        invariant
            i <= v.len(),
            out.deep_view() =~= v.deep_view().subrange(0, i as int),
        decreases v.len() - i,
    {
        let ghost prev = out.deep_view();
        out.push(v[i].clone());
        proof {
            assert(out.deep_view() =~= prev.push(v@[i as int]@));
            assert(v.deep_view().subrange(0, i + 1 as int) =~= v.deep_view().subrange(
                0,
                i as int,
            ).push(v.deep_view()[i as int]));
        }
        i = i + 1;
    }
    assert(v.deep_view().subrange(0, v.len() as int) =~= v.deep_view());
    out
}

fn clone_cmd(c: &Option<Vec<String>>) -> (r: Option<Vec<String>>)
    ensures
        r.deep_view() == c.deep_view(),
{
    match c {
        Some(v) => Some(clone_strings(v)),
        None => None,
    }
}

fn clone_window(w: &Option<String>) -> (r: Option<String>)
    ensures
        r.deep_view() == w.deep_view(),
{
    match w {
        Some(s) => Some(s.clone()),
        None => None,
    }
}

/// Advances the machine by one tick (see `spec_tick`) and returns the
/// effects the caller must perform: the phase-1 command and window-close
/// requests exactly on the tick phase 1 fires, the phase-2 command exactly
/// on the terminating tick, each only when configured / tracked.
pub fn tick_phases(cfg: &Config, state: &mut PhaseState, idle: u128, now: u128) -> (out:
    TickOutcome)
    requires
        cfg@.wf(),
        old(state)@.wf(),
        now + cfg@.snooze_ms <= u128::MAX,
    ensures
        final(state)@ == tick_state(cfg@, old(state)@, idle as int, now as int),
        final(state)@.wf(),
        out.terminate == tick_terminates(cfg@, old(state)@, idle as int, now as int),
        out.run_phase2.deep_view() == if out.terminate {
            cfg@.phase2_cmd
        } else {
            None::<Seq<Seq<char>>>
        },
        out.run_phase1.deep_view() == if tick_fires_phase1(
            cfg@,
            old(state)@,
            idle as int,
            now as int,
        ) {
            cfg@.phase1_cmd
        } else {
            None::<Seq<Seq<char>>>
        },
        out.close_window.deep_view() == if tick_fires_phase1(
            cfg@,
            old(state)@,
            idle as int,
            now as int,
        ) {
            old(state)@.tracked_window
        } else {
            None::<Seq<char>>
        },
{
    if let Some(until) = state.snooze_until {
        if now < until {
            return TickOutcome {
                terminate: false,
                run_phase2: None,
                run_phase1: None,
                close_window: None,
            };
        }
        state.snooze_until = None;
        state.phase2_start = Some(now);
    }
    if let Some(start) = state.phase2_start {
        let elapsed: u128 = if now >= start {
            now - start
        } else {
            0
        };
        if elapsed >= cfg.phase2_ms() {
            return TickOutcome {
                terminate: true,
                run_phase2: clone_cmd(&cfg.phase2_cmd),
                run_phase1: None,
                close_window: None,
            };
        }
    }
    if idle >= cfg.phase1_ms() && !state.phase1_fired {
        state.phase1_fired = true;
        if cfg.auto_snooze_secs > 0 {
            state.snooze_until = Some(now + cfg.snooze_ms());
        } else {
            state.phase2_start = Some(now);
        }
        return TickOutcome {
            terminate: false,
            run_phase2: None,
            run_phase1: clone_cmd(&cfg.phase1_cmd),
            close_window: clone_window(&state.tracked_window),
        };
    }
    TickOutcome { terminate: false, run_phase2: None, run_phase1: None, close_window: None }
}

/// A whitespace-split command joined back into one line, one space between
/// tokens.
pub open spec fn spec_join(parts: Seq<Seq<char>>) -> Seq<char>
    decreases parts.len(),
{
    if parts.len() == 0 {
        Seq::empty()
    } else if parts.len() == 1 {
        parts[0]
    } else {
        spec_join(parts.drop_last()) + seq![' '] + parts.last()
    }
}

/// Joins the tokens of a command with single spaces, for handing the
/// phase-1 command line to a shell.
pub fn join_spaces(parts: &Vec<String>) -> (r: String)
    ensures
        r@ == spec_join(parts.deep_view()),
{
    let ghost dv = parts.deep_view();
    let mut out = String::new();
    let mut i: usize = 0;
    while i < parts.len()
        invariant
            dv == parts.deep_view(),
            i <= parts.len(),
            out@ == spec_join(dv.subrange(0, i as int)),
        decreases parts.len() - i,
    {
        if i > 0 {
            out.append(" ");
        }
        out.append(parts[i].as_str());
        proof {
            reveal_strlit(" ");
            assert(dv.subrange(0, i + 1 as int).drop_last() =~= dv.subrange(0, i as int));
            assert(dv.subrange(0, i + 1 as int).last() == dv[i as int]);
            if i == 0 {
                assert(out@ =~= spec_join(dv.subrange(0, i + 1 as int)));
            } else {
                assert(out@ =~= spec_join(dv.subrange(0, i as int)) + seq![' '] + dv[i as int]);
            }
        }
        i = i + 1;
    }
    proof {
        assert(dv.subrange(0, parts.len() as int) =~= dv);
    }
    out
}

/// While idle time stays below the phase-1 threshold, a machine that has not
/// fired phase 1 fires nothing, reports no termination, and keeps
/// `phase1_fired` false.
pub proof fn lemma_below_phase1_no_fire(c: ConfigModel, s: StateModel, idle: int, now: int)
    requires
        c.wf(),
        s.wf(),
        !s.phase1_fired,
        idle < c.phase1_ms,
    ensures
        !tick_fires_phase1(c, s, idle, now),
        !tick_terminates(c, s, idle, now),
        tick_state(c, s, idle, now) == s,
{
}

/// Phase 1 fires exactly on a tick where the machine is still Active and the
/// idle sample reaches the threshold; the resulting state has `phase1_fired`
/// set, with the snooze timer armed at `now + snooze_ms` when a snooze is
/// configured and the phase-2 countdown started at `now` otherwise.
pub proof fn lemma_phase1_fires(c: ConfigModel, s: StateModel, idle: int, now: int)
    requires
        c.wf(),
        s.wf(),
        !s.phase1_fired,
        idle >= c.phase1_ms,
    ensures
        tick_fires_phase1(c, s, idle, now),
        !tick_terminates(c, s, idle, now),
        tick_state(c, s, idle, now).phase1_fired,
        c.snooze_ms > 0 ==> tick_state(c, s, idle, now).snooze_until == Some(now + c.snooze_ms)
            && tick_state(c, s, idle, now).phase2_start is None,
        c.snooze_ms == 0 ==> tick_state(c, s, idle, now).snooze_until is None && tick_state(
            c,
            s,
            idle,
            now,
        ).phase2_start == Some(now),
{
}

/// Once phase 1 has fired, no later tick fires it again, however many
/// subsequent samples are at or past the threshold, and `phase1_fired` stays
/// set: the phase-1 effect is requested at most once per idle episode.
pub proof fn lemma_phase1_at_most_once(c: ConfigModel, s: StateModel, idle: int, now: int)
    requires
        s.wf(),
        s.phase1_fired,
    ensures
        !tick_fires_phase1(c, s, idle, now),
        tick_state(c, s, idle, now).phase1_fired,
{
}

/// A running snooze timer freezes the machine: until `now` reaches the
/// timer, a tick changes nothing and starts no phase-2 countdown; on the
/// first tick at or past it, the countdown starts exactly at that tick's
/// `now`.
pub proof fn lemma_snooze_gates_phase2(c: ConfigModel, s: StateModel, idle: int, now: int, u: int)
    requires
        c.wf(),
        s.wf(),
        s.snooze_until == Some(u),
    ensures
        now < u ==> tick_state(c, s, idle, now) == s && !tick_terminates(c, s, idle, now)
            && tick_state(c, s, idle, now).phase2_start is None,
        now >= u ==> tick_state(c, s, idle, now).snooze_until is None && tick_state(
            c,
            s,
            idle,
            now,
        ).phase2_start == Some(now) && !tick_terminates(c, s, idle, now),
{
}

/// The phase-2 countdown ends the program exactly when the elapsed time
/// since `phase2_start` reaches the threshold: that tick reports
/// termination (with the state otherwise untouched), and any earlier tick
/// neither terminates nor disturbs the countdown.
pub proof fn lemma_phase2_fires_once(c: ConfigModel, s: StateModel, idle: int, now: int, st: int)
    requires
        c.wf(),
        s.wf(),
        s.phase2_start == Some(st),
    ensures
        spec_elapsed(st, now) >= c.phase2_ms ==> tick_terminates(c, s, idle, now) && tick_state(
            c,
            s,
            idle,
            now,
        ) == s,
        spec_elapsed(st, now) < c.phase2_ms ==> !tick_terminates(c, s, idle, now) && tick_state(
            c,
            s,
            idle,
            now,
        ).phase2_start == Some(st),
{
}

} // verus!
