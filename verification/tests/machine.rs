use drastic_idle::config::{Config, ConfigError};
use drastic_idle::machine::{join_spaces, tick_phases, TickOutcome};
use drastic_idle::state::{InputEvent, PhaseState, ACTIVITY_THRESHOLD_MS};

fn cfg(p1: u64, p2: u64, snooze: u64) -> Config {
    Config::new(p1, p2, snooze, None, None).unwrap()
}

fn cfg_cmds(
    p1: u64,
    p2: u64,
    snooze: u64,
    c1: Option<Vec<String>>,
    c2: Option<Vec<String>>,
) -> Config {
    Config::new(p1, p2, snooze, c1, c2).unwrap()
}

fn fresh_state(window: Option<&str>) -> PhaseState {
    PhaseState::new(0, window.map(|w| w.to_string()))
}

fn no_effects(out: &TickOutcome) -> bool {
    !out.terminate
        && out.run_phase1.is_none()
        && out.run_phase2.is_none()
        && out.close_window.is_none()
}

#[test]
fn below_threshold_never_fires() {
    let c = cfg(10, 300, 60);
    let mut s = fresh_state(Some("w1"));
    for t in 0..500u128 {
        let now = t * 20;
        let idle = now; // stays below 10 s for the whole loop
        let out = tick_phases(&c, &mut s, idle, now);
        assert!(no_effects(&out));
        assert!(!s.phase1_fired);
        assert!(s.snooze_until.is_none());
        assert!(s.phase2_start.is_none());
    }
}

#[test]
fn phase1_fires_exactly_once_under_repeated_high_idle() {
    let c = cfg_cmds(
        10,
        300,
        60,
        Some(vec!["notify-send".to_string(), "idle".to_string()]),
        None,
    );
    let mut s = fresh_state(Some("w1"));
    let out = tick_phases(&c, &mut s, 10_000, 10_000);
    assert!(s.phase1_fired);
    assert_eq!(out.run_phase1, Some(vec!["notify-send".to_string(), "idle".to_string()]));
    assert_eq!(out.close_window, Some("w1".to_string()));
    assert!(!out.terminate);
    // many further ticks with even higher idle never fire phase 1 again
    for t in 1..100u128 {
        let out = tick_phases(&c, &mut s, 10_000 + t * 1000, 10_000 + t * 1000);
        assert!(out.run_phase1.is_none());
        assert!(out.close_window.is_none());
        assert!(s.phase1_fired);
    }
}

#[test]
fn snooze_gates_phase2_start() {
    let c = cfg(10, 300, 60);
    let mut s = fresh_state(None);
    tick_phases(&c, &mut s, 10_000, 10_000);
    assert_eq!(s.snooze_until, Some(70_000));
    assert_eq!(s.phase2_start, None);
    // before the snooze expires nothing moves
    let out = tick_phases(&c, &mut s, 30_000, 30_000);
    assert!(no_effects(&out));
    assert_eq!(s.phase2_start, None);
    let out = tick_phases(&c, &mut s, 69_999, 69_999);
    assert!(no_effects(&out));
    assert_eq!(s.phase2_start, None);
    // at expiry the countdown starts at that tick's clock
    let out = tick_phases(&c, &mut s, 70_000, 70_000);
    assert!(no_effects(&out));
    assert_eq!(s.snooze_until, None);
    assert_eq!(s.phase2_start, Some(70_000));
}

#[test]
fn zero_snooze_starts_phase2_in_firing_tick() {
    let c = cfg(10, 300, 0);
    let mut s = fresh_state(None);
    tick_phases(&c, &mut s, 10_000, 10_000);
    assert!(s.phase1_fired);
    assert_eq!(s.snooze_until, None);
    assert_eq!(s.phase2_start, Some(10_000));
}

#[test]
fn phase2_fires_exactly_at_threshold_and_terminates() {
    let c = cfg_cmds(10, 300, 0, None, Some(vec!["true".to_string()]));
    let mut s = fresh_state(None);
    tick_phases(&c, &mut s, 10_000, 10_000);
    assert_eq!(s.phase2_start, Some(10_000));
    let out = tick_phases(&c, &mut s, 309_999, 309_999);
    assert!(!out.terminate);
    assert!(out.run_phase2.is_none());
    let out = tick_phases(&c, &mut s, 310_000, 310_000);
    assert!(out.terminate);
    assert_eq!(out.run_phase2, Some(vec!["true".to_string()]));
}

#[test]
fn input_event_cancels_pending_state() {
    let c = cfg(10, 300, 60);
    let mut s = fresh_state(Some("w1"));
    tick_phases(&c, &mut s, 10_000, 10_000);
    assert!(s.phase1_fired);
    let quit = s.handle_input(&InputEvent::Key { ch: Some('x'), ctrl: false }, 12_000);
    assert!(!quit);
    assert!(!s.phase1_fired);
    assert_eq!(s.snooze_until, None);
    assert_eq!(s.phase2_start, None);
    assert_eq!(s.last_input, 12_000);
}

#[test]
fn mouse_event_resets_and_never_quits() {
    let c = cfg(10, 300, 60);
    let mut s = fresh_state(None);
    tick_phases(&c, &mut s, 10_000, 10_000);
    let quit = s.handle_input(&InputEvent::Mouse, 11_000);
    assert!(!quit);
    assert!(!s.phase1_fired);
}

#[test]
fn quit_keys() {
    let mut s = fresh_state(None);
    assert!(s.handle_input(&InputEvent::Key { ch: Some('q'), ctrl: false }, 1));
    assert!(s.handle_input(&InputEvent::Key { ch: Some('c'), ctrl: true }, 2));
    assert!(!s.handle_input(&InputEvent::Key { ch: Some('c'), ctrl: false }, 3));
    assert!(!s.handle_input(&InputEvent::Key { ch: None, ctrl: true }, 4));
    assert!(!s.handle_input(&InputEvent::Other, 5));
}

#[test]
fn low_system_idle_sample_resets_and_refreshes_window() {
    let c = cfg(10, 300, 60);
    let mut s = fresh_state(Some("old"));
    tick_phases(&c, &mut s, 10_000, 10_000);
    assert!(s.phase1_fired);
    assert!(PhaseState::activity_reset_due(true, 1_500));
    s.tick_idle(true, 1_500, Some("new".to_string()));
    assert!(!s.phase1_fired);
    assert_eq!(s.snooze_until, None);
    assert_eq!(s.phase2_start, None);
    assert_eq!(s.tracked_window, Some("new".to_string()));
}

#[test]
fn high_or_local_idle_sample_does_not_reset() {
    let c = cfg(10, 300, 60);
    let mut s = fresh_state(Some("old"));
    tick_phases(&c, &mut s, 10_000, 10_000);
    // a high OS sample proves nothing
    assert!(!PhaseState::activity_reset_due(true, u128::from(ACTIVITY_THRESHOLD_MS)));
    s.tick_idle(true, u128::from(ACTIVITY_THRESHOLD_MS), Some("new".to_string()));
    assert!(s.phase1_fired);
    assert_eq!(s.tracked_window, Some("old".to_string()));
    // a low locally-derived sample proves nothing either
    assert!(!PhaseState::activity_reset_due(false, 0));
    s.tick_idle(false, 0, Some("new".to_string()));
    assert!(s.phase1_fired);
}

#[test]
fn effective_idle_prefers_system_sample() {
    let s = PhaseState::new(5_000, None);
    assert_eq!(s.effective_idle(Some(42), 9_000), 42);
    assert_eq!(s.effective_idle(None, 9_000), 4_000);
    assert_eq!(s.effective_idle(None, 4_000), 0); // clock behind last input saturates
}

#[test]
fn scenario_a_full_timeline() {
    // phase1=10s, phase2=300s, snooze=60s, idle reaching 10 s at t=10s,
    // no input after that: phase 1 at t=10s, countdown from t=70s,
    // phase 2 at t=370s.
    let c = cfg(10, 300, 60);
    let mut s = fresh_state(Some("w1"));
    let mut fired_at: Option<u128> = None;
    let mut countdown_from: Option<u128> = None;
    let mut terminated_at: Option<u128> = None;
    let mut ticks: u64 = 0;
    for t in 0..20_000u128 {
        let now = t * 20;
        let idle = now;
        ticks += 1;
        let out = tick_phases(&c, &mut s, idle, now);
        if out.close_window.is_some() && fired_at.is_none() {
            fired_at = Some(now);
        }
        if s.phase2_start.is_some() && countdown_from.is_none() {
            countdown_from = s.phase2_start;
        }
        if out.terminate {
            terminated_at = Some(now);
            break;
        }
    }
    assert_eq!(fired_at, Some(10_000));
    assert_eq!(countdown_from, Some(70_000));
    assert_eq!(terminated_at, Some(370_000));
    assert_eq!(ticks, 370_000 / 20 + 1); // ticks 0 ..= 370s/20ms
}

#[test]
fn scenario_b_input_restarts_the_countdown() {
    // same config; an input event at t=5s: no phase-1 firing then, and idle
    // must again reach 10 s measured from the new baseline.
    let c = cfg(10, 300, 60);
    let mut s = fresh_state(Some("w1"));
    let mut fired_at: Option<u128> = None;
    for t in 0..2_000u128 {
        let now = t * 20;
        if now == 5_000 {
            s.handle_input(&InputEvent::Key { ch: Some('x'), ctrl: false }, now);
        }
        let idle = s.effective_idle(None, now);
        let out = tick_phases(&c, &mut s, idle, now);
        if now < 15_000 {
            assert!(out.close_window.is_none());
            if now < 5_000 {
                // the pre-input idle run never got to 10 s
                assert!(!s.phase1_fired);
            }
        }
        if out.close_window.is_some() {
            fired_at = Some(now);
            break;
        }
    }
    assert_eq!(fired_at, Some(15_000));
}

#[test]
fn scenario_c_no_commands_still_transitions() {
    // phase1-cmd=none, phase2-cmd=none: phase 1 still fires (window close
    // attempted), phase 2 still terminates, no command is requested.
    let c = cfg_cmds(10, 300, 0, None, None);
    let mut s = fresh_state(Some("w1"));
    let out = tick_phases(&c, &mut s, 10_000, 10_000);
    assert!(s.phase1_fired);
    assert!(out.run_phase1.is_none());
    assert_eq!(out.close_window, Some("w1".to_string()));
    let out = tick_phases(&c, &mut s, 310_000, 310_000);
    assert!(out.terminate);
    assert!(out.run_phase2.is_none());
}

#[test]
fn scenario_d_rejected_configuration() {
    match Config::new(300, 10, 60, None, None) {
        Err(e) => assert_eq!(e, ConfigError::Phase1NotBelowPhase2),
        Ok(_) => panic!("an inverted threshold pair must be rejected"),
    }
    assert!(Config::new(10, 10, 60, None, None).is_err());
    assert!(Config::new(10, 11, 60, None, None).is_ok());
}

#[test]
fn join_spaces_rebuilds_command_line() {
    assert_eq!(join_spaces(&vec![]), "");
    assert_eq!(join_spaces(&vec!["echo".to_string()]), "echo");
    assert_eq!(
        join_spaces(&vec!["echo".to_string(), "a".to_string(), "b".to_string()]),
        "echo a b"
    );
}

#[test]
fn clock_stepping_backwards_saturates_the_countdown() {
    let c = cfg(10, 300, 60);
    let mut s = fresh_state(None);
    tick_phases(&c, &mut s, 10_000, 10_000);
    tick_phases(&c, &mut s, 70_000, 70_000);
    assert_eq!(s.phase2_start, Some(70_000));
    // a clock sample behind the countdown start counts as zero elapsed
    let out = tick_phases(&c, &mut s, 60_000, 60_000);
    assert!(no_effects(&out));
    assert_eq!(s.phase2_start, Some(70_000));
}

#[test]
fn firing_without_tracked_window_requests_no_close() {
    let c = cfg(10, 300, 60);
    let mut s = fresh_state(None);
    let out = tick_phases(&c, &mut s, 10_000, 10_000);
    assert!(out.close_window.is_none());
    assert!(s.phase1_fired);
}
