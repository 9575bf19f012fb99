use drastic_idle::config::Config;
use drastic_idle::machine::tick_phases;
use drastic_idle::render::{format_dur, phase_color, render, LineStyle};
use drastic_idle::state::PhaseState;

fn cfg(p1: u64, p2: u64, snooze: u64) -> Config {
    Config::new(p1, p2, snooze, None, None).unwrap()
}

#[test]
fn duration_formatting() {
    assert_eq!(format_dur(0), "0:00.000");
    assert_eq!(format_dur(999), "0:00.999");
    assert_eq!(format_dur(1_000), "0:01.000");
    assert_eq!(format_dur(61_234), "1:01.234");
    assert_eq!(format_dur(600_000), "10:00.000");
    assert_eq!(format_dur(3_600_000), "60:00.000");
    assert_eq!(format_dur(59_999), "0:59.999");
}

#[test]
fn color_bands() {
    assert_eq!(phase_color(0, 10), LineStyle::Red);
    assert_eq!(phase_color(2, 10), LineStyle::Red); // exactly a fifth
    assert_eq!(phase_color(3, 10), LineStyle::Yellow);
    assert_eq!(phase_color(5, 10), LineStyle::Yellow); // exactly half
    assert_eq!(phase_color(6, 10), LineStyle::Green);
    assert_eq!(phase_color(10, 10), LineStyle::Green);
}

#[test]
fn render_active_state() {
    let c = cfg(10, 300, 60);
    let s = PhaseState::new(0, None);
    let lines = render(&c, &s, 0, 0);
    assert_eq!(lines.len(), 6);
    assert_eq!(lines[0].text, "drastic-idle");
    assert_eq!(lines[0].style, LineStyle::Bold);
    assert_eq!(lines[1].text, "");
    assert_eq!(lines[2].text, "Idle 0:00.000");
    assert_eq!(lines[2].style, LineStyle::Plain);
    assert_eq!(lines[3].text, "");
    assert_eq!(lines[4].text, "Phase 1: 0:10.000 until close window");
    assert_eq!(lines[4].style, LineStyle::Green);
    assert_eq!(lines[5].text, "Phase 2: after Phase 1");
    assert_eq!(lines[5].style, LineStyle::DarkGray);
}

#[test]
fn render_counts_down_and_reddens() {
    let c = cfg(10, 300, 60);
    let s = PhaseState::new(0, None);
    let lines = render(&c, &s, 9_000, 9_000);
    assert_eq!(lines[2].text, "Idle 0:09.000");
    assert_eq!(lines[4].text, "Phase 1: 0:01.000 until close window");
    assert_eq!(lines[4].style, LineStyle::Red); // 1 s of 10 s left
}

#[test]
fn render_snoozed_state() {
    let c = cfg(10, 300, 60);
    let mut s = PhaseState::new(0, None);
    tick_phases(&c, &mut s, 10_000, 10_000);
    let lines = render(&c, &s, 15_000, 15_000);
    assert_eq!(lines[4].text, "Phase 1: close window ran (snoozed 0:55.000)");
    assert_eq!(lines[4].style, LineStyle::Cyan);
    assert_eq!(lines[5].text, "Phase 2: starts in 0:55.000 (after snooze)");
    assert_eq!(lines[5].style, LineStyle::DarkGray);
}

#[test]
fn render_phase2_countdown() {
    let c = cfg(10, 300, 0);
    let mut s = PhaseState::new(0, None);
    tick_phases(&c, &mut s, 10_000, 10_000);
    let lines = render(&c, &s, 20_000, 20_000);
    assert_eq!(lines[4].text, "Phase 1: done");
    assert_eq!(lines[4].style, LineStyle::Cyan);
    assert_eq!(lines[5].text, "Phase 2: 4:50.000 until power off");
    assert_eq!(lines[5].style, LineStyle::Green);
    // deep into the countdown the line turns red
    let lines = render(&c, &s, 300_000, 300_000);
    assert_eq!(lines[5].text, "Phase 2: 0:10.000 until power off");
    assert_eq!(lines[5].style, LineStyle::Red);
}
