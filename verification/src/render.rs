use vstd::prelude::*;

use crate::config::{Config, ConfigModel};
use crate::machine::spec_elapsed;
use crate::state::{PhaseState, StateModel};

verus! {

/// The character for one decimal digit.
pub open spec fn digit_char(d: int) -> char {
    if d == 0 {
        '0'
    } else if d == 1 {
        '1'
    } else if d == 2 {
        '2'
    } else if d == 3 {
        '3'
    } else if d == 4 {
        '4'
    } else if d == 5 {
        '5'
    } else if d == 6 {
        '6'
    } else if d == 7 {
        '7'
    } else if d == 8 {
        '8'
    } else {
        '9'
    }
}

fn digit_str(d: u128) -> (r: &'static str)
    requires
        d < 10,
    ensures
        r@ == seq![digit_char(d as int)],
{
    proof {
        reveal_strlit("0");
        reveal_strlit("1");
        reveal_strlit("2");
        reveal_strlit("3");
        reveal_strlit("4");
        reveal_strlit("5");
        reveal_strlit("6");
        reveal_strlit("7");
        reveal_strlit("8");
        reveal_strlit("9");
    }
    let r = if d == 0 {
        "0"
    } else if d == 1 {
        "1"
    } else if d == 2 {
        "2"
    } else if d == 3 {
        "3"
    } else if d == 4 {
        "4"
    } else if d == 5 {
        "5"
    } else if d == 6 {
        "6"
    } else if d == 7 {
        "7"
    } else if d == 8 {
        "8"
    } else {
        "9"
    };
    proof {
        assert(r@ =~= seq![digit_char(d as int)]);
    }
    r
}

/// The decimal digits of `n`, most significant first.
pub open spec fn dec_str(n: int) -> Seq<char>
    decreases n,
{
    if n < 10 {
        seq![digit_char(n)]
    } else {
        dec_str(n / 10).push(digit_char(n % 10))
    }
}

fn push_dec(out: &mut String, n: u128)
    ensures
        final(out)@ == old(out)@ + dec_str(n as int),
    decreases n,
{
    if n < 10 {
        out.append(digit_str(n));
    } else {
        push_dec(out, n / 10);
        out.append(digit_str(n % 10));
        proof {
            assert(old(out)@ + dec_str(n as int / 10) + seq![digit_char(n as int % 10)] =~= old(
                out,
            )@ + dec_str(n as int));
        }
    }
}

/// A duration in milliseconds rendered as `M:SS.mmm`.
pub open spec fn spec_format_dur(ms: int) -> Seq<char> {
    dec_str(ms / 60000) + seq![':'] + seq![
        digit_char(ms / 1000 % 60 / 10),
        digit_char(ms / 1000 % 60 % 10),
    ] + seq!['.'] + seq![digit_char(ms % 1000 / 100), digit_char(ms % 1000 / 10 % 10), digit_char(
        ms % 1000 % 10,
    )]
}

/// Renders a millisecond duration as minutes, two-digit seconds and
/// three-digit milliseconds (`M:SS.mmm`).
pub fn format_dur(ms: u128) -> (r: String)
    ensures
        r@ == spec_format_dur(ms as int),
{
    let mut out = String::new();
    push_dec(&mut out, ms / 60000);
    out.append(":");
    let sec = ms / 1000 % 60;
    out.append(digit_str(sec / 10));
    out.append(digit_str(sec % 10));
    out.append(".");
    let msr = ms % 1000;
    out.append(digit_str(msr / 100));
    out.append(digit_str(msr / 10 % 10));
    out.append(digit_str(msr % 10));
    proof {
        reveal_strlit(":");
        reveal_strlit(".");
        assert(out@ =~= spec_format_dur(ms as int));
    }
    out
}

/// How a display line is styled: `Bold` for the title, colours for the
/// status lines, `Plain` for everything else.
#[derive(Clone, Copy, PartialEq, Eq, Structural, Debug)]
pub enum LineStyle {
    Plain,
    Bold,
    Cyan,
    DarkGray,
    Red,
    Yellow,
    Green,
}

/// The urgency colour for `left` remaining out of `total`: red when at
/// most a fifth is left, yellow when at most half is, green otherwise.
pub open spec fn spec_phase_color(left: int, total: int) -> LineStyle {
    if 5 * left <= total {
        LineStyle::Red
    } else if 2 * left <= total {
        LineStyle::Yellow
    } else {
        LineStyle::Green
    }
}

pub fn phase_color(left: u128, total: u128) -> (r: LineStyle)
    requires
        left <= total,
        total <= u128::MAX / 5,
    ensures
        r == spec_phase_color(left as int, total as int),
{
    if 5 * left <= total {
        LineStyle::Red
    } else if 2 * left <= total {
        LineStyle::Yellow
    } else {
        LineStyle::Green
    }
}

/// One display line: its text and its style.
pub struct StatusLine {
    pub text: String,
    pub style: LineStyle,
}

impl View for StatusLine {
    type V = (Seq<char>, LineStyle);

    open spec fn view(&self) -> (Seq<char>, LineStyle) {
        (self.text@, self.style)
    }
}

impl DeepView for StatusLine {
    type V = (Seq<char>, LineStyle);

    open spec fn deep_view(&self) -> (Seq<char>, LineStyle) {
        self.view()
    }
}

/// Difference saturating at zero.
pub open spec fn sat_sub(a: int, b: int) -> int {
    if a >= b {
        a - b
    } else {
        0
    }
}

/// The two phase status lines. While snoozing, both report the remaining
/// grace time. Otherwise phase 1 counts down to the window close (coloured
/// by urgency) until it has fired, and phase 2 counts down to power-off
/// once its countdown has started.
pub open spec fn spec_phase_lines(c: ConfigModel, s: StateModel, idle: int, now: int) -> Seq<
    (Seq<char>, LineStyle),
> {
    match s.snooze_until {
        Some(u) => {
            let rem = sat_sub(u, now);
            seq![
                (
                    "Phase 1: close window ran (snoozed "@ + spec_format_dur(rem) + ")"@,
                    LineStyle::Cyan,
                ),
                (
                    "Phase 2: starts in "@ + spec_format_dur(rem) + " (after snooze)"@,
                    LineStyle::DarkGray,
                ),
            ]
        },
        None => {
            let p1 = if !s.phase1_fired && idle < c.phase1_ms {
                let left = c.phase1_ms - idle;
                (
                    "Phase 1: "@ + spec_format_dur(left) + " until close window"@,
                    spec_phase_color(left, c.phase1_ms),
                )
            } else {
                ("Phase 1: done"@, LineStyle::Cyan)
            };
            let p2 = match s.phase2_start {
                Some(st) => {
                    let rem = sat_sub(c.phase2_ms, spec_elapsed(st, now));
                    (
                        "Phase 2: "@ + spec_format_dur(rem) + " until power off"@,
                        spec_phase_color(rem, c.phase2_ms),
                    )
                },
                None => ("Phase 2: after Phase 1"@, LineStyle::DarkGray),
            };
            seq![p1, p2]
        },
    }
}

/// The full status display: a bold title, the idle duration, and the two
/// phase lines, with blank spacer lines between them.
pub open spec fn spec_render(c: ConfigModel, s: StateModel, idle: int, now: int) -> Seq<
    (Seq<char>, LineStyle),
> {
    seq![
        ("drastic-idle"@, LineStyle::Bold),
        (Seq::<char>::empty(), LineStyle::Plain),
        ("Idle "@ + spec_format_dur(idle), LineStyle::Plain),
        (Seq::<char>::empty(), LineStyle::Plain),
    ] + spec_phase_lines(c, s, idle, now)
}

/// Produces the status display for the current snapshot (see
/// `spec_render`): a pure function of the configuration, the state, the
/// idle sample and the clock.
pub fn render(cfg: &Config, state: &PhaseState, idle: u128, now: u128) -> (r: Vec<StatusLine>)
    requires
        cfg@.wf(),
        state@.wf(),
    ensures
        r.deep_view() == spec_render(cfg@, state@, idle as int, now as int),
{
    let mut lines: Vec<StatusLine> = Vec::new();
    lines.push(StatusLine { text: String::from_str("drastic-idle"), style: LineStyle::Bold });
    lines.push(StatusLine { text: String::new(), style: LineStyle::Plain });
    let mut idle_text = String::from_str("Idle ");
    idle_text.append(format_dur(idle).as_str());
    lines.push(StatusLine { text: idle_text, style: LineStyle::Plain });
    lines.push(StatusLine { text: String::new(), style: LineStyle::Plain });
    if let Some(until) = state.snooze_until {
        let rem: u128 = if until >= now {
            until - now
        } else {
            0
        };
        let rem_str = format_dur(rem);
        let mut p1 = String::from_str("Phase 1: close window ran (snoozed ");
        p1.append(rem_str.as_str());
        p1.append(")");
        lines.push(StatusLine { text: p1, style: LineStyle::Cyan });
        let mut p2 = String::from_str("Phase 2: starts in ");
        p2.append(rem_str.as_str());
        p2.append(" (after snooze)");
        lines.push(StatusLine { text: p2, style: LineStyle::DarkGray });
    } else {
        let phase1_ms = cfg.phase1_ms();
        if !state.phase1_fired && idle < phase1_ms {
            let left = phase1_ms - idle;
            proof {
                assert(cfg@.phase1_ms <= u64::MAX * 1000);
            }
            let style = phase_color(left, phase1_ms);
            let mut p1 = String::from_str("Phase 1: ");
            p1.append(format_dur(left).as_str());
            p1.append(" until close window");
            lines.push(StatusLine { text: p1, style });
        } else {
            lines.push(
                StatusLine { text: String::from_str("Phase 1: done"), style: LineStyle::Cyan },
            );
        }
        if let Some(start) = state.phase2_start {
            let phase2_ms = cfg.phase2_ms();
            let elapsed: u128 = if now >= start {
                now - start
            } else {
                0
            };
            let rem: u128 = if phase2_ms >= elapsed {
                phase2_ms - elapsed
            } else {
                0
            };
            proof {
                assert(cfg@.phase2_ms <= u64::MAX * 1000);
            }
            let style = phase_color(rem, phase2_ms);
            let mut p2 = String::from_str("Phase 2: ");
            p2.append(format_dur(rem).as_str());
            p2.append(" until power off");
            lines.push(StatusLine { text: p2, style });
        } else {
            lines.push(
                StatusLine {
                    text: String::from_str("Phase 2: after Phase 1"),
                    style: LineStyle::DarkGray,
                },
            );
        }
    }
    proof {
        assert(lines.deep_view() =~~= spec_render(cfg@, state@, idle as int, now as int));
    }
    lines
}

} // verus!
