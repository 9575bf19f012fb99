use vstd::prelude::*;

verus! {

/// Idle duration (milliseconds) strictly below which an OS idle-time sample
/// is taken as evidence of fresh user activity (a sample of exactly this
/// value does not reset).
pub const ACTIVITY_THRESHOLD_MS: u64 = 2000;

/// Ghost model of the mutable phase state: timestamps as mathematical
/// integers, the tracked window as a character sequence.
pub ghost struct StateModel {
    pub phase1_fired: bool,
    pub snooze_until: Option<int>,
    pub phase2_start: Option<int>,
    pub last_input: int,
    pub tracked_window: Option<Seq<char>>,
}

impl StateModel {
    /// State invariant: the snooze timer and the phase-2 countdown are never
    /// both armed, and neither exists before phase 1 has fired.
    pub open spec fn wf(self) -> bool {
        &&& !(self.snooze_until is Some && self.phase2_start is Some)
        &&& !self.phase1_fired ==> self.snooze_until is None && self.phase2_start is None
    }

    /// The same state with every pending phase cancelled.
    pub open spec fn with_phases_cleared(self) -> StateModel {
        StateModel { phase1_fired: false, snooze_until: None, phase2_start: None, ..self }
    }

    /// Baseline state: nothing fired, no timers, last input at `now`.
    pub open spec fn baseline(now: int, window: Option<Seq<char>>) -> StateModel {
        StateModel {
            phase1_fired: false,
            snooze_until: None,
            phase2_start: None,
            last_input: now,
            tracked_window: window,
        }
    }
}

/// The mutable per-run state of the escalation machine. One instance is owned
/// by the polling loop; it is only ever changed through the methods here and
/// through `machine::tick_phases`.
pub struct PhaseState {
    pub phase1_fired: bool,
    pub snooze_until: Option<u128>,
    pub phase2_start: Option<u128>,
    pub last_input: u128,
    pub tracked_window: Option<String>,
}

impl View for PhaseState {
    type V = StateModel;

    open spec fn view(&self) -> StateModel {
        StateModel {
            phase1_fired: self.phase1_fired,
            snooze_until: match self.snooze_until {
                Some(t) => Some(t as int),
                None => None,
            },
            phase2_start: match self.phase2_start {
                Some(t) => Some(t as int),
                None => None,
            },
            last_input: self.last_input as int,
            tracked_window: self.tracked_window.deep_view(),
        }
    }
}

/// A local input event, as seen by the polling loop. Key presses carry the
/// character (if the key produces one) and whether Control was held; releases
/// and repeats are `Other`.
pub enum InputEvent {
    Key { ch: Option<char>, ctrl: bool },
    Mouse,
    Other,
}

/// Whether a key press asks the program to quit: `q`, or Control-C.
pub open spec fn spec_key_is_quit(ch: Option<char>, ctrl: bool) -> bool {
    ch == Some('q') || (ch == Some('c') && ctrl)
}

/// What an input event does to the state: a key press or mouse event counts
/// as activity (refreshes `last_input`, cancels all pending phases); anything
/// else leaves the state alone.
pub open spec fn spec_handle_input(s: StateModel, ev: InputEvent, now: int) -> StateModel {
    match ev {
        InputEvent::Key { .. } | InputEvent::Mouse => StateModel {
            last_input: now,
            ..s.with_phases_cleared()
        },
        InputEvent::Other => s,
    }
}

/// Any activity strictly before a phase fires cancels all pending state:
/// after a key press or mouse event — and equally after an OS idle sample
/// below the activity threshold, which applies `with_phases_cleared` the
/// same way — `phase1_fired` is false and both timers are gone, whatever
/// the state was before.
pub proof fn lemma_activity_cancels_phases(s: StateModel, ev: InputEvent, now: int)
    ensures
        !(ev is Other) ==> {
            &&& !spec_handle_input(s, ev, now).phase1_fired
            &&& spec_handle_input(s, ev, now).snooze_until is None
            &&& spec_handle_input(s, ev, now).phase2_start is None
            &&& spec_handle_input(s, ev, now).last_input == now
            &&& spec_handle_input(s, ev, now).wf()
        },
        !s.with_phases_cleared().phase1_fired,
        s.with_phases_cleared().snooze_until is None,
        s.with_phases_cleared().phase2_start is None,
        s.with_phases_cleared().wf(),
{
}

impl PhaseState {
    /// Baseline state at startup: nothing fired, both timers absent,
    /// `last_input = now`, tracked window as probed (best effort).
    pub fn new(now: u128, window: Option<String>) -> (s: PhaseState)
        ensures
            s@ == StateModel::baseline(now as int, window.deep_view()),
            s@.wf(),
    {
        PhaseState {
            phase1_fired: false,
            snooze_until: None,
            phase2_start: None,
            last_input: now,
            tracked_window: window,
        }
    }

    /// Cancels every pending phase: back to Active, keeping `last_input` and
    /// the tracked window.
    pub fn reset_phases(&mut self)
        ensures
            final(self)@ == old(self)@.with_phases_cleared(),
            final(self)@.wf(),
    {
        self.phase1_fired = false;
        self.snooze_until = None;
        self.phase2_start = None;
    }

    /// Whether this tick's idle sample proves fresh activity: only when the
    /// OS idle source is in use and the sample is below the activity
    /// threshold (a low locally-derived sample would merely echo our own
    /// `last_input` bookkeeping).
    pub fn activity_reset_due(use_system: bool, idle: u128) -> (r: bool)
        ensures
            r == (use_system && idle < ACTIVITY_THRESHOLD_MS),
    {
        use_system && idle < ACTIVITY_THRESHOLD_MS as u128
    }

    /// Applies an idle sample: when it proves fresh activity (see
    /// `activity_reset_due`), cancels every pending phase and refreshes the
    /// tracked window from `window` (the current foreground window, freshly
    /// probed; `None` keeps the old one). Otherwise leaves the state alone.
    pub fn tick_idle(&mut self, use_system: bool, idle: u128, window: Option<String>)
        requires
            old(self)@.wf(),
        ensures
            final(self)@ == if use_system && idle < ACTIVITY_THRESHOLD_MS {
                StateModel {
                    tracked_window: if window is Some {
                        window.deep_view()
                    } else {
                        old(self)@.tracked_window
                    },
                    ..old(self)@.with_phases_cleared()
                }
            } else {
                old(self)@
            },
            final(self)@.wf(),
    {
        if !(use_system && idle < ACTIVITY_THRESHOLD_MS as u128) {
            return;
        }
        self.reset_phases();
        if let Some(id) = window {
            self.tracked_window = Some(id);
        }
    }

    /// Applies a local input event. A key press or mouse event refreshes
    /// `last_input` and cancels every pending phase; the result says whether
    /// the event asks the program to quit (`q` or Control-C).
    pub fn handle_input(&mut self, ev: &InputEvent, now: u128) -> (quit: bool)
        requires
            old(self)@.wf(),
        ensures
            final(self)@ == spec_handle_input(old(self)@, *ev, now as int),
            final(self)@.wf(),
            quit == (*ev matches InputEvent::Key { ch, ctrl } && spec_key_is_quit(ch, ctrl)),
    {
        match ev {
            InputEvent::Key { ch, ctrl } => {
                self.last_input = now;
                self.reset_phases();
                *ch == Some('q') || (*ch == Some('c') && *ctrl)
            },
            InputEvent::Mouse => {
                self.last_input = now;
                self.reset_phases();
                false
            },
            InputEvent::Other => false,
        }
    }

    /// The idle duration this tick works with: the OS-reported sample when
    /// one is available, otherwise the time since the last locally observed
    /// input event (saturating at zero).
    pub fn effective_idle(&self, system_idle: Option<u128>, now: u128) -> (r: u128)
        ensures
            r as int == match system_idle {
                Some(d) => d as int,
                None => if now >= self.last_input {
                    now - self.last_input
                } else {
                    0
                },
            },
    {
        match system_idle {
            Some(d) => d,
            None => {
                if now >= self.last_input {
                    now - self.last_input
                } else {
                    0
                }
            },
        }
    }
}

} // verus!
