use vstd::prelude::*;

verus! {

/// Ghost model of a `Config`: thresholds in milliseconds, commands as
/// sequences of argument strings.
pub ghost struct ConfigModel {
    pub phase1_ms: int,
    pub phase2_ms: int,
    pub snooze_ms: int,
    pub phase1_cmd: Option<Seq<Seq<char>>>,
    pub phase2_cmd: Option<Seq<Seq<char>>>,
}

/// Escalation settings, fixed at startup.
///
/// `phase1_cmd` is a whitespace-split command line to be run through a shell
/// (detached) when phase 1 fires; `phase2_cmd` is an argv-style command run
/// and awaited when phase 2 fires. Either may be absent.
pub struct Config {
    pub phase1_secs: u64,
    pub phase2_secs: u64,
    pub auto_snooze_secs: u64,
    pub phase1_cmd: Option<Vec<String>>,
    pub phase2_cmd: Option<Vec<String>>,
}

impl View for Config {
    type V = ConfigModel;

    open spec fn view(&self) -> ConfigModel {
        ConfigModel {
            phase1_ms: self.phase1_secs * 1000,
            phase2_ms: self.phase2_secs * 1000,
            snooze_ms: self.auto_snooze_secs * 1000,
            phase1_cmd: self.phase1_cmd.deep_view(),
            phase2_cmd: self.phase2_cmd.deep_view(),
        }
    }
}

impl ConfigModel {
    /// The configuration invariant: thresholds are durations (nonnegative),
    /// and the first escalation comes strictly before the terminal one.
    pub open spec fn wf(self) -> bool {
        &&& 0 <= self.phase1_ms
        &&& 0 <= self.snooze_ms
        &&& self.phase1_ms < self.phase2_ms
    }
}

/// Why a configuration was rejected.
#[derive(Clone, Copy, PartialEq, Eq, Structural, Debug)]
pub enum ConfigError {
    /// `phase1_secs >= phase2_secs`.
    Phase1NotBelowPhase2,
}

impl Config {
    /// Validates and builds a configuration: the phase-1 threshold must be
    /// strictly below the phase-2 threshold.
    pub fn new(
        phase1_secs: u64,
        phase2_secs: u64,
        auto_snooze_secs: u64,
        phase1_cmd: Option<Vec<String>>,
        phase2_cmd: Option<Vec<String>>,
    ) -> (r: Result<Config, ConfigError>)
        ensures
            r is Ok <==> phase1_secs < phase2_secs,
            r matches Ok(c) ==> {
                &&& c.phase1_secs == phase1_secs
                &&& c.phase2_secs == phase2_secs
                &&& c.auto_snooze_secs == auto_snooze_secs
                &&& c@.phase1_cmd == phase1_cmd.deep_view()
                &&& c@.phase2_cmd == phase2_cmd.deep_view()
                &&& c@.wf()
            },
            r matches Err(e) ==> e == ConfigError::Phase1NotBelowPhase2,
    {
        if phase1_secs >= phase2_secs {
            return Err(ConfigError::Phase1NotBelowPhase2);
        }
        assert(phase1_secs * 1000 < phase2_secs * 1000) by (nonlinear_arith)
            requires phase1_secs < phase2_secs;
        Ok(Config { phase1_secs, phase2_secs, auto_snooze_secs, phase1_cmd, phase2_cmd })
    }

    /// Phase-1 idle threshold in milliseconds.
    pub fn phase1_ms(&self) -> (r: u128)
        ensures
            r == self@.phase1_ms,
    {
        self.phase1_secs as u128 * 1000
    }

    /// Phase-2 countdown length in milliseconds.
    pub fn phase2_ms(&self) -> (r: u128)
        ensures
            r == self@.phase2_ms,
    {
        self.phase2_secs as u128 * 1000
    }

    /// Snooze (grace period) length in milliseconds; 0 disables the snooze.
    pub fn snooze_ms(&self) -> (r: u128)
        ensures
            r == self@.snooze_ms,
    {
        self.auto_snooze_secs as u128 * 1000
    }
}

} // verus!
