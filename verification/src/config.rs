use vstd::prelude::*;
use vstd::string::*;
use crate::ratio::Ratio;

verus! {

/// How much is written to the log.
#[derive(Clone, Copy, Debug, PartialEq, Eq, Structural)]
pub enum LogLevel {
    Off,
    Error,
    Warn,
    Info,
    Debug,
    Trace,
}

/// The level that a lower-case name stands for.
pub open spec fn level_named(name: Seq<char>) -> Option<LogLevel> {
    if name == "off"@ {
        Some(LogLevel::Off)
    } else if name == "error"@ {
        Some(LogLevel::Error)
    } else if name == "warn"@ {
        Some(LogLevel::Warn)
    } else if name == "info"@ {
        Some(LogLevel::Info)
    } else if name == "debug"@ {
        Some(LogLevel::Debug)
    } else if name == "trace"@ {
        Some(LogLevel::Trace)
    } else {
        None
    }
}

impl LogLevel {
    /// Reads a level from its lower-case name.
    pub fn from_name(name: &String) -> (result: Option<LogLevel>)
        ensures
            result == level_named(name@),
    {
        if *name == String::from_str("off") {
            Some(LogLevel::Off)
        } else if *name == String::from_str("error") {
            Some(LogLevel::Error)
        } else if *name == String::from_str("warn") {
            Some(LogLevel::Warn)
        } else if *name == String::from_str("info") {
            Some(LogLevel::Info)
        } else if *name == String::from_str("debug") {
            Some(LogLevel::Debug)
        } else if *name == String::from_str("trace") {
            Some(LogLevel::Trace)
        } else {
            None
        }
    }
}

/// The largest numerator of a usable strength: times 255, the largest
/// numerator of a mapped intensity, it still fits 64 bits.
pub const STRENGTH_NUM_LIMIT: u64 = 72340172838076673;

/// The largest denominator of a usable strength: times 510, the largest
/// denominator of a mapped intensity, it still fits 64 bits.
pub const STRENGTH_DEN_LIMIT: u64 = 36170086419038336;

/// Settings that are fixed once the process has started.
#[derive(Clone, Copy, Debug, PartialEq, Eq, Structural)]
pub struct Config {
    /// A multiplier applied to every intensity before it is cut off at one.
    pub vibration_strength: Ratio,
    /// How long a one-shot pulse holds its speed, in milliseconds.
    pub vibration_time: Option<u64>,
    pub log_level: LogLevel,
}

/// What is used when no configuration can be had: full strength, no pulse
/// time, errors logged.
pub open spec fn default_config() -> Config {
    Config {
        vibration_strength: Ratio { num: 1, den: 1 },
        vibration_time: None,
        log_level: LogLevel::Error,
    }
}

/// What a failed load is reported as.
pub open spec fn failure_report(cause: Seq<char>) -> Seq<char> {
    "error: "@ + cause
}

/// What is said of a configuration whose strength cannot be used.
pub open spec fn strength_complaint() -> Seq<char> {
    "vibration_strength is out of range"@
}

/// The configuration to run with, and what to tell the user if it is not the
/// one that was asked for.
#[derive(Debug)]
pub struct Resolved {
    pub config: Config,
    pub report: Option<String>,
}

impl Config {
    /// A configuration can be used when its strength is a fraction that
    /// can be multiplied with every mapped intensity.
    pub open spec fn wf(&self) -> bool {
        &&& self.vibration_strength.wf()
        &&& self.vibration_strength.num <= STRENGTH_NUM_LIMIT
        &&& self.vibration_strength.den <= STRENGTH_DEN_LIMIT
    }

    /// Tests `wf`.
    pub fn is_usable(&self) -> (result: bool)
        ensures
            result == self.wf(),
    {
        self.vibration_strength.den > 0 && self.vibration_strength.num <= STRENGTH_NUM_LIMIT
            && self.vibration_strength.den <= STRENGTH_DEN_LIMIT
    }

    /// How long a pulse holds: the configured time, or no time at all.
    pub open spec fn hold_ms(&self) -> u64 {
        match self.vibration_time {
            Some(ms) => ms,
            None => 0,
        }
    }

    /// Settles on a configuration. One that was loaded and can be used is
    /// taken as it is. Otherwise the default takes its place, and the
    /// report says why; the report is then never empty.
    pub fn resolve(loaded: Result<Config, String>) -> (result: Resolved)
        ensures
            result.config.wf(),
            match loaded {
                Ok(config) => if config.wf() {
                    result.config == config && result.report.is_none()
                } else {
                    &&& result.config == default_config()
                    &&& result.report.is_some()
                    &&& result.report.unwrap()@ == failure_report(strength_complaint())
                },
                Err(cause) => {
                    &&& result.config == default_config()
                    &&& result.report.is_some()
                    &&& result.report.unwrap()@ == failure_report(cause@)
                },
            },
            result.report.is_some() ==> result.report.unwrap()@.len() > 0,
    {
        proof {
            reveal_strlit("error: ");
        }
        match loaded {
            Ok(config) => {
                if config.is_usable() {
                    Resolved { config, report: None }
                } else {
                    let report = String::from_str("error: ").concat(
                        "vibration_strength is out of range",
                    );
                    Resolved { config: Config::default(), report: Some(report) }
                }
            },
            Err(cause) => {
                let report = String::from_str("error: ").concat(cause.as_str());
                Resolved { config: Config::default(), report: Some(report) }
            },
        }
    }
}

impl Default for Config {
    fn default() -> (result: Config)
        ensures
            result == default_config(),
    {
        Config {
            vibration_strength: Ratio { num: 1, den: 1 },
            vibration_time: None,
            log_level: LogLevel::Error,
        }
    }
}

} // verus!
