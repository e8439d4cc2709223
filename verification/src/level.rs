//! Severity levels and level thresholds.

use vstd::prelude::*;

verus! {

/// The severity of a record. `Error` is the most severe.
#[derive(Clone, Copy, Debug, PartialEq, Eq, Structural)]
pub enum Level {
    Error,
    Warn,
    Info,
    Debug,
    Trace,
}

/// A threshold on severities. `Off` lets nothing through, `Trace` everything.
#[derive(Clone, Copy, Debug, PartialEq, Eq, Structural)]
pub enum LevelFilter {
    Off,
    Error,
    Warn,
    Info,
    Debug,
    Trace,
}

impl Level {
    /// Position of the level in the order of verbosity: 1 for `Error` up to 5
    /// for `Trace`.
    pub open spec fn rank(self) -> int {
        match self {
            Level::Error => 1,
            Level::Warn => 2,
            Level::Info => 3,
            Level::Debug => 4,
            Level::Trace => 5,
        }
    }

    /// The threshold that admits this level and everything more severe.
    pub fn to_level_filter(self) -> (f: LevelFilter)
        ensures
            f.rank() == self.rank(),
    {
        match self {
            Level::Error => LevelFilter::Error,
            Level::Warn => LevelFilter::Warn,
            Level::Info => LevelFilter::Info,
            Level::Debug => LevelFilter::Debug,
            Level::Trace => LevelFilter::Trace,
        }
    }

    /// The most verbose level.
    pub fn max() -> (l: Level)
        ensures
            l == Level::Trace,
    {
        Level::Trace
    }
}

impl LevelFilter {
    /// Position of the threshold: 0 for `Off`, then as [`Level::rank`].
    pub open spec fn rank(self) -> int {
        match self {
            LevelFilter::Off => 0,
            LevelFilter::Error => 1,
            LevelFilter::Warn => 2,
            LevelFilter::Info => 3,
            LevelFilter::Debug => 4,
            LevelFilter::Trace => 5,
        }
    }

    /// Whether a record of severity `level` passes this threshold: the level
    /// must be at least as severe as the threshold.
    pub open spec fn admits(self, level: Level) -> bool {
        level.rank() <= self.rank()
    }

    /// Decides [`LevelFilter::admits`].
    pub fn allows(self, level: Level) -> (r: bool)
        ensures
            r == self.admits(level),
    {
        let threshold: u8 = match self {
            LevelFilter::Off => 0,
            LevelFilter::Error => 1,
            LevelFilter::Warn => 2,
            LevelFilter::Info => 3,
            LevelFilter::Debug => 4,
            LevelFilter::Trace => 5,
        };
        let severity: u8 = match level {
            Level::Error => 1,
            Level::Warn => 2,
            Level::Info => 3,
            Level::Debug => 4,
            Level::Trace => 5,
        };
        severity <= threshold
    }

    /// The most verbose threshold.
    pub fn max() -> (f: LevelFilter)
        ensures
            f == LevelFilter::Trace,
    {
        LevelFilter::Trace
    }

    /// The level of the same rank, or `None` for `Off`.
    pub fn to_level(self) -> (l: Option<Level>)
        ensures
            self == LevelFilter::Off <==> l is None,
            l matches Some(v) ==> v.rank() == self.rank(),
    {
        match self {
            LevelFilter::Off => None,
            LevelFilter::Error => Some(Level::Error),
            LevelFilter::Warn => Some(Level::Warn),
            LevelFilter::Info => Some(Level::Info),
            LevelFilter::Debug => Some(Level::Debug),
            LevelFilter::Trace => Some(Level::Trace),
        }
    }
}

/// Whether `c` is the upper-case ASCII letter `letter` or its lower-case form.
pub open spec fn same_letter(c: char, letter: char) -> bool {
    c == letter || c as u32 == letter as u32 + 32
}

/// Whether `s` spells `name`, which consists of upper-case ASCII letters,
/// when the case of ASCII letters is ignored.
pub open spec fn spells(s: Seq<char>, name: Seq<char>) -> bool {
    &&& s.len() == name.len()
    &&& forall|i: int| 0 <= i < s.len() ==> same_letter(#[trigger] s[i], name[i])
}

/// The threshold that a string names: one of `OFF`, `ERROR`, `WARN`, `INFO`,
/// `DEBUG` and `TRACE` in any mixture of upper and lower case.
pub open spec fn filter_named(s: Seq<char>) -> Option<LevelFilter> {
    if spells(s, seq!['O', 'F', 'F']) {
        Some(LevelFilter::Off)
    } else if spells(s, seq!['E', 'R', 'R', 'O', 'R']) {
        Some(LevelFilter::Error)
    } else if spells(s, seq!['W', 'A', 'R', 'N']) {
        Some(LevelFilter::Warn)
    } else if spells(s, seq!['I', 'N', 'F', 'O']) {
        Some(LevelFilter::Info)
    } else if spells(s, seq!['D', 'E', 'B', 'U', 'G']) {
        Some(LevelFilter::Debug)
    } else if spells(s, seq!['T', 'R', 'A', 'C', 'E']) {
        Some(LevelFilter::Trace)
    } else {
        None
    }
}

/// Parses a threshold with `<log::LogLevelFilter as FromStr>::from_str`.
///
/// Not verified. The contract restates what that function does: it compares
/// the input, ignoring ASCII case, with the names `OFF`, `ERROR`, `WARN`,
/// `INFO`, `DEBUG` and `TRACE`, and returns the threshold of the first name
/// that matches, or an error when none does.
#[verifier::external_body]
fn parse_filter(s: &str) -> (r: Option<LevelFilter>)
    ensures
        r == filter_named(s@),
{
    match s.parse::<log::LogLevelFilter>() {
        Ok(log::LogLevelFilter::Off) => Some(LevelFilter::Off),
        Ok(log::LogLevelFilter::Error) => Some(LevelFilter::Error),
        Ok(log::LogLevelFilter::Warn) => Some(LevelFilter::Warn),
        Ok(log::LogLevelFilter::Info) => Some(LevelFilter::Info),
        Ok(log::LogLevelFilter::Debug) => Some(LevelFilter::Debug),
        Ok(log::LogLevelFilter::Trace) => Some(LevelFilter::Trace),
        Err(()) => None,
    }
}

impl LevelFilter {
    /// Reads a threshold from its name, ignoring ASCII case.
    pub fn parse(s: &str) -> (r: Option<LevelFilter>)
        ensures
            r == filter_named(s@),
    {
        parse_filter(s)
    }
}

} // verus!
