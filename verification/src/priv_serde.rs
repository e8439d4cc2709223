//! The forms in which thresholds and durations stand in a configuration.

use vstd::prelude::*;
use crate::level::{filter_named, LevelFilter};

verus! {

/// A value that could not be read: what was found and what was expected.
#[derive(Debug)]
pub struct InvalidValue {
    /// The string that was found.
    pub unexpected: String,
    /// What should have been there.
    pub expected: String,
}

/// A threshold as it stands in a configuration: its name as a string.
#[derive(PartialEq, Eq, Debug, Structural)]
pub struct DeLogLevelFilter(pub LevelFilter);

impl DeLogLevelFilter {
    /// Reads a threshold from the string `v`, which must be one of `off`,
    /// `error`, `warn`, `info`, `debug` and `trace` in any mixture of upper
    /// and lower case. Any other string is refused as an invalid value where
    /// a `string` was expected.
    pub fn deserialize(v: &str) -> (r: Result<DeLogLevelFilter, InvalidValue>)
        ensures
            match filter_named(v@) {
                Some(f) => r matches Ok(d) && d.0 == f,
                None => r matches Err(e) && e.unexpected@ == v@ && e.expected@ == "string"@,
            },
    {
        match LevelFilter::parse(v) {
            Some(f) => Ok(DeLogLevelFilter(f)),
            None => Err(InvalidValue { unexpected: v.to_owned(), expected: "string".to_owned() }),
        }
    }
}

/// A duration as it stands in a configuration: a number of whole seconds.
#[derive(PartialEq, Eq, Debug, Structural)]
pub struct DeDuration(pub u64);

impl DeDuration {
    /// The duration of `secs` seconds.
    pub fn deserialize(secs: u64) -> (d: DeDuration)
        ensures
            d.0 == secs,
    {
        DeDuration(secs)
    }

    /// The number of whole seconds.
    pub fn as_secs(&self) -> (secs: u64)
        ensures
            secs == self.0,
    {
        self.0
    }
}

} // verus!
