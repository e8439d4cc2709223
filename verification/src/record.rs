//! Log records.

use vstd::prelude::*;
use crate::level::Level;

verus! {

/// One unit of log data: where it comes from, how severe it is and what it
/// says.
pub struct Record {
    /// The severity of the record.
    pub level: Level,
    /// The name of the logger that the record is addressed to.
    pub target: String,
    /// The rendered message.
    pub message: String,
}

impl Record {
    /// A record of severity `level` for the logger `target`.
    pub fn new(level: Level, target: &str, message: &str) -> (r: Record)
        ensures
            r.level == level,
            r.target@ == target@,
            r.message@ == message@,
    {
        Record { level, target: target.to_owned(), message: message.to_owned() }
    }

    /// The severity of the record.
    pub fn level(&self) -> (l: Level)
        ensures
            l == self.level,
    {
        self.level
    }

    /// The name of the logger that the record is addressed to.
    pub fn target(&self) -> (t: &str)
        ensures
            t@ == self.target@,
    {
        self.target.as_str()
    }

    /// The rendered message.
    pub fn message(&self) -> (m: &str)
        ensures
            m@ == self.message@,
    {
        self.message.as_str()
    }
}

} // verus!
