//! Appenders.

use vstd::prelude::*;
use crate::error::AppendError;
use crate::record::Record;

pub mod console;
pub mod file;


verus! {

/// A destination of records.
///
/// Appenders take a record and process it, for example by writing it to a
/// file or to the console.
pub trait Append: Send + Sync {
    /// Processes the record.
    fn append(&self, record: &Record) -> Result<(), AppendError>;

    /// Called after a log file has been rotated. Appenders that do not write
    /// to a file have nothing to do and succeed.
    fn post_rotate(&self) -> (r: Result<(), AppendError>)
        default_ensures
            r is Ok,
    {
        Ok(())
    }
}

} // verus!
