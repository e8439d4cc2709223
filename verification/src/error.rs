//! The errors of the library.

use vstd::prelude::*;

verus! {

/// Why a configuration could not be built. Each variant carries the name or
/// the reason that it is about.
#[derive(Debug)]
pub enum ConfigError {
    /// No constructor is registered for this kind.
    UnknownKind(String),
    /// The raw configuration of a component does not have the shape that its
    /// constructor expects.
    MalformedConfig(String),
    /// The constructor of a component failed.
    ComponentConstructionFailed(String),
    /// Two appenders have this name.
    DuplicateSinkName(String),
    /// Two loggers have this name, or a logger has the name of the root.
    DuplicateLoggerName(String),
    /// A logger or the root refers to an appender that does not exist.
    UnknownSinkReference(String),
}

/// The encoder could not render a record.
#[derive(Debug)]
pub struct EncodeError(pub String);

/// A writer could not be opened, written or flushed.
#[derive(Debug)]
pub struct IoError(pub String);

/// Why an appender could not take a record or follow a rotation.
#[derive(Debug)]
pub enum AppendError {
    /// The encoder failed; nothing was written.
    EncodeError(String),
    /// Writing or flushing failed.
    IoError(String),
    /// The file could not be opened again after a rotation. The writer that
    /// was in place before is still in place.
    RotationFailed(String),
}

impl ConfigError {
    /// A description of the error.
    pub fn message(&self) -> (m: &str)
        ensures
            m@ == self.detail()@,
    {
        match self {
            ConfigError::UnknownKind(s) => s.as_str(),
            ConfigError::MalformedConfig(s) => s.as_str(),
            ConfigError::ComponentConstructionFailed(s) => s.as_str(),
            ConfigError::DuplicateSinkName(s) => s.as_str(),
            ConfigError::DuplicateLoggerName(s) => s.as_str(),
            ConfigError::UnknownSinkReference(s) => s.as_str(),
        }
    }

    /// The name or reason that the error carries.
    pub open spec fn detail(&self) -> String {
        match self {
            ConfigError::UnknownKind(s) => *s,
            ConfigError::MalformedConfig(s) => *s,
            ConfigError::ComponentConstructionFailed(s) => *s,
            ConfigError::DuplicateSinkName(s) => *s,
            ConfigError::DuplicateLoggerName(s) => *s,
            ConfigError::UnknownSinkReference(s) => *s,
        }
    }
}

impl AppendError {
    /// The error of an appender whose encoder failed with `e`.
    pub fn from_encode(e: EncodeError) -> (r: AppendError)
        ensures
            r == AppendError::EncodeError(e.0),
    {
        AppendError::EncodeError(e.0)
    }

    /// The error of an appender whose writer failed with `e`.
    pub fn from_io(e: IoError) -> (r: AppendError)
        ensures
            r == AppendError::IoError(e.0),
    {
        AppendError::IoError(e.0)
    }

    /// The error of an appender whose file could not be opened again.
    pub fn from_reopen(e: IoError) -> (r: AppendError)
        ensures
            r == AppendError::RotationFailed(e.0),
    {
        AppendError::RotationFailed(e.0)
    }
}

} // verus!
