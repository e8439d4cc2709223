//! A configurable logging backend.
//!
//! Records are routed to appenders according to a hierarchy of named
//! loggers. Each logger carries a level threshold, a list of appenders and an
//! additivity flag; a record addressed to a name is resolved against the
//! nearest configured ancestors of that name.
//!
//! The routing rules are stated as specification functions in [`resolve`],
//! together with what follows from them; the [`dispatch::Resolver`] is
//! verified against them.

pub mod append;
pub mod config;
pub mod dispatch;
pub mod encode;
pub mod error;
pub mod file;
pub mod handle;
pub mod keep;
pub mod level;
pub mod name;
pub mod priv_serde;
pub mod probe;
pub mod record;
pub mod resolve;
pub mod sync;

pub use dispatch::Resolver;
pub use handle::{install, Handle};
pub use level::{Level, LevelFilter};
pub use record::Record;
