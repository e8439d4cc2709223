//! The handle to the configuration in force.
//!
//! The handle holds the resolver that records are dispatched through. A
//! dispatch takes the lock only to get hold of the resolver in force and
//! works on that one resolver from then on; a new configuration is made
//! ready outside the lock and put in place in one step.

use std::sync::Arc;
use vstd::prelude::*;
use crate::config::Config;
use crate::dispatch::{delivered, Delivery, Resolver};
use crate::error::ConfigError;
use crate::file::{
    all_registered, build_config, first_unregistered_at, raw_kinds, Deserializers, RawConfig,
};
use crate::name::key;
use crate::record::Record;
use crate::sync::{guarded, lock, mutex_new};

verus! {

/// Puts the resolver for a configuration in force if the configuration
/// could be built. If it could not, what is in force stays in force and the
/// error is handed on.
pub fn publish(slot: &mut Option<Arc<Resolver>>, built: Result<Config, ConfigError>) -> (r: Result<
    (),
    ConfigError,
>)
    ensures
        match built {
            Ok(c) => {
                &&& r is Ok
                &&& *final(slot) matches Some(now)
                &&& now@ == c@
                &&& now.sinks() == c.sinks()
            },
            Err(e) => {
                &&& *final(slot) == *old(slot)
                &&& r matches Err(x)
                &&& x == e
            },
        },
{
    match built {
        Ok(config) => {
            *slot = Some(Arc::new(Resolver::new(config)));
            Ok(())
        },
        Err(e) => Err(e),
    }
}

/// Whether `report` is what a dispatch of `record` reports when `current` is
/// in force: the appenders that `current` resolves the record to, in order,
/// if its threshold lets the record through, and nothing otherwise or where
/// nothing is in force.
pub open spec fn dispatched(
    current: Option<Arc<Resolver>>,
    record: Record,
    report: Seq<Delivery>,
) -> bool {
    match current {
        Some(now) => delivered(now@, record, report),
        None => report.len() == 0,
    }
}

/// Whether `report` is what the notice of a rotation reports when `current`
/// is in force: one answer of each appender, in order, and nothing where
/// nothing is in force.
pub open spec fn notified(current: Option<Arc<Resolver>>, report: Seq<Delivery>) -> bool {
    match current {
        Some(now) => {
            &&& report.len() == now@.appenders.len()
            &&& forall|j: int| 0 <= j < report.len() ==> (#[trigger] report[j]).appender == j
        },
        None => report.len() == 0,
    }
}

/// Dispatches `record` through the resolver in force. Where none is in
/// force yet, the record is dropped: no appender gets it and nothing fails.
pub fn dispatch_with(current: &Option<Arc<Resolver>>, record: &Record) -> (report: Vec<Delivery>)
    ensures
        dispatched(*current, *record, report@),
{
    match current {
        Some(now) => now.dispatch(record),
        None => Vec::new(),
    }
}

/// Tells the appenders of the resolver in force that their files have been
/// rotated. Where none is in force, nothing is done.
pub fn rotate_with(current: &Option<Arc<Resolver>>) -> (report: Vec<Delivery>)
    ensures
        notified(*current, report@),
{
    match current {
        Some(now) => now.notify_rotation(),
        None => Vec::new(),
    }
}

/// A handle to the configuration in force.
pub struct Handle {
    shared: antidote::Mutex<Option<Arc<Resolver>>>,
}

impl Handle {
    /// A handle with no configuration in force: records are dropped until
    /// one is set.
    pub fn new() -> Handle {
        Handle { shared: mutex_new(None) }
    }

    /// The resolver in force at this moment.
    pub fn current(&self) -> Option<Arc<Resolver>> {
        let mut guard = lock(&self.shared);
        let slot = guarded(&mut guard);
        match slot {
            Some(now) => Some(now.clone()),
            None => None,
        }
    }

    /// Puts `new_config` in force. Dispatches that are under way finish with
    /// the resolver that they started with. The resolver that was in force
    /// is let go of only after the lock has been given back, so that no
    /// appender is closed under the lock.
    ///
    /// A `Config` is consistent by construction, so this cannot fail.
    pub fn set_config(&self, new_config: Config) -> (r: Result<(), ConfigError>)
        ensures
            r is Ok,
    {
        let mut next: Option<Arc<Resolver>> = None;
        let r = publish(&mut next, Ok(new_config));
        let mut guard = lock(&self.shared);
        let slot = guarded(&mut guard);
        core::mem::swap(slot, &mut next);
        r
    }

    /// Builds the configuration that `raw` describes and puts it in force.
    /// If it cannot be built, the error is returned and the configuration
    /// in force is left as it is.
    pub fn reconfigure(&self, raw: RawConfig, deserializers: &Deserializers) -> (r: Result<
        (),
        ConfigError,
    >)
        ensures
            raw@.valid() && raw.appenders@.len() == 0 ==> r is Ok,
            match r {
                Ok(()) => {
                    &&& raw@.valid()
                    &&& all_registered(raw_kinds(raw.appenders@), deserializers.appender_kinds())
                },
                Err(e) => {
                    &&& !raw@.valid() ==> raw@.refused_with(e)
                    &&& raw@.valid() ==> forall|i: int|
                        first_unregistered_at(
                            raw_kinds(raw.appenders@),
                            deserializers.appender_kinds(),
                            i,
                        ) ==> (e matches ConfigError::UnknownKind(k) && key(k@)
                            == #[trigger] raw_kinds(raw.appenders@)[i])
                },
            },
    {
        match build_config(raw, deserializers) {
            Ok(config) => self.set_config(config),
            Err(e) => Err(e),
        }
    }

    /// Dispatches `record` through the configuration in force and reports
    /// what each appender answered. The record is dropped if no
    /// configuration is in force.
    ///
    /// Which configuration is in force is settled when the lock is taken.
    /// Whichever it is, the whole dispatch goes through that one: threshold
    /// and appenders are never those of two configurations.
    pub fn dispatch(&self, record: &Record) -> (report: Vec<Delivery>)
        ensures
            exists|current: Option<Arc<Resolver>>| dispatched(current, *record, report@),
    {
        let current = self.current();
        let report = dispatch_with(&current, record);
        assert(dispatched(current, *record, report@));
        report
    }

    /// Tells every appender of the configuration in force that its file has
    /// been rotated, and reports what each answered. Which configuration is
    /// in force is settled when the lock is taken.
    pub fn notify_rotation(&self) -> (report: Vec<Delivery>)
        ensures
            exists|current: Option<Arc<Resolver>>| notified(current, report@),
    {
        let current = self.current();
        let report = rotate_with(&current);
        assert(notified(current, report@));
        report
    }
}

/// Starts with `initial_config` in force.
pub fn install(initial_config: Config) -> Handle {
    let mut slot: Option<Arc<Resolver>> = None;
    let _ = publish(&mut slot, Ok(initial_config));
    Handle { shared: mutex_new(slot) }
}

} // verus!
