//! The syncer abstraction: a pollable unit of synchronization work.
//!
//! Each concrete syncer names itself, fixes its poll delay, reports
//! whether it is enabled, and carries the run generation the scheduler
//! last stamped it with. The hosting application runs one scheduling loop
//! per syncer: sleep for the delay, check enablement, stamp the current
//! run generation, then drive one batch. A failed batch is recorded by
//! the caller and does not halt the loop.

use vstd::prelude::*;

verus! {

/// A pollable unit of synchronization work.
pub trait Syncer {
    /// The run generation this syncer was last stamped with.
    spec fn run_version_spec(&self) -> i64;

    /// Whether this syncer is currently enabled.
    spec fn enabled_spec(&self) -> bool;

    /// A stable identifier for logging and bookkeeping.
    fn get_name(&self) -> &'static str;

    /// How long the scheduling loop sleeps between polls, in milliseconds.
    fn get_delay(&self) -> u64;

    /// Reads the stamped run generation, so a long operation can detect
    /// that it belongs to a superseded generation.
    fn get_run_version(&self) -> (v: i64)
        ensures
            v == self.run_version_spec(),
    ;

    /// Stamps this syncer with the current shared run generation.
    fn set_run_version(&mut self, version: i64)
        ensures
            final(self).run_version_spec() == version,
    ;

    /// Whether work should proceed; checked at batch start and between
    /// items.
    fn is_enabled(&self) -> (e: bool)
        ensures
            e == self.enabled_spec(),
    ;
}

} // verus!
