//! Shared sync configuration: current user, enablement, endpoint settings.
//!
//! The hosting application owns the authoritative copy (typically behind a
//! reader/writer lock) and hands syncers a snapshot of the plain fields;
//! every decision in this crate is made against such a snapshot.

use vstd::prelude::*;

verus! {

/// Shared mutable state read by every syncer and written by the hosting
/// application.
pub struct SyncConfig {
    /// The id of the currently logged-in user, if any.
    pub user_id: Option<String>,
    /// Whether syncing is currently enabled; checked between work items.
    pub enabled: bool,
    /// Generation counter distinguishing scheduler restarts.
    pub run_version: i64,
    /// The home service endpoint requests are authenticated against.
    pub endpoint: String,
    /// Optional HTTP proxy setting.
    pub proxy: Option<String>,
}

impl SyncConfig {
    /// A fresh configuration with no user and syncing disabled.
    pub fn new(endpoint: String) -> (c: SyncConfig)
        ensures
            c.user_id is None,
            !c.enabled,
            c.run_version == 0,
            c.endpoint@ == endpoint@,
            c.proxy is None,
    {
        SyncConfig { user_id: None, enabled: false, run_version: 0, endpoint, proxy: None }
    }
}

} // verus!
