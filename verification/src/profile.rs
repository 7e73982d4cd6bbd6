//! A read-only snapshot of the profile cache: the already-decrypted
//! ancestor records key search joins against.
//!
//! The live cache is guarded by a multi-reader lock and mutated only by the
//! decryption pipeline that owns it; key search receives a snapshot and
//! never mutates it.

use vstd::prelude::*;

verus! {

/// One cached ancestor record: its id (absent for records never saved) and
/// its decryption key, once the decryption pipeline has resolved it.
pub struct ProfileEntry {
    pub id: Option<String>,
    pub key: Option<Vec<u8>>,
}

impl ProfileEntry {
    /// An entry takes part in key resolution only when it has both an id
    /// and an already-resolved key.
    pub open spec fn is_resolved(self) -> bool {
        self.id is Some && self.key is Some
    }
}

/// The snapshot of the profile cache consulted during key search: the
/// cached top-level containers (spaces) and sub-containers (boards).
pub struct Profile {
    pub spaces: Vec<ProfileEntry>,
    pub boards: Vec<ProfileEntry>,
}

} // verus!
