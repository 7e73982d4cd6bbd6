//! Synchronization core of a local-first, end-to-end-encrypted data client.
//!
//! Two pieces make up the library: hierarchical key resolution (a record
//! discovers which already-known keys unlock it, by joining its ownership
//! references against a cache of decrypted ancestor records), and a
//! sync-scheduling engine specialized for an attachment-download syncer
//! that streams bytes reliably and fails safely.

mod board;
mod config;
mod download;
mod error;
mod incoming;
mod keychain;
mod profile;
mod queue;
mod sync_record;
mod syncer;

pub use board::Board;
pub use board::KeyGrant;
pub use board::Keyfinder;
pub use board::grant_views;
pub use board::id_views;
pub use board::key_search_spec;
pub use board::resolved_entries;
pub use board::lemma_direct_owner_contributes;
pub use board::lemma_direct_owner_key_found;
pub use board::lemma_unknown_board_owner_gets_no_entry;
pub use board::lemma_unknown_space_owner_gets_no_entry;
pub use board::lemma_no_match_yields_nothing;
pub use board::lemma_unique_match;
pub use board::lemma_unresolved_owner_yields_nothing;
pub use config::SyncConfig;
pub use download::DOWNLOAD_CHUNK_SIZE;
pub use download::DOWNLOAD_TIMEOUT_SECS;
pub use download::DownloadRequest;
pub use download::FileDestination;
pub use download::Transfer;
pub use download::TransferPhase;
pub use download::attachment_url_path;
pub use download::build_download_request;
pub use download::classify_response;
pub use download::targets_home;
pub use download::url_targets_home;
pub use error::ErrorBody;
pub use error::SyncError;
pub use error::json_parses;
pub use incoming::BatchRun;
pub use incoming::DownloadOutcome;
pub use incoming::FileSyncIncoming;
pub use incoming::SyncEffects;
pub use incoming::batch_plan;
pub use incoming::finish_download;
pub use incoming::lemma_rerun_after_completion_is_noop;
pub use keychain::KeyEntry;
pub use keychain::latest_key;
pub use keychain::KeyEntryV;
pub use keychain::KeyType;
pub use keychain::Keychain;
pub use profile::Profile;
pub use profile::ProfileEntry;
pub use queue::SyncQueue;
pub use queue::lemma_remove_id_removes;
pub use queue::remove_id;
pub use sync_record::SyncRecord;
pub use sync_record::SyncType;
pub use sync_record::first_frozen;
pub use sync_record::lemma_first_frozen;
pub use sync_record::lemma_until_frozen_prefix_of_skip_frozen;
pub use sync_record::of_type;
pub use sync_record::skip_frozen;
pub use sync_record::skip_frozen_spec;
pub use sync_record::take_until_frozen;
pub use sync_record::until_frozen_spec;
pub use syncer::Syncer;
