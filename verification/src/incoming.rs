//! The attachment-download syncer: drains pending file-download queue
//! entries, hands each to the hosting application to stream, and retires
//! completed entries.
//!
//! The hosting application owns the network and the filesystem; this
//! module owns every decision: which records a batch processes, what is
//! owed before the first network call, and how each attempted download
//! settles against the queue. A batch stops without error when syncing is
//! disabled mid-way, and aborts on the first failed item, leaving the
//! remaining items queued for the next tick.

use vstd::prelude::*;

use crate::config::SyncConfig;
use crate::download::FileDestination;
use crate::error::SyncError;
use crate::queue::SyncQueue;
use crate::queue::lemma_remove_id_removes;
use crate::queue::remove_id;
use crate::sync_record::SyncRecord;
use crate::sync_record::SyncType;
use crate::sync_record::of_type;
use crate::sync_record::skip_frozen;
use crate::sync_record::skip_frozen_spec;
use crate::syncer::Syncer;
use vstd::string::StringExecFns;

verus! {

/// The records one batch will process: the pending download records, in
/// stable queue order, frozen ones skipped (order-independent retrieval).
pub open spec fn batch_plan(records: Seq<SyncRecord>) -> Seq<SyncRecord> {
    skip_frozen_spec(of_type(records, SyncType::FileIncoming))
}

/// How one attempted download ended: the whole stream completed with a
/// status below 400 and no short write, or it failed with the error to
/// propagate.
pub enum DownloadOutcome {
    Completed,
    Failed(SyncError),
}

/// The external actions owed after one settled item: at most one UI
/// notification naming the completed item, and whether the external
/// failure handler is owed a call for the record. A missing-configuration
/// error precedes all per-item work, so it never reaches the handler.
pub struct SyncEffects {
    pub notify_item: Option<String>,
    pub record_failure: bool,
}

/// Settles one attempted download against the queue: upon success the
/// queue record is deleted and exactly one notification is owed; upon
/// failure the record stays in place, the error propagates, and the
/// failure handler is owed a call (freezing is policy owned elsewhere) —
/// except for the missing-configuration setup error, which aborts before
/// any per-item work and is not the record's failure.
pub fn finish_download(queue: &mut SyncQueue, sync: &SyncRecord, outcome: DownloadOutcome) -> (r: (
    Result<(), SyncError>,
    SyncEffects,
))
    ensures
        outcome is Completed ==> r.0 is Ok && final(queue)@ == remove_id(old(queue)@, sync.id@) && (
        r.1.notify_item matches Some(n) && n == sync.item_id) && !r.1.record_failure,
        outcome matches DownloadOutcome::Failed(e) ==> (r.0 matches Err(e2) && e2 == e)
            && final(queue)@ == old(queue)@ && r.1.notify_item is None && r.1.record_failure == !(e
            is MissingConfig),
{
    match outcome {
        DownloadOutcome::Completed => {
            queue.delete(&sync.id);
            (
                Ok(()),
                SyncEffects { notify_item: Some(sync.item_id.clone()), record_failure: false },
            )
        },
        DownloadOutcome::Failed(e) => {
            let handler_owed = match &e {
                SyncError::MissingConfig { .. } => false,
                _ => true,
            };
            (Err(e), SyncEffects { notify_item: None, record_failure: handler_owed })
        },
    }
}

/// Holds the state for incoming files (download).
pub struct FileSyncIncoming {
    /// The sync configuration snapshot this syncer reads; the hosting
    /// application refreshes it when the shared state changes.
    pub config: SyncConfig,
    /// The run generation the scheduler last stamped.
    pub run_version: i64,
}

impl FileSyncIncoming {
    /// Create a new incoming syncer.
    pub fn new(config: SyncConfig) -> (s: FileSyncIncoming)
        ensures
            s.config == config,
            s.run_version == 0,
    {
        FileSyncIncoming { config, run_version: 0 }
    }

    /// Returns the records with pending file downloads. Frozen records are
    /// skipped, not stopped at: file syncs do not benefit from running in
    /// order, and one broken transfer must not block unrelated ones.
    pub fn get_incoming_file_syncs(&self, queue: &SyncQueue) -> (r: Vec<SyncRecord>)
        ensures
            r@ == batch_plan(queue@),
    {
        let pending = queue.find(Some(SyncType::FileIncoming));
        skip_frozen(&pending)
    }

    /// The work owed before any network call for one item: resolve the
    /// owning user id (absence is a fatal configuration error for this
    /// item) and derive the local destination — fail fast, no wasted
    /// bandwidth.
    pub fn prepare_download(&self, sync: &SyncRecord) -> (r: Result<FileDestination, SyncError>)
        ensures
            self.config.user_id is Some ==> (r matches Ok(d) && d.user_id == self.config.user_id->0
                && d.note_id == sync.item_id),
            self.config.user_id is None ==> (r matches Err(SyncError::MissingConfig { field })
                && field@ == "SyncConfig.user_id"@),
    {
        match self.config.user_id.as_ref() {
            Some(user_id) => Ok(
                FileDestination { user_id: user_id.clone(), note_id: sync.item_id.clone() },
            ),
            None => Err(
                SyncError::MissingConfig { field: String::from_str("SyncConfig.user_id") },
            ),
        }
    }

    /// Begins one batch over the queue. The hosting application drives the
    /// returned run: it performs each planned download and reports the
    /// outcome, re-checking enablement between items.
    pub fn run_sync(&self, queue: &SyncQueue) -> (b: BatchRun)
        ensures
            b.wf(),
            b.planned() == batch_plan(queue@),
            b.position() == 0,
            b.status() == (if batch_plan(queue@).len() == 0 {
                Option::Some(Result::<(), SyncError>::Ok(()))
            } else {
                Option::<Result<(), SyncError>>::None
            }),
    {
        let items = self.get_incoming_file_syncs(queue);
        let outcome: Option<Result<(), SyncError>> = if items.len() == 0 {
            Some(Ok(()))
        } else {
            None
        };
        BatchRun { items, next: 0, outcome }
    }
}

impl Syncer for FileSyncIncoming {
    open spec fn run_version_spec(&self) -> i64 {
        self.run_version
    }

    open spec fn enabled_spec(&self) -> bool {
        self.config.enabled
    }

    fn get_name(&self) -> (r: &'static str)
        ensures
            r@ == "files:incoming"@,
    {
        "files:incoming"
    }

    fn get_delay(&self) -> (d: u64)
        ensures
            d == 1000,
    {
        1000
    }

    fn get_run_version(&self) -> (v: i64) {
        self.run_version
    }

    fn set_run_version(&mut self, version: i64)
        ensures
            final(self).config == old(self).config,
    {
        self.run_version = version;
    }

    fn is_enabled(&self) -> (e: bool) {
        self.config.enabled
    }
}

/// One batch in flight: the planned items, how far the batch has come,
/// and, once it has ended, its result. A batch ends when its items are
/// exhausted, when syncing is disabled between items (without error), or
/// at the first failed item (with that error; the remaining items stay
/// queued for the next tick).
pub struct BatchRun {
    items: Vec<SyncRecord>,
    next: usize,
    outcome: Option<Result<(), SyncError>>,
}

impl BatchRun {
    /// The items this batch set out to process.
    pub closed spec fn planned(&self) -> Seq<SyncRecord> {
        self.items@
    }

    /// How many items have been settled.
    pub closed spec fn position(&self) -> int {
        self.next as int
    }

    /// `None` while the batch is running; the batch result once ended.
    pub closed spec fn status(&self) -> Option<Result<(), SyncError>> {
        self.outcome
    }

    /// A running batch always has a current item.
    pub open spec fn wf(&self) -> bool {
        self.position() <= self.planned().len() && (self.status() is None ==> self.position()
            < self.planned().len())
    }

    /// The item to download next, or nothing once the batch has ended.
    pub fn current(&self) -> (r: Option<&SyncRecord>)
        requires
            self.wf(),
        ensures
            match r {
                Some(rec) => self.status() is None && *rec == self.planned()[self.position()],
                None => self.status() is Some,
            },
    {
        if self.outcome.is_some() {
            None
        } else {
            Some(&self.items[self.next])
        }
    }

    /// Settles the current item with the outcome the hosting application
    /// observed, and decides whether the batch goes on: it stops without
    /// error when the items are exhausted or syncing was disabled, and
    /// with the item's error upon a failure.
    pub fn record_outcome(
        &mut self,
        queue: &mut SyncQueue,
        outcome: DownloadOutcome,
        enabled: bool,
    ) -> (eff: SyncEffects)
        requires
            old(self).wf(),
            old(self).status() is None,
        ensures
            final(self).wf(),
            final(self).planned() == old(self).planned(),
            outcome is Completed ==> ({
                let item = old(self).planned()[old(self).position()];
                &&& final(queue)@ == remove_id(old(queue)@, item.id@)
                &&& eff.notify_item matches Some(n) && n == item.item_id
                &&& !eff.record_failure
                &&& final(self).position() == old(self).position() + 1
                &&& final(self).status() == (if old(self).position() + 1
                    == old(self).planned().len() || !enabled {
                    Option::Some(Result::<(), SyncError>::Ok(()))
                } else {
                    Option::<Result<(), SyncError>>::None
                })
            }),
            outcome matches DownloadOutcome::Failed(e) ==> ({
                &&& final(queue)@ == old(queue)@
                &&& eff.notify_item is None
                &&& eff.record_failure == !(e is MissingConfig)
                &&& final(self).position() == old(self).position()
                &&& final(self).status() == Option::Some(Result::<(), SyncError>::Err(e))
            }),
    {
        let item = self.items[self.next].clone();
        let (res, eff) = finish_download(queue, &item, outcome);
        match res {
            Ok(_) => {
                let total = self.items.len();
                self.next = self.next + 1;
                if self.next == total || !enabled {
                    self.outcome = Some(Ok(()));
                }
            },
            Err(e) => {
                self.outcome = Some(Err(e));
            },
        }
        eff
    }

    /// The batch result, once the batch has ended.
    pub fn result(self) -> (r: Result<(), SyncError>)
        requires
            self.status() is Some,
        ensures
            r == self.status()->0,
    {
        self.outcome.unwrap()
    }
}

/// Filtering by type preserves the absence of an id.
proof fn lemma_of_type_keeps_missing_id(records: Seq<SyncRecord>, ty: SyncType, idv: Seq<char>)
    requires
        forall|j: int| 0 <= j < records.len() ==> records[j].id@ != idv,
    ensures
        forall|j: int|
            0 <= j < of_type(records, ty).len() ==> of_type(records, ty)[j].id@ != idv,
    decreases records.len(),
{
    if records.len() > 0 {
        assert(records.last() == records[records.len() - 1]);
        lemma_of_type_keeps_missing_id(records.drop_last(), ty, idv);
    }
}

/// Skipping frozen records preserves the absence of an id.
proof fn lemma_skip_frozen_keeps_missing_id(records: Seq<SyncRecord>, idv: Seq<char>)
    requires
        forall|j: int| 0 <= j < records.len() ==> records[j].id@ != idv,
    ensures
        forall|j: int|
            0 <= j < skip_frozen_spec(records).len() ==> skip_frozen_spec(records)[j].id@ != idv,
    decreases records.len(),
{
    if records.len() > 0 {
        assert(records.last() == records[records.len() - 1]);
        lemma_skip_frozen_keeps_missing_id(records.drop_last(), idv);
    }
}

/// Law: re-running a batch after a successful transfer is a no-op for
/// that item. Once its record is deleted, no future batch plan over the
/// queue lists a record with its id again.
pub proof fn lemma_rerun_after_completion_is_noop(records: Seq<SyncRecord>, idv: Seq<char>)
    ensures
        forall|j: int|
            0 <= j < batch_plan(remove_id(records, idv)).len() ==> batch_plan(
                remove_id(records, idv),
            )[j].id@ != idv,
{
    lemma_remove_id_removes(records, idv);
    lemma_of_type_keeps_missing_id(remove_id(records, idv), SyncType::FileIncoming, idv);
    lemma_skip_frozen_keeps_missing_id(
        of_type(remove_id(records, idv), SyncType::FileIncoming),
        idv,
    );
}

} // verus!
