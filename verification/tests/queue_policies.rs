use sync_core::SyncConfig;
use sync_core::Syncer;
use sync_core::SyncQueue;
use sync_core::SyncRecord;
use sync_core::SyncType;
use sync_core::FileSyncIncoming;
use sync_core::take_until_frozen;

fn record(id: &str, item: &str, ty: SyncType, frozen: bool) -> SyncRecord {
    SyncRecord {
        id: id.to_string(),
        item_id: item.to_string(),
        sync_type: ty,
        frozen,
    }
}

fn incoming_syncer() -> FileSyncIncoming {
    let mut config = SyncConfig::new("https://api.example.org".to_string());
    config.user_id = Some("user1".to_string());
    config.enabled = true;
    FileSyncIncoming::new(config)
}

#[test]
fn order_independent_batch_skips_frozen() {
    let mut queue = SyncQueue::new();
    queue.push_record(record("r1", "note1", SyncType::FileIncoming, false));
    queue.push_record(record("r2", "note2", SyncType::FileIncoming, true));
    queue.push_record(record("r3", "note3", SyncType::FileIncoming, false));

    let syncer = incoming_syncer();
    let planned = syncer.get_incoming_file_syncs(&queue);
    assert_eq!(planned.len(), 2);
    assert_eq!(planned[0].id, "r1".to_string());
    assert_eq!(planned[1].id, "r3".to_string());
}

#[test]
fn order_sensitive_retrieval_stops_at_frozen() {
    let mut queue = SyncQueue::new();
    queue.push_record(record("r1", "note1", SyncType::FileIncoming, false));
    queue.push_record(record("r2", "note2", SyncType::FileIncoming, true));
    queue.push_record(record("r3", "note3", SyncType::FileIncoming, false));

    let listed = queue.find(Some(SyncType::FileIncoming));
    let prefix = take_until_frozen(&listed);
    assert_eq!(prefix.len(), 1);
    assert_eq!(prefix[0].id, "r1".to_string());
}

#[test]
fn find_filters_by_sync_type_in_order() {
    let mut queue = SyncQueue::new();
    queue.push_record(record("r1", "note1", SyncType::Outgoing, false));
    queue.push_record(record("r2", "note2", SyncType::FileIncoming, false));
    queue.push_record(record("r3", "note3", SyncType::FileIncoming, false));

    let downloads = queue.find(Some(SyncType::FileIncoming));
    assert_eq!(downloads.len(), 2);
    assert_eq!(downloads[0].id, "r2".to_string());
    assert_eq!(downloads[1].id, "r3".to_string());

    let all = queue.find(None);
    assert_eq!(all.len(), 3);
}

#[test]
fn delete_removes_exactly_the_named_record() {
    let mut queue = SyncQueue::new();
    queue.push_record(record("r1", "note1", SyncType::FileIncoming, false));
    queue.push_record(record("r2", "note2", SyncType::FileIncoming, false));
    queue.delete(&"r1".to_string());
    assert_eq!(queue.len(), 1);
    let rest = queue.find(None);
    assert_eq!(rest[0].id, "r2".to_string());
}

#[test]
fn take_until_frozen_takes_all_when_none_frozen() {
    let listed = vec![
        record("r1", "note1", SyncType::Outgoing, false),
        record("r2", "note2", SyncType::Outgoing, false),
    ];
    let prefix = take_until_frozen(&listed);
    assert_eq!(prefix.len(), 2);
}

#[test]
fn syncer_metadata_and_run_version() {
    let mut syncer = incoming_syncer();
    assert_eq!(syncer.get_name(), "files:incoming");
    assert_eq!(syncer.get_delay(), 1000);
    assert_eq!(syncer.get_run_version(), 0);
    syncer.set_run_version(7);
    assert_eq!(syncer.get_run_version(), 7);
    assert!(syncer.is_enabled());
    syncer.config.enabled = false;
    assert!(!syncer.is_enabled());
}
