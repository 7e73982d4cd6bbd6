use sync_core::DownloadOutcome;
use sync_core::ErrorBody;
use sync_core::FileSyncIncoming;
use sync_core::SyncConfig;
use sync_core::SyncError;
use sync_core::SyncQueue;
use sync_core::SyncRecord;
use sync_core::SyncType;
use sync_core::Transfer;
use sync_core::attachment_url_path;
use sync_core::build_download_request;
use sync_core::classify_response;
use sync_core::url_targets_home;
use sync_core::finish_download;

fn record(id: &str, item: &str) -> SyncRecord {
    SyncRecord {
        id: id.to_string(),
        item_id: item.to_string(),
        sync_type: SyncType::FileIncoming,
        frozen: false,
    }
}

fn syncer(enabled: bool) -> FileSyncIncoming {
    let mut config = SyncConfig::new("https://api.example.org".to_string());
    config.user_id = Some("user1".to_string());
    config.enabled = enabled;
    FileSyncIncoming::new(config)
}

#[test]
fn attachment_path_names_the_item() {
    let path = attachment_url_path(&"note42".to_string());
    assert_eq!(path, "/notes/note42/attachment".to_string());
}

#[test]
fn prepare_download_resolves_user_and_destination() {
    let s = syncer(true);
    let dest = s.prepare_download(&record("r1", "note1")).unwrap();
    assert_eq!(dest.user_id, "user1".to_string());
    assert_eq!(dest.note_id, "note1".to_string());
}

#[test]
fn prepare_download_without_user_is_a_config_error() {
    let mut s = syncer(true);
    s.config.user_id = None;
    match s.prepare_download(&record("r1", "note1")) {
        Err(SyncError::MissingConfig { field }) => {
            assert_eq!(field, "SyncConfig.user_id".to_string());
        }
        other => panic!("expected a missing-config error, got {:?}", other.is_ok()),
    }
}

#[test]
fn auth_headers_attached_only_for_home_endpoint() {
    let home = "https://api.example.org";
    let path_form = build_download_request(
        "https://api.example.org/files/abc".to_string(),
        home,
    );
    assert!(path_form.attach_auth);
    let query_form = build_download_request(
        "https://api.example.org?file=abc".to_string(),
        home,
    );
    assert!(query_form.attach_auth);
    let exact = build_download_request("https://api.example.org".to_string(), home);
    assert!(exact.attach_auth);
    let other = build_download_request(
        "https://cdn.other-host.net/files/abc".to_string(),
        home,
    );
    assert!(!other.attach_auth);
    assert_eq!(other.url, "https://cdn.other-host.net/files/abc".to_string());
}

#[test]
fn credentials_never_go_to_hosts_that_merely_mention_home() {
    let home = "https://api.example.org";
    let query_smuggle = build_download_request(
        "https://evil.example/?u=https://api.example.org".to_string(),
        home,
    );
    assert!(!query_smuggle.attach_auth);
    let host_extension = build_download_request(
        "https://api.example.org.evil.net/files/abc".to_string(),
        home,
    );
    assert!(!host_extension.attach_auth);
}

#[test]
fn home_endpoint_check_edges() {
    assert!(url_targets_home("https://h", "https://h"));
    assert!(url_targets_home("https://h/", "https://h"));
    assert!(url_targets_home("https://h?q", "https://h"));
    assert!(!url_targets_home("https://h", "https://hh"));
    assert!(!url_targets_home("https://hx/abc", "https://h"));
    assert!(!url_targets_home("prefix https://h/abc", "https://h"));
}

#[test]
fn status_below_400_proceeds() {
    assert!(classify_response(200, String::new()).is_ok());
    assert!(classify_response(399, "ignored".to_string()).is_ok());
}

#[test]
fn rejection_carries_status_and_structured_body() {
    match classify_response(404, "{\"error\":\"not found\"}".to_string()) {
        Err(SyncError::RemoteRejection { status, body }) => {
            assert_eq!(status, 404);
            assert!(matches!(body, ErrorBody::Structured(_)));
        }
        _ => panic!("expected a remote rejection"),
    }
}

#[test]
fn rejection_keeps_raw_text_when_body_is_not_json() {
    match classify_response(500, "backend melted".to_string()) {
        Err(SyncError::RemoteRejection { status, body }) => {
            assert_eq!(status, 500);
            match body {
                ErrorBody::Raw(text) => assert_eq!(text, "backend melted".to_string()),
                ErrorBody::Structured(_) => panic!("body is not JSON"),
            }
        }
        _ => panic!("expected a remote rejection"),
    }
}

#[test]
fn short_write_aborts_the_transfer() {
    let mut transfer = Transfer::begin();
    assert!(transfer.apply_chunk(4096, 4096).is_ok());
    match transfer.apply_chunk(100, 50) {
        Err(SyncError::Integrity { read, written }) => {
            assert_eq!(read, 100);
            assert_eq!(written, 50);
        }
        _ => panic!("expected an integrity error"),
    }
    assert!(!transfer.is_streaming());
}

#[test]
fn full_stream_completes() {
    let mut transfer = Transfer::begin();
    assert!(transfer.apply_chunk(4096, 4096).is_ok());
    assert!(transfer.apply_chunk(10, 10).is_ok());
    assert!(transfer.is_streaming());
    transfer.finish();
    assert!(!transfer.is_streaming());
}

#[test]
fn successful_transfer_deletes_record_and_notifies_once() {
    let mut queue = SyncQueue::new();
    queue.push_record(record("r1", "note1"));
    let (result, effects) = finish_download(&mut queue, &record("r1", "note1"), DownloadOutcome::Completed);
    assert!(result.is_ok());
    assert_eq!(queue.len(), 0);
    assert_eq!(effects.notify_item, Some("note1".to_string()));
    assert!(!effects.record_failure);
}

#[test]
fn rejection_keeps_record_and_invokes_failure_handler_once() {
    let mut queue = SyncQueue::new();
    queue.push_record(record("r1", "note1"));
    let rejection = SyncError::RemoteRejection {
        status: 404,
        body: ErrorBody::Raw("gone".to_string()),
    };
    let (result, effects) = finish_download(&mut queue, &record("r1", "note1"), DownloadOutcome::Failed(rejection));
    assert!(result.is_err());
    assert_eq!(queue.len(), 1);
    assert_eq!(effects.notify_item, None);
    assert!(effects.record_failure);
}

#[test]
fn config_error_does_not_reach_the_failure_handler() {
    let mut queue = SyncQueue::new();
    queue.push_record(record("r1", "note1"));
    let setup_error = SyncError::MissingConfig { field: "SyncConfig.user_id".to_string() };
    let (result, effects) =
        finish_download(&mut queue, &record("r1", "note1"), DownloadOutcome::Failed(setup_error));
    assert!(result.is_err());
    assert_eq!(queue.len(), 1);
    assert_eq!(effects.notify_item, None);
    assert!(!effects.record_failure);
}

#[test]
fn batch_processes_unfrozen_records_in_order() {
    let mut queue = SyncQueue::new();
    queue.push_record(record("r1", "note1"));
    let mut frozen = record("r2", "note2");
    frozen.frozen = true;
    queue.push_record(frozen);
    queue.push_record(record("r3", "note3"));

    let s = syncer(true);
    let mut batch = s.run_sync(&queue);
    let first = batch.current().cloned().unwrap();
    assert_eq!(first.id, "r1".to_string());
    batch.record_outcome(&mut queue, DownloadOutcome::Completed, true);
    let second = batch.current().cloned().unwrap();
    assert_eq!(second.id, "r3".to_string());
    batch.record_outcome(&mut queue, DownloadOutcome::Completed, true);
    assert!(batch.current().is_none());
    assert!(batch.result().is_ok());
    assert_eq!(queue.len(), 1);
}

#[test]
fn batch_stops_without_error_when_disabled_mid_way() {
    let mut queue = SyncQueue::new();
    queue.push_record(record("r1", "note1"));
    queue.push_record(record("r2", "note2"));

    let s = syncer(true);
    let mut batch = s.run_sync(&queue);
    batch.record_outcome(&mut queue, DownloadOutcome::Completed, false);
    assert!(batch.current().is_none());
    assert!(batch.result().is_ok());
    assert_eq!(queue.len(), 1);
}

#[test]
fn batch_aborts_on_first_failure_and_keeps_the_rest_queued() {
    let mut queue = SyncQueue::new();
    queue.push_record(record("r1", "note1"));
    queue.push_record(record("r2", "note2"));

    let s = syncer(true);
    let mut batch = s.run_sync(&queue);
    let failure = SyncError::Transport { message: "connection reset".to_string() };
    let effects = batch.record_outcome(&mut queue, DownloadOutcome::Failed(failure), true);
    assert!(effects.record_failure);
    assert!(batch.current().is_none());
    assert!(batch.result().is_err());
    assert_eq!(queue.len(), 2);
}

#[test]
fn rerunning_after_success_is_a_noop_for_that_item() {
    let mut queue = SyncQueue::new();
    queue.push_record(record("r1", "note1"));

    let s = syncer(true);
    let mut batch = s.run_sync(&queue);
    batch.record_outcome(&mut queue, DownloadOutcome::Completed, true);
    assert!(batch.result().is_ok());

    let rerun = s.run_sync(&queue);
    assert!(rerun.current().is_none());
    assert!(rerun.result().is_ok());
    assert_eq!(queue.len(), 0);
}

#[test]
fn empty_queue_batch_ends_immediately() {
    let queue = SyncQueue::new();
    let s = syncer(true);
    let batch = s.run_sync(&queue);
    assert!(batch.current().is_none());
    assert!(batch.result().is_ok());
}
