use file_downloader::copier::copy_chunks;
use file_downloader::ledger::{status_from_db, DownloadResult, Ledger, Status};
use file_downloader::paths::get_file_info;
use file_downloader::wetransfer::{direct_link_from_response, prepare_negotiation,
    suggested_file_name};
use file_downloader::{check_url, DownloadError, UrlType};

#[test]
fn rejected_url_creates_no_row() {
    let mut ledger = Ledger::new();
    let r = ledger.submit(7, "https://example.com/file.bin", "2024-01-01 00:00:00");
    assert!(matches!(r, Err(DownloadError::InvalidUrl)));
    assert_eq!(ledger.len(), 0);
    assert!(ledger.get_download(1).is_none());
}

#[test]
fn accepted_submission_is_queryable_immediately() {
    let mut ledger = Ledger::new();
    let id = ledger
        .submit(7, "https://we.tl/t/abc", "2024-01-01 00:00:00")
        .unwrap();
    assert_eq!(id, 1);
    let row = ledger.get_download(id).unwrap();
    assert_eq!(row.status, Status::InProgress);
    assert_eq!(row.url.as_deref(), Some("https://we.tl/t/abc"));
    assert_eq!(row.user_id, 7);
    assert_eq!(row.start_time, "2024-01-01 00:00:00");
    assert!(row.file_name.is_none());
    assert!(row.file_size.is_none());
    assert!(row.end_time.is_none());
    let mine = ledger.select_data(7);
    assert_eq!(mine.len(), 1);
    assert_eq!(mine[0].id, id);
}

#[test]
fn ids_are_assigned_monotonically() {
    let mut ledger = Ledger::new();
    let a = ledger.insert_new_download("https://we.tl/t/a", 1, "t1");
    let b = ledger.insert_new_download("https://we.tl/t/b", 2, "t2");
    assert_eq!(a, 1);
    assert_eq!(b, 2);
}

#[test]
fn success_transitions_to_finished_with_name_and_size() {
    let mut ledger = Ledger::new();
    let id = ledger.insert_new_download("https://we.tl/t/a", 1, "t1");
    ledger.update_download(
        id,
        Ok(DownloadResult { file_name: "report.pdf".to_owned(), file_size: 1024 }),
        "t2",
    );
    let row = ledger.get_download(id).unwrap();
    assert_eq!(row.status, Status::Finished);
    assert_eq!(row.file_name.as_deref(), Some("report.pdf"));
    assert_eq!(row.file_size, Some(1024));
    assert_eq!(row.end_time.as_deref(), Some("t2"));
}

#[test]
fn failure_transitions_to_failed_without_name_or_size() {
    let mut ledger = Ledger::new();
    let id = ledger.insert_new_download("https://we.tl/t/a", 1, "t1");
    ledger.update_download(id, Err(DownloadError::Protocol), "t2");
    let row = ledger.get_download(id).unwrap();
    assert_eq!(row.status, Status::Failed);
    assert!(row.file_name.is_none());
    assert!(row.file_size.is_none());
    assert_eq!(row.end_time.as_deref(), Some("t2"));
}

#[test]
fn a_terminal_row_never_changes_again() {
    let mut ledger = Ledger::new();
    let id = ledger.insert_new_download("https://we.tl/t/a", 1, "t1");
    ledger.update_download(
        id,
        Ok(DownloadResult { file_name: "report.pdf".to_owned(), file_size: 1024 }),
        "t2",
    );
    ledger.update_download(id, Err(DownloadError::Io), "t3");
    ledger.update_download(
        id,
        Ok(DownloadResult { file_name: "other.bin".to_owned(), file_size: 5 }),
        "t4",
    );
    ledger.reconcile_pending("t5");
    let row = ledger.get_download(id).unwrap();
    assert_eq!(row.status, Status::Finished);
    assert_eq!(row.file_name.as_deref(), Some("report.pdf"));
    assert_eq!(row.file_size, Some(1024));
    assert_eq!(row.end_time.as_deref(), Some("t2"));
}

#[test]
fn updating_a_missing_row_changes_nothing() {
    let mut ledger = Ledger::new();
    let id = ledger.insert_new_download("https://we.tl/t/a", 1, "t1");
    ledger.update_download(99, Err(DownloadError::Io), "t2");
    ledger.update_download(0, Err(DownloadError::Io), "t2");
    assert_eq!(ledger.len(), 1);
    assert_eq!(ledger.get_download(id).unwrap().status, Status::InProgress);
}

#[test]
fn reconcile_sweeps_only_pending_rows_to_failed() {
    let mut ledger = Ledger::new();
    let done = ledger.insert_new_download("https://we.tl/t/a", 1, "t1");
    let stuck = ledger.insert_new_download("https://we.tl/t/b", 2, "t1");
    ledger.update_download(
        done,
        Ok(DownloadResult { file_name: "a.bin".to_owned(), file_size: 3 }),
        "t2",
    );
    ledger.reconcile_pending("t9");
    let swept = ledger.get_download(stuck).unwrap();
    assert_eq!(swept.status, Status::Failed);
    assert_eq!(swept.end_time.as_deref(), Some("t9"));
    assert!(swept.file_name.is_none());
    assert!(swept.file_size.is_none());
    let kept = ledger.get_download(done).unwrap();
    assert_eq!(kept.status, Status::Finished);
    assert_eq!(kept.end_time.as_deref(), Some("t2"));
}

#[test]
fn select_data_is_scoped_to_the_owner_in_insertion_order() {
    let mut ledger = Ledger::new();
    ledger.insert_new_download("https://we.tl/t/a", 1, "t1");
    ledger.insert_new_download("https://we.tl/t/b", 2, "t2");
    ledger.insert_new_download("https://we.tl/t/c", 1, "t3");
    let mine = ledger.select_data(1);
    assert_eq!(mine.len(), 2);
    assert_eq!(mine[0].url.as_deref(), Some("https://we.tl/t/a"));
    assert_eq!(mine[1].url.as_deref(), Some("https://we.tl/t/c"));
    assert!(ledger.select_data(3).is_empty());
}

#[test]
fn status_text_round_trip() {
    assert_eq!(status_from_db("in progress"), Some(Status::InProgress));
    assert_eq!(status_from_db("finished"), Some(Status::Finished));
    assert_eq!(status_from_db("failed"), Some(Status::Failed));
    assert_eq!(status_from_db("pending"), None);
    assert_eq!(status_from_db(""), None);
}

#[test]
fn end_to_end_submission_to_finished() {
    let mut ledger = Ledger::new();
    let url = "https://wetransfer.com/downloads/abc123/def456xyz?signature=zzz";
    assert_eq!(check_url(url), Some(UrlType::WeTransfer));
    let id = ledger.submit(7, url, "2024-01-01 00:00:00").unwrap();
    assert_eq!(ledger.get_download(id).unwrap().status, Status::InProgress);

    let req = prepare_negotiation(url).unwrap();
    assert_eq!(req.endpoint, "https://wetransfer.com/api/v4/transfers/abc123/download");
    assert_eq!(
        req.body,
        "{\"security_hash\":\"def456xyz\",\"intent\":\"entire_transfer\"}"
    );

    let response = "{\"direct_link\":\"https://dl.wetransfer.com/files/report.pdf\"}";
    let link = direct_link_from_response(response).unwrap();
    assert_eq!(link, "https://dl.wetransfer.com/files/report.pdf");

    let name = suggested_file_name("/files/report.pdf");
    assert_eq!(name, "report.pdf");

    let existing: Vec<String> = Vec::new();
    let info = get_file_info(&name, "alice", &existing);
    assert_eq!(info.name, "report.pdf");

    let chunks: Vec<Vec<u8>> = vec![vec![0u8; 512], vec![1u8; 512]];
    let mut dest: Vec<u8> = Vec::new();
    let copied = copy_chunks(&chunks, &mut dest);
    assert_eq!(copied, 1024);

    ledger.update_download(
        id,
        Ok(DownloadResult { file_name: info.name, file_size: copied }),
        "2024-01-01 00:05:00",
    );
    let row = ledger.get_download(id).unwrap();
    assert_eq!(row.status, Status::Finished);
    assert_eq!(row.file_name.as_deref(), Some("report.pdf"));
    assert_eq!(row.file_size, Some(1024));
    assert_eq!(row.end_time.as_deref(), Some("2024-01-01 00:05:00"));
}
