use csv_import::batch::{
    batch_next, import_csv_batch, BatchAction, CsvBatchImportRequest, CsvTrackStatus,
    MAX_CONCURRENT_SEARCHES,
};
use csv_import::csv::{parse_csv, CsvImportError, CsvTrackEntry};
use csv_import::page::import_request;

fn track(name: &str, playlist: &str, row: usize) -> CsvTrackEntry {
    CsvTrackEntry {
        track_name: name.to_string(),
        artist: "x".to_string(),
        album: "".to_string(),
        playlist_name: playlist.to_string(),
        row_index: row,
    }
}

fn request(tracks: Vec<CsvTrackEntry>) -> CsvBatchImportRequest {
    CsvBatchImportRequest {
        tracks,
        folder_id: "f".to_string(),
        folder_path: "/music".to_string(),
    }
}

#[test]
fn without_backends_the_batch_is_turned_down() {
    let error = import_csv_batch(&request(vec![track("a", "", 0)]), &vec![]).unwrap_err();
    assert_eq!(error, CsvImportError::NoBackends);
    assert_eq!(error.message(), "No download backends available");
}

#[test]
fn the_first_report_counts_every_track() {
    let tracks = vec![track("a", "P", 1), track("b", "", 2), track("c", "P", 3)];
    let backends = vec!["slskd".to_string()];
    let progress = import_csv_batch(&request(tracks.clone()), &backends).unwrap();
    assert_eq!(progress.total, 3);
    assert_eq!(progress.completed, 3);
    assert_eq!(progress.failed, 0);
    assert_eq!(progress.current_track, None);
    assert!(!progress.done);
    assert_eq!(progress.playlists, vec!["P".to_string()]);
    let expected: Vec<_> = tracks.into_iter().map(|t| (t, CsvTrackStatus::Pending)).collect();
    assert_eq!(progress.statuses, expected);
}

#[test]
fn an_empty_batch_is_accepted() {
    let progress = import_csv_batch(&request(vec![]), &vec!["b".to_string()]).unwrap();
    assert_eq!(progress.total, 0);
    assert!(progress.statuses.is_empty());
}

#[test]
fn the_report_repeats_the_preview() {
    let text = "a,b,c,One\nd,e,f,Two\ng,h,i,One\n";
    let preview = parse_csv(text.to_string()).unwrap();
    let req = import_request(&preview, "f".to_string(), "/music".to_string());
    assert_eq!(req.tracks, preview.tracks);
    assert_eq!(req.folder_id, "f");
    assert_eq!(req.folder_path, "/music");
    let progress = import_csv_batch(&req, &vec!["b".to_string()]).unwrap();
    assert_eq!(progress.playlists, preview.playlists);
}

#[test]
fn tracks_are_started_in_order_until_cancelled() {
    assert_eq!(batch_next(0, 2, false), BatchAction::Spawn { index: 0, delay_ms: 500 });
    assert_eq!(batch_next(1, 2, false), BatchAction::Spawn { index: 1, delay_ms: 500 });
    assert_eq!(batch_next(2, 2, false), BatchAction::Join { count: 2 });
    assert_eq!(batch_next(1, 2, true), BatchAction::Join { count: 1 });
    assert_eq!(batch_next(0, 0, false), BatchAction::Join { count: 0 });
    assert_eq!(MAX_CONCURRENT_SEARCHES, 3);
}

#[test]
fn the_total_and_the_skipped_rows_are_all_rows() {
    let text = "Track name,Artist name,Album name\na,b,c\nd,e\n,f,g\nh,i,j\n";
    let preview = parse_csv(text.to_string()).unwrap();
    let req = import_request(&preview, "f".to_string(), "/music".to_string());
    let progress = import_csv_batch(&req, &vec!["b".to_string()]).unwrap();
    assert_eq!(progress.total, 2);
    assert_eq!(preview.skipped_rows, 2);
    assert_eq!(preview.total_rows, 4);
}
