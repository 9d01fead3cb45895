use csv_import::batch::{CsvImportProgress, CsvTrackStatus};
use csv_import::csv::{CsvParseResult, CsvTrackEntry};
use csv_import::page::{
    after_import, after_parse, done_view, parse_obstacle, picked_content, preview_view, status_label,
    upload_view, DoneRow, Folder, FolderChoice, FolderListing, FolderPanel, ImportState,
    ParseButton, PreviewRow,
};

fn s(text: &str) -> String {
    text.to_string()
}

fn track(row: usize) -> CsvTrackEntry {
    CsvTrackEntry {
        track_name: s("a"),
        artist: s("b"),
        album: s("c"),
        playlist_name: s("p"),
        row_index: row,
    }
}

fn parsed(tracks: usize, playlists: Vec<String>, skipped_rows: usize) -> CsvParseResult {
    CsvParseResult {
        tracks: (0..tracks).map(|i| track(i + 5)).collect(),
        playlists,
        total_rows: tracks + skipped_rows,
        skipped_rows,
    }
}

fn progress(statuses: Vec<(CsvTrackEntry, CsvTrackStatus)>) -> CsvImportProgress {
    CsvImportProgress {
        total: statuses.len(),
        completed: statuses.len(),
        failed: 0,
        current_track: None,
        statuses,
        playlists: vec![s("p")],
        done: false,
    }
}

#[test]
fn parsing_needs_content_and_a_folder() {
    assert_eq!(parse_obstacle("", ""), Some(ImportState::Error(s("No CSV content provided"))));
    assert_eq!(parse_obstacle("", "/m"), Some(ImportState::Error(s("No CSV content provided"))));
    assert_eq!(
        parse_obstacle("a", ""),
        Some(ImportState::Error(s("Please select a target folder first")))
    );
    assert_eq!(parse_obstacle("a", "/m"), None);
}

#[test]
fn a_parsed_file_is_previewed() {
    let result = parsed(1, vec![], 0);
    assert_eq!(after_parse(Ok(result.clone())), ImportState::Preview(result));
    assert_eq!(
        after_parse(Ok(parsed(0, vec![], 3))),
        ImportState::Error(s(
            "No valid tracks found in CSV. Check the format: Track name, Artist name, Album name"
        ))
    );
    assert_eq!(after_parse(Err(s("boom"))), ImportState::Error(s("Failed to parse CSV: boom")));
}

#[test]
fn an_import_ends_in_its_report() {
    let report = progress(vec![(track(1), CsvTrackStatus::Pending)]);
    assert_eq!(after_import(Ok(report.clone())), ImportState::Done(report));
    assert_eq!(after_import(Err(s("boom"))), ImportState::Error(s("Import failed: boom")));
}

#[test]
fn the_upload_section_offers_what_is_possible() {
    let folders = FolderListing::Loaded(vec![
        Folder { id: s("1"), name: s("Main"), path: s("/m") },
        Folder { id: s("2"), name: s("Other"), path: s("/o") },
    ]);
    let view = upload_view("x\ny\n", &s("2"), "/o", &folders, false);
    assert_eq!(
        view.folders,
        FolderPanel::Choices(vec![
            FolderChoice { id: s("1"), name: s("Main"), path: s("/m"), selected: false },
            FolderChoice { id: s("2"), name: s("Other"), path: s("/o"), selected: true },
        ])
    );
    assert_eq!(view.loaded, Some(s("✓ 2 lines loaded")));
    assert_eq!(
        view.parse_button,
        Some(ParseButton { label: s("Parse & Preview"), disabled: false })
    );
}

#[test]
fn the_parse_button_waits_for_content_and_a_folder() {
    for (content, path) in [("", ""), ("x", ""), ("", "/m"), ("x", "/m")] {
        let view = upload_view(content, &s(""), path, &FolderListing::Loading, true);
        assert_eq!(view.parse_button.is_some(), parse_obstacle(content, path).is_none());
        assert_eq!(view.loaded.is_some(), !content.is_empty());
        if let Some(button) = view.parse_button {
            assert_eq!(button, ParseButton { label: s("Parsing..."), disabled: true });
        }
    }
}

#[test]
fn folders_may_be_missing() {
    let panel = |listing: FolderListing| upload_view("", &s(""), "", &listing, false).folders;
    assert_eq!(panel(FolderListing::Loading), FolderPanel::Loading);
    assert_eq!(panel(FolderListing::Failed), FolderPanel::Failed);
    assert_eq!(panel(FolderListing::Loaded(vec![])), FolderPanel::Empty);
}

#[test]
fn the_preview_numbers_its_rows() {
    let view = preview_view(&parsed(2, vec![s("p")], 3));
    assert_eq!(view.heading, "Preview (2 tracks)");
    assert_eq!(view.import_label, "Import All 2 Tracks");
    assert_eq!(view.skipped, Some(s("⚠ 3 rows skipped (missing track name or artist)")));
    assert_eq!(view.playlists, vec![s("p")]);
    assert_eq!(
        view.rows[1],
        PreviewRow {
            key: 6,
            number: 2,
            track_name: s("a"),
            artist: s("b"),
            album: s("c"),
            playlist_name: Some(s("p")),
        }
    );
    let plain = preview_view(&parsed(1, vec![], 0));
    assert_eq!(plain.skipped, None);
    assert_eq!(plain.rows[0].playlist_name, None);
}

#[test]
fn the_report_shows_each_status() {
    let view = done_view(&progress(vec![
        (track(1), CsvTrackStatus::Pending),
        (track(2), CsvTrackStatus::Searching),
        (track(3), CsvTrackStatus::Accepted { batch_id: s("x") }),
        (track(4), CsvTrackStatus::Failed { error: s("why") }),
    ]));
    assert_eq!(view.summary, "4 tracks queued for search & download");
    assert_eq!(view.playlists, vec![s("p")]);
    let labels: Vec<&str> = view.rows.iter().map(|r| r.status.as_str()).collect();
    assert_eq!(labels, vec!["⏳ Pending", "⏳ Searching", "✓ Queued", "✗ Failed"]);
    assert_eq!(
        view.rows[3],
        DoneRow {
            key: 4,
            track_name: s("a"),
            artist: s("b"),
            status: s("✗ Failed"),
            error: Some(s("why")),
        }
    );
    assert_eq!(view.rows[0].error, None);
    assert_eq!(status_label(&CsvTrackStatus::Pending), "⏳ Pending");
}

#[test]
fn a_picked_file_replaces_the_content_unless_it_is_empty() {
    assert_eq!(picked_content(s("old"), Some(s("new"))), "new");
    assert_eq!(picked_content(s("old"), Some(s(""))), "old");
    assert_eq!(picked_content(s("old"), None), "old");
    assert_eq!(picked_content(s(""), Some(s("new"))), "new");
    assert_eq!(picked_content(s(""), None), "");
}

#[test]
fn picking_a_file_keeps_the_parse_button() {
    for read in [None, Some(s("")), Some(s("a,b,c"))] {
        let content = picked_content(s("x"), read);
        let view = upload_view(&content, &s("1"), "/m", &FolderListing::Loading, true);
        assert_eq!(
            view.parse_button,
            Some(ParseButton { label: s("Parsing..."), disabled: true })
        );
    }
    let content = picked_content(s(""), Some(s("")));
    let view = upload_view(&content, &s("1"), "/m", &FolderListing::Loading, false);
    assert_eq!(view.parse_button, None);
}
