use csv_import::batch::MAX_CONCURRENT_SEARCHES;
use csv_import::csv::CsvTrackEntry;
use csv_import::search::DownloadGroup;
use csv_import::track::{
    search_track, track_label, ProgressEntry, ProgressState, QueuedDownload, SearchTrack,
    TrackAction, TrackEffect, TrackImport, TrackReply, TrackStep,
};

fn entry() -> CsvTrackEntry {
    CsvTrackEntry {
        track_name: "Song 2".to_string(),
        artist: "Blur".to_string(),
        album: "".to_string(),
        playlist_name: "Mix".to_string(),
        row_index: 12,
    }
}

fn group(source: &str, score: f64, items: Vec<u32>) -> DownloadGroup<u32> {
    DownloadGroup {
        source: source.to_string(),
        score: score.to_bits(),
        score_text: format!("{:.2}", score),
        quality: "FLAC".to_string(),
        items,
    }
}

fn download(id: &str, error: Option<&str>) -> QueuedDownload {
    QueuedDownload {
        id: id.to_string(),
        source: format!("peer-{}", id),
        item: format!("{}.flac", id),
        size: 100,
        error: error.map(String::from),
    }
}

fn id() -> String {
    "batch".to_string()
}

fn failed(error: &str) -> TrackEffect {
    TrackEffect::Failed { batch_id: id(), error: error.to_string() }
}

fn run(replies: Vec<TrackReply<u32>>) -> (TrackImport<u32>, Vec<TrackStep<u32>>) {
    let (mut import, first) = TrackImport::with_batch_id(entry(), id(), 2);
    assert_eq!(first, TrackStep { effects: vec![], action: TrackAction::CheckCancelled });
    let mut steps = Vec::new();
    for reply in replies {
        let (next, step) = import.advance(reply).unwrap();
        import = next;
        steps.push(step);
    }
    (import, steps)
}

fn up_to_search(playlist: Option<&str>) -> Vec<TrackReply<u32>> {
    vec![
        TrackReply::Cancelled(false),
        TrackReply::Playlist(playlist.map(String::from)),
        TrackReply::Permit(true),
        TrackReply::Cancelled(false),
        TrackReply::Backends(1),
    ]
}

fn up_to_queue(playlist: Option<&str>) -> Vec<TrackReply<u32>> {
    let mut replies = up_to_search(playlist);
    replies.push(TrackReply::Results(vec![vec![group("peer", 0.8, vec![5, 6])]]));
    replies.push(TrackReply::Folder(Ok(())));
    replies.push(TrackReply::Backend(Ok(())));
    replies
}

fn last(replies: Vec<TrackReply<u32>>) -> TrackStep<u32> {
    let (_, mut steps) = run(replies);
    steps.pop().unwrap()
}

fn progress(d: QueuedDownload) -> ProgressEntry {
    ProgressEntry {
        id: d.id,
        source: d.source,
        item: d.item,
        state: match d.error {
            Some(error) => ProgressState::Failed { error },
            None => ProgressState::Queued { size: d.size },
        },
        batch_id: id(),
        batch_label: "Blur - Song 2".to_string(),
    }
}

#[test]
fn a_new_import_has_a_random_uuid() {
    let batch_ids: Vec<String> = (0..2)
        .map(|_| {
            let mut import: TrackImport<u32> = TrackImport::new(entry(), 2).0;
            let mut found = String::new();
            for reply in up_to_search(None).into_iter().take(4) {
                let (next, step) = import.advance(reply).unwrap();
                import = next;
                for effect in step.effects {
                    if let TrackEffect::Searching { batch_id, .. } = effect {
                        found = batch_id;
                    }
                }
            }
            found
        })
        .collect();
    for batch_id in &batch_ids {
        let chars: Vec<char> = batch_id.chars().collect();
        assert_eq!(chars.len(), 36);
        for (i, c) in chars.iter().enumerate() {
            match i {
                8 | 13 | 18 | 23 => assert_eq!(*c, '-'),
                14 => assert_eq!(*c, '4'),
                19 => assert!("89ab".contains(*c)),
                _ => assert!("0123456789abcdef".contains(*c)),
            }
        }
    }
    assert_ne!(batch_ids[0], batch_ids[1]);
}

#[test]
fn a_track_is_named_and_searched_for() {
    assert_eq!(track_label(&entry()), "Blur - Song 2");
    let expected = SearchTrack {
        id: "csv-import-12".to_string(),
        title: "Song 2".to_string(),
        artist: "Blur".to_string(),
        album_title: None,
    };
    assert_eq!(search_track(&entry()), expected);
    let mut with_album = entry();
    with_album.album = "Blur".to_string();
    assert_eq!(search_track(&with_album).album_title, Some("Blur".to_string()));
}

#[test]
fn a_cancelled_import_does_nothing() {
    let step = last(vec![TrackReply::Cancelled(true)]);
    assert_eq!(step, TrackStep { effects: vec![], action: TrackAction::Finish });
}

#[test]
fn the_playlist_comes_first_and_the_permit_next() {
    let (_, steps) = run(up_to_search(None).into_iter().take(3).collect());
    assert_eq!(steps[0].action, TrackAction::EnsurePlaylist { name: "Mix".to_string() });
    assert_eq!(steps[1].action, TrackAction::AcquirePermit);
    assert_eq!(steps[2].action, TrackAction::CheckCancelled);
    assert!(steps.iter().all(|s| s.effects.is_empty()));
}

#[test]
fn without_a_permit_the_import_is_over() {
    let step = last(vec![
        TrackReply::Cancelled(false),
        TrackReply::Playlist(None),
        TrackReply::Permit(false),
    ]);
    assert_eq!(step, TrackStep { effects: vec![], action: TrackAction::Finish });
}

#[test]
fn cancelled_with_the_permit_in_hand_it_is_given_back() {
    let step = last(vec![
        TrackReply::Cancelled(false),
        TrackReply::Playlist(None),
        TrackReply::Permit(true),
        TrackReply::Cancelled(true),
    ]);
    assert_eq!(step.effects, vec![TrackEffect::ReleasePermit]);
    assert_eq!(step.action, TrackAction::Finish);
}

#[test]
fn the_search_is_announced() {
    let (_, steps) = run(up_to_search(None));
    assert_eq!(
        steps[3].effects,
        vec![TrackEffect::Searching {
            batch_id: id(),
            query: "Blur - Song 2".to_string(),
            backend_count: 2,
        }]
    );
    assert_eq!(steps[3].action, TrackAction::ProbeBackends);
    assert_eq!(steps[4].action, TrackAction::Search { track: search_track(&entry()) });
}

#[test]
fn without_backends_the_import_fails() {
    let mut replies = up_to_search(None);
    replies.pop();
    replies.push(TrackReply::Backends(0));
    let step = last(replies);
    assert_eq!(
        step.effects,
        vec![failed("No download backends available"), TrackEffect::ReleasePermit]
    );
    assert_eq!(step.action, TrackAction::Finish);
}

#[test]
fn without_results_the_import_fails() {
    let mut replies = up_to_search(None);
    replies.push(TrackReply::Results(vec![vec![], vec![]]));
    let step = last(replies);
    assert_eq!(step.effects, vec![failed("No results found"), TrackEffect::ReleasePermit]);
}

#[test]
fn a_low_score_is_refused() {
    let mut replies = up_to_search(None);
    replies.push(TrackReply::Results(vec![
        vec![group("a", 0.2, vec![1])],
        vec![group("b", 0.48, vec![2])],
    ]));
    let step = last(replies);
    assert_eq!(
        step.effects,
        vec![
            TrackEffect::ScoringResults {
                batch_id: id(),
                result_count: 2,
                best_score: 0.48f64.to_bits(),
            },
            failed("Best match score 0.48 too low for 'Blur - Song 2'"),
            TrackEffect::ReleasePermit,
        ]
    );
    assert_eq!(step.action, TrackAction::Finish);
}

#[test]
fn the_best_source_is_picked() {
    let mut replies = up_to_search(None);
    replies.push(TrackReply::Results(vec![
        vec![group("a", 0.6, vec![1])],
        vec![group("b", 0.9, vec![2, 3]), group("c", 0.9, vec![4])],
    ]));
    let step = last(replies);
    assert_eq!(
        step.effects,
        vec![
            TrackEffect::ScoringResults {
                batch_id: id(),
                result_count: 3,
                best_score: 0.9f64.to_bits(),
            },
            TrackEffect::PickedSource {
                batch_id: id(),
                source: "b".to_string(),
                score: 0.9f64.to_bits(),
                quality: "FLAC".to_string(),
                track_count: 2,
            },
        ]
    );
    assert_eq!(step.action, TrackAction::CreateFolder);
}

#[test]
fn the_picked_items_are_downloaded() {
    assert_eq!(last(up_to_queue(None)).action, TrackAction::Download { items: vec![5, 6] });
}

#[test]
fn a_failure_before_the_download_gives_the_permit_back() {
    let cut = |n: usize, reply: TrackReply<u32>, error: &str| {
        let mut replies: Vec<_> = up_to_queue(None).into_iter().take(n).collect();
        replies.push(reply);
        let step = last(replies);
        assert_eq!(step.effects, vec![failed(error), TrackEffect::ReleasePermit]);
        assert_eq!(step.action, TrackAction::Finish);
    };
    cut(
        6,
        TrackReply::Folder(Err("disk full".to_string())),
        "Failed to create target directory: disk full",
    );
    cut(
        7,
        TrackReply::Backend(Err("offline".to_string())),
        "Download backend not available: offline",
    );
    cut(8, TrackReply::Queued(Err("busy".to_string())), "Download queue failed: busy");
}

#[test]
fn queued_downloads_are_reported_and_monitored() {
    let mut replies = up_to_queue(None);
    replies.push(TrackReply::Queued(Ok(vec![
        download("1", None),
        download("2", Some("denied")),
        download("3", None),
    ])));
    let step = last(replies);
    assert_eq!(
        step.effects,
        vec![
            TrackEffect::ReleasePermit,
            TrackEffect::Progress { entries: vec![progress(download("2", Some("denied")))] },
            TrackEffect::Downloading { batch_id: id() },
            TrackEffect::Progress {
                entries: vec![progress(download("1", None)), progress(download("3", None))],
            },
        ]
    );
    assert_eq!(
        step.action,
        TrackAction::Monitor {
            sources: vec!["peer-1".to_string(), "peer-3".to_string()],
            filenames: vec!["1.flac".to_string(), "3.flac".to_string()],
            batch_id: id(),
            batch_label: "Blur - Song 2".to_string(),
        }
    );
}

#[test]
fn nothing_queued_is_a_failure() {
    let mut replies = up_to_queue(None);
    replies.push(TrackReply::Queued(Ok(vec![download("1", Some("denied"))])));
    let step = last(replies);
    assert_eq!(
        step.effects,
        vec![
            TrackEffect::ReleasePermit,
            TrackEffect::Progress { entries: vec![progress(download("1", Some("denied")))] },
            failed("All downloads failed to queue"),
        ]
    );
    assert_eq!(step.action, TrackAction::Finish);
    let mut none = up_to_queue(None);
    none.push(TrackReply::Queued(Ok(vec![])));
    assert_eq!(
        last(none).effects,
        vec![TrackEffect::ReleasePermit, failed("All downloads failed to queue")]
    );
}

#[test]
fn without_a_playlist_the_import_ends_with_the_downloads() {
    let mut replies = up_to_queue(None);
    replies.push(TrackReply::Queued(Ok(vec![download("1", None)])));
    replies.push(TrackReply::Monitored);
    let step = last(replies);
    assert_eq!(step, TrackStep { effects: vec![], action: TrackAction::Finish });
}

#[test]
fn with_a_playlist_the_song_is_added() {
    let mut replies = up_to_queue(Some("pl"));
    replies.push(TrackReply::Queued(Ok(vec![download("1", None)])));
    replies.push(TrackReply::Monitored);
    replies.push(TrackReply::Cancelled(false));
    replies.push(TrackReply::Settled);
    replies.push(TrackReply::Song(Some("s9".to_string())));
    replies.push(TrackReply::Updated);
    let (import, steps) = run(replies);
    assert_eq!(steps.len(), 14);
    assert_eq!(steps[9].action, TrackAction::CheckCancelled);
    assert_eq!(steps[10].action, TrackAction::Settle { delay_ms: 5_000 });
    assert_eq!(steps[11].action, TrackAction::FindSong);
    assert_eq!(
        steps[12].action,
        TrackAction::UpdatePlaylist {
            playlist_id: "pl".to_string(),
            song_ids: vec!["s9".to_string()],
        }
    );
    assert_eq!(steps[13].action, TrackAction::Finish);
    let releases = steps
        .iter()
        .flat_map(|s| s.effects.iter())
        .filter(|e| **e == TrackEffect::ReleasePermit)
        .count();
    assert_eq!(releases, 1);
    assert!(import.advance(TrackReply::Updated).is_none());
}

#[test]
fn a_song_that_is_not_found_is_not_added() {
    let mut replies = up_to_queue(Some("pl"));
    replies.push(TrackReply::Queued(Ok(vec![download("1", None)])));
    replies.push(TrackReply::Monitored);
    replies.push(TrackReply::Cancelled(false));
    replies.push(TrackReply::Settled);
    replies.push(TrackReply::Song(None));
    assert_eq!(last(replies).action, TrackAction::Finish);
}

#[test]
fn cancelled_after_the_downloads_no_song_is_looked_up() {
    let mut replies = up_to_queue(Some("pl"));
    replies.push(TrackReply::Queued(Ok(vec![download("1", None)])));
    replies.push(TrackReply::Monitored);
    replies.push(TrackReply::Cancelled(true));
    assert_eq!(last(replies).action, TrackAction::Finish);
}

#[test]
fn a_reply_to_another_action_is_refused() {
    let import: TrackImport<u32> = TrackImport::with_batch_id(entry(), id(), 2).0;
    assert!(import.advance(TrackReply::Permit(true)).is_none());
}

#[test]
fn imports_side_by_side_share_the_permits() {
    let mut free = 1;
    let mut imports: Vec<TrackImport<u32>> = Vec::new();
    for _ in 0..2 {
        let (import, _) = TrackImport::with_batch_id(entry(), id(), 2);
        let (import, _) = import.advance(TrackReply::Cancelled(false)).unwrap();
        let (import, step) = import.advance(TrackReply::Playlist(None)).unwrap();
        assert_eq!(step.action, TrackAction::AcquirePermit);
        imports.push(import);
    }
    for import in imports {
        assert_eq!(free, 1);
        free -= 1;
        let mut current = import;
        for reply in [
            TrackReply::Permit(true),
            TrackReply::Cancelled(false),
            TrackReply::Backends(0),
        ] {
            let (next, step) = current.advance(reply).unwrap();
            current = next;
            for effect in step.effects {
                if effect == TrackEffect::ReleasePermit {
                    free += 1;
                }
            }
        }
    }
    assert_eq!(free, 1);
}

#[test]
fn no_more_searches_run_than_there_are_permits() {
    let mut free = MAX_CONCURRENT_SEARCHES;
    let mut searching = 0;
    for _ in 0..5 {
        let (import, _) = TrackImport::<u32>::with_batch_id(entry(), id(), 2);
        let (import, _) = import.advance(TrackReply::Cancelled(false)).unwrap();
        let (import, step) = import.advance(TrackReply::Playlist(None)).unwrap();
        assert_eq!(step.action, TrackAction::AcquirePermit);
        if free > 0 {
            free -= 1;
            let (_, step) = import.advance(TrackReply::Permit(true)).unwrap();
            assert!(step.effects.is_empty());
            searching += 1;
        }
    }
    assert_eq!(searching, 3);
}

#[test]
fn a_search_has_one_outcome() {
    let outcomes = |queued: Vec<QueuedDownload>| {
        let mut replies = up_to_queue(None);
        replies.push(TrackReply::Queued(Ok(queued)));
        let (mut import, mut steps) = run(replies);
        while steps.last().unwrap().action != TrackAction::Finish {
            let (next, step) = import.advance(TrackReply::Monitored).unwrap();
            import = next;
            steps.push(step);
        }
        let mut failures = 0;
        let mut downloads = 0;
        for effect in steps.iter().flat_map(|s| s.effects.iter()) {
            match effect {
                TrackEffect::Failed { .. } => failures += 1,
                TrackEffect::Downloading { .. } => downloads += 1,
                _ => {}
            }
        }
        (failures, downloads)
    };
    assert_eq!(outcomes(vec![]), (1, 0));
    assert_eq!(outcomes(vec![download("a", Some("busy"))]), (1, 0));
    assert_eq!(outcomes(vec![download("a", Some("busy")), download("b", None)]), (0, 1));
    assert_eq!(outcomes(vec![download("a", None), download("b", None)]), (0, 1));
}
