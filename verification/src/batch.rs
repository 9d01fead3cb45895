//! The import of a batch of tracks: the request, the first progress report, and the pace at which
//! the tracks are started.

use crate::csv::{
    header_rows, parsed_text, playlist_names, track_texts, unique_playlists, CsvImportError, CsvTrackEntry,
};
use crate::csv_laws::{law_playlist_names_are_unique, law_rows_are_counted};
use crate::playlist::{id_map, lowered, pair_texts, PlaylistCache};
use crate::text::{lemma_line_end, text_lines, texts};
use vstd::prelude::*;

verus! {

/// Delay between starting individual tracks.
pub const BATCH_DELAY_MS: u64 = 500;

/// Maximum concurrent searches. Downloads can run concurrently beyond this limit.
pub const MAX_CONCURRENT_SEARCHES: usize = 3;

/// Request to start a batch import from parsed CSV data.
#[derive(Debug, Clone, PartialEq, Eq)]
pub struct CsvBatchImportRequest {
    pub tracks: Vec<CsvTrackEntry>,
    pub folder_id: String,
    pub folder_path: String,
}

/// Status of a single track in the import batch.
#[derive(Debug, Clone, PartialEq, Eq)]
pub enum CsvTrackStatus {
    Pending,
    Searching,
    Accepted { batch_id: String },
    Failed { error: String },
}

/// Progress update for the entire CSV import batch.
#[derive(Debug, Clone, PartialEq, Eq)]
pub struct CsvImportProgress {
    pub total: usize,
    pub completed: usize,
    pub failed: usize,
    pub current_track: Option<CsvTrackEntry>,
    pub statuses: Vec<(CsvTrackEntry, CsvTrackStatus)>,
    /// Playlists that will be created after downloads complete
    pub playlists: Vec<String>,
    pub done: bool,
}

/// The statuses of tracks that are all pending, in order.
pub open spec fn all_pending(tracks: Seq<CsvTrackEntry>) -> Seq<(CsvTrackEntry, CsvTrackStatus)> {
    tracks.map_values(|t: CsvTrackEntry| (t, CsvTrackStatus::Pending))
}

/// Whether `progress` is the first report on a batch: every track is pending, all are counted as
/// handed over, none has failed, and the playlists are those that the tracks name.
pub open spec fn is_first_report(
    tracks: Seq<CsvTrackEntry>,
    progress: CsvImportProgress,
) -> bool {
    &&& progress.total == tracks.len()
    &&& progress.completed == tracks.len()
    &&& progress.failed == 0
    &&& progress.current_track is None
    &&& progress.statuses@ == all_pending(tracks)
    &&& texts(progress.playlists@) == playlist_names(track_texts(tracks))
    &&& !progress.done
}

/// Start a batch import. It is turned down if there is no download backend; otherwise the first
/// report is given at once, and the tracks are processed in the background.
pub fn import_csv_batch(req: &CsvBatchImportRequest, backend_ids: &Vec<String>) -> (result: Result<
    CsvImportProgress,
    CsvImportError,
>)
    ensures
        match result {
            Ok(progress) => backend_ids@.len() > 0 && is_first_report(req.tracks@, progress),
            Err(e) => backend_ids@.len() == 0 && e == CsvImportError::NoBackends,
        },
{
    if backend_ids.len() == 0 {
        return Err(CsvImportError::NoBackends);
    }
    let total = req.tracks.len();
    let playlists = unique_playlists(&req.tracks);
    let mut statuses: Vec<(CsvTrackEntry, CsvTrackStatus)> = Vec::new();
    let mut i: usize = 0;
    while i < req.tracks.len()
        invariant
            i <= req.tracks.len(),
            statuses@ == all_pending(req.tracks@).take(i as int),
        decreases req.tracks.len() - i,
    {
        statuses.push((req.tracks[i].clone(), CsvTrackStatus::Pending));
        i += 1;
    }
    proof {
        assert(all_pending(req.tracks@).take(i as int) =~= all_pending(req.tracks@));
    }
    Ok(
        CsvImportProgress {
            total,
            completed: total,
            failed: 0,
            current_track: None,
            statuses,
            playlists,
            done: false,
        },
    )
}

/// The first report on a batch names the playlists that the preview of its CSV text named, and
/// counts its tracks: with the skipped rows they are all rows.
pub proof fn law_report_repeats_preview(
    csv_content: Seq<char>,
    tracks: Seq<CsvTrackEntry>,
    progress: CsvImportProgress,
)
    requires
        csv_content.len() > 0,
        track_texts(tracks) == parsed_text(csv_content).tracks,
        is_first_report(tracks, progress),
    ensures
        texts(progress.playlists@) == parsed_text(csv_content).playlists,
        progress.total == parsed_text(csv_content).tracks.len(),
        progress.total + parsed_text(csv_content).skipped_rows == parsed_text(
            csv_content,
        ).total_rows,
{
    let lines = text_lines(csv_content);
    lemma_line_end(csv_content, 0);
    assert(lines.len() > 0);
    law_rows_are_counted(lines, header_rows(lines));
}

/// The playlist cache that a batch begins with: the playlists that the music server has, given as
/// names and ids, or none if there is no server or they could not be had.
pub fn initial_cache(playlists: Option<Vec<(String, String)>>) -> (cache: PlaylistCache)
    ensures
        cache@ == match playlists {
            Some(list) => id_map(lowered(pair_texts(list@))),
            None => Map::empty(),
        },
{
    match playlists {
        Some(list) => PlaylistCache::from_playlists(list),
        None => PlaylistCache::new(),
    }
}

/// What a batch does next.
#[derive(Debug, Clone, Copy, PartialEq, Eq, Structural)]
pub enum BatchAction {
    /// Start the import of the track with this index, then wait.
    Spawn { index: usize, delay_ms: u64 },
    /// Wait for the imports that were started.
    Join { count: usize },
}

/// What a batch does next, with so many of its tracks started: it starts the next one, unless there
/// is none or the batch was cancelled.
pub open spec fn batch_follow(started: usize, total: usize, cancelled: bool) -> BatchAction {
    if started < total && !cancelled {
        BatchAction::Spawn { index: started, delay_ms: BATCH_DELAY_MS }
    } else {
        BatchAction::Join { count: started }
    }
}

/// Decides what a batch does next.
pub fn batch_next(started: usize, total: usize, cancelled: bool) -> (action: BatchAction)
    ensures
        action == batch_follow(started, total, cancelled),
{
    if started < total && !cancelled {
        BatchAction::Spawn { index: started, delay_ms: BATCH_DELAY_MS }
    } else {
        BatchAction::Join { count: started }
    }
}

/// The tracks that a batch has started after a series of looks at cancellation, one before each
/// start; from the first time that it does not start one it starts none.
pub open spec fn started_after(total: usize, looks: Seq<bool>) -> Seq<usize>
    decreases looks.len(),
{
    if looks.len() == 0 {
        seq![]
    } else {
        let before = started_after(total, looks.drop_last());
        if before.len() + 1 == looks.len() {
            match batch_follow(before.len() as usize, total, looks.last()) {
                BatchAction::Spawn { index, .. } => before.push(index),
                BatchAction::Join { .. } => before,
            }
        } else {
            before
        }
    }
}

/// A batch starts its tracks in order, each once: all of them if it is not cancelled, and none
/// from the look at which it is.
pub proof fn law_batch_starts_tracks_in_order(total: usize, looks: Seq<bool>)
    ensures
        started_after(total, looks).len() <= total,
        started_after(total, looks).len() <= looks.len(),
        forall|i: int|
            0 <= i < started_after(total, looks).len() ==> #[trigger] started_after(
                total,
                looks,
            )[i] == i,
        (forall|j: int| 0 <= j < looks.len() ==> !looks[j]) ==> started_after(total, looks).len()
            == if looks.len() < total {
            looks.len() as int
        } else {
            total as int
        },
        forall|j: int|
            0 <= j < looks.len() && #[trigger] looks[j] ==> started_after(total, looks).len() <= j,
    decreases looks.len(),
{
    if looks.len() > 0 {
        let front = looks.drop_last();
        law_batch_starts_tracks_in_order(total, front);
        assert forall|j: int| 0 <= j < looks.len() && #[trigger] looks[j] implies started_after(
            total,
            looks,
        ).len() <= j by {
            if j < front.len() {
                assert(front[j] == looks[j]);
            }
        }
        if forall|j: int| 0 <= j < looks.len() ==> !looks[j] {
            assert forall|j: int| 0 <= j < front.len() implies !front[j] by {
                assert(front[j] == looks[j]);
            }
        }
    }
}

/// The first report on a batch lists its tracks, one status each and in order, all of them pending,
/// and counts every one; none has failed, none is under way, and the batch is not done. The
/// playlists are those that the tracks name, each once.
pub proof fn law_first_report_lists_every_track(
    tracks: Seq<CsvTrackEntry>,
    progress: CsvImportProgress,
)
    requires
        is_first_report(tracks, progress),
    ensures
        progress.statuses@.len() == tracks.len(),
        forall|i: int|
            0 <= i < tracks.len() ==> (#[trigger] progress.statuses@[i]).0 == tracks[i]
                && progress.statuses@[i].1 is Pending,
        progress.total == tracks.len() && progress.completed == tracks.len(),
        progress.failed == 0 && progress.current_track is None && !progress.done,
        texts(progress.playlists@).no_duplicates(),
        forall|name: Seq<char>| #[trigger]
            texts(progress.playlists@).contains(name) <==> name.len() > 0 && exists|i: int|
                0 <= i < tracks.len() && (#[trigger] tracks[i]).playlist_name@ == name,
{
    let said = track_texts(tracks);
    law_playlist_names_are_unique(said);
    assert forall|name: Seq<char>| #[trigger]
        texts(progress.playlists@).contains(name) <==> name.len() > 0 && exists|i: int|
            0 <= i < tracks.len() && (#[trigger] tracks[i]).playlist_name@ == name by {
        if texts(progress.playlists@).contains(name) {
            let i = choose|i: int| 0 <= i < said.len() && (#[trigger] said[i]).playlist_name == name;
            assert(tracks[i].playlist_name@ == name);
        }
        if name.len() > 0 && exists|i: int|
            0 <= i < tracks.len() && (#[trigger] tracks[i]).playlist_name@ == name {
            let i = choose|i: int|
                0 <= i < tracks.len() && (#[trigger] tracks[i]).playlist_name@ == name;
            assert(said[i].playlist_name == name);
        }
    }
}

/// A batch starts its next track, and waits half a second, exactly as long as there is one and it is
/// not cancelled; then it waits for all that were started, and for no others.
pub proof fn law_batch_goes_on_until_cancelled(started: usize, total: usize, cancelled: bool)
    ensures
        batch_follow(started, total, cancelled) is Spawn <==> started < total && !cancelled,
        batch_follow(started, total, cancelled) matches BatchAction::Spawn { index, delay_ms } ==> index
            == started && delay_ms == 500,
        batch_follow(started, total, cancelled) matches BatchAction::Join { count } ==> count == started,
{
}

} // verus!
