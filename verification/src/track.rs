//! The import of one track: ensure playlist, search, score, download, monitor, add to playlist.
//!
//! The import alternates decisions, made here, with work that is done elsewhere. [`TrackImport`]
//! takes the reply to the last piece of work, and hands back what is to be reported and done next.

use crate::csv::{CsvTrackEntry, TrackText};
use crate::score::{leader, score_too_low, too_low};
use crate::search::{
    best_group, group_texts, merge_results, merged, result_texts, scores_of, DownloadGroup,
    GroupText,
};
use crate::text::{decimal, decimal_text, opt_text, texts};
use vstd::prelude::*;

verus! {

/// The pause after a download for the import and the indexing of its files to settle.
pub const POST_IMPORT_SETTLE_DELAY_MS: u64 = 5_000;

/// Whether a character is a lowercase hexadecimal digit.
pub open spec fn is_hex_digit(c: char) -> bool {
    '0' <= c <= '9' || 'a' <= c <= 'f'
}

/// Whether a text is a random UUID in hyphenated lowercase form: groups of 8, 4, 4, 4 and 12
/// hexadecimal digits, with the version digit 4 and a variant digit from 8 to b.
pub open spec fn is_random_uuid(text: Seq<char>) -> bool {
    &&& text.len() == 36
    &&& forall|i: int|
        0 <= i < 36 ==> if i == 8 || i == 13 || i == 18 || i == 23 {
            #[trigger] text[i] == '-'
        } else {
            is_hex_digit(text[i])
        }
    &&& text[14] == '4'
    &&& text[19] == '8' || text[19] == '9' || text[19] == 'a' || text[19] == 'b'
}

/// Calls `uuid::Uuid::new_v4` and writes the result with its `Display`. The digits are random
/// except for the version and the variant; only the form is stated. The call panics where the
/// system has no source of randomness.
#[verifier::external_body]
fn new_batch_id() -> (id: String)
    ensures
        is_random_uuid(id@),
{
    uuid::Uuid::new_v4().to_string()
}

/// What is searched for at a backend.
#[derive(Debug, Clone, PartialEq, Eq)]
pub struct SearchTrack {
    pub id: String,
    pub title: String,
    pub artist: String,
    pub album_title: Option<String>,
}

/// What a search asks for.
pub struct SearchTrackText {
    pub id: Seq<char>,
    pub title: Seq<char>,
    pub artist: Seq<char>,
    pub album_title: Option<Seq<char>>,
}

impl View for SearchTrack {
    type V = SearchTrackText;

    open spec fn view(&self) -> SearchTrackText {
        SearchTrackText {
            id: self.id@,
            title: self.title@,
            artist: self.artist@,
            album_title: opt_text(self.album_title),
        }
    }
}

/// A download that a backend was asked to queue.
#[derive(Debug, Clone, PartialEq, Eq)]
pub struct QueuedDownload {
    pub id: String,
    pub source: String,
    pub item: String,
    pub size: u64,
    /// Why the download could not be queued, if it could not
    pub error: Option<String>,
}

/// What a queued download says.
pub struct QueuedText {
    pub id: Seq<char>,
    pub source: Seq<char>,
    pub item: Seq<char>,
    pub size: u64,
    pub error: Option<Seq<char>>,
}

impl View for QueuedDownload {
    type V = QueuedText;

    open spec fn view(&self) -> QueuedText {
        QueuedText {
            id: self.id@,
            source: self.source@,
            item: self.item@,
            size: self.size,
            error: opt_text(self.error),
        }
    }
}

/// What a list of queued downloads says.
pub open spec fn queued_texts(queued: Seq<QueuedDownload>) -> Seq<QueuedText> {
    queued.map_values(|q: QueuedDownload| q@)
}

/// How a download stands.
#[derive(Debug, Clone, PartialEq, Eq)]
pub enum ProgressState {
    Failed { error: String },
    Queued { size: u64 },
}

/// The progress of one download of a batch.
#[derive(Debug, Clone, PartialEq, Eq)]
pub struct ProgressEntry {
    pub id: String,
    pub source: String,
    pub item: String,
    pub state: ProgressState,
    pub batch_id: String,
    pub batch_label: String,
}

/// How a download stands, in texts and numbers.
pub enum StateText {
    Failed { error: Seq<char> },
    Queued { size: u64 },
}

/// What a progress entry says.
pub struct EntryText {
    pub id: Seq<char>,
    pub source: Seq<char>,
    pub item: Seq<char>,
    pub state: StateText,
    pub batch_id: Seq<char>,
    pub batch_label: Seq<char>,
}

impl View for ProgressEntry {
    type V = EntryText;

    open spec fn view(&self) -> EntryText {
        EntryText {
            id: self.id@,
            source: self.source@,
            item: self.item@,
            state: match self.state {
                ProgressState::Failed { error } => StateText::Failed { error: error@ },
                ProgressState::Queued { size } => StateText::Queued { size },
            },
            batch_id: self.batch_id@,
            batch_label: self.batch_label@,
        }
    }
}

/// What a list of progress entries says.
pub open spec fn entry_texts(entries: Seq<ProgressEntry>) -> Seq<EntryText> {
    entries.map_values(|e: ProgressEntry| e@)
}

/// What a track import reports, and the giving back of its search permit, in order.
#[derive(Debug, Clone, PartialEq, Eq)]
pub enum TrackEffect {
    Searching { batch_id: String, query: String, backend_count: usize },
    Failed { batch_id: String, error: String },
    ScoringResults { batch_id: String, result_count: usize, best_score: u64 },
    PickedSource {
        batch_id: String,
        source: String,
        score: u64,
        quality: String,
        track_count: usize,
    },
    Downloading { batch_id: String },
    Progress { entries: Vec<ProgressEntry> },
    ReleasePermit,
}

/// What an effect says.
pub enum EffectText {
    Searching { batch_id: Seq<char>, query: Seq<char>, backend_count: nat },
    Failed { batch_id: Seq<char>, error: Seq<char> },
    ScoringResults { batch_id: Seq<char>, result_count: nat, best_score: u64 },
    PickedSource {
        batch_id: Seq<char>,
        source: Seq<char>,
        score: u64,
        quality: Seq<char>,
        track_count: nat,
    },
    Downloading { batch_id: Seq<char> },
    Progress { entries: Seq<EntryText> },
    ReleasePermit,
}

impl View for TrackEffect {
    type V = EffectText;

    open spec fn view(&self) -> EffectText {
        match *self {
            TrackEffect::Searching { batch_id, query, backend_count } => EffectText::Searching {
                batch_id: batch_id@,
                query: query@,
                backend_count: backend_count as nat,
            },
            TrackEffect::Failed { batch_id, error } => EffectText::Failed {
                batch_id: batch_id@,
                error: error@,
            },
            TrackEffect::ScoringResults { batch_id, result_count, best_score } =>
            EffectText::ScoringResults {
                batch_id: batch_id@,
                result_count: result_count as nat,
                best_score,
            },
            TrackEffect::PickedSource { batch_id, source, score, quality, track_count } =>
            EffectText::PickedSource {
                batch_id: batch_id@,
                source: source@,
                score,
                quality: quality@,
                track_count: track_count as nat,
            },
            TrackEffect::Downloading { batch_id } => EffectText::Downloading {
                batch_id: batch_id@,
            },
            TrackEffect::Progress { entries } => EffectText::Progress {
                entries: entry_texts(entries@),
            },
            TrackEffect::ReleasePermit => EffectText::ReleasePermit,
        }
    }
}

/// What a list of effects says.
pub open spec fn effect_texts(effects: Seq<TrackEffect>) -> Seq<EffectText> {
    effects.map_values(|e: TrackEffect| e@)
}

/// What a track import asks to be done.
#[derive(Debug, PartialEq, Eq)]
pub enum TrackAction<I> {
    /// Look whether the batch was cancelled.
    CheckCancelled,
    /// Find or create the playlist with this name.
    EnsurePlaylist { name: String },
    /// Wait for a search permit.
    AcquirePermit,
    /// Find out which backends are available.
    ProbeBackends,
    /// Search all available backends.
    Search { track: SearchTrack },
    /// Create the target folder.
    CreateFolder,
    /// Get the default download backend.
    OpenBackend,
    /// Queue these items at the backend.
    Download { items: Vec<I> },
    /// Watch the queued downloads until they are done.
    Monitor {
        sources: Vec<String>,
        filenames: Vec<String>,
        batch_id: String,
        batch_label: String,
    },
    /// Wait.
    Settle { delay_ms: u64 },
    /// Look the track up in the music server.
    FindSong,
    /// Add the songs to the playlist.
    UpdatePlaylist { playlist_id: String, song_ids: Vec<String> },
    /// Nothing is left to do.
    Finish,
}

/// What an action asks for.
pub enum ActionText<I> {
    CheckCancelled,
    EnsurePlaylist { name: Seq<char> },
    AcquirePermit,
    ProbeBackends,
    Search { track: SearchTrackText },
    CreateFolder,
    OpenBackend,
    Download { items: Seq<I> },
    Monitor {
        sources: Seq<Seq<char>>,
        filenames: Seq<Seq<char>>,
        batch_id: Seq<char>,
        batch_label: Seq<char>,
    },
    Settle { delay_ms: u64 },
    FindSong,
    UpdatePlaylist { playlist_id: Seq<char>, song_ids: Seq<Seq<char>> },
    Finish,
}

impl<I> View for TrackAction<I> {
    type V = ActionText<I>;

    open spec fn view(&self) -> ActionText<I> {
        match *self {
            TrackAction::CheckCancelled => ActionText::CheckCancelled,
            TrackAction::EnsurePlaylist { name } => ActionText::EnsurePlaylist { name: name@ },
            TrackAction::AcquirePermit => ActionText::AcquirePermit,
            TrackAction::ProbeBackends => ActionText::ProbeBackends,
            TrackAction::Search { track } => ActionText::Search { track: track@ },
            TrackAction::CreateFolder => ActionText::CreateFolder,
            TrackAction::OpenBackend => ActionText::OpenBackend,
            TrackAction::Download { items } => ActionText::Download { items: items@ },
            TrackAction::Monitor { sources, filenames, batch_id, batch_label } =>
            ActionText::Monitor {
                sources: texts(sources@),
                filenames: texts(filenames@),
                batch_id: batch_id@,
                batch_label: batch_label@,
            },
            TrackAction::Settle { delay_ms } => ActionText::Settle { delay_ms },
            TrackAction::FindSong => ActionText::FindSong,
            TrackAction::UpdatePlaylist { playlist_id, song_ids } => ActionText::UpdatePlaylist {
                playlist_id: playlist_id@,
                song_ids: texts(song_ids@),
            },
            TrackAction::Finish => ActionText::Finish,
        }
    }
}

/// The reply to an action.
pub enum TrackReply<I> {
    /// To `CheckCancelled`: whether the batch was cancelled.
    Cancelled(bool),
    /// To `EnsurePlaylist`: the playlist's id, if there is one.
    Playlist(Option<String>),
    /// To `AcquirePermit`: whether a permit was granted.
    Permit(bool),
    /// To `ProbeBackends`: how many are available.
    Backends(usize),
    /// To `Search`: the groups that each backend found.
    Results(Vec<Vec<DownloadGroup<I>>>),
    /// To `CreateFolder`.
    Folder(Result<(), String>),
    /// To `OpenBackend`.
    Backend(Result<(), String>),
    /// To `Download`: how each download was queued.
    Queued(Result<Vec<QueuedDownload>, String>),
    /// To `Monitor`: the downloads are done.
    Monitored,
    /// To `Settle`: the time has passed.
    Settled,
    /// To `FindSong`: the song's id, if it was found.
    Song(Option<String>),
    /// To `UpdatePlaylist`: it was tried.
    Updated,
}

/// What a reply says.
pub enum ReplyText<I> {
    Cancelled(bool),
    Playlist(Option<Seq<char>>),
    Permit(bool),
    Backends(nat),
    Results(Seq<Seq<GroupText<I>>>),
    Folder(Result<(), Seq<char>>),
    Backend(Result<(), Seq<char>>),
    Queued(Result<Seq<QueuedText>, Seq<char>>),
    Monitored,
    Settled,
    Song(Option<Seq<char>>),
    Updated,
}

impl<I> View for TrackReply<I> {
    type V = ReplyText<I>;

    open spec fn view(&self) -> ReplyText<I> {
        match *self {
            TrackReply::Cancelled(c) => ReplyText::Cancelled(c),
            TrackReply::Playlist(p) => ReplyText::Playlist(opt_text(p)),
            TrackReply::Permit(p) => ReplyText::Permit(p),
            TrackReply::Backends(n) => ReplyText::Backends(n as nat),
            TrackReply::Results(r) => ReplyText::Results(result_texts(r@)),
            TrackReply::Folder(Ok(_)) => ReplyText::Folder(Ok(())),
            TrackReply::Folder(Err(e)) => ReplyText::Folder(Err(e@)),
            TrackReply::Backend(Ok(_)) => ReplyText::Backend(Ok(())),
            TrackReply::Backend(Err(e)) => ReplyText::Backend(Err(e@)),
            TrackReply::Queued(Ok(q)) => ReplyText::Queued(Ok(queued_texts(q@))),
            TrackReply::Queued(Err(e)) => ReplyText::Queued(Err(e@)),
            TrackReply::Monitored => ReplyText::Monitored,
            TrackReply::Settled => ReplyText::Settled,
            TrackReply::Song(s) => ReplyText::Song(opt_text(s)),
            TrackReply::Updated => ReplyText::Updated,
        }
    }
}

/// What a track import hands back: what is to be reported now, then what is to be done.
#[derive(Debug, PartialEq, Eq)]
pub struct TrackStep<I> {
    pub effects: Vec<TrackEffect>,
    pub action: TrackAction<I>,
}

/// What a step says.
pub struct StepText<I> {
    pub effects: Seq<EffectText>,
    pub action: ActionText<I>,
}

impl<I> View for TrackStep<I> {
    type V = StepText<I>;

    open spec fn view(&self) -> StepText<I> {
        StepText { effects: effect_texts(self.effects@), action: self.action@ }
    }
}

/// Which reply a track import waits for.
enum TrackPhase<I> {
    Starting,
    Ensuring,
    Waiting,
    Granted,
    Probing,
    Searching,
    CreatingFolder { items: Vec<I> },
    Opening { items: Vec<I> },
    Queueing,
    Monitoring,
    Imported,
    Settling,
    Locating,
    Updating,
    Finished,
}

/// Which reply a track import waits for; once finished, none.
pub enum PhaseText<I> {
    /// for the first look at cancellation
    Starting,
    /// for the playlist
    Ensuring,
    /// for the search permit
    Waiting,
    /// for the look at cancellation with the permit in hand
    Granted,
    /// for the available backends
    Probing,
    /// for the search results
    Searching,
    /// for the target folder; with the items to download
    CreatingFolder { items: Seq<I> },
    /// for the download backend; with the items to download
    Opening { items: Seq<I> },
    /// for the queued downloads
    Queueing,
    /// for the end of the downloads
    Monitoring,
    /// for the look at cancellation after the downloads
    Imported,
    /// for the settling time to pass
    Settling,
    /// for the song
    Locating,
    /// for the playlist's update
    Updating,
    /// for nothing
    Finished,
}

/// The state of a track import.
pub struct TrackModel<I> {
    pub track: TrackText,
    pub batch_id: Seq<char>,
    pub backend_count: nat,
    pub playlist_id: Option<Seq<char>>,
    pub phase: PhaseText<I>,
}

/// What a track import is about.
struct TrackJob {
    track: CsvTrackEntry,
    batch_id: String,
    backend_count: usize,
    playlist_id: Option<String>,
}

/// The import of one track, waiting for the reply to its last action.
pub struct TrackImport<I> {
    job: TrackJob,
    phase: TrackPhase<I>,
}

/// How a track is named in messages.
pub open spec fn describe(track: TrackText) -> Seq<char> {
    track.artist + " - "@ + track.track_name
}

/// What is searched for to find a track: an album only if the entry names one.
pub open spec fn search_for(track: TrackText) -> SearchTrackText {
    SearchTrackText {
        id: "csv-import-"@ + decimal(track.row_index),
        title: track.track_name,
        artist: track.artist,
        album_title: if track.album.len() == 0 {
            None
        } else {
            Some(track.album)
        },
    }
}

/// The downloads that could not be queued, in order.
pub open spec fn refused(queued: Seq<QueuedText>) -> Seq<QueuedText>
    decreases queued.len(),
{
    if queued.len() == 0 {
        seq![]
    } else if queued.last().error is Some {
        refused(queued.drop_last()).push(queued.last())
    } else {
        refused(queued.drop_last())
    }
}

/// The downloads that were queued, in order.
pub open spec fn accepted(queued: Seq<QueuedText>) -> Seq<QueuedText>
    decreases queued.len(),
{
    if queued.len() == 0 {
        seq![]
    } else if queued.last().error is None {
        accepted(queued.drop_last()).push(queued.last())
    } else {
        accepted(queued.drop_last())
    }
}

/// The progress entry of a download, failed if it has an error, queued with its size if not.
pub open spec fn entry_for(q: QueuedText, batch_id: Seq<char>, label: Seq<char>) -> EntryText {
    EntryText {
        id: q.id,
        source: q.source,
        item: q.item,
        state: match q.error {
            Some(error) => StateText::Failed { error },
            None => StateText::Queued { size: q.size },
        },
        batch_id,
        batch_label: label,
    }
}

/// The progress entries of a list of downloads.
pub open spec fn entries_for(
    queued: Seq<QueuedText>,
    batch_id: Seq<char>,
    label: Seq<char>,
) -> Seq<EntryText> {
    queued.map_values(|q: QueuedText| entry_for(q, batch_id, label))
}

/// The sources of a list of downloads.
pub open spec fn sources_of(queued: Seq<QueuedText>) -> Seq<Seq<char>> {
    queued.map_values(|q: QueuedText| q.source)
}

/// The items of a list of downloads.
pub open spec fn items_of(queued: Seq<QueuedText>) -> Seq<Seq<char>> {
    queued.map_values(|q: QueuedText| q.item)
}

/// The state of an import that has not been told anything yet.
pub open spec fn fresh<I>(track: TrackText, batch_id: Seq<char>, backend_count: nat) -> TrackModel<
    I,
> {
    TrackModel { track, batch_id, backend_count, playlist_id: None, phase: PhaseText::Starting }
}

/// The first state and step of an import: it looks whether the batch was cancelled.
pub open spec fn track_start<I>(track: TrackText, batch_id: Seq<char>, backend_count: nat) -> (
    TrackModel<I>,
    StepText<I>,
) {
    (
        fresh(track, batch_id, backend_count),
        StepText { effects: seq![], action: ActionText::CheckCancelled },
    )
}

/// Going on: to the given phase, with the given effects and action.
pub open spec fn going<I>(
    m: TrackModel<I>,
    phase: PhaseText<I>,
    effects: Seq<EffectText>,
    action: ActionText<I>,
) -> Option<(TrackModel<I>, StepText<I>)> {
    Some((TrackModel { phase, ..m }, StepText { effects, action }))
}

/// Finishing with the given effects.
pub open spec fn finishing<I>(m: TrackModel<I>, effects: Seq<EffectText>) -> Option<
    (TrackModel<I>, StepText<I>),
> {
    going(m, PhaseText::Finished, effects, ActionText::Finish)
}

/// Failing with the search permit in hand: the error is reported, then the permit given back.
pub open spec fn failing<I>(m: TrackModel<I>, error: Seq<char>) -> Option<
    (TrackModel<I>, StepText<I>),
> {
    finishing(
        m,
        seq![EffectText::Failed { batch_id: m.batch_id, error }, EffectText::ReleasePermit],
    )
}

/// What follows the search results: the leading group of all is picked, unless there is none or
/// its score is too low.
pub open spec fn after_search<I>(m: TrackModel<I>, results: Seq<Seq<GroupText<I>>>) -> Option<
    (TrackModel<I>, StepText<I>),
> {
    let all = merged(results);
    let best = all[leader(scores_of(all))];
    let scoring = EffectText::ScoringResults {
        batch_id: m.batch_id,
        result_count: all.len(),
        best_score: best.score,
    };
    if all.len() == 0 {
        failing(m, "No results found"@)
    } else if too_low(best.score) {
        finishing(
            m,
            seq![
                scoring,
                EffectText::Failed {
                    batch_id: m.batch_id,
                    error: "Best match score "@ + best.score_text + " too low for '"@ + describe(
                        m.track,
                    ) + "'"@,
                },
                EffectText::ReleasePermit,
            ],
        )
    } else {
        going(
            m,
            PhaseText::CreatingFolder { items: best.items },
            seq![
                scoring,
                EffectText::PickedSource {
                    batch_id: m.batch_id,
                    source: best.source,
                    score: best.score,
                    quality: best.quality,
                    track_count: best.items.len(),
                },
            ],
            ActionText::CreateFolder,
        )
    }
}

/// What follows the queueing: the permit is given back, the downloads that could not be queued are
/// reported if there are any, and those that were queued are reported and monitored, unless there
/// are none.
pub open spec fn after_queueing<I>(m: TrackModel<I>, queued: Seq<QueuedText>) -> Option<
    (TrackModel<I>, StepText<I>),
> {
    let label = describe(m.track);
    let bad = refused(queued);
    let good = accepted(queued);
    let reported = if bad.len() == 0 {
        seq![EffectText::ReleasePermit]
    } else {
        seq![
            EffectText::ReleasePermit,
            EffectText::Progress { entries: entries_for(bad, m.batch_id, label) },
        ]
    };
    if good.len() == 0 {
        finishing(
            m,
            reported.push(
                EffectText::Failed {
                    batch_id: m.batch_id,
                    error: "All downloads failed to queue"@,
                },
            ),
        )
    } else {
        going(
            m,
            PhaseText::Monitoring,
            reported.push(EffectText::Downloading { batch_id: m.batch_id }).push(
                EffectText::Progress { entries: entries_for(good, m.batch_id, label) },
            ),
            ActionText::Monitor {
                sources: sources_of(good),
                filenames: items_of(good),
                batch_id: m.batch_id,
                batch_label: label,
            },
        )
    }
}

/// The next state and step of a track import after a reply, or nothing if the reply is not one to
/// its last action.
pub open spec fn track_next<I>(m: TrackModel<I>, reply: ReplyText<I>) -> Option<
    (TrackModel<I>, StepText<I>),
> {
    match (m.phase, reply) {
        (PhaseText::Starting, ReplyText::Cancelled(cancelled)) => if cancelled {
            finishing(m, seq![])
        } else {
            going(
                m,
                PhaseText::Ensuring,
                seq![],
                ActionText::EnsurePlaylist { name: m.track.playlist_name },
            )
        },
        (PhaseText::Ensuring, ReplyText::Playlist(playlist_id)) => going(
            TrackModel { playlist_id, ..m },
            PhaseText::Waiting,
            seq![],
            ActionText::AcquirePermit,
        ),
        (PhaseText::Waiting, ReplyText::Permit(granted)) => if granted {
            going(m, PhaseText::Granted, seq![], ActionText::CheckCancelled)
        } else {
            finishing(m, seq![])
        },
        (PhaseText::Granted, ReplyText::Cancelled(cancelled)) => if cancelled {
            finishing(m, seq![EffectText::ReleasePermit])
        } else {
            going(
                m,
                PhaseText::Probing,
                seq![
                    EffectText::Searching {
                        batch_id: m.batch_id,
                        query: describe(m.track),
                        backend_count: m.backend_count,
                    },
                ],
                ActionText::ProbeBackends,
            )
        },
        (PhaseText::Probing, ReplyText::Backends(available)) => if available == 0 {
            failing(m, "No download backends available"@)
        } else {
            going(
                m,
                PhaseText::Searching,
                seq![],
                ActionText::Search { track: search_for(m.track) },
            )
        },
        (PhaseText::Searching, ReplyText::Results(results)) => after_search(m, results),
        (PhaseText::CreatingFolder { items }, ReplyText::Folder(created)) => match created {
            Ok(_) => going(m, PhaseText::Opening { items }, seq![], ActionText::OpenBackend),
            Err(e) => failing(m, "Failed to create target directory: "@ + e),
        },
        (PhaseText::Opening { items }, ReplyText::Backend(opened)) => match opened {
            Ok(_) => going(m, PhaseText::Queueing, seq![], ActionText::Download { items }),
            Err(e) => failing(m, "Download backend not available: "@ + e),
        },
        (PhaseText::Queueing, ReplyText::Queued(queued)) => match queued {
            Ok(q) => after_queueing(m, q),
            Err(e) => failing(m, "Download queue failed: "@ + e),
        },
        (PhaseText::Monitoring, ReplyText::Monitored) => if m.playlist_id is Some {
            going(m, PhaseText::Imported, seq![], ActionText::CheckCancelled)
        } else {
            finishing(m, seq![])
        },
        (PhaseText::Imported, ReplyText::Cancelled(cancelled)) => if cancelled {
            finishing(m, seq![])
        } else {
            going(
                m,
                PhaseText::Settling,
                seq![],
                ActionText::Settle { delay_ms: POST_IMPORT_SETTLE_DELAY_MS },
            )
        },
        (PhaseText::Settling, ReplyText::Settled) => going(
            m,
            PhaseText::Locating,
            seq![],
            ActionText::FindSong,
        ),
        (PhaseText::Locating, ReplyText::Song(song)) => match (m.playlist_id, song) {
            (Some(playlist_id), Some(song_id)) => going(
                m,
                PhaseText::Updating,
                seq![],
                ActionText::UpdatePlaylist { playlist_id, song_ids: seq![song_id] },
            ),
            _ => finishing(m, seq![]),
        },
        (PhaseText::Updating, ReplyText::Updated) => finishing(m, seq![]),
        _ => None,
    }
}

impl<I> View for TrackPhase<I> {
    type V = PhaseText<I>;

    closed spec fn view(&self) -> PhaseText<I> {
        match *self {
            TrackPhase::Starting => PhaseText::Starting,
            TrackPhase::Ensuring => PhaseText::Ensuring,
            TrackPhase::Waiting => PhaseText::Waiting,
            TrackPhase::Granted => PhaseText::Granted,
            TrackPhase::Probing => PhaseText::Probing,
            TrackPhase::Searching => PhaseText::Searching,
            TrackPhase::CreatingFolder { items } => PhaseText::CreatingFolder { items: items@ },
            TrackPhase::Opening { items } => PhaseText::Opening { items: items@ },
            TrackPhase::Queueing => PhaseText::Queueing,
            TrackPhase::Monitoring => PhaseText::Monitoring,
            TrackPhase::Imported => PhaseText::Imported,
            TrackPhase::Settling => PhaseText::Settling,
            TrackPhase::Locating => PhaseText::Locating,
            TrackPhase::Updating => PhaseText::Updating,
            TrackPhase::Finished => PhaseText::Finished,
        }
    }
}

impl<I> View for TrackImport<I> {
    type V = TrackModel<I>;

    closed spec fn view(&self) -> TrackModel<I> {
        self.job.model(self.phase@)
    }
}

/// Names a track for messages.
pub fn track_label(track: &CsvTrackEntry) -> (label: String)
    ensures
        label@ == describe(track@),
{
    let mut label = track.artist.clone();
    label.append(" - ");
    label.append(track.track_name.as_str());
    label
}

/// Builds the search for a track.
pub fn search_track(track: &CsvTrackEntry) -> (search: SearchTrack)
    ensures
        search@ == search_for(track@),
{
    let mut id = "csv-import-".to_string();
    let row = decimal_text(track.row_index);
    id.append(row.as_str());
    let album_title = if track.album.as_str().is_empty() {
        None
    } else {
        Some(track.album.clone())
    };
    SearchTrack { id, title: track.track_name.clone(), artist: track.artist.clone(), album_title }
}

/// The queued downloads of a batch, sorted into those that failed and those that did not.
struct Partition {
    failed: Vec<ProgressEntry>,
    queued: Vec<ProgressEntry>,
    sources: Vec<String>,
    filenames: Vec<String>,
}

/// Builds the progress entry of a download.
fn progress_entry(d: &QueuedDownload, batch_id: &String, label: &String) -> (entry: ProgressEntry)
    ensures
        entry@ == entry_for(d@, batch_id@, label@),
{
    let state = match &d.error {
        Some(error) => ProgressState::Failed { error: error.clone() },
        None => ProgressState::Queued { size: d.size },
    };
    ProgressEntry {
        id: d.id.clone(),
        source: d.source.clone(),
        item: d.item.clone(),
        state,
        batch_id: batch_id.clone(),
        batch_label: label.clone(),
    }
}

/// Sorts the queued downloads into those that failed and those that did not.
fn partition(downloads: &Vec<QueuedDownload>, batch_id: &String, label: &String) -> (p: Partition)
    ensures
        entry_texts(p.failed@) == entries_for(refused(queued_texts(downloads@)), batch_id@, label@),
        entry_texts(p.queued@) == entries_for(accepted(queued_texts(downloads@)), batch_id@, label@),
        texts(p.sources@) == sources_of(accepted(queued_texts(downloads@))),
        texts(p.filenames@) == items_of(accepted(queued_texts(downloads@))),
{
    let mut failed: Vec<ProgressEntry> = Vec::new();
    let mut queued: Vec<ProgressEntry> = Vec::new();
    let mut sources: Vec<String> = Vec::new();
    let mut filenames: Vec<String> = Vec::new();
    let ghost all = queued_texts(downloads@);
    let mut i: usize = 0;
    proof {
        assert(all.take(0) =~= seq![]);
        assert(entry_texts(failed@) =~= entries_for(refused(all.take(0)), batch_id@, label@));
        assert(entry_texts(queued@) =~= entries_for(accepted(all.take(0)), batch_id@, label@));
        assert(texts(sources@) =~= sources_of(accepted(all.take(0))));
        assert(texts(filenames@) =~= items_of(accepted(all.take(0))));
    }
    while i < downloads.len()
        invariant
            i <= downloads.len(),
            all == queued_texts(downloads@),
            entry_texts(failed@) == entries_for(
                refused(all.take(i as int)),
                batch_id@,
                label@,
            ),
            entry_texts(queued@) == entries_for(
                accepted(all.take(i as int)),
                batch_id@,
                label@,
            ),
            texts(sources@) == sources_of(accepted(all.take(i as int))),
            texts(filenames@) == items_of(accepted(all.take(i as int))),
        decreases downloads.len() - i,
    {
        let d = &downloads[i];
        let ghost failed_before = failed@;
        let ghost queued_before = queued@;
        let ghost sources_before = sources@;
        let ghost filenames_before = filenames@;
        proof {
            assert(all.take(i + 1).drop_last() =~= all.take(i as int));
            assert(all.take(i + 1).last() == d@);
        }
        let entry = progress_entry(d, batch_id, label);
        if d.error.is_some() {
            failed.push(entry);
            proof {
                assert(entry_texts(failed@) =~= entry_texts(failed_before).push(entry@));
                assert(entry_texts(failed@) =~= entries_for(
                    refused(all.take(i + 1)),
                    batch_id@,
                    label@,
                ));
            }
        } else {
            queued.push(entry);
            sources.push(d.source.clone());
            filenames.push(d.item.clone());
            proof {
                assert(entry_texts(queued@) =~= entry_texts(queued_before).push(entry@));
                assert(entry_texts(queued@) =~= entries_for(
                    accepted(all.take(i + 1)),
                    batch_id@,
                    label@,
                ));
                assert(texts(sources@) =~= texts(sources_before).push(d.source@));
                assert(texts(sources@) =~= sources_of(accepted(all.take(i + 1))));
                assert(texts(filenames@) =~= texts(filenames_before).push(d.item@));
                assert(texts(filenames@) =~= items_of(accepted(all.take(i + 1))));
            }
        }
        i += 1;
    }
    proof {
        assert(all.take(i as int) =~= all);
    }
    Partition { failed, queued, sources, filenames }
}

impl TrackJob {
    /// The state of the import in a phase.
    spec fn model<I>(self, phase: PhaseText<I>) -> TrackModel<I> {
        TrackModel {
            track: self.track@,
            batch_id: self.batch_id@,
            backend_count: self.backend_count as nat,
            playlist_id: opt_text(self.playlist_id),
            phase,
        }
    }

    /// Goes on to a phase.
    fn go<I>(self, phase: TrackPhase<I>, effects: Vec<TrackEffect>, action: TrackAction<I>) -> (r: (
        TrackImport<I>,
        TrackStep<I>,
    ))
        ensures
            r.0@ == self.model(phase@),
            r.1@ == (StepText { effects: effect_texts(effects@), action: action@ }),
    {
        (TrackImport { job: self, phase }, TrackStep { effects, action })
    }

    /// Goes on to a phase without effects.
    fn proceed<I>(self, phase: TrackPhase<I>, action: TrackAction<I>) -> (r: (
        TrackImport<I>,
        TrackStep<I>,
    ))
        ensures
            r.0@ == self.model(phase@),
            r.1@ == (StepText { effects: seq![], action: action@ }),
    {
        let effects: Vec<TrackEffect> = Vec::new();
        proof {
            assert(effect_texts(effects@) =~= seq![]);
        }
        self.go(phase, effects, action)
    }

    /// Finishes with the given effects.
    fn finish<I>(self, effects: Vec<TrackEffect>) -> (r: (TrackImport<I>, TrackStep<I>))
        ensures
            finishing(self.model(PhaseText::<I>::Finished), effect_texts(effects@)) == Some(
                (r.0@, r.1@),
            ),
    {
        self.go(TrackPhase::Finished, effects, TrackAction::Finish)
    }

    /// Finishes without effects.
    fn stop<I>(self) -> (r: (TrackImport<I>, TrackStep<I>))
        ensures
            finishing(self.model(PhaseText::<I>::Finished), seq![]) == Some((r.0@, r.1@)),
    {
        self.proceed(TrackPhase::Finished, TrackAction::Finish)
    }

    /// Fails with the search permit in hand.
    fn fail<I>(self, error: String) -> (r: (TrackImport<I>, TrackStep<I>))
        ensures
            failing(self.model(PhaseText::<I>::Finished), error@) == Some((r.0@, r.1@)),
    {
        let mut effects: Vec<TrackEffect> = Vec::new();
        effects.push(TrackEffect::Failed { batch_id: self.batch_id.clone(), error });
        effects.push(TrackEffect::ReleasePermit);
        proof {
            assert(effect_texts(effects@) =~= seq![
                EffectText::Failed { batch_id: self.batch_id@, error: error@ },
                EffectText::ReleasePermit,
            ]);
        }
        self.finish(effects)
    }

    /// Fails with a message and its cause.
    fn fail_because<I>(self, message: &str, cause: String) -> (r: (TrackImport<I>, TrackStep<I>))
        ensures
            failing(self.model(PhaseText::<I>::Finished), message@ + cause@) == Some((r.0@, r.1@)),
    {
        let mut error = message.to_string();
        error.append(cause.as_str());
        self.fail(error)
    }

    /// Announces the search.
    fn announce<I>(self) -> (r: (TrackImport<I>, TrackStep<I>))
        ensures
            track_next(self.model(PhaseText::<I>::Granted), ReplyText::Cancelled(false)) == Some(
                (r.0@, r.1@),
            ),
    {
        let query = track_label(&self.track);
        let mut effects: Vec<TrackEffect> = Vec::new();
        effects.push(
            TrackEffect::Searching {
                batch_id: self.batch_id.clone(),
                query,
                backend_count: self.backend_count,
            },
        );
        proof {
            assert(effect_texts(effects@) =~= seq![
                EffectText::Searching {
                    batch_id: self.batch_id@,
                    query: describe(self.track@),
                    backend_count: self.backend_count as nat,
                },
            ]);
        }
        self.go(TrackPhase::Probing, effects, TrackAction::ProbeBackends)
    }

    /// Gives up with the search permit in hand, without a report.
    fn give_up<I>(self) -> (r: (TrackImport<I>, TrackStep<I>))
        ensures
            finishing(self.model(PhaseText::<I>::Finished), seq![EffectText::ReleasePermit]) == Some(
                (r.0@, r.1@),
            ),
    {
        let mut effects: Vec<TrackEffect> = Vec::new();
        effects.push(TrackEffect::ReleasePermit);
        proof {
            assert(effect_texts(effects@) =~= seq![EffectText::ReleasePermit]);
        }
        self.finish(effects)
    }

    /// Takes the search results.
    fn on_results<I>(self, results: Vec<Vec<DownloadGroup<I>>>) -> (r: (
        TrackImport<I>,
        TrackStep<I>,
    ))
        ensures
            after_search(self.model(PhaseText::<I>::Finished), result_texts(results@)) == Some((r.0@, r.1@)),
    {
        let mut groups = merge_results(results);
        let ghost all = group_texts(groups@);
        if groups.len() == 0 {
            return self.fail("No results found".to_string());
        }
        let count = groups.len();
        let best = best_group(&groups);
        let picked = groups.remove(best);
        proof {
            assert(all[best as int] == picked@);
        }
        let mut effects: Vec<TrackEffect> = Vec::new();
        effects.push(
            TrackEffect::ScoringResults {
                batch_id: self.batch_id.clone(),
                result_count: count,
                best_score: picked.score,
            },
        );
        let ghost scoring = EffectText::ScoringResults {
            batch_id: self.batch_id@,
            result_count: all.len(),
            best_score: picked.score,
        };
        if score_too_low(picked.score) {
            let label = track_label(&self.track);
            let mut error = "Best match score ".to_string();
            error.append(picked.score_text.as_str());
            error.append(" too low for '");
            error.append(label.as_str());
            error.append("'");
            effects.push(TrackEffect::Failed { batch_id: self.batch_id.clone(), error });
            effects.push(TrackEffect::ReleasePermit);
            proof {
                assert(effect_texts(effects@) =~= seq![
                    scoring,
                    EffectText::Failed { batch_id: self.batch_id@, error: error@ },
                    EffectText::ReleasePermit,
                ]);
            }
            self.finish(effects)
        } else {
            effects.push(
                TrackEffect::PickedSource {
                    batch_id: self.batch_id.clone(),
                    source: picked.source,
                    score: picked.score,
                    quality: picked.quality,
                    track_count: picked.items.len(),
                },
            );
            proof {
                assert(effect_texts(effects@) =~= seq![
                    scoring,
                    EffectText::PickedSource {
                        batch_id: self.batch_id@,
                        source: picked.source@,
                        score: picked.score,
                        quality: picked.quality@,
                        track_count: picked.items@.len(),
                    },
                ]);
            }
            self.go(
                TrackPhase::CreatingFolder { items: picked.items },
                effects,
                TrackAction::CreateFolder,
            )
        }
    }

    /// Takes the queued downloads.
    fn on_queued<I>(self, downloads: Vec<QueuedDownload>) -> (r: (TrackImport<I>, TrackStep<I>))
        ensures
            after_queueing(self.model(PhaseText::<I>::Finished), queued_texts(downloads@)) == Some((r.0@, r.1@)),
    {
        let label = track_label(&self.track);
        let p = partition(&downloads, &self.batch_id, &label);
        let ghost bad = refused(queued_texts(downloads@));
        let ghost good = accepted(queued_texts(downloads@));
        proof {
            assert(entry_texts(p.failed@).len() == bad.len());
            assert(entry_texts(p.queued@).len() == good.len());
        }
        let nothing_queued = p.queued.len() == 0;
        let mut effects: Vec<TrackEffect> = Vec::new();
        effects.push(TrackEffect::ReleasePermit);
        if p.failed.len() > 0 {
            effects.push(TrackEffect::Progress { entries: p.failed });
        }
        let ghost reported = if bad.len() == 0 {
            seq![EffectText::ReleasePermit]
        } else {
            seq![
                EffectText::ReleasePermit,
                EffectText::Progress { entries: entries_for(bad, self.batch_id@, label@) },
            ]
        };
        let ghost before = effects@;
        proof {
            assert(effect_texts(effects@) =~= reported);
        }
        if nothing_queued {
            effects.push(
                TrackEffect::Failed {
                    batch_id: self.batch_id.clone(),
                    error: "All downloads failed to queue".to_string(),
                },
            );
            proof {
                assert(effect_texts(effects@) =~= effect_texts(before).push(effects@.last()@));
            }
            return self.finish(effects);
        }
        effects.push(TrackEffect::Downloading { batch_id: self.batch_id.clone() });
        effects.push(TrackEffect::Progress { entries: p.queued });
        proof {
            assert(effect_texts(effects@) =~= reported.push(
                EffectText::Downloading { batch_id: self.batch_id@ },
            ).push(EffectText::Progress { entries: entries_for(good, self.batch_id@, label@) }));
        }
        let action = TrackAction::Monitor {
            sources: p.sources,
            filenames: p.filenames,
            batch_id: self.batch_id.clone(),
            batch_label: label,
        };
        self.go(TrackPhase::Monitoring, effects, action)
    }

    /// Takes the song that was found, if any.
    fn on_song<I>(self, song: Option<String>) -> (r: (TrackImport<I>, TrackStep<I>))
        ensures
            track_next(self.model(PhaseText::<I>::Locating), ReplyText::Song(opt_text(song))) == Some(
                (r.0@, r.1@),
            ),
    {
        match (&self.playlist_id, song) {
            (Some(id), Some(song_id)) => {
                let playlist_id = id.clone();
                let mut song_ids: Vec<String> = Vec::new();
                song_ids.push(song_id);
                proof {
                    assert(texts(song_ids@) =~= seq![song_id@]);
                }
                self.proceed(
                    TrackPhase::Updating,
                    TrackAction::UpdatePlaylist { playlist_id, song_ids },
                )
            },
            _ => self.stop(),
        }
    }
}

impl<I> TrackImport<I> {
    /// Starts the import of a track under a new random batch id, and says what is to be done first.
    pub fn new(track: CsvTrackEntry, backend_count: usize) -> (r: (TrackImport<I>, TrackStep<I>))
        ensures
            is_random_uuid(r.0@.batch_id),
            (r.0@, r.1@) == track_start::<I>(track@, r.0@.batch_id, backend_count as nat),
    {
        TrackImport::with_batch_id(track, new_batch_id(), backend_count)
    }

    /// Starts the import of a track under the given batch id, and says what is to be done first.
    pub fn with_batch_id(track: CsvTrackEntry, batch_id: String, backend_count: usize) -> (r: (
        TrackImport<I>,
        TrackStep<I>,
    ))
        ensures
            (r.0@, r.1@) == track_start::<I>(track@, batch_id@, backend_count as nat),
    {
        let job = TrackJob { track, batch_id, backend_count, playlist_id: None };
        job.proceed(TrackPhase::Starting, TrackAction::CheckCancelled)
    }

    /// Takes the reply to the last action, and says what is to be reported and done next. A reply
    /// that is not one to the last action is refused.
    pub fn advance(self, reply: TrackReply<I>) -> (r: Option<(TrackImport<I>, TrackStep<I>)>)
        ensures
            match r {
                Some(next) => track_next(self@, reply@) == Some((next.0@, next.1@)),
                None => track_next(self@, reply@) is None,
            },
    {
        let job = self.job;
        let next = match (self.phase, reply) {
            (TrackPhase::Starting, TrackReply::Cancelled(cancelled)) => {
                if cancelled {
                    job.stop()
                } else {
                    let name = job.track.playlist_name.clone();
                    job.proceed(TrackPhase::Ensuring, TrackAction::EnsurePlaylist { name })
                }
            },
            (TrackPhase::Ensuring, TrackReply::Playlist(playlist_id)) => {
                let job = TrackJob {
                    track: job.track,
                    batch_id: job.batch_id,
                    backend_count: job.backend_count,
                    playlist_id,
                };
                job.proceed(TrackPhase::Waiting, TrackAction::AcquirePermit)
            },
            (TrackPhase::Waiting, TrackReply::Permit(granted)) => {
                if granted {
                    job.proceed(TrackPhase::Granted, TrackAction::CheckCancelled)
                } else {
                    job.stop()
                }
            },
            (TrackPhase::Granted, TrackReply::Cancelled(cancelled)) => {
                if cancelled {
                    job.give_up()
                } else {
                    job.announce()
                }
            },
            (TrackPhase::Probing, TrackReply::Backends(available)) => {
                if available == 0 {
                    job.fail("No download backends available".to_string())
                } else {
                    let track = search_track(&job.track);
                    job.proceed(TrackPhase::Searching, TrackAction::Search { track })
                }
            },
            (TrackPhase::Searching, TrackReply::Results(results)) => job.on_results(results),
            (TrackPhase::CreatingFolder { items }, TrackReply::Folder(created)) => {
                match created {
                    Ok(_) => job.proceed(TrackPhase::Opening { items }, TrackAction::OpenBackend),
                    Err(e) => job.fail_because("Failed to create target directory: ", e),
                }
            },
            (TrackPhase::Opening { items }, TrackReply::Backend(opened)) => {
                match opened {
                    Ok(_) => job.proceed(TrackPhase::Queueing, TrackAction::Download { items }),
                    Err(e) => job.fail_because("Download backend not available: ", e),
                }
            },
            (TrackPhase::Queueing, TrackReply::Queued(queued)) => {
                match queued {
                    Ok(downloads) => job.on_queued(downloads),
                    Err(e) => job.fail_because("Download queue failed: ", e),
                }
            },
            (TrackPhase::Monitoring, TrackReply::Monitored) => {
                if job.playlist_id.is_some() {
                    job.proceed(TrackPhase::Imported, TrackAction::CheckCancelled)
                } else {
                    job.stop()
                }
            },
            (TrackPhase::Imported, TrackReply::Cancelled(cancelled)) => {
                if cancelled {
                    job.stop()
                } else {
                    job.proceed(
                        TrackPhase::Settling,
                        TrackAction::Settle { delay_ms: POST_IMPORT_SETTLE_DELAY_MS },
                    )
                }
            },
            (TrackPhase::Settling, TrackReply::Settled) => {
                job.proceed(TrackPhase::Locating, TrackAction::FindSong)
            },
            (TrackPhase::Locating, TrackReply::Song(song)) => job.on_song(song),
            (TrackPhase::Updating, TrackReply::Updated) => job.stop(),
            _ => {
                return None;
            },
        };
        Some(next)
    }
}

} // verus!
