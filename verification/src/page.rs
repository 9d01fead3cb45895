//! The import page: which of its states it is in, and what each of its sections shows.

use crate::batch::{CsvBatchImportRequest, CsvImportProgress, CsvTrackStatus};
use crate::csv::{copy_tracks, CsvParseResult, CsvTrackEntry};
use crate::text::{copy_strings, decimal, decimal_text, opt_text, split_lines, text_lines, texts};
use vstd::prelude::*;

verus! {

/// The state of the import page.
#[derive(Debug, Clone, PartialEq, Eq)]
pub enum ImportState {
    /// Waiting for user to upload a CSV
    Upload,
    /// CSV parsed, showing preview table
    Preview(CsvParseResult),
    /// Import in progress
    Importing,
    /// Import complete
    Done(CsvImportProgress),
    /// Error state
    Error(String),
}

/// Whether a state is the error state with the given message.
pub open spec fn is_error(state: ImportState, message: Seq<char>) -> bool {
    state matches ImportState::Error(m) && m@ == message
}

/// A message followed by its cause.
fn caused(message: &str, cause: &String) -> (text: String)
    ensures
        text@ == message@ + cause@,
{
    let mut text = message.to_string();
    text.append(cause.as_str());
    text
}

/// Whether `obstacle` is what stands in the way of parsing: content is needed, then a folder.
pub open spec fn obstructs(
    csv_content: Seq<char>,
    folder_path: Seq<char>,
    obstacle: Option<ImportState>,
) -> bool {
    match obstacle {
        Some(state) => if csv_content.len() == 0 {
            is_error(state, "No CSV content provided"@)
        } else {
            folder_path.len() == 0 && is_error(state, "Please select a target folder first"@)
        },
        None => csv_content.len() > 0 && folder_path.len() > 0,
    }
}

/// The state to go to when parsing is asked for, if it cannot begin: content and a target folder
/// are needed.
pub fn parse_obstacle(csv_content: &str, folder_path: &str) -> (obstacle: Option<ImportState>)
    ensures
        obstructs(csv_content@, folder_path@, obstacle),
{
    if csv_content.is_empty() {
        Some(ImportState::Error("No CSV content provided".to_string()))
    } else if folder_path.is_empty() {
        Some(ImportState::Error("Please select a target folder first".to_string()))
    } else {
        None
    }
}

/// The content after a file was picked: the text that was read, unless there is none or it is
/// empty; then the content is as before.
pub open spec fn content_after_pick(current: Seq<char>, read: Option<Seq<char>>) -> Seq<char> {
    match read {
        Some(text) if text.len() > 0 => text,
        _ => current,
    }
}

/// Takes the text of a picked file as the new content. Where no file was picked, it could not be
/// read or it is empty, the content stays.
pub fn picked_content(current: String, read: Option<String>) -> (content: String)
    ensures
        content@ == content_after_pick(current@, opt_text(read)),
{
    match read {
        Some(text) => {
            if text.as_str().is_empty() {
                current
            } else {
                text
            }
        },
        None => current,
    }
}

/// Whether `state` is where the outcome of parsing leads.
pub open spec fn parse_leads_to(
    outcome: Result<CsvParseResult, String>,
    state: ImportState,
) -> bool {
    match outcome {
        Ok(result) => if result.tracks@.len() == 0 {
            is_error(
                state,
                "No valid tracks found in CSV. Check the format: Track name, Artist name, Album name"@,
            )
        } else {
            state == ImportState::Preview(result)
        },
        Err(e) => is_error(state, "Failed to parse CSV: "@ + e@),
    }
}

/// The state to go to when parsing has ended: the preview, unless parsing failed or no track was
/// found.
pub fn after_parse(outcome: Result<CsvParseResult, String>) -> (state: ImportState)
    ensures
        parse_leads_to(outcome, state),
{
    match outcome {
        Ok(result) => {
            if result.tracks.len() == 0 {
                ImportState::Error(
                    "No valid tracks found in CSV. Check the format: Track name, Artist name, Album name".to_string(),
                )
            } else {
                ImportState::Preview(result)
            }
        },
        Err(e) => ImportState::Error(caused("Failed to parse CSV: ", &e)),
    }
}

/// The state to go to when the batch was handed over, or could not be.
pub fn after_import(outcome: Result<CsvImportProgress, String>) -> (state: ImportState)
    ensures
        match outcome {
            Ok(progress) => state == ImportState::Done(progress),
            Err(e) => is_error(state, "Import failed: "@ + e@),
        },
{
    match outcome {
        Ok(progress) => ImportState::Done(progress),
        Err(e) => ImportState::Error(caused("Import failed: ", &e)),
    }
}

/// The request to import all tracks of a preview into a folder.
pub fn import_request(
    result: &CsvParseResult,
    folder_id: String,
    folder_path: String,
) -> (request: CsvBatchImportRequest)
    ensures
        request.tracks@ == result.tracks@,
        request.folder_id == folder_id,
        request.folder_path == folder_path,
{
    CsvBatchImportRequest { tracks: copy_tracks(&result.tracks), folder_id, folder_path }
}

/// A library folder of the user.
#[derive(Debug, Clone, PartialEq, Eq)]
pub struct Folder {
    pub id: String,
    pub name: String,
    pub path: String,
}

/// What is known of the user's folders.
#[derive(Debug, Clone, PartialEq, Eq)]
pub enum FolderListing {
    Loading,
    Failed,
    Loaded(Vec<Folder>),
}

/// A folder that can be chosen.
#[derive(Debug, Clone, PartialEq, Eq)]
pub struct FolderChoice {
    pub id: String,
    pub name: String,
    pub path: String,
    /// Whether it is the chosen one
    pub selected: bool,
}

/// What the folder picker shows.
#[derive(Debug, Clone, PartialEq, Eq)]
pub enum FolderPanel {
    Loading,
    Failed,
    Empty,
    Choices(Vec<FolderChoice>),
}

/// The button that starts the parsing.
#[derive(Debug, Clone, PartialEq, Eq)]
pub struct ParseButton {
    pub label: String,
    pub disabled: bool,
}

/// What the upload section shows.
#[derive(Debug, Clone, PartialEq, Eq)]
pub struct UploadView {
    pub folders: FolderPanel,
    /// How many lines are loaded, once there is content
    pub loaded: Option<String>,
    /// The parse button, once there are content and a folder
    pub parse_button: Option<ParseButton>,
}

/// Whether a choice offers a folder, marked if its id is the chosen one.
pub open spec fn offers(choice: FolderChoice, folder: Folder, chosen: Seq<char>) -> bool {
    &&& choice.id == folder.id
    &&& choice.name == folder.name
    &&& choice.path == folder.path
    &&& choice.selected == (folder.id@ == chosen)
}

/// Whether the folder picker shows a listing.
pub open spec fn shows_folders(
    panel: FolderPanel,
    listing: FolderListing,
    chosen: Seq<char>,
) -> bool {
    match listing {
        FolderListing::Loading => panel is Loading,
        FolderListing::Failed => panel is Failed,
        FolderListing::Loaded(folders) => if folders@.len() == 0 {
            panel is Empty
        } else {
            panel matches FolderPanel::Choices(choices) && choices@.len() == folders@.len()
                && forall|i: int|
                0 <= i < folders@.len() ==> offers(#[trigger] choices@[i], folders@[i], chosen)
        },
    }
}

/// Builds the folder picker.
fn folder_panel(listing: &FolderListing, chosen: &String) -> (panel: FolderPanel)
    ensures
        shows_folders(panel, *listing, chosen@),
{
    match listing {
        FolderListing::Loading => FolderPanel::Loading,
        FolderListing::Failed => FolderPanel::Failed,
        FolderListing::Loaded(folders) => {
            if folders.len() == 0 {
                return FolderPanel::Empty;
            }
            let mut choices: Vec<FolderChoice> = Vec::new();
            let mut i: usize = 0;
            while i < folders.len()
                invariant
                    i <= folders.len(),
                    choices@.len() == i,
                    forall|k: int|
                        0 <= k < i ==> offers(#[trigger] choices@[k], folders@[k], chosen@),
                decreases folders.len() - i,
            {
                let f = &folders[i];
                choices.push(
                    FolderChoice {
                        id: f.id.clone(),
                        name: f.name.clone(),
                        path: f.path.clone(),
                        selected: f.id == *chosen,
                    },
                );
                i += 1;
            }
            FolderPanel::Choices(choices)
        },
    }
}

/// Whether the parse button shows whether parsing is under way.
pub open spec fn shows_parsing(button: ParseButton, parsing: bool) -> bool {
    &&& button.disabled == parsing
    &&& button.label@ == if parsing {
        "Parsing..."@
    } else {
        "Parse & Preview"@
    }
}

/// Whether `button` is the parse button to show: one once there are content and a folder.
pub open spec fn shows_button(
    csv_content: Seq<char>,
    folder_path: Seq<char>,
    button: Option<ParseButton>,
    parsing: bool,
) -> bool {
    match button {
        Some(b) => csv_content.len() > 0 && folder_path.len() > 0 && shows_parsing(b, parsing),
        None => csv_content.len() == 0 || folder_path.len() == 0,
    }
}

/// What the upload section shows: the folders, the number of lines once there is content, and the
/// parse button once there are content and a folder.
pub fn upload_view(
    csv_content: &str,
    folder_id: &String,
    folder_path: &str,
    folders: &FolderListing,
    parsing: bool,
) -> (view: UploadView)
    ensures
        shows_folders(view.folders, *folders, folder_id@),
        opt_text(view.loaded) == if csv_content@.len() == 0 {
            None
        } else {
            Some("✓ "@ + decimal(text_lines(csv_content@).len()) + " lines loaded"@)
        },
        shows_button(csv_content@, folder_path@, view.parse_button, parsing),
{
    let panel = folder_panel(folders, folder_id);
    let loaded = if csv_content.is_empty() {
        None
    } else {
        let lines = split_lines(csv_content);
        proof {
            assert(texts(lines@).len() == lines@.len());
        }
        let count = decimal_text(lines.len());
        let mut text = "✓ ".to_string();
        text.append(count.as_str());
        text.append(" lines loaded");
        Some(text)
    };
    let parse_button = if csv_content.is_empty() || folder_path.is_empty() {
        None
    } else {
        let label = if parsing {
            "Parsing...".to_string()
        } else {
            "Parse & Preview".to_string()
        };
        Some(ParseButton { label, disabled: parsing })
    };
    UploadView { folders: panel, loaded, parse_button }
}

/// A row of the preview table.
#[derive(Debug, Clone, PartialEq, Eq)]
pub struct PreviewRow {
    pub key: usize,
    pub number: usize,
    pub track_name: String,
    pub artist: String,
    pub album: String,
    /// The playlist, where the table has a column for it
    pub playlist_name: Option<String>,
}

/// What the preview section shows.
#[derive(Debug, Clone, PartialEq, Eq)]
pub struct PreviewView {
    pub heading: String,
    pub import_label: String,
    /// A warning, if rows were skipped
    pub skipped: Option<String>,
    /// The playlists; the table has a column for them unless there are none
    pub playlists: Vec<String>,
    pub rows: Vec<PreviewRow>,
}

/// Whether a row shows the track at `i`.
pub open spec fn shows_track(
    row: PreviewRow,
    track: CsvTrackEntry,
    i: int,
    with_playlist: bool,
) -> bool {
    &&& row.key == track.row_index
    &&& row.number == i + 1
    &&& row.track_name == track.track_name
    &&& row.artist == track.artist
    &&& row.album == track.album
    &&& row.playlist_name == if with_playlist {
        Some(track.playlist_name)
    } else {
        None
    }
}

/// What the preview section shows: the number of tracks, the number of skipped rows if there are
/// any, the playlists, and each track with its number from one on.
pub fn preview_view(result: &CsvParseResult) -> (view: PreviewView)
    ensures
        view.heading@ == "Preview ("@ + decimal(result.tracks@.len()) + " tracks)"@,
        view.import_label@ == "Import All "@ + decimal(result.tracks@.len()) + " Tracks"@,
        opt_text(view.skipped) == if result.skipped_rows > 0 {
            Some(
                "⚠ "@ + decimal(result.skipped_rows as nat)
                    + " rows skipped (missing track name or artist)"@,
            )
        } else {
            None
        },
        view.playlists@ == result.playlists@,
        view.rows@.len() == result.tracks@.len(),
        forall|i: int|
            0 <= i < result.tracks@.len() ==> shows_track(
                #[trigger] view.rows@[i],
                result.tracks@[i],
                i,
                result.playlists@.len() > 0,
            ),
{
    let count = decimal_text(result.tracks.len());
    let mut heading = "Preview (".to_string();
    heading.append(count.as_str());
    heading.append(" tracks)");
    let mut import_label = "Import All ".to_string();
    import_label.append(count.as_str());
    import_label.append(" Tracks");
    let skipped = if result.skipped_rows > 0 {
        let skipped_count = decimal_text(result.skipped_rows);
        let mut text = "⚠ ".to_string();
        text.append(skipped_count.as_str());
        text.append(" rows skipped (missing track name or artist)");
        Some(text)
    } else {
        None
    };
    let with_playlist = result.playlists.len() > 0;
    let mut rows: Vec<PreviewRow> = Vec::new();
    let mut i: usize = 0;
    while i < result.tracks.len()
        invariant
            i <= result.tracks.len(),
            rows@.len() == i,
            with_playlist == (result.playlists@.len() > 0),
            forall|k: int|
                0 <= k < i ==> shows_track(
                    #[trigger] rows@[k],
                    result.tracks@[k],
                    k,
                    with_playlist,
                ),
        decreases result.tracks.len() - i,
    {
        let t = &result.tracks[i];
        let playlist_name = if with_playlist {
            Some(t.playlist_name.clone())
        } else {
            None
        };
        rows.push(
            PreviewRow {
                key: t.row_index,
                number: i + 1,
                track_name: t.track_name.clone(),
                artist: t.artist.clone(),
                album: t.album.clone(),
                playlist_name,
            },
        );
        i += 1;
    }
    PreviewView {
        heading,
        import_label,
        skipped,
        playlists: copy_strings(&result.playlists),
        rows,
    }
}

/// A row of the results table.
#[derive(Debug, Clone, PartialEq, Eq)]
pub struct DoneRow {
    pub key: usize,
    pub track_name: String,
    pub artist: String,
    pub status: String,
    /// The error of a failed track
    pub error: Option<String>,
}

/// What the section that follows an import shows.
#[derive(Debug, Clone, PartialEq, Eq)]
pub struct DoneView {
    pub summary: String,
    pub playlists: Vec<String>,
    pub rows: Vec<DoneRow>,
}

/// The label of a status.
pub open spec fn status_text(status: CsvTrackStatus) -> Seq<char> {
    match status {
        CsvTrackStatus::Accepted { batch_id } => "✓ Queued"@,
        CsvTrackStatus::Failed { error } => "✗ Failed"@,
        CsvTrackStatus::Searching => "⏳ Searching"@,
        CsvTrackStatus::Pending => "⏳ Pending"@,
    }
}

/// The label of a status.
pub fn status_label(status: &CsvTrackStatus) -> (label: String)
    ensures
        label@ == status_text(*status),
{
    match status {
        CsvTrackStatus::Accepted { batch_id: _ } => "✓ Queued".to_string(),
        CsvTrackStatus::Failed { error: _ } => "✗ Failed".to_string(),
        CsvTrackStatus::Searching => "⏳ Searching".to_string(),
        CsvTrackStatus::Pending => "⏳ Pending".to_string(),
    }
}

/// Whether a row shows a track and its status.
pub open spec fn shows_status(
    row: DoneRow,
    track: CsvTrackEntry,
    status: CsvTrackStatus,
) -> bool {
    &&& row.key == track.row_index
    &&& row.track_name == track.track_name
    &&& row.artist == track.artist
    &&& row.status@ == status_text(status)
    &&& row.error == match status {
        CsvTrackStatus::Failed { error } => Some(error),
        _ => None,
    }
}

/// What the section that follows an import shows: the number of tracks, the playlists, and each
/// track with its status.
pub fn done_view(progress: &CsvImportProgress) -> (view: DoneView)
    ensures
        view.summary@ == decimal(progress.total as nat) + " tracks queued for search & download"@,
        view.playlists@ == progress.playlists@,
        view.rows@.len() == progress.statuses@.len(),
        forall|i: int|
            0 <= i < progress.statuses@.len() ==> shows_status(
                #[trigger] view.rows@[i],
                progress.statuses@[i].0,
                progress.statuses@[i].1,
            ),
{
    let mut summary = decimal_text(progress.total);
    summary.append(" tracks queued for search & download");
    let mut rows: Vec<DoneRow> = Vec::new();
    let mut i: usize = 0;
    while i < progress.statuses.len()
        invariant
            i <= progress.statuses.len(),
            rows@.len() == i,
            forall|k: int|
                0 <= k < i ==> shows_status(
                    #[trigger] rows@[k],
                    progress.statuses@[k].0,
                    progress.statuses@[k].1,
                ),
        decreases progress.statuses.len() - i,
    {
        let t = &progress.statuses[i].0;
        let status = &progress.statuses[i].1;
        let error = match status {
            CsvTrackStatus::Failed { error } => Some(error.clone()),
            _ => None,
        };
        rows.push(
            DoneRow {
                key: t.row_index,
                track_name: t.track_name.clone(),
                artist: t.artist.clone(),
                status: status_label(status),
                error,
            },
        );
        i += 1;
    }
    DoneView { summary, playlists: copy_strings(&progress.playlists), rows }
}

/// A preview is of what was parsed, and always has a track to import.
pub proof fn law_preview_has_tracks(
    outcome: Result<CsvParseResult, String>,
    state: ImportState,
    shown: CsvParseResult,
)
    requires
        parse_leads_to(outcome, state),
        state == ImportState::Preview(shown),
    ensures
        shown.tracks@.len() > 0,
        outcome == Ok::<CsvParseResult, String>(shown),
{
}

/// A picked file replaces the content only by a text that is not empty; without such a text (no
/// file, an empty one, one that could not be read) the content is unchanged. With the content that
/// results, the parse button is shown exactly if there are content and a folder, and is disabled
/// exactly while parsing; so picking a file never takes a shown button away.
pub proof fn law_picking_keeps_parse_button(
    current: Seq<char>,
    read: Option<Seq<char>>,
    folder_path: Seq<char>,
    before: Option<ParseButton>,
    after: Option<ParseButton>,
    parsing: bool,
)
    requires
        shows_button(current, folder_path, before, parsing),
        shows_button(content_after_pick(current, read), folder_path, after, parsing),
    ensures
        read is Some && (read->0).len() > 0 ==> content_after_pick(current, read) == read->0,
        read is None || (read->0).len() == 0 ==> content_after_pick(current, read) == current,
        after is Some <==> content_after_pick(current, read).len() > 0 && folder_path.len() > 0,
        after is Some ==> ((after->0).disabled <==> parsing),
        before is Some ==> after is Some,
{
}

/// The parse button is shown exactly if parsing can begin.
pub proof fn law_button_means_parse_can_begin(
    csv_content: Seq<char>,
    folder_path: Seq<char>,
    obstacle: Option<ImportState>,
    parse_button: Option<ParseButton>,
    parsing: bool,
)
    requires
        obstructs(csv_content, folder_path, obstacle),
        shows_button(csv_content, folder_path, parse_button, parsing),
    ensures
        parse_button is Some <==> obstacle is None,
{
}

/// Parsing is turned down exactly for want of content or of a folder, and says which; content is
/// looked at first.
pub proof fn law_obstacle_names_what_is_missing(
    csv_content: Seq<char>,
    folder_path: Seq<char>,
    obstacle: Option<ImportState>,
)
    requires
        obstructs(csv_content, folder_path, obstacle),
    ensures
        obstacle is None <==> csv_content.len() > 0 && folder_path.len() > 0,
        csv_content.len() == 0 ==> obstacle is Some && obstacle->0 is Error && (
        obstacle->0)->Error_0@ == "No CSV content provided"@,
        csv_content.len() > 0 && folder_path.len() == 0 ==> obstacle is Some && obstacle->0 is Error
            && (obstacle->0)->Error_0@ == "Please select a target folder first"@,
{
}

/// Whatever was parsed is previewed whole, provided that it holds a track; otherwise the page shows
/// an error, which for a parse that failed repeats its cause.
pub proof fn law_parsed_tracks_are_previewed(
    outcome: Result<CsvParseResult, String>,
    state: ImportState,
)
    requires
        parse_leads_to(outcome, state),
    ensures
        state is Preview <==> outcome is Ok && (outcome->Ok_0).tracks@.len() > 0,
        state is Preview ==> state->Preview_0 == outcome->Ok_0,
        state !is Preview ==> state is Error,
        outcome matches Err(cause) ==> state is Error && state->Error_0@ == "Failed to parse CSV: "@
            + cause@,
        outcome is Ok && (outcome->Ok_0).tracks@.len() == 0 ==> state->Error_0@
            == "No valid tracks found in CSV. Check the format: Track name, Artist name, Album name"@,
{
}

/// The folder picker offers the folders that were loaded, each once and in order, with nothing but
/// the one with the chosen id marked; without folders, before they are loaded and if they cannot be,
/// it offers none.
pub proof fn law_picker_offers_the_folders(
    panel: FolderPanel,
    listing: FolderListing,
    chosen: Seq<char>,
)
    requires
        shows_folders(panel, listing, chosen),
    ensures
        panel is Choices <==> listing is Loaded && (listing->Loaded_0)@.len() > 0,
        panel is Loading <==> listing is Loading,
        panel is Failed <==> listing is Failed,
        panel is Choices ==> {
            let choices = (panel->Choices_0)@;
            let folders = (listing->Loaded_0)@;
            &&& choices.len() == folders.len()
            &&& forall|i: int|
                0 <= i < folders.len() ==> {
                    let c = #[trigger] choices[i];
                    &&& c.id@ == folders[i].id@ && c.name@ == folders[i].name@ && c.path@
                        == folders[i].path@
                    &&& c.selected <==> folders[i].id@ == chosen
                }
        },
{
}

/// A row of the preview shows its track field by field, under its number from one on and the key of
/// its row, and the playlist exactly if the table has a column for it.
pub proof fn law_preview_row_shows_its_track(
    row: PreviewRow,
    track: CsvTrackEntry,
    i: int,
    with_playlist: bool,
)
    requires
        shows_track(row, track, i, with_playlist),
    ensures
        row.number == i + 1,
        row.key == track.row_index,
        row.track_name@ == track.track_name@,
        row.artist@ == track.artist@,
        row.album@ == track.album@,
        row.playlist_name is Some <==> with_playlist,
        row.playlist_name matches Some(name) ==> name@ == track.playlist_name@,
{
}

/// A row of the results shows its track and its status, and an error exactly if the track failed.
/// Different statuses have different labels.
pub proof fn law_result_row_shows_its_status(
    row: DoneRow,
    track: CsvTrackEntry,
    status: CsvTrackStatus,
)
    requires
        shows_status(row, track, status),
    ensures
        row.key == track.row_index,
        row.track_name@ == track.track_name@,
        row.artist@ == track.artist@,
        row.error is Some <==> status is Failed,
        status matches CsvTrackStatus::Failed { error } ==> (row.error->0)@ == error@,
        status is Accepted <==> row.status@ == "✓ Queued"@,
        status is Failed <==> row.status@ == "✗ Failed"@,
        status is Searching <==> row.status@ == "⏳ Searching"@,
        status is Pending <==> row.status@ == "⏳ Pending"@,
{
    reveal_strlit("✓ Queued");
    reveal_strlit("✗ Failed");
    reveal_strlit("⏳ Searching");
    reveal_strlit("⏳ Pending");
    assert("✓ Queued"@[0] != "✗ Failed"@[0]);
    assert("✓ Queued"@[0] != "⏳ Searching"@[0]);
    assert("✗ Failed"@[0] != "⏳ Searching"@[0]);
    assert("⏳ Searching"@[2] != "⏳ Pending"@[2]);
    assert("✓ Queued"@[0] != "⏳ Pending"@[0]);
    assert("✗ Failed"@[0] != "⏳ Pending"@[0]);
}

} // verus!
