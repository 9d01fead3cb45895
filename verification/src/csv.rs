//! The TuneMyMusic CSV format: `Track name,Artist name,Album name,Playlist name`, one track a line.

use crate::text::{
    chars_of, contains, has_part, lowercase_of, split_lines, text_lines, texts, to_lowercase, trim,
    trimmed,
};
use vstd::prelude::*;

verus! {

/// A single track parsed from a TuneMyMusic CSV export.
#[derive(Debug, PartialEq, Eq)]
pub struct CsvTrackEntry {
    pub track_name: String,
    pub artist: String,
    pub album: String,
    /// Playlist name from column 4 (may be empty if not present)
    pub playlist_name: String,
    /// Row index from the original CSV (for UI display)
    pub row_index: usize,
}

/// What a track entry says, in texts and numbers.
pub struct TrackText {
    pub track_name: Seq<char>,
    pub artist: Seq<char>,
    pub album: Seq<char>,
    pub playlist_name: Seq<char>,
    pub row_index: nat,
}

impl View for CsvTrackEntry {
    type V = TrackText;

    open spec fn view(&self) -> TrackText {
        TrackText {
            track_name: self.track_name@,
            artist: self.artist@,
            album: self.album@,
            playlist_name: self.playlist_name@,
            row_index: self.row_index as nat,
        }
    }
}

impl Clone for CsvTrackEntry {
    fn clone(&self) -> (copy: Self)
        ensures
            copy == *self,
    {
        CsvTrackEntry {
            track_name: self.track_name.clone(),
            artist: self.artist.clone(),
            album: self.album.clone(),
            playlist_name: self.playlist_name.clone(),
            row_index: self.row_index,
        }
    }
}

/// What a sequence of track entries says.
pub open spec fn track_texts(tracks: Seq<CsvTrackEntry>) -> Seq<TrackText> {
    tracks.map_values(|t: CsvTrackEntry| t@)
}

/// A list of track entries, copied entry by entry.
pub fn copy_tracks(tracks: &Vec<CsvTrackEntry>) -> (copy: Vec<CsvTrackEntry>)
    ensures
        copy@ == tracks@,
{
    let mut copy: Vec<CsvTrackEntry> = Vec::new();
    let mut i: usize = 0;
    while i < tracks.len()
        invariant
            i <= tracks.len(),
            copy@ == tracks@.take(i as int),
        decreases tracks.len() - i,
    {
        copy.push(tracks[i].clone());
        i += 1;
    }
    proof {
        assert(tracks@.take(i as int) =~= tracks@);
    }
    copy
}

/// Result of parsing a CSV, returned to the UI for preview before import.
#[derive(Debug, Clone, PartialEq, Eq)]
pub struct CsvParseResult {
    pub tracks: Vec<CsvTrackEntry>,
    /// Unique playlist names found in the CSV
    pub playlists: Vec<String>,
    pub total_rows: usize,
    pub skipped_rows: usize,
}

/// What a parse result says.
pub struct ParsedCsv {
    pub tracks: Seq<TrackText>,
    pub playlists: Seq<Seq<char>>,
    pub total_rows: nat,
    pub skipped_rows: nat,
}

impl View for CsvParseResult {
    type V = ParsedCsv;

    open spec fn view(&self) -> ParsedCsv {
        ParsedCsv {
            tracks: track_texts(self.tracks@),
            playlists: texts(self.playlists@),
            total_rows: self.total_rows as nat,
            skipped_rows: self.skipped_rows as nat,
        }
    }
}

/// Why a request was turned down.
#[derive(Debug, Clone, Copy, PartialEq, Eq, Structural)]
pub enum CsvImportError {
    /// The CSV text holds no line at all.
    EmptyCsv,
    /// No download backend is configured.
    NoBackends,
}

impl CsvImportError {
    /// The message that the caller is given.
    pub open spec fn text(self) -> Seq<char> {
        match self {
            CsvImportError::EmptyCsv => "CSV file is empty"@,
            CsvImportError::NoBackends => "No download backends available"@,
        }
    }

    /// The message that the caller is given.
    pub fn message(&self) -> (message: String)
        ensures
            message@ == self.text(),
    {
        match self {
            CsvImportError::EmptyCsv => "CSV file is empty".to_string(),
            CsvImportError::NoBackends => "No download backends available".to_string(),
        }
    }
}

/// The fields of the rest of a line, given what the current field holds so far and whether it
/// stands inside quotes. Inside quotes a doubled quote is a quote and a single one closes; outside,
/// a quote opens only at the start of a field, and a comma ends the field.
pub open spec fn csv_fields(rest: Seq<char>, current: Seq<char>, in_quotes: bool) -> Seq<Seq<char>>
    decreases rest.len(),
{
    if rest.len() == 0 {
        seq![current]
    } else {
        let c = rest.first();
        let tail = rest.drop_first();
        if in_quotes && c == '"' {
            if tail.len() > 0 && tail.first() == '"' {
                csv_fields(tail.drop_first(), current.push('"'), true)
            } else {
                csv_fields(tail, current, false)
            }
        } else if !in_quotes && c == '"' && current.len() == 0 {
            csv_fields(tail, current, true)
        } else if !in_quotes && c == ',' {
            seq![current] + csv_fields(tail, seq![], false)
        } else {
            csv_fields(tail, current.push(c), in_quotes)
        }
    }
}

/// The fields of a line.
pub open spec fn line_fields(line: Seq<char>) -> Seq<Seq<char>> {
    csv_fields(line, seq![], false)
}

/// Parse a single CSV line, handling quoted fields properly.
pub fn parse_csv_line(line: &str) -> (fields: Vec<String>)
    ensures
        texts(fields@) == line_fields(line@),
        fields.len() >= 1,
{
    let chars = chars_of(line);
    let mut fields: Vec<String> = Vec::new();
    let mut current = String::new();
    let mut in_quotes: bool = false;
    let mut i: usize = 0;
    proof {
        assert(chars@.skip(0) =~= chars@);
        assert(current@ =~= seq![]);
        assert(texts(fields@) + line_fields(chars@) =~= line_fields(chars@));
    }
    while i < chars.len()
        invariant
            i <= chars.len(),
            texts(fields@) + csv_fields(chars@.skip(i as int), current@, in_quotes) == line_fields(
                chars@,
            ),
        decreases chars.len() - i,
    {
        let c = chars[i];
        let ghost rest = chars@.skip(i as int);
        proof {
            assert(rest.drop_first() =~= chars@.skip(i + 1));
        }
        if c == '"' && in_quotes {
            if i + 1 < chars.len() && chars[i + 1] == '"' {
                current.push('"');
                proof {
                    assert(rest.drop_first().drop_first() =~= chars@.skip(i + 2));
                }
                i += 1;
            } else {
                in_quotes = false;
            }
        } else if c == '"' && !in_quotes && current.as_str().is_empty() {
            in_quotes = true;
        } else if c == ',' && !in_quotes {
            let ghost before = fields@;
            fields.push(current);
            current = String::new();
            proof {
                assert(current@ =~= seq![]);
                assert(texts(fields@) =~= texts(before).push(fields@.last()@));
                assert(texts(fields@) + csv_fields(chars@.skip(i + 1), seq![], false) =~= texts(
                    before,
                ) + csv_fields(rest, fields@.last()@, false));
            }
        } else {
            current.push(c);
        }
        i += 1;
    }
    let ghost before = fields@;
    fields.push(current);
    proof {
        assert(csv_fields(chars@.skip(i as int), fields@.last()@, in_quotes) =~= seq![
            fields@.last()@,
        ]);
        assert(texts(fields@) =~= texts(before) + seq![fields@.last()@]);
    }
    fields
}

/// Whether a lowercased line names columns of the format.
pub open spec fn names_columns(lower: Seq<char>) -> bool {
    ||| has_part(lower, "track name"@)
    ||| has_part(lower, "artist name"@)
    ||| has_part(lower, "album name"@)
    ||| has_part(lower, "playlist"@)
    ||| has_part(lower, "artist"@) && (has_part(lower, "track"@) || has_part(lower, "song"@)
        || has_part(lower, "title"@))
}

/// Whether a lowercased line names columns of the format.
pub fn lower_names_columns(lower: &str) -> (r: bool)
    ensures
        r == names_columns(lower@),
{
    contains(lower, "track name") || contains(lower, "artist name") || contains(lower, "album name")
        || contains(lower, "playlist") || (contains(lower, "track") && contains(lower, "artist"))
        || (contains(lower, "song") && contains(lower, "artist")) || (contains(lower, "title")
        && contains(lower, "artist"))
}

/// Heuristic to detect a header row: the lowercased line names columns of the format.
pub fn looks_like_header(line: &str) -> (r: bool)
    ensures
        r == names_columns(lowercase_of(line@)),
{
    let lower = to_lowercase(line);
    lower_names_columns(lower.as_str())
}

/// The track that a row of fields describes: the first three fields are required, the track name
/// and the artist must not be blank, and a missing fourth field is an empty playlist name.
pub open spec fn entry_of(fields: Seq<Seq<char>>, row: nat) -> Option<TrackText> {
    if fields.len() < 3 || trimmed(fields[0]).len() == 0 || trimmed(fields[1]).len() == 0 {
        None
    } else {
        Some(
            TrackText {
                track_name: trimmed(fields[0]),
                artist: trimmed(fields[1]),
                album: trimmed(fields[2]),
                playlist_name: if fields.len() > 3 {
                    trimmed(fields[3])
                } else {
                    seq![]
                },
                row_index: row,
            },
        )
    }
}

/// Reads the track that a row of fields describes.
pub fn row_entry(fields: &Vec<String>, row: usize) -> (entry: Option<CsvTrackEntry>)
    ensures
        match entry {
            Some(e) => entry_of(texts(fields@), row as nat) == Some(e@),
            None => entry_of(texts(fields@), row as nat) is None,
        },
{
    if fields.len() < 3 {
        return None;
    }
    let track_name = trim(fields[0].as_str());
    let artist = trim(fields[1].as_str());
    let album = trim(fields[2].as_str());
    let playlist_name = if fields.len() > 3 {
        trim(fields[3].as_str())
    } else {
        String::new()
    };
    if track_name.as_str().is_empty() || artist.as_str().is_empty() {
        return None;
    }
    proof {
        if fields.len() == 3 {
            assert(playlist_name@ =~= seq![]);
        }
    }
    Some(CsvTrackEntry { track_name, artist, album, playlist_name, row_index: row })
}

/// The tracks of the lines from `from` up to, not including, `to`, in order, each with the index of
/// its line.
pub open spec fn row_entries(lines: Seq<Seq<char>>, from: int, to: int) -> Seq<TrackText>
    decreases to - from,
{
    if to <= from {
        seq![]
    } else {
        let before = row_entries(lines, from, to - 1);
        match entry_of(line_fields(lines[to - 1]), (to - 1) as nat) {
            Some(entry) => before.push(entry),
            None => before,
        }
    }
}

/// The playlist names of the tracks that have one, each once, in order of first appearance.
pub open spec fn playlist_names(tracks: Seq<TrackText>) -> Seq<Seq<char>>
    decreases tracks.len(),
{
    if tracks.len() == 0 {
        seq![]
    } else {
        let before = playlist_names(tracks.drop_last());
        let name = tracks.last().playlist_name;
        if name.len() > 0 && !before.contains(name) {
            before.push(name)
        } else {
            before
        }
    }
}

/// Whether a list of strings holds the given text.
pub fn has_text(list: &Vec<String>, text: &String) -> (r: bool)
    ensures
        r == texts(list@).contains(text@),
{
    let mut i: usize = 0;
    while i < list.len()
        invariant
            i <= list.len(),
            forall|k: int| 0 <= k < i ==> list@[k]@ != text@,
        decreases list.len() - i,
    {
        if list[i] == *text {
            proof {
                assert(texts(list@)[i as int] == text@);
            }
            return true;
        }
        i += 1;
    }
    proof {
        assert forall|k: int| 0 <= k < texts(list@).len() implies texts(list@)[k] != text@ by {
            assert(texts(list@)[k] == list@[k]@);
        }
    }
    false
}

/// Collects the unique playlist names, preserving the order of first appearance.
pub fn unique_playlists(tracks: &Vec<CsvTrackEntry>) -> (names: Vec<String>)
    ensures
        texts(names@) == playlist_names(track_texts(tracks@)),
{
    let mut names: Vec<String> = Vec::new();
    let mut i: usize = 0;
    proof {
        assert(texts(names@) =~= seq![]);
    }
    while i < tracks.len()
        invariant
            i <= tracks.len(),
            texts(names@) == playlist_names(track_texts(tracks@).take(i as int)),
        decreases tracks.len() - i,
    {
        let ghost seen = names@;
        let ghost all = track_texts(tracks@);
        proof {
            assert(all.take(i + 1).drop_last() =~= all.take(i as int));
            assert(all.take(i + 1).last() == tracks@[i as int]@);
        }
        let name = &tracks[i].playlist_name;
        if !name.as_str().is_empty() && !has_text(&names, name) {
            names.push(name.clone());
            proof {
                assert(texts(names@) =~= texts(seen).push(name@));
            }
        }
        i += 1;
    }
    proof {
        assert(track_texts(tracks@).take(i as int) =~= track_texts(tracks@));
    }
    names
}

/// What the lines from `start` on say.
pub open spec fn parsed(lines: Seq<Seq<char>>, start: int) -> ParsedCsv {
    let tracks = row_entries(lines, start, lines.len() as int);
    ParsedCsv {
        tracks,
        playlists: playlist_names(tracks),
        total_rows: (lines.len() - start) as nat,
        skipped_rows: (lines.len() - start - tracks.len()) as nat,
    }
}

/// There are at most as many tracks as rows.
pub proof fn lemma_row_entries_len(lines: Seq<Seq<char>>, from: int, to: int)
    requires
        0 <= from <= to,
    ensures
        row_entries(lines, from, to).len() <= to - from,
    decreases to - from,
{
    if from < to {
        lemma_row_entries_len(lines, from, to - 1);
    }
}

/// Reads the rows from `start_idx` on.
pub fn parse_rows(lines: &Vec<String>, start_idx: usize) -> (result: CsvParseResult)
    requires
        start_idx <= lines.len(),
    ensures
        result@ == parsed(texts(lines@), start_idx as int),
{
    let mut tracks: Vec<CsvTrackEntry> = Vec::new();
    let mut skipped: usize = 0;
    let mut i: usize = start_idx;
    proof {
        assert(track_texts(tracks@) =~= seq![]);
    }
    while i < lines.len()
        invariant
            start_idx <= i <= lines.len(),
            track_texts(tracks@) == row_entries(texts(lines@), start_idx as int, i as int),
            tracks.len() + skipped == i - start_idx,
        decreases lines.len() - i,
    {
        let fields = parse_csv_line(lines[i].as_str());
        let ghost before = tracks@;
        match row_entry(&fields, i) {
            Some(entry) => {
                tracks.push(entry);
                proof {
                    assert(track_texts(tracks@) =~= track_texts(before).push(entry@));
                }
            },
            None => {
                skipped += 1;
            },
        }
        i += 1;
    }
    let total_rows: usize = lines.len() - start_idx;
    let playlists = unique_playlists(&tracks);
    CsvParseResult { tracks, playlists, total_rows, skipped_rows: skipped }
}

/// How many rows the header takes: one if the first line looks like a header.
pub open spec fn header_rows(lines: Seq<Seq<char>>) -> int {
    if names_columns(lowercase_of(lines.first())) {
        1
    } else {
        0
    }
}

/// What a CSV text says.
pub open spec fn parsed_text(text: Seq<char>) -> ParsedCsv {
    let lines = text_lines(text);
    parsed(lines, header_rows(lines))
}

/// Parse a TuneMyMusic CSV and return structured track data.
///
/// TuneMyMusic CSV format (comma-separated): `Track name,Artist name,Album name,Playlist name`.
/// The first row is skipped if it looks like a header. A row without a track name or an artist, or
/// with fewer than three columns, is skipped and counted. An empty text is an error.
pub fn parse_csv(csv_content: String) -> (result: Result<CsvParseResult, CsvImportError>)
    ensures
        match result {
            Ok(r) => csv_content@.len() > 0 && r@ == parsed_text(csv_content@),
            Err(e) => csv_content@.len() == 0 && e == CsvImportError::EmptyCsv,
        },
{
    let lines = split_lines(csv_content.as_str());
    proof {
        crate::text::lemma_line_end(csv_content@, 0);
        assert(texts(lines@).len() == lines@.len());
    }
    if lines.len() == 0 {
        return Err(CsvImportError::EmptyCsv);
    }
    let start_idx: usize = if looks_like_header(lines[0].as_str()) {
        1
    } else {
        0
    };
    proof {
        assert(texts(lines@).first() == lines@[0]@);
    }
    Ok(parse_rows(&lines, start_idx))
}

} // verus!
