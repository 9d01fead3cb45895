use csv_import::csv::{
    copy_tracks, has_text, lower_names_columns, looks_like_header, parse_csv, parse_csv_line,
    parse_rows, row_entry, unique_playlists, CsvImportError, CsvTrackEntry,
};

fn track(name: &str, artist: &str, album: &str, playlist: &str, row: usize) -> CsvTrackEntry {
    CsvTrackEntry {
        track_name: name.to_string(),
        artist: artist.to_string(),
        album: album.to_string(),
        playlist_name: playlist.to_string(),
        row_index: row,
    }
}

fn strings(list: &[&str]) -> Vec<String> {
    list.iter().map(|s| s.to_string()).collect()
}

#[test]
fn plain_fields_are_split_at_commas() {
    assert_eq!(parse_csv_line("a,b,c"), strings(&["a", "b", "c"]));
    assert_eq!(parse_csv_line(""), strings(&[""]));
    assert_eq!(parse_csv_line(","), strings(&["", ""]));
    assert_eq!(parse_csv_line("a,,c,"), strings(&["a", "", "c", ""]));
}

#[test]
fn quoted_fields_keep_commas() {
    assert_eq!(
        parse_csv_line("\"Hello, Goodbye\",The Beatles,\"1967, again\""),
        strings(&["Hello, Goodbye", "The Beatles", "1967, again"])
    );
}

#[test]
fn doubled_quotes_are_quotes() {
    assert_eq!(
        parse_csv_line("\"\"\"Heroes\"\"\",David Bowie"),
        strings(&["\"Heroes\"", "David Bowie"])
    );
    assert_eq!(parse_csv_line("\"\",x"), strings(&["", "x"]));
}

#[test]
fn quotes_inside_a_bare_field_are_literal() {
    assert_eq!(parse_csv_line("12\" single,x"), strings(&["12\" single", "x"]));
    assert_eq!(parse_csv_line(" \"a\",b"), strings(&[" \"a\"", "b"]));
}

#[test]
fn text_after_a_closing_quote_belongs_to_the_field() {
    assert_eq!(parse_csv_line("\"a\"b,c"), strings(&["ab", "c"]));
}

#[test]
fn an_unclosed_quote_runs_to_the_end() {
    assert_eq!(parse_csv_line("\"\" ,x"), strings(&[" ", "x"]));
    assert_eq!(parse_csv_line("\"a,b"), strings(&["a,b"]));
}

#[test]
fn a_line_of_quoted_fields_is_read_back() {
    let fields = ["a,b", "say \"hi\"", "", "\"", "plain", ",\",", "é"];
    let line = fields
        .iter()
        .map(|f| format!("\"{}\"", f.replace('"', "\"\"")))
        .collect::<Vec<_>>()
        .join(",");
    assert_eq!(parse_csv_line(&line), strings(&fields));
}

#[test]
fn a_line_without_quotes_is_its_fields_with_commas() {
    let line = "Song 2,Blur,, Britpop ,x";
    assert_eq!(parse_csv_line(line).join(","), line);
}

#[test]
fn headers_are_recognised() {
    assert!(looks_like_header("Track name,Artist name,Album name,Playlist name"));
    assert!(looks_like_header("TRACK NAME"));
    assert!(looks_like_header("my ARTIST NAME"));
    assert!(looks_like_header("Album Name"));
    assert!(looks_like_header("Playlist"));
    assert!(looks_like_header("Track,Artist"));
    assert!(looks_like_header("Song,Artist,Album"));
    assert!(looks_like_header("Title,Artist"));
    assert!(!looks_like_header("Artist,Album"));
    assert!(!looks_like_header("Track,Song,Title"));
    assert!(!looks_like_header("Bohemian Rhapsody,Queen,A Night at the Opera,Mine"));
    assert!(!looks_like_header(""));
}

#[test]
fn only_lowercase_columns_count_once_lowered() {
    assert!(lower_names_columns("track name"));
    assert!(lower_names_columns("x title y artist"));
    assert!(!lower_names_columns("Track Name"));
    assert!(!lower_names_columns("album"));
}

#[test]
fn rows_need_three_columns_a_name_and_an_artist() {
    assert_eq!(row_entry(&strings(&["a", "b"]), 0), None);
    assert_eq!(row_entry(&strings(&["", "b", "c"]), 0), None);
    assert_eq!(row_entry(&strings(&["a", "  ", "c"]), 0), None);
    assert_eq!(row_entry(&strings(&[" a ", "b", ""]), 4), Some(track("a", "b", "", "", 4)));
    assert_eq!(
        row_entry(&strings(&["a", "b", "c", " d ", "e"]), 5),
        Some(track("a", "b", "c", "d", 5))
    );
}

#[test]
fn a_whole_export_is_parsed() {
    let text = "Track name,Artist name,Album name,Playlist name\r\n\
                Bohemian Rhapsody,Queen,A Night at the Opera,My Playlist\r\n\
                \"Hello, Goodbye\",The Beatles,,Oldies\r\n\
                ,Nobody,Nothing,Oldies\r\n\
                just one column\r\n\
                Heroes,David Bowie,Heroes,My Playlist\r\n\
                Yesterday,The Beatles,Help!\r\n";
    let result = parse_csv(text.to_string()).unwrap();
    assert_eq!(
        result.tracks,
        vec![
            track("Bohemian Rhapsody", "Queen", "A Night at the Opera", "My Playlist", 1),
            track("Hello, Goodbye", "The Beatles", "", "Oldies", 2),
            track("Heroes", "David Bowie", "Heroes", "My Playlist", 5),
            track("Yesterday", "The Beatles", "Help!", "", 6),
        ]
    );
    assert_eq!(result.playlists, strings(&["My Playlist", "Oldies"]));
    assert_eq!(result.total_rows, 6);
    assert_eq!(result.skipped_rows, 2);
    assert_eq!(result.tracks.len() + result.skipped_rows, result.total_rows);
}

#[test]
fn without_a_header_the_first_row_is_a_track() {
    let result = parse_csv("Song 2,Blur,Blur".to_string()).unwrap();
    assert_eq!(result.tracks, vec![track("Song 2", "Blur", "Blur", "", 0)]);
    assert_eq!(result.total_rows, 1);
    assert_eq!(result.skipped_rows, 0);
    assert!(result.playlists.is_empty());
}

#[test]
fn exported_tracks_are_imported() {
    let tracks = vec![
        track("a, \"b\"", "c", "", "Mix", 1),
        track("\"", ",", "x\"y", "", 2),
        track("d", "e", "f", "Mix", 3),
    ];
    let mut text = "Track name,Artist name,Album name,Playlist name\n".to_string();
    for t in &tracks {
        let fields = [&t.track_name, &t.artist, &t.album, &t.playlist_name];
        let line = fields
            .iter()
            .map(|f| format!("\"{}\"", f.replace('"', "\"\"")))
            .collect::<Vec<_>>()
            .join(",");
        text.push_str(&line);
        text.push('\n');
    }
    let result = parse_csv(text).unwrap();
    assert_eq!(result.tracks, tracks);
    assert_eq!(result.playlists, strings(&["Mix"]));
    assert_eq!(result.total_rows, 3);
    assert_eq!(result.skipped_rows, 0);
}

#[test]
fn an_empty_file_is_an_error() {
    let error = parse_csv(String::new()).unwrap_err();
    assert_eq!(error, CsvImportError::EmptyCsv);
    assert_eq!(error.message(), "CSV file is empty");
}

#[test]
fn a_file_with_only_a_line_ending_has_one_skipped_row() {
    let result = parse_csv("\n".to_string()).unwrap();
    assert!(result.tracks.is_empty());
    assert_eq!(result.total_rows, 1);
    assert_eq!(result.skipped_rows, 1);
}

#[test]
fn a_file_with_only_a_header_has_no_rows() {
    let result = parse_csv("Track name,Artist name,Album name".to_string()).unwrap();
    assert!(result.tracks.is_empty());
    assert_eq!(result.total_rows, 0);
    assert_eq!(result.skipped_rows, 0);
}

#[test]
fn rows_are_read_from_the_given_line_on() {
    let lines = strings(&["a,b,c", "d,e,f,g"]);
    assert_eq!(parse_rows(&lines, 0).tracks.len(), 2);
    assert_eq!(parse_rows(&lines, 1).tracks, vec![track("d", "e", "f", "g", 1)]);
    assert_eq!(parse_rows(&lines, 2).total_rows, 0);
}

#[test]
fn playlists_are_unique_in_order_of_first_appearance() {
    let tracks = vec![
        track("1", "x", "", "B", 0),
        track("2", "x", "", "", 1),
        track("3", "x", "", "A", 2),
        track("4", "x", "", "B", 3),
        track("5", "x", "", "b", 4),
    ];
    assert_eq!(unique_playlists(&tracks), strings(&["B", "A", "b"]));
    assert!(has_text(&unique_playlists(&tracks), &"A".to_string()));
    assert!(!has_text(&unique_playlists(&tracks), &"".to_string()));
    assert_eq!(copy_tracks(&tracks), tracks);
    assert_eq!(tracks[0].clone(), tracks[0]);
}
