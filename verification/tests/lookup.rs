use csv_import::csv::CsvTrackEntry;
use csv_import::lookup::{
    find_song, pick_song, LookupAction, LookupReply, LowerSong, Song, SongLookup,
};

fn song(id: &str, title: &str, artist: Option<&str>) -> Song {
    Song { id: id.to_string(), title: title.to_string(), artist: artist.map(String::from) }
}

fn track() -> CsvTrackEntry {
    CsvTrackEntry {
        track_name: "Song 2".to_string(),
        artist: "Blur".to_string(),
        album: "Blur".to_string(),
        playlist_name: "Mix".to_string(),
        row_index: 3,
    }
}

fn find(songs: Vec<Song>, title: &str, artist: &str) -> Option<String> {
    find_song(&songs, &title.to_string(), &artist.to_string())
}

#[test]
fn a_fitting_title_wins() {
    let songs = vec![
        song("1", "Girls & Boys", Some("Blur")),
        song("2", "SONG 2 (Remastered)", Some("Other")),
        song("3", "Song 2", Some("Blur")),
    ];
    assert_eq!(find(songs, "song 2", "BLUR"), Some("2".to_string()));
}

#[test]
fn a_title_may_be_part_of_the_wanted_one() {
    let songs = vec![song("1", "x", None), song("2", "Song", None)];
    assert_eq!(find(songs, "Song 2", "Blur"), Some("2".to_string()));
}

#[test]
fn failing_a_title_the_artist_decides() {
    let songs = vec![
        song("1", "x", None),
        song("2", "y", Some("Nobody")),
        song("3", "z", Some("BLUR feat. X")),
    ];
    assert_eq!(find(songs, "Song 2", "Blur"), Some("3".to_string()));
}

#[test]
fn failing_both_the_first_song_is_taken() {
    let songs = vec![song("1", "x", None), song("2", "y", Some("Nobody"))];
    assert_eq!(find(songs, "Song 2", "Blur"), Some("1".to_string()));
    assert_eq!(find(vec![], "Song 2", "Blur"), None);
}

#[test]
fn picking_among_lowered_songs_minds_case() {
    let lower = vec![
        LowerSong { title: "Song 2".to_string(), artist: None },
        LowerSong { title: "song 2".to_string(), artist: None },
    ];
    assert_eq!(pick_song(&lower, &"song 2".to_string(), &"blur".to_string()), Some(1));
    assert_eq!(pick_song(&vec![], &"a".to_string(), &"b".to_string()), None);
}

#[test]
fn without_a_server_the_lookup_is_over() {
    let (lookup, action) = SongLookup::begin(&track(), false);
    assert_eq!(action, LookupAction::Finish { song_id: None });
    assert!(lookup.advance(LookupReply::Cancelled(false)).is_none());
}

#[test]
fn a_cancelled_lookup_is_over() {
    let (lookup, action) = SongLookup::begin(&track(), true);
    assert_eq!(action, LookupAction::CheckCancelled);
    let (_, action) = lookup.advance(LookupReply::Cancelled(true)).unwrap();
    assert_eq!(action, LookupAction::Finish { song_id: None });
}

#[test]
fn a_found_song_ends_the_lookup() {
    let (lookup, _) = SongLookup::begin(&track(), true);
    let (lookup, action) = lookup.advance(LookupReply::Cancelled(false)).unwrap();
    assert_eq!(action, LookupAction::Search { query: "Blur Song 2".to_string() });
    let songs = vec![song("7", "Song 2", None)];
    let (lookup, action) = lookup.advance(LookupReply::Found(Some(songs))).unwrap();
    assert_eq!(action, LookupAction::Finish { song_id: Some("7".to_string()) });
    assert!(lookup.advance(LookupReply::Paused).is_none());
}

#[test]
fn a_lookup_tries_three_times_and_scans_once() {
    let (mut lookup, mut action) = SongLookup::begin(&track(), true);
    let mut seen = Vec::new();
    let mut failures = 0;
    loop {
        seen.push(action.clone());
        let reply = match action {
            LookupAction::CheckCancelled => LookupReply::Cancelled(false),
            LookupAction::Search { .. } => {
                failures += 1;
                LookupReply::Found(if failures == 1 { None } else { Some(vec![]) })
            }
            LookupAction::TriggerScan => LookupReply::Scanned,
            LookupAction::Pause { delay_ms } => {
                assert_eq!(delay_ms, 10_000);
                LookupReply::Paused
            }
            LookupAction::Finish { song_id } => {
                assert_eq!(song_id, None);
                break;
            }
        };
        let next = lookup.advance(reply).unwrap();
        lookup = next.0;
        action = next.1;
    }
    let search = LookupAction::Search { query: "Blur Song 2".to_string() };
    let pause = LookupAction::Pause { delay_ms: 10_000 };
    assert_eq!(
        seen,
        vec![
            LookupAction::CheckCancelled,
            search.clone(),
            LookupAction::TriggerScan,
            pause.clone(),
            LookupAction::CheckCancelled,
            search.clone(),
            pause,
            LookupAction::CheckCancelled,
            search,
            LookupAction::Finish { song_id: None },
        ]
    );
}
