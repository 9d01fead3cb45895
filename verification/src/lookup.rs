//! Finding an imported track in the music server, with retries.

use crate::csv::{CsvTrackEntry, TrackText};
use crate::text::{contains, has_part, lowercase_of, opt_text, to_lowercase};
use crate::text_laws::{is_around, law_part_has_a_before_and_an_after};
use vstd::prelude::*;

verus! {

/// How many times a song is looked up.
pub const NAVIDROME_LOOKUP_RETRIES: u32 = 3;

/// The pause between two lookups.
pub const NAVIDROME_RETRY_DELAY_MS: u64 = 10_000;

/// A song that the music server found.
#[derive(Debug, Clone, PartialEq, Eq)]
pub struct Song {
    pub id: String,
    pub title: String,
    pub artist: Option<String>,
}

/// What a song says.
pub struct SongText {
    pub id: Seq<char>,
    pub title: Seq<char>,
    pub artist: Option<Seq<char>>,
}

impl View for Song {
    type V = SongText;

    open spec fn view(&self) -> SongText {
        SongText { id: self.id@, title: self.title@, artist: opt_text(self.artist) }
    }
}

/// What a list of songs says.
pub open spec fn song_texts(songs: Seq<Song>) -> Seq<SongText> {
    songs.map_values(|s: Song| s@)
}

/// The title and the artist of a song, lowercased.
#[derive(Debug, Clone, PartialEq, Eq)]
pub struct LowerSong {
    pub title: String,
    pub artist: Option<String>,
}

/// The lowercased title and artist of a song.
pub struct LowerSongText {
    pub title: Seq<char>,
    pub artist: Option<Seq<char>>,
}

impl View for LowerSong {
    type V = LowerSongText;

    open spec fn view(&self) -> LowerSongText {
        LowerSongText { title: self.title@, artist: opt_text(self.artist) }
    }
}

/// What a list of lowercased songs says.
pub open spec fn lower_texts(songs: Seq<LowerSong>) -> Seq<LowerSongText> {
    songs.map_values(|s: LowerSong| s@)
}

/// A song with its title and artist lowercased.
pub open spec fn lower_song(song: SongText) -> LowerSongText {
    LowerSongText {
        title: lowercase_of(song.title),
        artist: match song.artist {
            Some(artist) => Some(lowercase_of(artist)),
            None => None,
        },
    }
}

/// A list of songs with titles and artists lowercased.
pub open spec fn lower_songs(songs: Seq<SongText>) -> Seq<LowerSongText> {
    songs.map_values(|s: SongText| lower_song(s))
}

/// Whether one of two texts is a part of the other.
pub open spec fn overlap(a: Seq<char>, b: Seq<char>) -> bool {
    has_part(a, b) || has_part(b, a)
}

/// Whether a song's title is part of the given one, or the other way round.
pub open spec fn title_fits(song: LowerSongText, title: Seq<char>) -> bool {
    overlap(song.title, title)
}

/// Whether a song has an artist, and it is part of the given one, or the other way round.
pub open spec fn artist_fits(song: LowerSongText, artist: Seq<char>) -> bool {
    song.artist matches Some(a) && overlap(a, artist)
}

/// Whether `at` is the first song whose title fits.
pub open spec fn first_title_at(songs: Seq<LowerSongText>, title: Seq<char>, at: int) -> bool {
    &&& 0 <= at < songs.len()
    &&& title_fits(songs[at], title)
    &&& forall|i: int| 0 <= i < at ==> !title_fits(#[trigger] songs[i], title)
}

/// Whether `at` is the first song whose artist fits.
pub open spec fn first_artist_at(songs: Seq<LowerSongText>, artist: Seq<char>, at: int) -> bool {
    &&& 0 <= at < songs.len()
    &&& artist_fits(songs[at], artist)
    &&& forall|i: int| 0 <= i < at ==> !artist_fits(#[trigger] songs[i], artist)
}

/// Whether no song's title fits.
pub open spec fn no_title(songs: Seq<LowerSongText>, title: Seq<char>) -> bool {
    forall|i: int| 0 <= i < songs.len() ==> !title_fits(#[trigger] songs[i], title)
}

/// Whether no song's artist fits.
pub open spec fn no_artist(songs: Seq<LowerSongText>, artist: Seq<char>) -> bool {
    forall|i: int| 0 <= i < songs.len() ==> !artist_fits(#[trigger] songs[i], artist)
}

/// Whether a song is the best match: the first whose title fits, failing that the first whose
/// artist fits, failing that the first of all.
pub open spec fn best_match_at(
    songs: Seq<LowerSongText>,
    title: Seq<char>,
    artist: Seq<char>,
    at: int,
) -> bool {
    ||| first_title_at(songs, title, at)
    ||| no_title(songs, title) && first_artist_at(songs, artist, at)
    ||| no_title(songs, title) && no_artist(songs, artist) && at == 0 && songs.len() > 0
}

/// There is at most one best match.
pub proof fn law_best_match_is_unique(
    songs: Seq<LowerSongText>,
    title: Seq<char>,
    artist: Seq<char>,
    a: int,
    b: int,
)
    requires
        best_match_at(songs, title, artist, a),
        best_match_at(songs, title, artist, b),
    ensures
        a == b,
{
}

/// Whether one of two texts is a part of the other.
fn texts_overlap(a: &String, b: &String) -> (r: bool)
    ensures
        r == overlap(a@, b@),
{
    contains(a.as_str(), b.as_str()) || contains(b.as_str(), a.as_str())
}

/// Picks the best match among lowercased songs for a lowercased title and artist.
pub fn pick_song(songs: &Vec<LowerSong>, title: &String, artist: &String) -> (best: Option<usize>)
    ensures
        match best {
            Some(i) => best_match_at(lower_texts(songs@), title@, artist@, i as int),
            None => songs@.len() == 0,
        },
{
    let ghost all = lower_texts(songs@);
    let mut i: usize = 0;
    while i < songs.len()
        invariant
            i <= songs.len(),
            all == lower_texts(songs@),
            forall|k: int| 0 <= k < i ==> !title_fits(#[trigger] all[k], title@),
        decreases songs.len() - i,
    {
        proof {
            assert(all[i as int] == songs@[i as int]@);
        }
        if texts_overlap(&songs[i].title, title) {
            return Some(i);
        }
        i += 1;
    }
    let mut j: usize = 0;
    while j < songs.len()
        invariant
            j <= songs.len(),
            all == lower_texts(songs@),
            no_title(all, title@),
            forall|k: int| 0 <= k < j ==> !artist_fits(#[trigger] all[k], artist@),
        decreases songs.len() - j,
    {
        proof {
            assert(all[j as int] == songs@[j as int]@);
        }
        let fits = match &songs[j].artist {
            Some(a) => texts_overlap(a, artist),
            None => false,
        };
        if fits {
            return Some(j);
        }
        j += 1;
    }
    if songs.len() > 0 {
        Some(0)
    } else {
        None
    }
}

/// Lowercases the titles and artists of songs.
fn to_lower_songs(songs: &Vec<Song>) -> (lower: Vec<LowerSong>)
    ensures
        lower_texts(lower@) == lower_songs(song_texts(songs@)),
{
    let mut lower: Vec<LowerSong> = Vec::new();
    let mut i: usize = 0;
    while i < songs.len()
        invariant
            i <= songs.len(),
            lower.len() == i,
            forall|k: int|
                0 <= k < i ==> (#[trigger] lower@[k])@ == lower_song(songs@[k]@),
        decreases songs.len() - i,
    {
        let title = to_lowercase(songs[i].title.as_str());
        let artist = match &songs[i].artist {
            Some(a) => Some(to_lowercase(a.as_str())),
            None => None,
        };
        lower.push(LowerSong { title, artist });
        i += 1;
    }
    proof {
        assert(lower_texts(lower@) =~= lower_songs(song_texts(songs@)));
    }
    lower
}

/// Whether `at` is the best match among songs for a title and an artist, case aside.
pub open spec fn best_song_at(
    songs: Seq<SongText>,
    title: Seq<char>,
    artist: Seq<char>,
    at: int,
) -> bool {
    best_match_at(lower_songs(songs), lowercase_of(title), lowercase_of(artist), at)
}

/// The best match among songs for a title and an artist, if there are songs.
pub open spec fn best_song(songs: Seq<SongText>, title: Seq<char>, artist: Seq<char>) -> Option<
    SongText,
> {
    if songs.len() == 0 {
        None
    } else {
        Some(songs[choose|at: int| best_song_at(songs, title, artist, at)])
    }
}

/// Picks the best match among songs for a title and an artist, case aside, and gives its id.
pub fn find_song(songs: &Vec<Song>, title: &String, artist: &String) -> (id: Option<String>)
    ensures
        opt_text(id) == (match best_song(song_texts(songs@), title@, artist@) {
            Some(song) => Some(song.id),
            None => None,
        }),
{
    let lower = to_lower_songs(songs);
    let title_lower = to_lowercase(title.as_str());
    let artist_lower = to_lowercase(artist.as_str());
    proof {
        assert(lower@.len() == lower_texts(lower@).len());
    }
    match pick_song(&lower, &title_lower, &artist_lower) {
        Some(i) => {
            proof {
                let all = song_texts(songs@);
                assert(best_song_at(all, title@, artist@, i as int));
                let at = choose|at: int| best_song_at(all, title@, artist@, at);
                law_best_match_is_unique(
                    lower_songs(all),
                    title_lower@,
                    artist_lower@,
                    at,
                    i as int,
                );
                assert(all[i as int] == songs@[i as int]@);
            }
            Some(songs[i].id.clone())
        },
        None => None,
    }
}

/// What a lookup asks to be done.
#[derive(Debug, Clone, PartialEq, Eq)]
pub enum LookupAction {
    /// Look whether the batch was cancelled.
    CheckCancelled,
    /// Search the music server.
    Search { query: String },
    /// Trigger a library scan, so that new files are indexed.
    TriggerScan,
    /// Wait.
    Pause { delay_ms: u64 },
    /// The lookup is over with this song id, if any.
    Finish { song_id: Option<String> },
}

/// What an action asks for.
pub enum LookupActionText {
    CheckCancelled,
    Search { query: Seq<char> },
    TriggerScan,
    Pause { delay_ms: u64 },
    Finish { song_id: Option<Seq<char>> },
}

impl View for LookupAction {
    type V = LookupActionText;

    open spec fn view(&self) -> LookupActionText {
        match *self {
            LookupAction::CheckCancelled => LookupActionText::CheckCancelled,
            LookupAction::Search { query } => LookupActionText::Search { query: query@ },
            LookupAction::TriggerScan => LookupActionText::TriggerScan,
            LookupAction::Pause { delay_ms } => LookupActionText::Pause { delay_ms },
            LookupAction::Finish { song_id } => LookupActionText::Finish {
                song_id: opt_text(song_id),
            },
        }
    }
}

/// The reply to an action.
pub enum LookupReply {
    /// To `CheckCancelled`.
    Cancelled(bool),
    /// To `Search`: the songs found, or nothing if the search failed.
    Found(Option<Vec<Song>>),
    /// To `TriggerScan`.
    Scanned,
    /// To `Pause`.
    Paused,
}

/// What a reply says.
pub enum LookupReplyText {
    Cancelled(bool),
    Found(Option<Seq<SongText>>),
    Scanned,
    Paused,
}

impl View for LookupReply {
    type V = LookupReplyText;

    open spec fn view(&self) -> LookupReplyText {
        match *self {
            LookupReply::Cancelled(c) => LookupReplyText::Cancelled(c),
            LookupReply::Found(Some(songs)) => LookupReplyText::Found(Some(song_texts(songs@))),
            LookupReply::Found(None) => LookupReplyText::Found(None),
            LookupReply::Scanned => LookupReplyText::Scanned,
            LookupReply::Paused => LookupReplyText::Paused,
        }
    }
}

/// Which reply a lookup waits for; once finished, none.
#[derive(Debug, Clone, Copy, PartialEq, Eq, Structural)]
pub enum LookupPhase {
    Checking,
    Searching,
    Scanning,
    Pausing,
    Finished,
}

/// The lookup of a track in the music server. There is no attempt after the last.
#[derive(Debug, PartialEq, Eq)]
pub struct SongLookup {
    title: String,
    artist: String,
    /// How many attempts have failed
    attempt: u32,
    phase: LookupPhase,
}

/// The state of a lookup.
pub struct LookupModel {
    pub title: Seq<char>,
    pub artist: Seq<char>,
    pub attempt: u32,
    pub phase: LookupPhase,
}

impl View for SongLookup {
    type V = LookupModel;

    closed spec fn view(&self) -> LookupModel {
        LookupModel {
            title: self.title@,
            artist: self.artist@,
            attempt: self.attempt,
            phase: self.phase,
        }
    }
}

/// What is searched for.
pub open spec fn lookup_query(m: LookupModel) -> Seq<char> {
    m.artist + " "@ + m.title
}

/// A lookup over with the given id.
pub open spec fn lookup_over(m: LookupModel, song_id: Option<Seq<char>>) -> Option<
    (LookupModel, LookupActionText),
> {
    Some(
        (
            LookupModel { phase: LookupPhase::Finished, ..m },
            LookupActionText::Finish { song_id },
        ),
    )
}

/// What follows a failed attempt, once a scan was triggered if it was the first: a pause, unless it
/// was the last.
pub open spec fn after_failure(m: LookupModel) -> Option<(LookupModel, LookupActionText)> {
    if m.attempt + 1 < NAVIDROME_LOOKUP_RETRIES {
        Some(
            (
                LookupModel { phase: LookupPhase::Pausing, ..m },
                LookupActionText::Pause { delay_ms: NAVIDROME_RETRY_DELAY_MS },
            ),
        )
    } else {
        lookup_over(m, None)
    }
}

/// The first state and action of a lookup: without a music server it is over at once.
pub open spec fn lookup_start(track: TrackText, server_available: bool) -> (
    LookupModel,
    LookupActionText,
) {
    let m = LookupModel {
        title: track.track_name,
        artist: track.artist,
        attempt: 0,
        phase: LookupPhase::Checking,
    };
    if server_available {
        (m, LookupActionText::CheckCancelled)
    } else {
        (
            LookupModel { phase: LookupPhase::Finished, ..m },
            LookupActionText::Finish { song_id: None },
        )
    }
}

/// The next state and action of a lookup after a reply, or nothing if the reply is not one to its
/// last action.
pub open spec fn lookup_next(m: LookupModel, reply: LookupReplyText) -> Option<
    (LookupModel, LookupActionText),
> {
    match (m.phase, reply) {
        (LookupPhase::Checking, LookupReplyText::Cancelled(cancelled)) => if cancelled {
            lookup_over(m, None)
        } else {
            Some(
                (
                    LookupModel { phase: LookupPhase::Searching, ..m },
                    LookupActionText::Search { query: lookup_query(m) },
                ),
            )
        },
        (LookupPhase::Searching, LookupReplyText::Found(found)) => match found {
            Some(songs) if songs.len() > 0 => lookup_over(
                m,
                Some((best_song(songs, m.title, m.artist)->0).id),
            ),
            _ => if m.attempt == 0 {
                Some(
                    (
                        LookupModel { phase: LookupPhase::Scanning, ..m },
                        LookupActionText::TriggerScan,
                    ),
                )
            } else {
                after_failure(m)
            },
        },
        (LookupPhase::Scanning, LookupReplyText::Scanned) => after_failure(m),
        (LookupPhase::Pausing, LookupReplyText::Paused) => Some(
            (
                LookupModel {
                    attempt: (m.attempt + 1) as u32,
                    phase: LookupPhase::Checking,
                    ..m
                },
                LookupActionText::CheckCancelled,
            ),
        ),
        _ => None,
    }
}

impl SongLookup {
    #[verifier::type_invariant]
    spec fn attempts_in_bounds(&self) -> bool {
        &&& self.attempt < NAVIDROME_LOOKUP_RETRIES
        &&& self.phase == LookupPhase::Pausing ==> self.attempt + 1 < NAVIDROME_LOOKUP_RETRIES
    }

    /// Begins the lookup of a track.
    pub fn begin(track: &CsvTrackEntry, server_available: bool) -> (r: (SongLookup, LookupAction))
        ensures
            (r.0@, r.1@) == lookup_start(track@, server_available),
    {
        let lookup = SongLookup {
            title: track.track_name.clone(),
            artist: track.artist.clone(),
            attempt: 0,
            phase: if server_available {
                LookupPhase::Checking
            } else {
                LookupPhase::Finished
            },
        };
        if server_available {
            (lookup, LookupAction::CheckCancelled)
        } else {
            (lookup, LookupAction::Finish { song_id: None })
        }
    }

    /// Goes on to a phase.
    fn go(self, phase: LookupPhase, action: LookupAction) -> (r: (SongLookup, LookupAction))
        requires
            phase == LookupPhase::Pausing ==> self.attempt + 1 < NAVIDROME_LOOKUP_RETRIES,
        ensures
            r.0 == (SongLookup { phase, ..self }),
            r.1 == action,
    {
        proof {
            use_type_invariant(&self);
        }
        let lookup = SongLookup {
            title: self.title,
            artist: self.artist,
            attempt: self.attempt,
            phase,
        };
        (lookup, action)
    }

    /// Goes on after a failed attempt.
    fn retry(self) -> (r: (SongLookup, LookupAction))
        ensures
            after_failure(self@) == Some((r.0@, r.1@)),
    {
        proof {
            use_type_invariant(&self);
        }
        if self.attempt + 1 < NAVIDROME_LOOKUP_RETRIES {
            self.go(
                LookupPhase::Pausing,
                LookupAction::Pause { delay_ms: NAVIDROME_RETRY_DELAY_MS },
            )
        } else {
            self.go(LookupPhase::Finished, LookupAction::Finish { song_id: None })
        }
    }

    /// Takes the reply to the last action, and says what is to be done next. A reply that is not
    /// one to the last action is refused.
    pub fn advance(self, reply: LookupReply) -> (r: Option<(SongLookup, LookupAction)>)
        ensures
            match r {
                Some(next) => lookup_next(self@, reply@) == Some((next.0@, next.1@)),
                None => lookup_next(self@, reply@) is None,
            },
    {
        proof {
            use_type_invariant(&self);
        }
        match (self.phase, reply) {
            (LookupPhase::Checking, LookupReply::Cancelled(cancelled)) => {
                if cancelled {
                    Some(self.go(LookupPhase::Finished, LookupAction::Finish { song_id: None }))
                } else {
                    let mut query = self.artist.clone();
                    query.append(" ");
                    query.append(self.title.as_str());
                    Some(self.go(LookupPhase::Searching, LookupAction::Search { query }))
                }
            },
            (LookupPhase::Searching, LookupReply::Found(found)) => {
                let song_id = match found {
                    Some(songs) => find_song(&songs, &self.title, &self.artist),
                    None => None,
                };
                if song_id.is_some() {
                    Some(self.go(LookupPhase::Finished, LookupAction::Finish { song_id }))
                } else if self.attempt == 0 {
                    Some(self.go(LookupPhase::Scanning, LookupAction::TriggerScan))
                } else {
                    Some(self.retry())
                }
            },
            (LookupPhase::Scanning, LookupReply::Scanned) => Some(self.retry()),
            (LookupPhase::Pausing, LookupReply::Paused) => {
                let lookup = SongLookup {
                    title: self.title,
                    artist: self.artist,
                    attempt: self.attempt + 1,
                    phase: LookupPhase::Checking,
                };
                Some((lookup, LookupAction::CheckCancelled))
            },
            _ => None,
        }
    }
}

/// The state of a lookup after a series of replies and all actions on the way, or nothing if some
/// reply was refused.
pub open spec fn lookup_run(
    track: TrackText,
    server_available: bool,
    replies: Seq<LookupReplyText>,
) -> Option<(LookupModel, Seq<LookupActionText>)>
    decreases replies.len(),
{
    if replies.len() == 0 {
        let (m, action) = lookup_start(track, server_available);
        Some((m, seq![action]))
    } else {
        match lookup_run(track, server_available, replies.drop_last()) {
            Some((before, actions)) => match lookup_next(before, replies.last()) {
                Some((after, action)) => Some((after, actions.push(action))),
                None => None,
            },
            None => None,
        }
    }
}

/// How many actions search the music server.
pub open spec fn searches(actions: Seq<LookupActionText>) -> nat
    decreases actions.len(),
{
    if actions.len() == 0 {
        0
    } else {
        searches(actions.drop_last()) + if actions.last() is Search {
            1nat
        } else {
            0
        }
    }
}

/// How many actions trigger a scan.
pub open spec fn scans(actions: Seq<LookupActionText>) -> nat
    decreases actions.len(),
{
    if actions.len() == 0 {
        0
    } else {
        scans(actions.drop_last()) + if actions.last() is TriggerScan {
            1nat
        } else {
            0
        }
    }
}

/// How many actions pause.
pub open spec fn pauses(actions: Seq<LookupActionText>) -> nat
    decreases actions.len(),
{
    if actions.len() == 0 {
        0
    } else {
        pauses(actions.drop_last()) + if actions.last() is Pause {
            1nat
        } else {
            0
        }
    }
}

/// What has been done in each phase of a lookup.
spec fn work_done(m: LookupModel, actions: Seq<LookupActionText>) -> bool {
    let a = m.attempt as int;
    let scanned = if a == 0 {
        0int
    } else {
        1
    };
    &&& a < NAVIDROME_LOOKUP_RETRIES
    &&& match m.phase {
        LookupPhase::Checking => searches(actions) == a && scans(actions) == scanned && pauses(
            actions,
        ) == a,
        LookupPhase::Searching => searches(actions) == a + 1 && scans(actions) == scanned && pauses(
            actions,
        ) == a,
        LookupPhase::Scanning => a == 0 && searches(actions) == 1 && scans(actions) == 1 && pauses(
            actions,
        ) == 0,
        LookupPhase::Pausing => a + 1 < NAVIDROME_LOOKUP_RETRIES && searches(actions) == a + 1
            && scans(actions) == 1 && pauses(actions) == a + 1,
        LookupPhase::Finished => searches(actions) <= 3 && scans(actions) <= 1 && pauses(actions)
            <= 2,
    }
}

proof fn lemma_work_done(
    track: TrackText,
    server_available: bool,
    replies: Seq<LookupReplyText>,
)
    requires
        lookup_run(track, server_available, replies) is Some,
    ensures
        ({
            let (m, actions) = lookup_run(track, server_available, replies)->0;
            &&& work_done(m, actions)
            &&& m.title == track.track_name
            &&& m.artist == track.artist
        }),
    decreases replies.len(),
{
    let (m, actions) = lookup_run(track, server_available, replies)->0;
    if replies.len() == 0 {
        reveal_with_fuel(searches, 2);
        reveal_with_fuel(scans, 2);
        reveal_with_fuel(pauses, 2);
    } else {
        lemma_work_done(track, server_available, replies.drop_last());
        let earlier = (lookup_run(track, server_available, replies.drop_last())->0).1;
        assert(actions.drop_last() =~= earlier);
    }
}

/// A lookup searches at most three times, triggers at most one scan and pauses at most twice,
/// whatever the replies; it keeps the title and the artist of its track throughout.
pub proof fn law_lookup_is_bounded(
    track: TrackText,
    server_available: bool,
    replies: Seq<LookupReplyText>,
)
    requires
        lookup_run(track, server_available, replies) is Some,
    ensures
        ({
            let (m, actions) = lookup_run(track, server_available, replies)->0;
            &&& searches(actions) <= NAVIDROME_LOOKUP_RETRIES
            &&& scans(actions) <= 1
            &&& pauses(actions) + 1 <= NAVIDROME_LOOKUP_RETRIES
            &&& m.title == track.track_name
            &&& m.artist == track.artist
        }),
{
    lemma_work_done(track, server_available, replies);
}

/// Whether no reply tells of a cancellation.
pub open spec fn never_cancelled(replies: Seq<LookupReplyText>) -> bool {
    forall|i: int| 0 <= i < replies.len() ==> #[trigger] replies[i] != LookupReplyText::Cancelled(true)
}

/// A lookup does not give up early: with a music server and without a cancellation, one that ends
/// without a song has searched three times, triggered one scan and paused twice.
pub proof fn law_lookup_does_not_give_up_early(track: TrackText, replies: Seq<LookupReplyText>)
    requires
        never_cancelled(replies),
        lookup_run(track, true, replies) is Some,
        (lookup_run(track, true, replies)->0).1.last() == (LookupActionText::Finish {
            song_id: None,
        }),
    ensures
        ({
            let actions = (lookup_run(track, true, replies)->0).1;
            &&& searches(actions) == NAVIDROME_LOOKUP_RETRIES
            &&& scans(actions) == 1
            &&& pauses(actions) + 1 == NAVIDROME_LOOKUP_RETRIES
        }),
{
    let front = replies.drop_last();
    let (before, earlier) = lookup_run(track, true, front)->0;
    lemma_work_done(track, true, front);
    let actions = (lookup_run(track, true, replies)->0).1;
    assert(actions.drop_last() =~= earlier);
    assert(replies[replies.len() - 1] != LookupReplyText::Cancelled(true));
}

/// A lookup ends with a song exactly if a search has just found songs, and then with the id of the
/// best match among them.
pub proof fn law_lookup_gives_found_song(m: LookupModel, reply: LookupReplyText)
    requires
        lookup_next(m, reply) is Some,
    ensures
        ({
            let action = (lookup_next(m, reply)->0).1;
            let gives_song = action is Finish && action->song_id is Some;
            &&& gives_song <==> (reply matches LookupReplyText::Found(Some(songs)) && songs.len() > 0)
            &&& gives_song ==> exists|i: int|
                0 <= i < (reply->Found_0->0).len() && best_song_at(
                    reply->Found_0->0,
                    m.title,
                    m.artist,
                    i,
                ) && Some((#[trigger] (reply->Found_0->0)[i]).id) == action->song_id
        }),
{
    match reply {
        LookupReplyText::Found(Some(songs)) if songs.len() > 0 => {
            let title = lowercase_of(m.title);
            let artist = lowercase_of(m.artist);
            law_best_match_exists(lower_songs(songs), title, artist);
            let k = choose|k: int| best_match_at(lower_songs(songs), title, artist, k);
            assert(best_song_at(songs, m.title, m.artist, k));
            let at = choose|at: int| best_song_at(songs, m.title, m.artist, at);
            assert(best_song_at(songs, m.title, m.artist, at));
            assert(songs[at].id == (best_song(songs, m.title, m.artist)->0).id);
        },
        _ => {},
    }
}

/// Wherever there are songs there is a best match.
pub proof fn law_best_match_exists(
    songs: Seq<LowerSongText>,
    title: Seq<char>,
    artist: Seq<char>,
)
    requires
        songs.len() > 0,
    ensures
        exists|at: int| best_match_at(songs, title, artist, at),
{
    if !no_title(songs, title) {
        let i = choose|i: int| 0 <= i < songs.len() && title_fits(#[trigger] songs[i], title);
        let at = lemma_first_title(songs, title, i);
        assert(best_match_at(songs, title, artist, at));
    } else if !no_artist(songs, artist) {
        let i = choose|i: int| 0 <= i < songs.len() && artist_fits(#[trigger] songs[i], artist);
        let at = lemma_first_artist(songs, artist, i);
        assert(best_match_at(songs, title, artist, at));
    } else {
        assert(best_match_at(songs, title, artist, 0));
    }
}

proof fn lemma_first_title(songs: Seq<LowerSongText>, title: Seq<char>, i: int) -> (at: int)
    requires
        0 <= i < songs.len(),
        title_fits(songs[i], title),
    ensures
        first_title_at(songs, title, at),
    decreases i,
{
    if forall|k: int| 0 <= k < i ==> !title_fits(#[trigger] songs[k], title) {
        i
    } else {
        let k = choose|k: int| 0 <= k < i && title_fits(#[trigger] songs[k], title);
        lemma_first_title(songs, title, k)
    }
}

proof fn lemma_first_artist(songs: Seq<LowerSongText>, artist: Seq<char>, i: int) -> (at: int)
    requires
        0 <= i < songs.len(),
        artist_fits(songs[i], artist),
    ensures
        first_artist_at(songs, artist, at),
    decreases i,
{
    if forall|k: int| 0 <= k < i ==> !artist_fits(#[trigger] songs[k], artist) {
        i
    } else {
        let k = choose|k: int| 0 <= k < i && artist_fits(#[trigger] songs[k], artist);
        lemma_first_artist(songs, artist, k)
    }
}

/// Whether one of two texts is the other with something, or nothing, around it.
pub open spec fn one_is_around_other(a: Seq<char>, b: Seq<char>) -> bool {
    is_around(a, b) || is_around(b, a)
}

/// Whether a song's artist, if it has one, is the given one with something around it or the other way
/// round.
pub open spec fn artist_is_around(artist: Option<Seq<char>>, wanted: Seq<char>) -> bool {
    artist is Some && one_is_around_other(artist->0, wanted)
}

proof fn lemma_overlap(a: Seq<char>, b: Seq<char>)
    ensures
        overlap(a, b) <==> one_is_around_other(a, b),
{
    law_part_has_a_before_and_an_after(a, b);
    law_part_has_a_before_and_an_after(b, a);
}

proof fn lemma_fits(song: LowerSongText, title: Seq<char>, artist: Seq<char>)
    ensures
        title_fits(song, title) <==> one_is_around_other(song.title, title),
        artist_fits(song, artist) <==> artist_is_around(song.artist, artist),
{
    lemma_overlap(song.title, title);
    if song.artist is Some {
        lemma_overlap(song.artist->0, artist);
    }
}

/// The first lowercased song whose title contains the wanted one, or is contained in it, is the best
/// match, whatever the artists are; in particular the first with the wanted title, unless such a one
/// stands before it.
pub proof fn law_first_fitting_title_matches(
    songs: Seq<LowerSongText>,
    title: Seq<char>,
    artist: Seq<char>,
    first: int,
    at: int,
)
    requires
        0 <= first < songs.len(),
        one_is_around_other(songs[first].title, title),
        forall|k: int| 0 <= k < first ==> !one_is_around_other((#[trigger] songs[k]).title, title),
    ensures
        best_match_at(songs, title, artist, at) <==> at == first,
{
    lemma_fits(songs[first], title, artist);
    assert forall|k: int| 0 <= k < first implies !title_fits(#[trigger] songs[k], title) by {
        lemma_fits(songs[k], title, artist);
    }
    assert(first_title_at(songs, title, first));
    assert(best_match_at(songs, title, artist, first));
    if best_match_at(songs, title, artist, at) {
        law_best_match_is_unique(songs, title, artist, first, at);
    }
}

/// Where no title fits, the first lowercased song whose artist contains the wanted one, or is
/// contained in it, is the best match.
pub proof fn law_first_fitting_artist_matches(
    songs: Seq<LowerSongText>,
    title: Seq<char>,
    artist: Seq<char>,
    first: int,
    at: int,
)
    requires
        0 <= first < songs.len(),
        forall|k: int|
            0 <= k < songs.len() ==> !one_is_around_other((#[trigger] songs[k]).title, title),
        artist_is_around(songs[first].artist, artist),
        forall|k: int| 0 <= k < first ==> !artist_is_around((#[trigger] songs[k]).artist, artist),
    ensures
        best_match_at(songs, title, artist, at) <==> at == first,
{
    assert forall|k: int| 0 <= k < songs.len() implies !title_fits(#[trigger] songs[k], title) by {
        lemma_fits(songs[k], title, artist);
    }
    lemma_fits(songs[first], title, artist);
    assert forall|k: int| 0 <= k < first implies !artist_fits(#[trigger] songs[k], artist) by {
        lemma_fits(songs[k], title, artist);
    }
    assert(first_artist_at(songs, artist, first));
    assert(best_match_at(songs, title, artist, first));
    if best_match_at(songs, title, artist, at) {
        law_best_match_is_unique(songs, title, artist, first, at);
    }
}

/// Where neither a title nor an artist fits, the first lowercased song is the best match.
pub proof fn law_first_song_matches(
    songs: Seq<LowerSongText>,
    title: Seq<char>,
    artist: Seq<char>,
    at: int,
)
    requires
        songs.len() > 0,
        forall|k: int|
            0 <= k < songs.len() ==> !one_is_around_other((#[trigger] songs[k]).title, title),
        forall|k: int|
            0 <= k < songs.len() ==> !artist_is_around((#[trigger] songs[k]).artist, artist),
    ensures
        best_match_at(songs, title, artist, at) <==> at == 0,
{
    assert forall|k: int| 0 <= k < songs.len() implies !title_fits(#[trigger] songs[k], title) by {
        lemma_fits(songs[k], title, artist);
    }
    assert forall|k: int| 0 <= k < songs.len() implies !artist_fits(#[trigger] songs[k], artist) by {
        lemma_fits(songs[k], title, artist);
    }
    assert(best_match_at(songs, title, artist, 0));
    if best_match_at(songs, title, artist, at) {
        law_best_match_is_unique(songs, title, artist, 0, at);
    }
}

/// Whether a song's title, case aside, is the wanted one with something around it or the other way
/// round.
pub open spec fn has_title(song: SongText, title: Seq<char>) -> bool {
    one_is_around_other(lowercase_of(song.title), lowercase_of(title))
}

/// Whether a song has an artist that, case aside, is the wanted one with something around it or the
/// other way round.
pub open spec fn has_artist(song: SongText, artist: Seq<char>) -> bool {
    song.artist is Some && one_is_around_other(lowercase_of(song.artist->0), lowercase_of(artist))
}

proof fn lemma_chosen(songs: Seq<SongText>, title: Seq<char>, artist: Seq<char>, at: int)
    requires
        0 <= at < songs.len(),
        best_song_at(songs, title, artist, at),
    ensures
        best_song(songs, title, artist) == Some(songs[at]),
{
    let chosen = choose|k: int| best_song_at(songs, title, artist, k);
    law_best_match_is_unique(
        lower_songs(songs),
        lowercase_of(title),
        lowercase_of(artist),
        chosen,
        at,
    );
}

/// The song that is given is the first whose title contains the wanted one or is contained in it,
/// case aside, for titles of every length and whatever the artists are. A song with the wanted title
/// is such a one.
pub proof fn law_song_with_fitting_title_is_given(
    songs: Seq<SongText>,
    title: Seq<char>,
    artist: Seq<char>,
    first: int,
)
    requires
        0 <= first < songs.len(),
        lowercase_of(songs[first].title) == lowercase_of(title) || has_title(songs[first], title),
        forall|k: int| 0 <= k < first ==> !has_title(#[trigger] songs[k], title),
    ensures
        best_song(songs, title, artist) == Some(songs[first]),
{
    let lower = lower_songs(songs);
    let t = lowercase_of(title);
    if lowercase_of(songs[first].title) == t {
        let none: Seq<char> = seq![];
        assert(none + t + none =~= t);
        assert(is_around(t, t));
    }
    assert forall|k: int| 0 <= k < first implies !one_is_around_other(
        (#[trigger] lower[k]).title,
        t,
    ) by {
        assert(!has_title(songs[k], title));
    }
    law_first_fitting_title_matches(lower, t, lowercase_of(artist), first, first);
    lemma_chosen(songs, title, artist, first);
}

/// Where no title fits, the song that is given is the first whose artist contains the wanted one or
/// is contained in it, case aside; where no artist fits either, it is the first song of all, and
/// where there is no song none is given.
pub proof fn law_song_without_fitting_title_is_given(
    songs: Seq<SongText>,
    title: Seq<char>,
    artist: Seq<char>,
)
    requires
        forall|k: int| 0 <= k < songs.len() ==> !has_title(#[trigger] songs[k], title),
    ensures
        forall|first: int|
            0 <= first < songs.len() && has_artist(#[trigger] songs[first], artist) && (forall|k: int|
                0 <= k < first ==> !has_artist(#[trigger] songs[k], artist)) ==> best_song(
                songs,
                title,
                artist,
            ) == Some(songs[first]),
        songs.len() > 0 && (forall|k: int|
            0 <= k < songs.len() ==> !has_artist(#[trigger] songs[k], artist)) ==> best_song(
            songs,
            title,
            artist,
        ) == Some(songs[0]),
        songs.len() == 0 ==> best_song(songs, title, artist) is None,
{
    let lower = lower_songs(songs);
    let t = lowercase_of(title);
    let a = lowercase_of(artist);
    assert forall|k: int| 0 <= k < lower.len() implies !one_is_around_other(
        (#[trigger] lower[k]).title,
        t,
    ) by {
        assert(!has_title(songs[k], title));
    }
    assert forall|k: int| 0 <= k < lower.len() implies (artist_is_around(
        (#[trigger] lower[k]).artist,
        a,
    ) <==> has_artist(songs[k], artist)) by {
        assert(lower[k] == lower_song(songs[k]));
    }
    assert forall|first: int|
        0 <= first < songs.len() && has_artist(#[trigger] songs[first], artist) && (forall|k: int|
            0 <= k < first ==> !has_artist(#[trigger] songs[k], artist)) implies best_song(
        songs,
        title,
        artist,
    ) == Some(songs[first]) by {
        assert(artist_is_around(lower[first].artist, a));
        assert forall|k: int| 0 <= k < first implies !artist_is_around(
            (#[trigger] lower[k]).artist,
            a,
        ) by {
            assert(!has_artist(songs[k], artist));
        }
        law_first_fitting_artist_matches(lower, t, a, first, first);
        lemma_chosen(songs, title, artist, first);
    }
    if songs.len() > 0 && (forall|k: int|
        0 <= k < songs.len() ==> !has_artist(#[trigger] songs[k], artist)) {
        assert forall|k: int| 0 <= k < lower.len() implies !artist_is_around(
            (#[trigger] lower[k]).artist,
            a,
        ) by {
            assert(!has_artist(songs[k], artist));
        }
        law_first_song_matches(lower, t, a, 0);
        lemma_chosen(songs, title, artist, 0);
    }
}

/// Whether a reply is one to an action.
pub open spec fn answers_lookup(action: LookupActionText, reply: LookupReplyText) -> bool {
    match action {
        LookupActionText::CheckCancelled => reply is Cancelled,
        LookupActionText::Search { query } => reply is Found,
        LookupActionText::TriggerScan => reply is Scanned,
        LookupActionText::Pause { delay_ms } => reply is Paused,
        LookupActionText::Finish { song_id } => false,
    }
}

/// A lookup takes exactly the replies to its last action, and none once it is over. It asks the music
/// server for the artist and the title of its track and for nothing else, and waits ten seconds each
/// time that it waits; a cancellation ends it without a song.
pub proof fn law_lookup_asks_for_its_track(
    track: TrackText,
    server_available: bool,
    replies: Seq<LookupReplyText>,
)
    requires
        lookup_run(track, server_available, replies) is Some,
    ensures
        ({
            let (m, actions) = lookup_run(track, server_available, replies)->0;
            &&& actions.len() == replies.len() + 1
            &&& server_available ==> actions[0] is CheckCancelled
            &&& !server_available ==> actions[0] == (LookupActionText::Finish { song_id: None })
            &&& forall|k: int|
                0 <= k < actions.len() && (#[trigger] actions[k]) is Search ==> actions[k]->query
                    == track.artist + " "@ + track.track_name
            &&& forall|k: int|
                0 <= k < actions.len() && (#[trigger] actions[k]) is Pause ==> actions[k]->delay_ms
                    == 10_000
            &&& forall|k: int|
                0 <= k < replies.len() && (#[trigger] replies[k]) == LookupReplyText::Cancelled(true)
                    ==> actions[k + 1] == (LookupActionText::Finish { song_id: None })
            &&& forall|reply: LookupReplyText| #[trigger]
                lookup_next(m, reply) is Some <==> answers_lookup(actions.last(), reply)
        }),
    decreases replies.len(),
{
    if replies.len() > 0 {
        let front = replies.drop_last();
        law_lookup_asks_for_its_track(track, server_available, front);
        lemma_work_done(track, server_available, front);
        let (before, earlier) = lookup_run(track, server_available, front)->0;
        let (m, actions) = lookup_run(track, server_available, replies)->0;
        assert forall|k: int|
            0 <= k < replies.len() && (#[trigger] replies[k]) == LookupReplyText::Cancelled(
                true,
            ) implies actions[k + 1] == (LookupActionText::Finish { song_id: None }) by {
            if k < front.len() {
                assert(front[k] == replies[k]);
                assert(actions[k + 1] == earlier[k + 1]);
            }
        }
    }
}

proof fn lemma_lookup_step(
    track: TrackText,
    replies: Seq<LookupReplyText>,
    reply: LookupReplyText,
)
    requires
        lookup_run(track, true, replies) is Some,
        lookup_next((lookup_run(track, true, replies)->0).0, reply) is Some,
    ensures
        ({
            let (before, actions) = lookup_run(track, true, replies)->0;
            let (after, action) = lookup_next(before, reply)->0;
            lookup_run(track, true, replies.push(reply)) == Some((after, actions.push(action)))
        }),
{
    assert(replies.push(reply).drop_last() =~= replies);
}

/// Whether the reply to a search brings no song.
pub open spec fn finds_nothing(found: Option<Seq<SongText>>) -> bool {
    found is None || (found->0).len() == 0
}

/// A lookup that finds nothing searches, triggers a scan, waits, searches again, waits, searches a
/// third time and is over without a song, looking each time before it searches whether the batch was
/// cancelled. Whether a search fails or finds no song makes no difference.
pub proof fn law_fruitless_lookup_goes_like_this(
    track: TrackText,
    first: Option<Seq<SongText>>,
    second: Option<Seq<SongText>>,
    third: Option<Seq<SongText>>,
)
    requires
        finds_nothing(first),
        finds_nothing(second),
        finds_nothing(third),
    ensures
        ({
            let go = LookupReplyText::Cancelled(false);
            let search = LookupActionText::Search {
                query: track.artist + " "@ + track.track_name,
            };
            let wait = LookupActionText::Pause { delay_ms: 10_000 };
            let replies = seq![
                go,
                LookupReplyText::Found(first),
                LookupReplyText::Scanned,
                LookupReplyText::Paused,
                go,
                LookupReplyText::Found(second),
                LookupReplyText::Paused,
                go,
                LookupReplyText::Found(third),
            ];
            &&& lookup_run(track, true, replies) is Some
            &&& (lookup_run(track, true, replies)->0).1 == seq![
                LookupActionText::CheckCancelled,
                search,
                LookupActionText::TriggerScan,
                wait,
                LookupActionText::CheckCancelled,
                search,
                wait,
                LookupActionText::CheckCancelled,
                search,
                LookupActionText::Finish { song_id: None },
            ]
        }),
{
    let go = LookupReplyText::Cancelled(false);
    let r0: Seq<LookupReplyText> = seq![];
    let r1 = r0.push(go);
    let r2 = r1.push(LookupReplyText::Found(first));
    let r3 = r2.push(LookupReplyText::Scanned);
    let r4 = r3.push(LookupReplyText::Paused);
    let r5 = r4.push(go);
    let r6 = r5.push(LookupReplyText::Found(second));
    let r7 = r6.push(LookupReplyText::Paused);
    let r8 = r7.push(go);
    lemma_lookup_step(track, r0, go);
    lemma_lookup_step(track, r1, LookupReplyText::Found(first));
    lemma_lookup_step(track, r2, LookupReplyText::Scanned);
    lemma_lookup_step(track, r3, LookupReplyText::Paused);
    lemma_lookup_step(track, r4, go);
    lemma_lookup_step(track, r5, LookupReplyText::Found(second));
    lemma_lookup_step(track, r6, LookupReplyText::Paused);
    lemma_lookup_step(track, r7, go);
    lemma_lookup_step(track, r8, LookupReplyText::Found(third));
    assert(r8.push(LookupReplyText::Found(third)) =~= seq![
        go,
        LookupReplyText::Found(first),
        LookupReplyText::Scanned,
        LookupReplyText::Paused,
        go,
        LookupReplyText::Found(second),
        LookupReplyText::Paused,
        go,
        LookupReplyText::Found(third),
    ]);
}

/// Whenever a search brings songs, the lookup is over with the id of the best match for the title and
/// the artist of its track, at the first search or a later one.
pub proof fn law_lookup_ends_with_best_song(
    track: TrackText,
    replies: Seq<LookupReplyText>,
    songs: Seq<SongText>,
)
    requires
        lookup_run(track, true, replies) is Some,
        (lookup_run(track, true, replies)->0).1.last() is Search,
        songs.len() > 0,
    ensures
        ({
            let run = lookup_run(track, true, replies.push(LookupReplyText::Found(Some(songs))));
            &&& run is Some
            &&& (run->0).1.last() == (LookupActionText::Finish {
                song_id: Some((best_song(songs, track.track_name, track.artist)->0).id),
            })
        }),
{
    let reply = LookupReplyText::Found(Some(songs));
    law_lookup_asks_for_its_track(track, true, replies);
    lemma_work_done(track, true, replies);
    let before = (lookup_run(track, true, replies)->0).0;
    assert(lookup_next(before, reply) is Some);
    lemma_lookup_step(track, replies, reply);
}

/// What is stated of a song, an action and a reply holds of what they are made of.
pub proof fn law_views_of_lookups_are_faithful(
    song: Song,
    lower: LowerSong,
    action: LookupAction,
    reply: LookupReply,
)
    ensures
        song@.id == song.id@,
        song@.title == song.title@,
        song@.artist == opt_text(song.artist),
        lower@.title == lower.title@,
        lower@.artist == opt_text(lower.artist),
        match action {
            LookupAction::CheckCancelled => action@ is CheckCancelled,
            LookupAction::Search { query } => action@ is Search && action@->query == query@,
            LookupAction::TriggerScan => action@ is TriggerScan,
            LookupAction::Pause { delay_ms } => action@ is Pause && action@->delay_ms == delay_ms,
            LookupAction::Finish { song_id } => action@ is Finish && action@->song_id == opt_text(
                song_id,
            ),
        },
        match reply {
            LookupReply::Cancelled(c) => reply@ == LookupReplyText::Cancelled(c),
            LookupReply::Found(found) => {
                &&& reply@ is Found
                &&& reply@->Found_0 is Some <==> found is Some
                &&& found is Some ==> {
                    let songs = reply@->Found_0->0;
                    &&& songs.len() == (found->0)@.len()
                    &&& forall|i: int|
                        0 <= i < songs.len() ==> #[trigger] songs[i] == (found->0)@[i]@
                }
            },
            LookupReply::Scanned => reply@ is Scanned,
            LookupReply::Paused => reply@ is Paused,
        },
{
}

} // verus!
