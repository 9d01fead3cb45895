//! Playlists of the music server: a cache of their ids, and making sure that one exists.

use crate::text::{lowercase_of, opt_text, to_lowercase};
use vstd::prelude::*;

verus! {

/// The ids of playlists, keyed by lowercased playlist name. No key occurs twice.
pub struct PlaylistCache {
    entries: Vec<(String, String)>,
}

/// What a list of keys and ids maps each key to; a later entry for a key replaces an earlier one.
pub open spec fn id_map(entries: Seq<(Seq<char>, Seq<char>)>) -> Map<Seq<char>, Seq<char>>
    decreases entries.len(),
{
    if entries.len() == 0 {
        Map::empty()
    } else {
        id_map(entries.drop_last()).insert(entries.last().0, entries.last().1)
    }
}

/// The texts of a list of pairs of strings.
pub open spec fn pair_texts(pairs: Seq<(String, String)>) -> Seq<(Seq<char>, Seq<char>)> {
    pairs.map_values(|p: (String, String)| (p.0@, p.1@))
}

/// A list of playlists, names and ids, with the names lowercased.
pub open spec fn lowered(playlists: Seq<(Seq<char>, Seq<char>)>) -> Seq<(Seq<char>, Seq<char>)> {
    playlists.map_values(|p: (Seq<char>, Seq<char>)| (lowercase_of(p.0), p.1))
}

/// Whether no key occurs twice.
spec fn distinct_keys(entries: Seq<(Seq<char>, Seq<char>)>) -> bool {
    forall|i: int, j: int|
        0 <= i < j < entries.len() ==> (#[trigger] entries[i]).0 != (#[trigger] entries[j]).0
}

/// With distinct keys, the map holds exactly the entries.
proof fn lemma_id_map(entries: Seq<(Seq<char>, Seq<char>)>)
    requires
        distinct_keys(entries),
    ensures
        forall|i: int|
            0 <= i < entries.len() ==> id_map(entries).contains_key((#[trigger] entries[i]).0)
                && id_map(entries)[entries[i].0] == entries[i].1,
        forall|k: Seq<char>| #[trigger]
            id_map(entries).contains_key(k) ==> exists|i: int|
                0 <= i < entries.len() && (#[trigger] entries[i]).0 == k,
    decreases entries.len(),
{
    if entries.len() > 0 {
        let front = entries.drop_last();
        lemma_id_map(front);
        assert forall|i: int| 0 <= i < entries.len() implies id_map(entries).contains_key(
            (#[trigger] entries[i]).0,
        ) && id_map(entries)[entries[i].0] == entries[i].1 by {
            if i < front.len() {
                assert(front[i] == entries[i]);
            }
        }
        assert forall|k: Seq<char>| #[trigger] id_map(entries).contains_key(k) implies exists|i: int|
            0 <= i < entries.len() && (#[trigger] entries[i]).0 == k by {
            if k == entries.last().0 {
                assert(entries[entries.len() - 1].0 == k);
            } else {
                assert(id_map(front).contains_key(k));
                let i = choose|i: int| 0 <= i < front.len() && (#[trigger] front[i]).0 == k;
                assert(entries[i].0 == k);
            }
        }
    }
}

impl View for PlaylistCache {
    type V = Map<Seq<char>, Seq<char>>;

    closed spec fn view(&self) -> Map<Seq<char>, Seq<char>> {
        id_map(pair_texts(self.entries@))
    }
}

impl PlaylistCache {
    #[verifier::type_invariant]
    spec fn keys_are_distinct(&self) -> bool {
        distinct_keys(pair_texts(self.entries@))
    }

    /// An empty cache.
    pub fn new() -> (cache: PlaylistCache)
        ensures
            cache@ == Map::<Seq<char>, Seq<char>>::empty(),
    {
        PlaylistCache { entries: Vec::new() }
    }

    /// The place of a key among the entries.
    fn position(&self, key: &String) -> (place: Option<usize>)
        ensures
            match place {
                Some(i) => i < self.entries@.len() && self.entries@[i as int].0@ == key@,
                None => forall|i: int|
                    0 <= i < self.entries@.len() ==> (#[trigger] self.entries@[i]).0@ != key@,
            },
    {
        let mut i: usize = 0;
        while i < self.entries.len()
            invariant
                i <= self.entries@.len(),
                forall|k: int| 0 <= k < i ==> (#[trigger] self.entries@[k]).0@ != key@,
            decreases self.entries@.len() - i,
        {
            if self.entries[i].0 == *key {
                return Some(i);
            }
            i += 1;
        }
        None
    }

    /// The id for a key, if it is cached.
    pub fn get(&self, key: &String) -> (id: Option<String>)
        ensures
            match id {
                Some(id) => self@.contains_key(key@) && self@[key@] == id@,
                None => !self@.contains_key(key@),
            },
    {
        let ghost entries = pair_texts(self.entries@);
        proof {
            use_type_invariant(self);
            lemma_id_map(entries);
        }
        match self.position(key) {
            Some(i) => {
                proof {
                    assert(entries[i as int].0 == key@);
                }
                Some(self.entries[i].1.clone())
            },
            None => {
                proof {
                    assert forall|i: int| 0 <= i < entries.len() implies (
                    #[trigger] entries[i]).0 != key@ by {
                        assert(entries[i].0 == self.entries@[i].0@);
                    }
                }
                None
            },
        }
    }

    /// Caches an id under a key, in place of the one that was there.
    pub fn insert(&mut self, key: String, id: String)
        ensures
            final(self)@ == old(self)@.insert(key@, id@),
    {
        proof {
            use_type_invariant(&*self);
        }
        let place = self.position(&key);
        let mut entries: Vec<(String, String)> = Vec::new();
        std::mem::swap(&mut entries, &mut self.entries);
        let ghost before = pair_texts(entries@);
        proof {
            lemma_id_map(before);
        }
        match place {
            Some(i) => {
                let ghost new_entry = (key@, id@);
                proof {
                    assert(before[i as int].0 == key@);
                }
                entries.set(i, (key, id));
                proof {
                    let after = pair_texts(entries@);
                    assert(after =~= before.update(i as int, new_entry));
                    assert(distinct_keys(after)) by {
                        assert forall|a: int, b: int| 0 <= a < b < after.len() implies (
                        #[trigger] after[a]).0 != (#[trigger] after[b]).0 by {
                            assert(after[a].0 == before[a].0);
                            assert(after[b].0 == before[b].0);
                        }
                    }
                    lemma_id_map(after);
                    let m0 = id_map(before).insert(new_entry.0, new_entry.1);
                    let m1 = id_map(after);
                    assert forall|k: Seq<char>|
                        m0.contains_key(k) == #[trigger] m1.contains_key(k) && (m0.contains_key(k)
                            ==> m0[k] == m1[k]) by {
                        if m1.contains_key(k) {
                            let n = choose|n: int| 0 <= n < after.len() && (#[trigger] after[n]).0
                                == k;
                            assert(before[n].0 == k);
                        }
                        if m0.contains_key(k) {
                            if k == new_entry.0 {
                                assert(after[i as int].0 == k);
                            } else {
                                let n = choose|n: int|
                                    0 <= n < before.len() && (#[trigger] before[n]).0 == k;
                                assert(after[n] == before[n]);
                            }
                        }
                    }
                    assert(m0 =~= m1);
                }
            },
            None => {
                let ghost new_entry = (key@, id@);
                proof {
                    assert forall|n: int| 0 <= n < before.len() implies (
                    #[trigger] before[n]).0 != key@ by {
                        assert(before[n].0 == entries@[n].0@);
                    }
                }
                entries.push((key, id));
                proof {
                    let after = pair_texts(entries@);
                    assert(after =~= before.push(new_entry));
                    assert(after.drop_last() =~= before);
                    assert(distinct_keys(after)) by {
                        assert forall|a: int, b: int| 0 <= a < b < after.len() implies (
                        #[trigger] after[a]).0 != (#[trigger] after[b]).0 by {
                            assert(after[a] == before[a]);
                            if b < before.len() {
                                assert(after[b] == before[b]);
                            }
                        }
                    }
                }
            },
        }
        self.entries = entries;
    }

    /// Caches the given ids under the given keys.
    pub fn from_entries(entries: Vec<(String, String)>) -> (cache: PlaylistCache)
        ensures
            cache@ == id_map(pair_texts(entries@)),
    {
        let mut cache = PlaylistCache::new();
        let ghost all = pair_texts(entries@);
        let mut i: usize = 0;
        proof {
            assert(all.take(0) =~= seq![]);
        }
        while i < entries.len()
            invariant
                i <= entries.len(),
                all == pair_texts(entries@),
                cache@ == id_map(all.take(i as int)),
            decreases entries.len() - i,
        {
            proof {
                assert(all.take(i + 1).drop_last() =~= all.take(i as int));
                assert(all.take(i + 1).last() == (entries@[i as int].0@, entries@[i as int].1@));
            }
            cache.insert(entries[i].0.clone(), entries[i].1.clone());
            i += 1;
        }
        proof {
            assert(all.take(i as int) =~= all);
        }
        cache
    }

    /// Caches the playlists that the music server already has, given as names and ids, so that
    /// they are not created again.
    pub fn from_playlists(playlists: Vec<(String, String)>) -> (cache: PlaylistCache)
        ensures
            cache@ == id_map(lowered(pair_texts(playlists@))),
    {
        let mut entries: Vec<(String, String)> = Vec::new();
        let mut i: usize = 0;
        while i < playlists.len()
            invariant
                i <= playlists.len(),
                pair_texts(entries@) == lowered(pair_texts(playlists@)).take(i as int),
            decreases playlists.len() - i,
        {
            let ghost before = entries@;
            let key = to_lowercase(playlists[i].0.as_str());
            entries.push((key, playlists[i].1.clone()));
            proof {
                assert(pair_texts(entries@) =~= pair_texts(before).push(
                    (entries@.last().0@, entries@.last().1@),
                ));
                assert(lowered(pair_texts(playlists@)).take(i + 1) =~= lowered(
                    pair_texts(playlists@),
                ).take(i as int).push(lowered(pair_texts(playlists@))[i as int]));
            }
            i += 1;
        }
        proof {
            assert(lowered(pair_texts(playlists@)).take(i as int) =~= lowered(
                pair_texts(playlists@),
            ));
        }
        PlaylistCache::from_entries(entries)
    }
}

/// A playlist that is to exist: its name, and the key under which its id is cached.
#[derive(Debug, Clone, PartialEq, Eq)]
pub struct PlaylistRequest {
    pub name: String,
    pub cache_key: String,
}

/// What is to be done to make sure that a playlist exists.
#[derive(Debug, Clone, PartialEq, Eq)]
pub enum EnsureAction {
    /// There is nothing more to do; this is the playlist's id, if there is one.
    Finish { playlist_id: Option<String> },
    /// Take the cache for writing and look again.
    LockCache,
    /// Create an empty playlist with this name, keeping the cache locked.
    Create { name: String },
}

/// What an action asks for.
pub enum EnsureText {
    Finish { playlist_id: Option<Seq<char>> },
    LockCache,
    Create { name: Seq<char> },
}

impl View for EnsureAction {
    type V = EnsureText;

    open spec fn view(&self) -> EnsureText {
        match *self {
            EnsureAction::Finish { playlist_id } => EnsureText::Finish {
                playlist_id: opt_text(playlist_id),
            },
            EnsureAction::LockCache => EnsureText::LockCache,
            EnsureAction::Create { name } => EnsureText::Create { name: name@ },
        }
    }
}

/// Whether a playlist with the given name can exist: it needs a name and a music server.
pub open spec fn can_exist(name: Seq<char>, server_available: bool) -> bool {
    name.len() > 0 && server_available
}

/// Begins to make sure that a playlist exists. There is nothing to be done for an empty name or
/// without a music server.
pub fn ensure_playlist(playlist_name: &str, server_available: bool) -> (request: Option<
    PlaylistRequest,
>)
    ensures
        request is Some <==> can_exist(playlist_name@, server_available),
        request matches Some(r) ==> r.name@ == playlist_name@ && r.cache_key@ == lowercase_of(
            playlist_name@,
        ),
{
    if playlist_name.is_empty() || !server_available {
        return None;
    }
    Some(
        PlaylistRequest {
            name: playlist_name.to_string(),
            cache_key: to_lowercase(playlist_name),
        },
    )
}

/// The id that a cache holds under a key.
pub open spec fn cached(cache: Map<Seq<char>, Seq<char>>, key: Seq<char>) -> Option<Seq<char>> {
    if cache.contains_key(key) {
        Some(cache[key])
    } else {
        None
    }
}

/// The cache and the playlist's id after an attempt to create it: a new id is cached; if there is
/// none, the cache is as before and there is no playlist.
pub open spec fn after_creation(
    cache: Map<Seq<char>, Seq<char>>,
    key: Seq<char>,
    created: Result<Seq<char>, Seq<char>>,
) -> (Map<Seq<char>, Seq<char>>, Option<Seq<char>>) {
    match created {
        Ok(id) => (cache.insert(key, id), Some(id)),
        Err(_) => (cache, None),
    }
}

/// What follows a look into the cache, taken for reading.
pub open spec fn after_read(cache: Map<Seq<char>, Seq<char>>, key: Seq<char>) -> EnsureText {
    match cached(cache, key) {
        Some(id) => EnsureText::Finish { playlist_id: Some(id) },
        None => EnsureText::LockCache,
    }
}

/// What follows a look into the locked cache.
pub open spec fn after_lock(
    cache: Map<Seq<char>, Seq<char>>,
    key: Seq<char>,
    name: Seq<char>,
) -> EnsureText {
    match cached(cache, key) {
        Some(id) => EnsureText::Finish { playlist_id: Some(id) },
        None => EnsureText::Create { name },
    }
}

impl PlaylistRequest {
    /// Looks into the cache, taken for reading: a cached id is the answer, and otherwise the cache
    /// is to be locked.
    pub fn on_read(&self, cache: &PlaylistCache) -> (action: EnsureAction)
        ensures
            action@ == after_read(cache@, self.cache_key@),
    {
        match cache.get(&self.cache_key) {
            Some(id) => EnsureAction::Finish { playlist_id: Some(id) },
            None => EnsureAction::LockCache,
        }
    }

    /// Looks into the locked cache, since another task may have created the playlist meanwhile: a
    /// cached id is the answer, and otherwise the playlist is to be created.
    pub fn on_locked(&self, cache: &PlaylistCache) -> (action: EnsureAction)
        ensures
            action@ == after_lock(cache@, self.cache_key@, self.name@),
    {
        match cache.get(&self.cache_key) {
            Some(id) => EnsureAction::Finish { playlist_id: Some(id) },
            None => EnsureAction::Create { name: self.name.clone() },
        }
    }

    /// Takes the outcome of creating the playlist, with the cache still locked, and gives its id.
    pub fn on_created(self, cache: &mut PlaylistCache, created: Result<String, String>) -> (id:
        Option<String>)
        ensures
            (final(cache)@, opt_text(id)) == after_creation(
                old(cache)@,
                self.cache_key@,
                match created {
                    Ok(new_id) => Ok(new_id@),
                    Err(e) => Err(e@),
                },
            ),
    {
        match created {
            Ok(new_id) => {
                cache.insert(self.cache_key, new_id.clone());
                Some(new_id)
            },
            Err(_) => None,
        }
    }
}

/// A playlist that is asked for: its name, whether there is a music server, and what comes of
/// creating the playlist if that is tried.
pub struct PlaylistCall {
    pub name: Seq<char>,
    pub server_available: bool,
    pub created: Result<Seq<char>, Seq<char>>,
}

/// The cache and the playlist's id after a call: none without a name or a music server, else the
/// cached id if there is one, and otherwise what comes of creating the playlist.
pub open spec fn ensured(cache: Map<Seq<char>, Seq<char>>, call: PlaylistCall) -> (
    Map<Seq<char>, Seq<char>>,
    Option<Seq<char>>,
) {
    if !can_exist(call.name, call.server_available) {
        (cache, None)
    } else {
        match cached(cache, lowercase_of(call.name)) {
            Some(id) => (cache, Some(id)),
            None => after_creation(cache, lowercase_of(call.name), call.created),
        }
    }
}

/// The cache and the playlist's id after the steps of a call, one by one: the cache is read, then
/// locked, by when other tasks may have added to it, and then the playlist is created, as far as
/// each step asks for the next.
pub open spec fn step_by_step(
    cache_read: Map<Seq<char>, Seq<char>>,
    cache_locked: Map<Seq<char>, Seq<char>>,
    call: PlaylistCall,
) -> (Map<Seq<char>, Seq<char>>, Option<Seq<char>>) {
    let key = lowercase_of(call.name);
    if !can_exist(call.name, call.server_available) {
        (cache_locked, None)
    } else {
        match after_read(cache_read, key) {
            EnsureText::Finish { playlist_id } => (cache_locked, playlist_id),
            _ => match after_lock(cache_locked, key, call.name) {
                EnsureText::Finish { playlist_id } => (cache_locked, playlist_id),
                _ => after_creation(cache_locked, key, call.created),
            },
        }
    }
}

/// The steps of a call give what the call as a whole does to the cache at the time at which it is
/// locked, whatever other tasks have added to it since it was read. The playlist is created exactly
/// if it is not cached by then, under the name that was asked for.
pub proof fn law_steps_make_up_a_call(
    cache_read: Map<Seq<char>, Seq<char>>,
    cache_locked: Map<Seq<char>, Seq<char>>,
    call: PlaylistCall,
)
    requires
        cache_read.submap_of(cache_locked),
    ensures
        step_by_step(cache_read, cache_locked, call) == ensured(cache_locked, call),
        can_exist(call.name, call.server_available) ==> {
            let key = lowercase_of(call.name);
            let created = EnsureText::Create { name: call.name };
            &&& after_read(cache_read, key) is LockCache && after_lock(cache_locked, key, call.name)
                == created <==> !cache_locked.contains_key(key)
            &&& after_read(cache_read, key) is Finish ==> cache_locked.contains_key(key)
        },
{
    let key = lowercase_of(call.name);
    if cache_read.contains_key(key) {
        assert(cache_locked.contains_key(key));
        assert(cache_locked[key] == cache_read[key]);
    }
}

/// The cache after a series of calls.
pub open spec fn cache_after(cache: Map<Seq<char>, Seq<char>>, calls: Seq<PlaylistCall>) -> Map<
    Seq<char>,
    Seq<char>,
>
    decreases calls.len(),
{
    if calls.len() == 0 {
        cache
    } else {
        ensured(cache_after(cache, calls.drop_last()), calls.last()).0
    }
}

/// Nothing that is cached is ever forgotten or changed: a playlist that exists is not created
/// again.
pub proof fn law_cache_only_grows(cache: Map<Seq<char>, Seq<char>>, calls: Seq<PlaylistCall>)
    ensures
        cache.submap_of(cache_after(cache, calls)),
    decreases calls.len(),
{
    if calls.len() > 0 {
        law_cache_only_grows(cache, calls.drop_last());
    }
}

/// A playlist that was ensured once stays: after any further calls, asking for it again, under any
/// name with the same lowercase form, gives the same id and creates nothing.
pub proof fn law_ensured_playlist_stays(
    cache: Map<Seq<char>, Seq<char>>,
    first: PlaylistCall,
    between: Seq<PlaylistCall>,
    again: PlaylistCall,
)
    requires
        ensured(cache, first).1 is Some,
        can_exist(again.name, again.server_available),
        lowercase_of(again.name) == lowercase_of(first.name),
    ensures
        ({
            let (after_first, id) = ensured(cache, first);
            let later = cache_after(after_first, between);
            ensured(later, again) == (later, id)
        }),
{
    let after_first = ensured(cache, first).0;
    law_cache_only_grows(after_first, between);
    assert(after_first.contains_key(lowercase_of(first.name)));
    assert(cache_after(after_first, between).contains_key(lowercase_of(first.name)));
}

/// A playlist that the music server had before is found under any name with the same lowercase
/// form, and is not created again; of several with that form it is the last.
pub proof fn law_existing_playlist_is_found(
    playlists: Seq<(Seq<char>, Seq<char>)>,
    i: int,
    call: PlaylistCall,
)
    requires
        0 <= i < playlists.len(),
        can_exist(call.name, call.server_available),
        lowercase_of(call.name) == lowercase_of(playlists[i].0),
    ensures
        ensured(id_map(lowered(playlists)), call).0 == id_map(lowered(playlists)),
        exists|j: int|
            #![trigger playlists[j]]
            i <= j < playlists.len() && lowercase_of(playlists[j].0) == lowercase_of(call.name)
                && (forall|k: int|
                j < k < playlists.len() ==> lowercase_of((#[trigger] playlists[k]).0)
                    != lowercase_of(call.name)) && ensured(id_map(lowered(playlists)), call).1
                == Some(playlists[j].1),
{
    let entries = lowered(playlists);
    assert(entries[i].0 == lowercase_of(playlists[i].0));
    let j = lemma_last_entry_counts(entries, i);
    assert(lowercase_of(playlists[j].0) == entries[j].0);
    assert forall|k: int| j < k < playlists.len() implies lowercase_of((#[trigger] playlists[k]).0)
        != lowercase_of(call.name) by {
        assert(entries[k].0 == lowercase_of(playlists[k].0));
    }
}

/// Every key of a list is in its map, with the id of the last entry for that key.
proof fn lemma_last_entry_counts(entries: Seq<(Seq<char>, Seq<char>)>, i: int) -> (j: int)
    requires
        0 <= i < entries.len(),
    ensures
        id_map(entries).contains_key(entries[i].0),
        i <= j < entries.len(),
        entries[j].0 == entries[i].0,
        forall|k: int| j < k < entries.len() ==> (#[trigger] entries[k]).0 != entries[i].0,
        id_map(entries)[entries[i].0] == entries[j].1,
    decreases entries.len(),
{
    let last = entries.len() - 1;
    if entries[last].0 == entries[i].0 {
        last
    } else {
        let front = entries.drop_last();
        assert(front[i] == entries[i]);
        let j = lemma_last_entry_counts(front, i);
        assert forall|k: int| j < k < entries.len() implies (#[trigger] entries[k]).0
            != entries[i].0 by {
            if k < front.len() {
                assert(front[k] == entries[k]);
            }
        }
        j
    }
}

/// What a call does: without a name or a music server nothing. Else a playlist that is cached is
/// given as it is cached, whatever else would come of creating it; one that is not is created, and
/// if that succeeds its new id, whatever it is, is given and cached, and nothing else is changed; if
/// it fails there is none and the cache is as before.
pub proof fn law_call_gives_the_playlist(
    cache_read: Map<Seq<char>, Seq<char>>,
    cache_locked: Map<Seq<char>, Seq<char>>,
    call: PlaylistCall,
)
    requires
        cache_read.submap_of(cache_locked),
    ensures
        ({
            let key = lowercase_of(call.name);
            let (after, id) = step_by_step(cache_read, cache_locked, call);
            let known = cache_locked.contains_key(key);
            &&& call.name.len() == 0 || !call.server_available ==> id is None && after
                == cache_locked
            &&& call.name.len() > 0 && call.server_available && known ==> id == Some(
                cache_locked[key],
            ) && after == cache_locked
            &&& call.name.len() > 0 && call.server_available && !known ==> match call.created {
                Ok(new_id) => id == Some(new_id) && after == cache_locked.insert(key, new_id),
                Err(e) => id is None && after == cache_locked,
            }
        }),
{
    law_steps_make_up_a_call(cache_read, cache_locked, call);
}

/// A playlist that was just created is kept: asking for it again, under any name with the same
/// lowercase form, finds the new id in the cache at once and creates nothing.
pub proof fn law_created_playlist_is_kept(
    cache: Map<Seq<char>, Seq<char>>,
    call: PlaylistCall,
    new_id: Seq<char>,
    again: PlaylistCall,
)
    requires
        call.name.len() > 0 && call.server_available,
        again.name.len() > 0 && again.server_available,
        lowercase_of(again.name) == lowercase_of(call.name),
        !cache.contains_key(lowercase_of(call.name)),
        call.created == Ok::<Seq<char>, Seq<char>>(new_id),
    ensures
        ({
            let (after, id) = step_by_step(cache, cache, call);
            &&& id == Some(new_id)
            &&& after_lock(cache, lowercase_of(call.name), call.name) == (EnsureText::Create {
                name: call.name,
            })
            &&& after_read(after, lowercase_of(again.name)) == (EnsureText::Finish {
                playlist_id: Some(new_id),
            })
            &&& step_by_step(after, after, again) == (after, Some(new_id))
        }),
{
    assert(cache.submap_of(cache));
    law_call_gives_the_playlist(cache, cache, call);
    let after = step_by_step(cache, cache, call).0;
    assert(after.submap_of(after));
    law_call_gives_the_playlist(after, after, again);
}

/// Whether the call at `i` of a series creates its playlist: it finds none in the cache that the
/// calls before it leave, and the creation succeeds.
pub open spec fn creates(
    cache: Map<Seq<char>, Seq<char>>,
    calls: Seq<PlaylistCall>,
    i: int,
) -> bool {
    let call = calls[i];
    let key = lowercase_of(call.name);
    let before = cache_after(cache, calls.take(i));
    &&& call.name.len() > 0 && call.server_available
    &&& after_read(before, key) is LockCache
    &&& after_lock(before, key, call.name) is Create
    &&& call.created is Ok
}

proof fn lemma_cache_after_more(
    cache: Map<Seq<char>, Seq<char>>,
    first: Seq<PlaylistCall>,
    second: Seq<PlaylistCall>,
)
    ensures
        cache_after(cache, first + second) == cache_after(cache_after(cache, first), second),
    decreases second.len(),
{
    if second.len() == 0 {
        assert(first + second =~= first);
    } else {
        assert((first + second).drop_last() =~= first + second.drop_last());
        lemma_cache_after_more(cache, first, second.drop_last());
    }
}

/// A playlist is created at most once: over any series of calls, two that create playlists do so for
/// names with different lowercase forms, and every later call for a created playlist gives the id
/// that its creation brought.
pub proof fn law_playlist_is_created_once(
    cache: Map<Seq<char>, Seq<char>>,
    calls: Seq<PlaylistCall>,
    i: int,
    j: int,
)
    requires
        0 <= i < j < calls.len(),
        creates(cache, calls, i),
        lowercase_of(calls[i].name) == lowercase_of(calls[j].name),
    ensures
        !creates(cache, calls, j),
        calls[j].name.len() > 0 && calls[j].server_available ==> {
            let before = cache_after(cache, calls.take(j));
            step_by_step(before, before, calls[j]) == (before, Some(calls[i].created->Ok_0))
        },
{
    let key = lowercase_of(calls[i].name);
    let at_i = cache_after(cache, calls.take(i));
    let past_i = cache_after(cache, calls.take(i + 1));
    let at_j = cache_after(cache, calls.take(j));
    assert(calls.take(i + 1).drop_last() =~= calls.take(i));
    assert(at_i.submap_of(at_i));
    law_call_gives_the_playlist(at_i, at_i, calls[i]);
    law_steps_make_up_a_call(at_i, at_i, calls[i]);
    assert(past_i.contains_key(key) && past_i[key] == calls[i].created->Ok_0);
    let between = calls.subrange(i + 1, j);
    assert(calls.take(i + 1) + between =~= calls.take(j));
    lemma_cache_after_more(cache, calls.take(i + 1), between);
    law_cache_only_grows(past_i, between);
    assert(at_j.contains_key(key));
    assert(at_j.submap_of(at_j));
    law_call_gives_the_playlist(at_j, at_j, calls[j]);
}

/// A map of keys and ids grows entry by entry, a later entry for a key replacing an earlier one, and
/// begins empty; so it holds a key exactly if some entry has it.
pub proof fn law_entries_are_mapped(
    entries: Seq<(Seq<char>, Seq<char>)>,
    key: Seq<char>,
    id: Seq<char>,
)
    ensures
        id_map(entries.push((key, id))) == id_map(entries).insert(key, id),
        id_map(Seq::empty()) == Map::<Seq<char>, Seq<char>>::empty(),
        id_map(entries).contains_key(key) <==> exists|i: int|
            0 <= i < entries.len() && (#[trigger] entries[i]).0 == key,
    decreases entries.len(),
{
    assert(entries.push((key, id)).drop_last() =~= entries);
    if entries.len() > 0 {
        let front = entries.drop_last();
        law_entries_are_mapped(front, key, id);
        if id_map(entries).contains_key(key) {
            if entries.last().0 == key {
                assert(entries[entries.len() - 1].0 == key);
            } else {
                let i = choose|i: int| 0 <= i < front.len() && (#[trigger] front[i]).0 == key;
                assert(entries[i].0 == key);
            }
        }
        if exists|i: int| 0 <= i < entries.len() && (#[trigger] entries[i]).0 == key {
            let i = choose|i: int| 0 <= i < entries.len() && (#[trigger] entries[i]).0 == key;
            if i < front.len() {
                assert(front[i].0 == key);
            }
        }
    }
}

/// A batch begins with no playlist that the music server does not have.
pub proof fn law_only_existing_playlists_are_cached(
    playlists: Seq<(Seq<char>, Seq<char>)>,
    key: Seq<char>,
)
    requires
        id_map(lowered(playlists)).contains_key(key),
    ensures
        exists|i: int|
            0 <= i < playlists.len() && lowercase_of((#[trigger] playlists[i]).0) == key,
{
    law_entries_are_mapped(lowered(playlists), key, key);
    let i = choose|i: int|
        0 <= i < lowered(playlists).len() && (#[trigger] lowered(playlists)[i]).0 == key;
    assert(lowercase_of(playlists[i].0) == key);
}

/// What is stated of an action holds of what it carries, and what is stated of a list of names and ids
/// of each pair in its place, with the name lowercased where it is.
pub proof fn law_views_of_playlists_are_faithful(
    action: EnsureAction,
    pairs: Seq<(String, String)>,
)
    ensures
        match action {
            EnsureAction::Finish { playlist_id } => action@ is Finish && action@->playlist_id
                == opt_text(playlist_id),
            EnsureAction::LockCache => action@ is LockCache,
            EnsureAction::Create { name } => action@ is Create && action@->name == name@,
        },
        pair_texts(pairs).len() == pairs.len(),
        forall|i: int|
            0 <= i < pairs.len() ==> #[trigger] pair_texts(pairs)[i] == (pairs[i].0@, pairs[i].1@),
        lowered(pair_texts(pairs)).len() == pairs.len(),
        forall|i: int|
            0 <= i < pairs.len() ==> #[trigger] lowered(pair_texts(pairs))[i] == (
                lowercase_of(pairs[i].0@),
                pairs[i].1@,
            ),
{
}

} // verus!
