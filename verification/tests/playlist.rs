use csv_import::batch::initial_cache;
use csv_import::playlist::{ensure_playlist, EnsureAction, PlaylistCache, PlaylistRequest};

fn key(text: &str) -> String {
    text.to_string()
}

fn pair(a: &str, b: &str) -> (String, String) {
    (a.to_string(), b.to_string())
}

#[test]
fn a_cache_maps_keys_to_their_last_id() {
    let mut cache = PlaylistCache::new();
    assert_eq!(cache.get(&key("a")), None);
    cache.insert(key("a"), key("1"));
    cache.insert(key("b"), key("2"));
    cache.insert(key("a"), key("3"));
    assert_eq!(cache.get(&key("a")), Some(key("3")));
    assert_eq!(cache.get(&key("b")), Some(key("2")));
    assert_eq!(cache.get(&key("A")), None);
}

#[test]
fn entries_are_taken_as_they_are() {
    let cache = PlaylistCache::from_entries(vec![pair("Mix", "1"), pair("Mix", "2")]);
    assert_eq!(cache.get(&key("Mix")), Some(key("2")));
    assert_eq!(cache.get(&key("mix")), None);
}

#[test]
fn existing_playlists_are_cached_in_lowercase() {
    let cache = initial_cache(Some(vec![pair("Road Trip", "7"), pair("ÉTÉ", "8")]));
    assert_eq!(cache.get(&key("road trip")), Some(key("7")));
    assert_eq!(cache.get(&key("été")), Some(key("8")));
    assert_eq!(cache.get(&key("Road Trip")), None);
}

#[test]
fn without_a_server_the_cache_is_empty() {
    assert_eq!(initial_cache(None).get(&key("road trip")), None);
}

#[test]
fn nothing_is_ensured_without_a_name_or_a_server() {
    assert_eq!(ensure_playlist("", true), None);
    assert_eq!(ensure_playlist("Mix", false), None);
    assert_eq!(
        ensure_playlist("Mix", true),
        Some(PlaylistRequest { name: key("Mix"), cache_key: key("mix") })
    );
}

#[test]
fn a_playlist_is_created_once() {
    let mut cache = initial_cache(None);
    let first = ensure_playlist("Mix", true).unwrap();
    assert_eq!(first.on_read(&cache), EnsureAction::LockCache);
    assert_eq!(first.on_locked(&cache), EnsureAction::Create { name: key("Mix") });
    assert_eq!(first.on_created(&mut cache, Ok(key("42"))), Some(key("42")));

    let again = ensure_playlist("MIX", true).unwrap();
    let found = EnsureAction::Finish { playlist_id: Some(key("42")) };
    assert_eq!(again.on_read(&cache), found);
    assert_eq!(again.on_locked(&cache), found);

    let other = ensure_playlist("Other", true).unwrap();
    assert_eq!(other.on_locked(&cache), EnsureAction::Create { name: key("Other") });
    assert_eq!(other.on_created(&mut cache, Err(key("refused"))), None);
    assert_eq!(cache.get(&key("other")), None);
    assert_eq!(cache.get(&key("mix")), Some(key("42")));
}

#[test]
fn a_playlist_that_exists_is_not_created() {
    let cache = initial_cache(Some(vec![pair("Summer", "9")]));
    let request = ensure_playlist("sUMMER", true).unwrap();
    assert_eq!(
        request.on_read(&cache),
        EnsureAction::Finish { playlist_id: Some(key("9")) }
    );
}

#[test]
fn of_several_playlists_the_last_is_found() {
    let cache = initial_cache(Some(vec![pair("Mix", "1"), pair("MIX", "2"), pair("Other", "3")]));
    let request = ensure_playlist("mix", true).unwrap();
    assert_eq!(request.on_read(&cache), EnsureAction::Finish { playlist_id: Some(key("2")) });
}

#[test]
fn a_playlist_made_by_another_task_is_found_under_the_lock() {
    let mut cache = initial_cache(None);
    let slow = ensure_playlist("Mix", true).unwrap();
    assert_eq!(slow.on_read(&cache), EnsureAction::LockCache);

    let fast = ensure_playlist("mix", true).unwrap();
    assert_eq!(fast.on_locked(&cache), EnsureAction::Create { name: key("mix") });
    assert_eq!(fast.on_created(&mut cache, Ok(key("5"))), Some(key("5")));

    assert_eq!(slow.on_locked(&cache), EnsureAction::Finish { playlist_id: Some(key("5")) });
}
