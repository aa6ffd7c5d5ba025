use link_citation::cache::{ChannelMetadata, FetchError, IdleCache};

fn meta(channel_id: u64, name: &str, restricted: bool) -> ChannelMetadata {
    ChannelMetadata {
        channel_id,
        display_name: name.to_string(),
        is_restricted: restricted,
    }
}

#[test]
fn second_access_within_idle_window_is_a_hit() {
    let mut cache: IdleCache<ChannelMetadata> = IdleCache::new(10, 3600);
    let first = cache.get_or_fetch(7, 100, || Ok(meta(7, "general", false)));
    assert_eq!(first, Ok(meta(7, "general", false)));
    // A second access without an intervening idle timeout must not consult
    // the fetcher: a fetch here would fail the call.
    let second = cache.get_or_fetch(7, 200, || Err(FetchError::Transport));
    assert_eq!(second, Ok(meta(7, "general", false)));
}

#[test]
fn access_after_idle_timeout_fetches_afresh() {
    let mut cache: IdleCache<ChannelMetadata> = IdleCache::new(10, 3600);
    let first = cache.get_or_fetch(7, 100, || Ok(meta(7, "general", false)));
    assert_eq!(first, Ok(meta(7, "general", false)));
    // Exactly the idle duration later the entry is gone and the fetcher
    // decides again.
    let second = cache.get_or_fetch(7, 3700, || Ok(meta(7, "renamed", false)));
    assert_eq!(second, Ok(meta(7, "renamed", false)));
    // ... and the fresh value is what is now cached.
    let third = cache.get_or_fetch(7, 3800, || Err(FetchError::Transport));
    assert_eq!(third, Ok(meta(7, "renamed", false)));
}

#[test]
fn access_just_inside_idle_window_still_hits() {
    let mut cache: IdleCache<ChannelMetadata> = IdleCache::new(10, 3600);
    cache.insert(7, meta(7, "general", false), 100);
    assert_eq!(cache.lookup(7, 3699), Some(meta(7, "general", false)));
    // The hit itself restarts the idle timer at 3699.
    assert_eq!(cache.lookup(7, 3699 + 3599), Some(meta(7, "general", false)));
}

#[test]
fn failed_fetch_is_propagated_and_writes_nothing() {
    let mut cache: IdleCache<ChannelMetadata> = IdleCache::new(10, 3600);
    let r = cache.get_or_fetch(7, 100, || Err(FetchError::NotFound));
    assert_eq!(r, Err(FetchError::NotFound));
    assert_eq!(cache.lookup(7, 100), None);
}

#[test]
fn hits_refresh_the_idle_timer() {
    let mut cache: IdleCache<ChannelMetadata> = IdleCache::new(10, 10);
    cache.insert(7, meta(7, "general", false), 0);
    // Touch the entry every 5 seconds; it stays alive far past the idle
    // timeout counted from insertion.
    for t in [5u64, 10, 15, 20, 25] {
        assert_eq!(cache.lookup(7, t), Some(meta(7, "general", false)), "{}", t);
    }
    // Left alone for the full idle duration, it expires.
    assert_eq!(cache.lookup(7, 35), None);
}

#[test]
fn full_cache_evicts_least_recently_accessed() {
    let mut cache: IdleCache<ChannelMetadata> = IdleCache::new(2, 3600);
    cache.insert(1, meta(1, "one", false), 10);
    cache.insert(2, meta(2, "two", false), 11);
    // Touch key 1 so key 2 becomes the least recently accessed.
    assert_eq!(cache.lookup(1, 12), Some(meta(1, "one", false)));
    cache.insert(3, meta(3, "three", false), 13);
    assert_eq!(cache.lookup(2, 14), None);
    assert_eq!(cache.lookup(1, 14), Some(meta(1, "one", false)));
    assert_eq!(cache.lookup(3, 14), Some(meta(3, "three", false)));
}

#[test]
fn reinsert_replaces_the_value_for_an_existing_key() {
    let mut cache: IdleCache<String> = IdleCache::new(2, 3600);
    cache.insert(1, "old".to_string(), 10);
    cache.insert(1, "new".to_string(), 20);
    assert_eq!(cache.lookup(1, 21), Some("new".to_string()));
}

#[test]
fn the_two_cache_shapes_age_independently() {
    // The metadata cache and the name cache are two instances of the same
    // component; refreshing one does not refresh the other.
    let mut metadata: IdleCache<ChannelMetadata> = IdleCache::new(10, 3600);
    let mut names: IdleCache<String> = IdleCache::new(10, 3600);
    metadata.insert(7, meta(7, "general", false), 0);
    names.insert(7, "general".to_string(), 0);
    // Keep the metadata entry warm while the name entry idles out.
    assert_eq!(
        metadata.lookup(7, 3000),
        Some(meta(7, "general", false))
    );
    assert_eq!(metadata.lookup(7, 6000), Some(meta(7, "general", false)));
    assert_eq!(names.lookup(7, 6000), None);
}
