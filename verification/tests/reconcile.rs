use torrent_watch::cache::{TorrentCache, CACHE_CAPACITY};
use torrent_watch::diff::{
    classify, invalidation_for, observe, process_torrents, Change, Classification, Invalidation,
};
use torrent_watch::torrents::{percent_changed, Status, Tag, Torrent, Torrents};

fn torrent(hash: &str, directory: &str, percent: f64) -> Torrent {
    Torrent {
        bytes_done: 0,
        date_active: 0,
        date_added: 0,
        date_created: 0,
        date_finished: 0,
        directory: Some(directory.to_string()),
        down_rate: 0,
        down_total: 0,
        eta: -1,
        hash: hash.to_string(),
        is_private: false,
        is_initial_seeding: false,
        is_sequential: false,
        message: String::new(),
        name: format!("name of {}", hash),
        peers_connected: 0,
        peers_total: 0,
        percent_complete: percent.to_bits(),
        priority: 1,
        ratio: 0.0f64.to_bits(),
        seeds_connected: 0,
        seeds_total: 0,
        size_bytes: 1024,
        status: vec![Status::Downloading, Status::Other("checking".to_string())],
        tags: vec![Tag::Radarr],
        tracker_ur_is: vec!["udp://tracker.example:80".to_string()],
        up_rate: 0,
        up_total: 0,
    }
}

fn snapshot(records: Vec<Torrent>) -> Torrents {
    let mut torrents = Torrents::new(1);
    for record in records {
        assert_eq!(torrents.insert(record.hash.clone(), record), None);
    }
    torrents
}

fn forget(directory: &str) -> Option<Invalidation> {
    Some(Invalidation { directory: directory.to_string(), outside_mount: false })
}

#[test]
fn percent_comparison_agrees_with_doubles() {
    let values = [
        0.0f64,
        -0.0,
        50.0,
        50.000000000000007,
        99.99,
        100.0,
        -1.5,
        f64::MIN_POSITIVE,
        f64::MAX,
        f64::INFINITY,
        f64::NEG_INFINITY,
        f64::NAN,
        -f64::NAN,
    ];
    for a in values {
        for b in values {
            assert_eq!(percent_changed(a.to_bits(), b.to_bits()), a != b, "{} against {}", a, b);
        }
    }
}

#[test]
fn percent_comparison_has_no_tolerance() {
    let fifty = 50.0f64;
    let next = f64::from_bits(fifty.to_bits() + 1);
    assert!(percent_changed(fifty.to_bits(), next.to_bits()));
    assert!(!percent_changed(fifty.to_bits(), fifty.to_bits()));
}

#[test]
fn the_two_zeros_are_the_same_percent() {
    assert!(!percent_changed(0.0f64.to_bits(), (-0.0f64).to_bits()));
    assert!(!percent_changed(0x8000_0000_0000_0000, 0));
}

#[test]
fn nan_differs_from_itself() {
    assert!(percent_changed(f64::NAN.to_bits(), f64::NAN.to_bits()));
    assert!(percent_changed(0x7ff0_0000_0000_0001, 0x7ff0_0000_0000_0001));
    assert!(!percent_changed(0x7ff0_0000_0000_0000, 0x7ff0_0000_0000_0000));
}

#[test]
fn classify_absent_is_new() {
    let seen = torrent("h1", "/mnt/data/a", 10.0);
    assert_eq!(classify(None, &seen), Classification::New);
}

#[test]
fn classify_same_percent_is_unchanged() {
    let before = torrent("h1", "/mnt/data/a", 10.0);
    let mut now = torrent("h1", "/mnt/data/elsewhere", 10.0);
    now.bytes_done = 99;
    assert_eq!(classify(Some(&before), &now), Classification::Unchanged);
}

#[test]
fn classify_other_percent_is_updated() {
    let before = torrent("h1", "/mnt/data/a", 10.0);
    let now = torrent("h1", "/mnt/data/a", 10.5);
    assert_eq!(classify(Some(&before), &now), Classification::Updated);
    assert_eq!(classify(Some(&now), &before), Classification::Updated);
}

#[test]
fn invalidation_names_the_directory_below_the_mount() {
    let seen = torrent("h1", "/mnt/data/movies/foo", 50.0);
    assert_eq!(
        invalidation_for("/mnt/data", &seen),
        Invalidation { directory: "movies/foo".to_string(), outside_mount: false }
    );
}

#[test]
fn invalidation_of_the_mount_itself_is_the_root() {
    let seen = torrent("h1", "/mnt/data", 50.0);
    assert_eq!(
        invalidation_for("/mnt/data", &seen),
        Invalidation { directory: "/".to_string(), outside_mount: false }
    );
}

#[test]
fn invalidation_outside_the_mount_passes_the_directory_on() {
    let seen = torrent("h1", "/other/path", 50.0);
    assert_eq!(
        invalidation_for("/mnt/data", &seen),
        Invalidation { directory: "/other/path".to_string(), outside_mount: true }
    );
}

#[test]
fn invalidation_without_readable_directory_is_the_root() {
    let mut seen = torrent("h1", "/mnt/data/movies/foo", 50.0);
    seen.directory = None;
    assert_eq!(
        invalidation_for("/mnt/data", &seen),
        Invalidation { directory: "/".to_string(), outside_mount: false }
    );
}

#[test]
fn observe_classifies_before_it_stores() {
    let mut cache = TorrentCache::new();
    let first = observe(&mut cache, "/mnt/data", "h1".to_string(), torrent("h1", "/mnt/data/a", 10.0));
    assert_eq!(first.classification, Classification::New);
    assert_eq!(first.previous, None);
    assert_eq!(first.hash, "h1");
    assert_eq!(first.name, "name of h1");
    assert_eq!(first.percent_complete, 10.0f64.to_bits());
    assert_eq!(first.invalidation, forget("a"));

    let second = observe(&mut cache, "/mnt/data", "h1".to_string(), torrent("h1", "/mnt/data/a", 20.0));
    assert_eq!(second.classification, Classification::Updated);
    assert_eq!(second.previous, Some(torrent("h1", "/mnt/data/a", 10.0)));
    assert_eq!(second.invalidation, forget("a"));
    assert_eq!(cache.peek("h1"), Some(&torrent("h1", "/mnt/data/a", 20.0)));
    assert_eq!(cache.len(), 1);
}

#[test]
fn observe_stores_an_unchanged_record_too() {
    let mut cache = TorrentCache::new();
    observe(&mut cache, "/mnt/data", "h1".to_string(), torrent("h1", "/mnt/data/a", 10.0));
    let mut moved = torrent("h1", "/mnt/data/b", 10.0);
    moved.bytes_done = 7;
    let change = observe(&mut cache, "/mnt/data", "h1".to_string(), moved.clone());
    assert_eq!(change.classification, Classification::Unchanged);
    assert_eq!(change.invalidation, None);
    assert_eq!(change.previous, Some(torrent("h1", "/mnt/data/a", 10.0)));
    assert_eq!(cache.peek("h1"), Some(&moved));
}

#[test]
fn three_polls_of_one_torrent() {
    let mut cache = TorrentCache::new();
    let mount = "/mnt/data";

    let first = process_torrents(&mut cache, mount, snapshot(vec![torrent("h1", "/mnt/data/movies/foo", 50.0)]));
    assert_eq!(first.len(), 1);
    assert_eq!(first[0].classification, Classification::New);
    assert_eq!(first[0].invalidation, forget("movies/foo"));

    let second = process_torrents(&mut cache, mount, snapshot(vec![torrent("h1", "/mnt/data/movies/foo", 50.0)]));
    assert_eq!(second.len(), 1);
    assert_eq!(second[0].classification, Classification::Unchanged);
    assert_eq!(second[0].invalidation, None);

    let third = process_torrents(&mut cache, mount, snapshot(vec![torrent("h1", "/mnt/data/movies/foo", 100.0)]));
    assert_eq!(third.len(), 1);
    assert_eq!(third[0].classification, Classification::Updated);
    assert_eq!(third[0].invalidation, forget("movies/foo"));
    assert_eq!(third[0].previous, Some(torrent("h1", "/mnt/data/movies/foo", 50.0)));
}

#[test]
fn findings_come_in_the_order_of_the_records() {
    let mut cache = TorrentCache::new();
    process_torrents(
        &mut cache,
        "/mnt/data",
        snapshot(vec![torrent("b", "/mnt/data/b", 1.0), torrent("c", "/mnt/data/c", 2.0)]),
    );
    let changes: Vec<Change> = process_torrents(
        &mut cache,
        "/mnt/data",
        snapshot(vec![
            torrent("a", "/mnt/data/a", 0.0),
            torrent("b", "/mnt/data/b", 1.0),
            torrent("c", "/mnt/data/c", 3.0),
        ]),
    );
    let hashes: Vec<&str> = changes.iter().map(|c| c.hash.as_str()).collect();
    assert_eq!(hashes, vec!["a", "b", "c"]);
    let kinds: Vec<Classification> = changes.iter().map(|c| c.classification).collect();
    assert_eq!(kinds, vec![Classification::New, Classification::Unchanged, Classification::Updated]);
    let commands: Vec<Option<Invalidation>> = changes.into_iter().map(|c| c.invalidation).collect();
    assert_eq!(commands, vec![forget("a"), None, forget("c")]);
}

#[test]
fn every_record_of_a_snapshot_is_in_the_cache_afterwards() {
    let mut cache = TorrentCache::new();
    process_torrents(&mut cache, "/mnt/data", snapshot(vec![torrent("b", "/mnt/data/b", 1.0)]));
    let records =
        vec![torrent("a", "/x", 0.0), torrent("b", "/mnt/data/b", 1.0), torrent("c", "/mnt/data/c", 3.0)];
    process_torrents(&mut cache, "/mnt/data", snapshot(records.clone()));
    for record in &records {
        assert_eq!(cache.peek(&record.hash), Some(record));
    }
    assert_eq!(cache.len(), 3);
}

#[test]
fn an_empty_snapshot_changes_nothing() {
    let mut cache = TorrentCache::new();
    process_torrents(&mut cache, "/mnt/data", snapshot(vec![torrent("a", "/mnt/data/a", 1.0)]));
    let changes = process_torrents(&mut cache, "/mnt/data", snapshot(vec![]));
    assert!(changes.is_empty());
    assert_eq!(cache.len(), 1);
    assert_eq!(cache.peek("a"), Some(&torrent("a", "/mnt/data/a", 1.0)));
}

#[test]
fn a_snapshot_keeps_one_record_for_a_hash() {
    let mut torrents = Torrents::new(42);
    assert_eq!(torrents.id(), 42);
    assert_eq!(torrents.len(), 0);
    assert_eq!(torrents.get(&"a".to_string()), None);
    assert_eq!(torrents.insert("a".to_string(), torrent("a", "/1", 1.0)), None);
    assert_eq!(torrents.insert("b".to_string(), torrent("b", "/2", 2.0)), None);
    assert_eq!(torrents.insert("a".to_string(), torrent("a", "/3", 3.0)), Some(torrent("a", "/1", 1.0)));
    assert_eq!(torrents.len(), 2);
    assert_eq!(torrents.get(&"a".to_string()), Some(&torrent("a", "/3", 3.0)));
    assert_eq!(torrents.get(&"b".to_string()), Some(&torrent("b", "/2", 2.0)));
    let listed = torrents.into_records();
    assert_eq!(
        listed,
        vec![("b".to_string(), torrent("b", "/2", 2.0)), ("a".to_string(), torrent("a", "/3", 3.0))]
    );
}

#[test]
fn new_cache_is_empty_and_holds_a_thousand() {
    assert_eq!(CACHE_CAPACITY, 1000);
    let mut cache = TorrentCache::new();
    assert_eq!(cache.len(), 0);
    assert_eq!(cache.get("h1"), None);
    for i in 0..CACHE_CAPACITY {
        let hash = format!("h{}", i);
        assert_eq!(cache.put(hash.clone(), torrent(&hash, "/mnt/data", 0.0)), None);
    }
    assert_eq!(cache.len(), CACHE_CAPACITY);
    assert!(cache.peek("h0").is_some());
    assert_eq!(cache.put("one more".to_string(), torrent("one more", "/mnt/data", 0.0)), None);
    assert_eq!(cache.len(), CACHE_CAPACITY);
    assert_eq!(cache.peek("h0"), None);
    assert!(cache.peek("h1").is_some());
    assert!(cache.peek("h999").is_some());
    assert!(cache.peek("one more").is_some());
}

#[test]
fn with_capacity_accepts_one_to_a_thousand() {
    assert!(TorrentCache::with_capacity(0).is_none());
    assert!(TorrentCache::with_capacity(1).is_some());
    assert!(TorrentCache::with_capacity(CACHE_CAPACITY).is_some());
    assert!(TorrentCache::with_capacity(CACHE_CAPACITY + 1).is_none());
    assert!(TorrentCache::with_capacity(usize::MAX).is_none());
}

#[test]
fn put_returns_what_the_hash_had() {
    let mut cache = TorrentCache::with_capacity(2).unwrap();
    assert_eq!(cache.put("a".to_string(), torrent("a", "/1", 1.0)), None);
    assert_eq!(cache.put("a".to_string(), torrent("a", "/2", 2.0)), Some(torrent("a", "/1", 1.0)));
    assert_eq!(cache.len(), 1);
    assert_eq!(cache.get("a"), Some(&torrent("a", "/2", 2.0)));
}

#[test]
fn full_cache_forgets_the_least_recently_used() {
    let mut cache = TorrentCache::with_capacity(2).unwrap();
    cache.put("a".to_string(), torrent("a", "/a", 1.0));
    cache.put("b".to_string(), torrent("b", "/b", 1.0));
    cache.put("c".to_string(), torrent("c", "/c", 1.0));
    assert_eq!(cache.peek("a"), None);
    assert!(cache.peek("b").is_some());
    assert!(cache.peek("c").is_some());
    assert_eq!(cache.len(), 2);
}

#[test]
fn get_counts_as_use() {
    let mut cache = TorrentCache::with_capacity(2).unwrap();
    cache.put("a".to_string(), torrent("a", "/a", 1.0));
    cache.put("b".to_string(), torrent("b", "/b", 1.0));
    assert!(cache.get("a").is_some());
    cache.put("c".to_string(), torrent("c", "/c", 1.0));
    assert!(cache.peek("a").is_some());
    assert_eq!(cache.peek("b"), None);
    assert!(cache.peek("c").is_some());
}

#[test]
fn peek_does_not_count_as_use() {
    let mut cache = TorrentCache::with_capacity(2).unwrap();
    cache.put("a".to_string(), torrent("a", "/a", 1.0));
    cache.put("b".to_string(), torrent("b", "/b", 1.0));
    assert!(cache.peek("a").is_some());
    cache.put("c".to_string(), torrent("c", "/c", 1.0));
    assert_eq!(cache.peek("a"), None);
    assert!(cache.peek("b").is_some());
}

#[test]
fn put_of_a_held_hash_counts_as_use_and_evicts_nothing() {
    let mut cache = TorrentCache::with_capacity(2).unwrap();
    cache.put("a".to_string(), torrent("a", "/a", 1.0));
    cache.put("b".to_string(), torrent("b", "/b", 1.0));
    cache.put("a".to_string(), torrent("a", "/a", 2.0));
    assert_eq!(cache.len(), 2);
    cache.put("c".to_string(), torrent("c", "/c", 1.0));
    assert!(cache.peek("a").is_some());
    assert_eq!(cache.peek("b"), None);
}

#[test]
fn an_evicted_hash_comes_back_as_new() {
    let mut cache = TorrentCache::with_capacity(2).unwrap();
    let mount = "/mnt/data";
    process_torrents(
        &mut cache,
        mount,
        snapshot(vec![torrent("a", "/mnt/data/a", 1.0), torrent("b", "/mnt/data/b", 1.0)]),
    );
    let third = process_torrents(&mut cache, mount, snapshot(vec![torrent("c", "/mnt/data/c", 1.0)]));
    assert_eq!(third[0].classification, Classification::New);
    let again = process_torrents(&mut cache, mount, snapshot(vec![torrent("a", "/mnt/data/a", 1.0)]));
    assert_eq!(again[0].classification, Classification::New);
    assert_eq!(again[0].previous, None);
    assert_eq!(again[0].invalidation, forget("a"));
    assert_eq!(cache.peek("b"), None);
}

#[test]
fn a_snapshot_larger_than_the_cache_loses_its_first_records() {
    let mut cache = TorrentCache::with_capacity(2).unwrap();
    let records =
        vec![torrent("a", "/mnt/data/a", 1.0), torrent("b", "/mnt/data/b", 1.0), torrent("c", "/mnt/data/c", 1.0)];
    let changes = process_torrents(&mut cache, "/mnt/data", snapshot(records));
    assert_eq!(changes.len(), 3);
    assert_eq!(cache.peek("a"), None);
    assert!(cache.peek("b").is_some());
    assert!(cache.peek("c").is_some());
}
