use runner_status::errors::RefreshError;
use runner_status::record::NodeRecord;
use runner_status::reconcile::reconcile;
use runner_status::status_map::StatusMap;
use runner_status::StatusCache;

fn record(hostname: &str, status: &str, creation_index: u128) -> NodeRecord {
    NodeRecord {
        hostname: hostname.to_string(),
        status: status.to_string(),
        creation_index,
    }
}

#[test]
fn lookup_never_fetched_is_absent_not_an_error() {
    let cache = StatusCache::new(1_000);
    assert_eq!(cache.lookup("client-1"), None);
    assert_eq!(cache.last_refresh(), 1_000);
}

#[test]
fn replace_all_decides_every_lookup_by_the_new_snapshot() {
    let mut cache = StatusCache::new(0);

    let mut first = StatusMap::new();
    first.insert("a".to_string(), "ready".to_string());
    first.insert("b".to_string(), "down".to_string());
    cache.replace_all(first, 10);
    assert_eq!(cache.lookup("a"), Some(&"ready".to_string()));
    assert_eq!(cache.lookup("b"), Some(&"down".to_string()));
    assert_eq!(cache.last_refresh(), 10);

    let mut second = StatusMap::new();
    second.insert("b".to_string(), "initializing".to_string());
    second.insert("c".to_string(), "ready".to_string());
    cache.replace_all(second, 20);

    // Every hostname of the new snapshot resolves to its new status, and
    // a hostname absent from it is absent even though it was present before.
    assert_eq!(cache.lookup("a"), None);
    assert_eq!(cache.lookup("b"), Some(&"initializing".to_string()));
    assert_eq!(cache.lookup("c"), Some(&"ready".to_string()));
    assert_eq!(cache.last_refresh(), 20);
}

#[test]
fn refresh_step_installs_reconciled_snapshot() {
    // Upstream reports client-1 twice; the cache ends with the newer status.
    let mut cache = StatusCache::new(0);
    let records = vec![
        record("client-1", "ready", 5),
        record("client-1", "down", 9),
    ];
    let outcome = cache.refresh_step(Ok(records), 100);
    assert_eq!(outcome, Ok(1));
    assert_eq!(cache.lookup("client-1"), Some(&"down".to_string()));
    assert_eq!(cache.last_refresh(), 100);
}

#[test]
fn refresh_step_without_creation_index_defaults() {
    // Older data shapes omit the creation index; the caller supplies 0.
    let mut cache = StatusCache::new(0);
    let records = vec![record("a", "ready", 0), record("b", "initializing", 0)];
    let outcome = cache.refresh_step(Ok(records), 50);
    assert_eq!(outcome, Ok(2));
    assert_eq!(cache.lookup("a"), Some(&"ready".to_string()));
    assert_eq!(cache.lookup("b"), Some(&"initializing".to_string()));
    assert_eq!(cache.lookup("c"), None);
}

#[test]
fn three_clients_populated() {
    let mut cache = StatusCache::new(0);
    let records = vec![
        record("client-1", "ready", 0),
        record("client-2", "ready", 0),
        record("client-3", "initializing", 0),
    ];
    let outcome = cache.refresh_step(Ok(records), 60);
    assert_eq!(outcome, Ok(3), "Expected 3 clients to be populated");
    assert_eq!(cache.lookup("client-1"), Some(&"ready".to_string()));
    assert_eq!(cache.lookup("client-2"), Some(&"ready".to_string()));
    assert_eq!(cache.lookup("client-3"), Some(&"initializing".to_string()));
}

fn snapshots_identical(cache: &StatusCache, entries: &StatusMap, at: i64) {
    let (now_entries, now_at) = cache.snapshot();
    assert_eq!(now_at, at);
    assert_eq!(now_entries.num_entries(), entries.num_entries());
    for i in 0..entries.num_entries() {
        let before = entries.entry_at(i);
        let after = now_entries.entry_at(i);
        assert_eq!(before.hostname, after.hostname);
        assert_eq!(before.status, after.status);
    }
}

#[test]
fn failed_fetch_preserves_snapshot_and_timestamp() {
    let mut cache = StatusCache::new(0);
    let records = vec![record("a", "ready", 1), record("b", "down", 2)];
    cache.refresh_step(Ok(records), 10).unwrap();
    let (entries_before, at_before) = cache.snapshot();

    // A timed-out upstream request surfaces as a transport failure; the
    // cache — entries and timestamp — is exactly as before the attempt.
    let outcome = cache.refresh_step(Err(RefreshError::TransportFailure), 99);
    assert_eq!(outcome, Err(RefreshError::TransportFailure));
    snapshots_identical(&cache, &entries_before, at_before);
    assert_eq!(cache.last_refresh(), 10);
}

#[test]
fn http_500_preserves_snapshot_like_transport_failure() {
    let mut cache = StatusCache::new(0);
    let records = vec![record("a", "ready", 1)];
    cache.refresh_step(Ok(records), 10).unwrap();
    let (entries_before, at_before) = cache.snapshot();

    let outcome = cache.refresh_step(Err(RefreshError::UpstreamRejected(500)), 99);
    assert_eq!(outcome, Err(RefreshError::UpstreamRejected(500)));
    snapshots_identical(&cache, &entries_before, at_before);

    let outcome = cache.refresh_step(Err(RefreshError::MalformedResponse), 99);
    assert_eq!(outcome, Err(RefreshError::MalformedResponse));
    snapshots_identical(&cache, &entries_before, at_before);

    let outcome = cache.refresh_step(Err(RefreshError::LockUnavailable), 99);
    assert_eq!(outcome, Err(RefreshError::LockUnavailable));
    snapshots_identical(&cache, &entries_before, at_before);
}

#[test]
fn refresh_against_wall_clock_installs_and_preserves() {
    let mut cache = StatusCache::new(0);
    let records = vec![record("a", "ready", 1)];
    assert_eq!(cache.refresh(Ok(records)), Ok(1));
    assert_eq!(cache.lookup("a"), Some(&"ready".to_string()));
    let at = cache.last_refresh();

    assert_eq!(
        cache.refresh(Err(RefreshError::TransportFailure)),
        Err(RefreshError::TransportFailure)
    );
    assert_eq!(cache.lookup("a"), Some(&"ready".to_string()));
    assert_eq!(cache.last_refresh(), at);
}

#[test]
fn snapshot_is_a_copy_unaffected_by_later_refreshes() {
    let mut cache = StatusCache::new(0);
    cache
        .refresh_step(Ok(vec![record("a", "ready", 1)]), 10)
        .unwrap();
    let (entries, at) = cache.snapshot();

    cache
        .refresh_step(Ok(vec![record("b", "down", 2)]), 20)
        .unwrap();
    assert_eq!(at, 10);
    assert_eq!(entries.num_entries(), 1);
    assert_eq!(entries.get("a"), Some(&"ready".to_string()));
    assert_eq!(entries.get("b"), None);
}

#[test]
fn non_success_http_statuses_reject_the_cycle() {
    assert_eq!(RefreshError::from_http_status(200), None);
    assert_eq!(RefreshError::from_http_status(204), None);
    assert_eq!(RefreshError::from_http_status(299), None);
    assert_eq!(
        RefreshError::from_http_status(500),
        Some(RefreshError::UpstreamRejected(500))
    );
    assert_eq!(
        RefreshError::from_http_status(301),
        Some(RefreshError::UpstreamRejected(301))
    );
    assert_eq!(
        RefreshError::from_http_status(199),
        Some(RefreshError::UpstreamRejected(199))
    );
}

#[test]
fn describe_names_each_error_kind() {
    assert_eq!(
        RefreshError::TransportFailure.describe(),
        "transport failure reaching the upstream"
    );
    assert_eq!(
        RefreshError::UpstreamRejected(500).describe(),
        "upstream rejected the request"
    );
    assert_eq!(
        RefreshError::MalformedResponse.describe(),
        "upstream response body was malformed"
    );
    assert_eq!(
        RefreshError::LockUnavailable.describe(),
        "cache lock unavailable"
    );
}
