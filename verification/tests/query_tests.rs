use runner_status::query::{badge_for, classify_status};
use runner_status::record::NodeRecord;
use runner_status::StatusCache;
use runner_status::StatusClass;

fn cache_with(entries: &[(&str, &str)]) -> StatusCache {
    let mut cache = StatusCache::new(0);
    let records: Vec<NodeRecord> = entries
        .iter()
        .map(|(hostname, status)| NodeRecord {
            hostname: hostname.to_string(),
            status: status.to_string(),
            creation_index: 0,
        })
        .collect();
    cache.refresh_step(Ok(records), 1).unwrap();
    cache
}

#[test]
fn ready_sentinel_classified_and_badged() {
    let cache = cache_with(&[("client-1", "ready")]);
    let class = cache.client_status("client-1");
    assert!(matches!(class, StatusClass::Ready));
    let badge = badge_for(&class);
    assert_eq!(badge.label, "Ready", "Expected 'Ready' status for client-1");
    assert_eq!(
        badge.background, "green",
        "Expected green background for ready status"
    );
    assert_eq!(badge.text_color, "white");
}

#[test]
fn down_sentinel_classified_and_badged() {
    let cache = cache_with(&[("client-1", "down")]);
    let class = cache.client_status("client-1");
    assert!(matches!(class, StatusClass::Down));
    let badge = badge_for(&class);
    assert_eq!(badge.label, "Down");
    assert_eq!(badge.background, "red");
    assert_eq!(badge.text_color, "white");
}

#[test]
fn other_status_shown_verbatim() {
    let cache = cache_with(&[("client-3", "initializing")]);
    let class = cache.client_status("client-3");
    match &class {
        StatusClass::Other(status) => assert_eq!(status, "initializing"),
        _ => panic!("Expected 'initializing' status for client-3"),
    }
    let badge = badge_for(&class);
    assert_eq!(badge.label, "initializing");
    assert_eq!(badge.background, "white");
    assert_eq!(badge.text_color, "black");
}

#[test]
fn absent_hostname_reads_not_connected() {
    let cache = cache_with(&[("client-1", "ready")]);
    let class = cache.client_status("nonexistent-client");
    assert!(
        matches!(class, StatusClass::NotConnected),
        "Expected 'Not connected' for non-existent client"
    );
    let badge = badge_for(&class);
    assert_eq!(badge.label, "Not connected");
    assert_eq!(badge.background, "red");
    assert_eq!(badge.text_color, "white");
}

#[test]
fn classify_status_works_on_bare_lookup_results() {
    assert!(matches!(classify_status(None), StatusClass::NotConnected));
    assert!(matches!(
        classify_status(Some(&"ready".to_string())),
        StatusClass::Ready
    ));
    assert!(matches!(
        classify_status(Some(&"down".to_string())),
        StatusClass::Down
    ));
    match classify_status(Some(&"draining".to_string())) {
        StatusClass::Other(status) => assert_eq!(status, "draining"),
        _ => panic!("Expected the raw status to be carried through"),
    }
}

#[test]
fn upstream_status_html_escaped_in_badge() {
    // A status containing markup must not reach the page unescaped.
    let cache = cache_with(&[("client-with-xss", "<script>alert('xss')</script>")]);
    let class = cache.client_status("client-with-xss");
    let badge = badge_for(&class);
    assert!(
        !badge.label.contains("<script>"),
        "Script tag in status should be escaped"
    );
    assert_eq!(
        badge.label, "&#60;script&#62;alert(&#39;xss&#39;)&#60;/script&#62;",
        "Expected HTML-escaped script tag in status"
    );
}

#[test]
fn escaping_covers_every_significant_character() {
    let cache = cache_with(&[("h", "a\"b&c'd<e>f")]);
    let badge = badge_for(&cache.client_status("h"));
    assert_eq!(badge.label, "a&#34;b&#38;c&#39;d&#60;e&#62;f");
}
