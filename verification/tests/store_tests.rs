use pr_forest::pages::{index_page, repo_page, PageKind};
use pr_forest::poller::{poll_step, FetchOutcome};
use pr_forest::record::{RawAuthor, RawLabel, RawPr};
use pr_forest::store::{Snapshot, SnapshotStore};

fn raw(number: usize, base: &str, head: &str) -> RawPr {
    RawPr {
        author: Some(RawAuthor { name: Some("alice".to_string()) }),
        base: Some(base.to_string()),
        head: Some(head.to_string()),
        number: Some(number),
        title: Some(format!("Title {number}")),
        url: Some(format!("http://example.test/{number}")),
        labels: Some(Vec::new()),
    }
}

fn body_of(store: &SnapshotStore, key: &str) -> Option<String> {
    match store.get(&key.to_string()) {
        Some(Snapshot::Ready { rendered_body, .. }) => Some(rendered_body.clone()),
        Some(Snapshot::Failed { reason }) => Some(reason.clone()),
        None => None,
    }
}

#[test]
fn empty_store_has_no_snapshot() {
    let store = SnapshotStore::new();
    assert!(store.get(&"org/repo".to_string()).is_none());
}

#[test]
fn put_then_get_returns_the_snapshot() {
    let mut store = SnapshotStore::new();
    store.put(
        "org/repo".to_string(),
        Snapshot::Ready {
            rendered_body: "<html>x</html>".to_string(),
            generated_at: "2024-01-01T00:00:00Z".to_string(),
            render_duration_ms: 5,
        },
    );
    assert_eq!(body_of(&store, "org/repo"), Some("<html>x</html>".to_string()));
}

#[test]
fn put_replaces_the_whole_snapshot() {
    let mut store = SnapshotStore::new();
    store.put(
        "org/repo".to_string(),
        Snapshot::Failed { reason: "first".to_string() },
    );
    store.put(
        "org/repo".to_string(),
        Snapshot::Failed { reason: "second".to_string() },
    );
    assert_eq!(body_of(&store, "org/repo"), Some("second".to_string()));
    assert_eq!(store.keys(), vec!["org/repo".to_string()]);
}

#[test]
fn unknown_repository_page_is_the_fixed_plain_response() {
    let store = SnapshotStore::new();
    let (kind, body) = repo_page(&store, "org", "repo");
    assert_eq!(kind, PageKind::Plain);
    assert_eq!(body, "Unknown repository");
}

#[test]
fn known_repository_page_serves_the_snapshot_body() {
    let mut store = SnapshotStore::new();
    store.put(
        "org/repo".to_string(),
        Snapshot::Ready {
            rendered_body: "<html>page</html>".to_string(),
            generated_at: "2024-01-01T00:00:00Z".to_string(),
            render_duration_ms: 1,
        },
    );
    let (kind, body) = repo_page(&store, "org", "repo");
    assert_eq!(kind, PageKind::Html);
    assert_eq!(body, "<html>page</html>");
}

#[test]
fn process_failure_publishes_failed_snapshot() {
    let mut store = SnapshotStore::new();
    poll_step(
        &mut store,
        &"org/repo".to_string(),
        FetchOutcome::ProcessFailed { status_desc: "exit status: 1".to_string() },
        "2024-01-01T00:00:00Z".to_string(),
        3,
    );
    match store.get(&"org/repo".to_string()) {
        Some(Snapshot::Failed { reason }) => {
            assert_eq!(reason.as_str(), "gh cli command exited with code exit status: 1");
        },
        other => panic!("expected a Failed snapshot, got {:?}", other.is_some()),
    }
}

#[test]
fn successful_cycle_after_failure_replaces_it_with_ready() {
    let mut store = SnapshotStore::new();
    let repo = "org/repo".to_string();
    poll_step(
        &mut store,
        &repo,
        FetchOutcome::ProcessFailed { status_desc: "exit status: 1".to_string() },
        "2024-01-01T00:00:00Z".to_string(),
        3,
    );
    poll_step(
        &mut store,
        &repo,
        FetchOutcome::Fetched { raws: vec![raw(1, "main", "feat-a")] },
        "2024-01-02T00:00:00Z".to_string(),
        7,
    );
    assert!(matches!(store.get(&repo), Some(Snapshot::Ready { .. })));
}

#[test]
fn decode_failure_keeps_the_prior_ready_snapshot() {
    let mut store = SnapshotStore::new();
    let repo = "org/repo".to_string();
    poll_step(
        &mut store,
        &repo,
        FetchOutcome::Fetched { raws: vec![raw(1, "main", "feat-a")] },
        "2024-01-01T00:00:00Z".to_string(),
        2,
    );
    let before = body_of(&store, "org/repo").unwrap();

    let mut incomplete = raw(2, "main", "feat-b");
    incomplete.url = None;
    poll_step(
        &mut store,
        &repo,
        FetchOutcome::Fetched { raws: vec![incomplete] },
        "2024-01-02T00:00:00Z".to_string(),
        2,
    );
    assert_eq!(body_of(&store, "org/repo"), Some(before.clone()));

    poll_step(
        &mut store,
        &repo,
        FetchOutcome::Malformed,
        "2024-01-03T00:00:00Z".to_string(),
        2,
    );
    assert_eq!(body_of(&store, "org/repo"), Some(before));
}

#[test]
fn successful_cycle_publishes_the_exact_page_body() {
    let mut store = SnapshotStore::new();
    let repo = "org/repo".to_string();
    let mut labeled = raw(1, "main", "feat-a");
    labeled.author = Some(RawAuthor { name: None });
    labeled.labels = Some(vec![RawLabel {
        name: Some("bug".to_string()),
        color: Some("red".to_string()),
    }]);
    poll_step(
        &mut store,
        &repo,
        FetchOutcome::Fetched { raws: vec![labeled] },
        "2024-01-01T00:00:00Z".to_string(),
        5,
    );
    let expected = "<html><body><h1>org/repo</h1></hr><ul>\n<li>PR #<a href=\"http://example.test/1\">1</a> by bot: Title 1&nbsp;<span style=\"font-family: arial; font-weight: bold; color: red\">bug</span>\n<ul>\n</ul>\n</li>\n</ul>\n<hr/>Last updated: 2024-01-01T00:00:00Z<br/>Generated in 5ms</body><html>";
    assert_eq!(body_of(&store, "org/repo"), Some(expected.to_string()));
}

#[test]
fn pollers_for_different_repositories_do_not_interfere() {
    let mut store = SnapshotStore::new();
    poll_step(
        &mut store,
        &"org/one".to_string(),
        FetchOutcome::Fetched { raws: vec![raw(1, "main", "feat-a")] },
        "2024-01-01T00:00:00Z".to_string(),
        1,
    );
    poll_step(
        &mut store,
        &"org/two".to_string(),
        FetchOutcome::ProcessFailed { status_desc: "exit status: 2".to_string() },
        "2024-01-01T00:00:00Z".to_string(),
        1,
    );
    assert!(matches!(store.get(&"org/one".to_string()), Some(Snapshot::Ready { .. })));
    assert!(matches!(store.get(&"org/two".to_string()), Some(Snapshot::Failed { .. })));
    assert_eq!(store.keys(), vec!["org/one".to_string(), "org/two".to_string()]);
}

#[test]
fn index_page_lists_every_monitored_repository() {
    let mut store = SnapshotStore::new();
    store.put(
        "org/one".to_string(),
        Snapshot::Failed { reason: "x".to_string() },
    );
    store.put(
        "org/two".to_string(),
        Snapshot::Ready {
            rendered_body: "<html>y</html>".to_string(),
            generated_at: "2024-01-01T00:00:00Z".to_string(),
            render_duration_ms: 1,
        },
    );
    let keys = store.keys();
    let expected = "<html><body><h1>Monitored GitHub Repositories</h1><hr/><ul>\n<li><a href=\"/org/one\">org/one</a></li>\n<li><a href=\"/org/two\">org/two</a></li>\n</ul></body></html>";
    assert_eq!(index_page(&keys), expected);
}

#[test]
fn index_page_of_no_repositories_is_the_empty_listing() {
    let store = SnapshotStore::new();
    let expected = "<html><body><h1>Monitored GitHub Repositories</h1><hr/><ul>\n</ul></body></html>";
    assert_eq!(index_page(&store.keys()), expected);
}

#[test]
fn decimal_rendering_is_exact() {
    assert_eq!(pr_forest::numfmt::decimal_string(0), "0");
    assert_eq!(pr_forest::numfmt::decimal_string(7), "7");
    assert_eq!(pr_forest::numfmt::decimal_string(10), "10");
    assert_eq!(pr_forest::numfmt::decimal_string(42), "42");
    assert_eq!(pr_forest::numfmt::decimal_string(100), "100");
    assert_eq!(pr_forest::numfmt::decimal_string(60000), "60000");
    assert_eq!(pr_forest::numfmt::decimal_string(u64::MAX), "18446744073709551615");
}
