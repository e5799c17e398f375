use devkit::catalog::CatalogEntry;
use devkit::catalog::CatalogStore;
use devkit::catalog::RefreshAction;
use devkit::ErrorKind;

fn entry(candidate: &str, version: &str, url: &str, latest_stable: bool) -> CatalogEntry {
    CatalogEntry {
        candidate: candidate.to_string(),
        version: version.to_string(),
        url: url.to_string(),
        latest_stable,
    }
}

fn snapshot() -> Vec<CatalogEntry> {
    vec![
        entry("groovy", "2.4.13", "https://downloads.example/groovy-2.4.13-", false),
        entry("groovy", "3.0.0", "https://downloads.example/groovy-3.0.0-", true),
        entry("scala", "2.13.1", "https://downloads.example/scala-2.13.1-", true),
        entry("gradle", "6.0", "https://downloads.example/gradle-6.0-", false),
    ]
}

#[test]
fn offline_with_empty_cache_serves_nothing_and_stays_off_the_network() {
    let mut store = CatalogStore::new();
    store.set_offline(true);
    // The only thing that may reach the network is a Fetch plan; the
    // spy for network access is therefore the refresh plan itself.
    assert_eq!(store.refresh_plan(), RefreshAction::UseCache);
    assert!(matches!(store.list(None), Err(ErrorKind::NotFound)));
    assert!(matches!(store.list(Some(&"groovy".to_string())), Err(ErrorKind::NotFound)));
    assert_eq!(store.latest_stable(&"groovy".to_string()), Err(ErrorKind::NotFound));
}

#[test]
fn online_store_plans_a_fetch() {
    let store = CatalogStore::new();
    assert_eq!(store.refresh_plan(), RefreshAction::Fetch);
}

#[test]
fn refresh_failure_without_cache_surfaces_network_error() {
    let store = CatalogStore::new();
    assert_eq!(store.refresh_failed(), Err(ErrorKind::NetworkUnavailable));
}

#[test]
fn refresh_failure_with_cache_is_absorbed() {
    let mut store = CatalogStore::new();
    store.apply_refresh(snapshot(), 10);
    assert_eq!(store.refresh_failed(), Ok(()));
}

#[test]
fn refresh_replaces_snapshot_wholesale() {
    let mut store = CatalogStore::new();
    store.apply_refresh(snapshot(), 10);
    assert_eq!(store.list(None).unwrap().len(), 4);
    store.apply_refresh(vec![entry("kotlin", "1.3.50", "https://downloads.example/kotlin-", true)], 20);
    let entries = store.list(None).unwrap();
    assert_eq!(entries.len(), 1);
    assert_eq!(entries[0].candidate, "kotlin");
    assert_eq!(store.fetched_at, 20);
}

#[test]
fn list_filters_by_candidate() {
    let mut store = CatalogStore::new();
    store.apply_refresh(snapshot(), 10);
    let groovy = store.list(Some(&"groovy".to_string())).unwrap();
    assert_eq!(groovy.len(), 2);
    for e in &groovy {
        assert_eq!(e.candidate, "groovy");
    }
    let none = store.list(Some(&"kotlin".to_string())).unwrap();
    assert!(none.is_empty());
}

#[test]
fn latest_stable_picks_the_marked_version() {
    let mut store = CatalogStore::new();
    store.apply_refresh(snapshot(), 10);
    assert_eq!(store.latest_stable(&"groovy".to_string()), Ok("3.0.0".to_string()));
    assert_eq!(store.latest_stable(&"scala".to_string()), Ok("2.13.1".to_string()));
    // gradle is known but nothing is marked stable
    assert_eq!(store.latest_stable(&"gradle".to_string()), Err(ErrorKind::NotFound));
    assert_eq!(store.latest_stable(&"kotlin".to_string()), Err(ErrorKind::NotFound));
}

#[test]
fn url_for_finds_the_pair() {
    let mut store = CatalogStore::new();
    store.apply_refresh(snapshot(), 10);
    assert_eq!(
        store.url_for(&"groovy".to_string(), &"2.4.13".to_string()),
        Some("https://downloads.example/groovy-2.4.13-".to_string())
    );
    assert_eq!(store.url_for(&"groovy".to_string(), &"9.9".to_string()), None);
}

#[test]
fn has_candidate_reflects_snapshot() {
    let mut store = CatalogStore::new();
    assert!(!store.has_candidate(&"groovy".to_string()));
    store.apply_refresh(snapshot(), 10);
    assert!(store.has_candidate(&"groovy".to_string()));
    assert!(!store.has_candidate(&"kotlin".to_string()));
}
