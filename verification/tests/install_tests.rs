use devkit::catalog::CatalogEntry;
use devkit::catalog::CatalogStore;
use devkit::install::InstallAction;
use devkit::install::InstallManager;
use devkit::install::RemoteOutcome;
use devkit::registry::InstallSource;
use devkit::registry::Registry;
use devkit::ErrorKind;

fn catalog_with_groovy() -> CatalogStore {
    let mut store = CatalogStore::new();
    store.apply_refresh(
        vec![
            CatalogEntry {
                candidate: "groovy".to_string(),
                version: "3.0.0".to_string(),
                url: "https://downloads.example/groovy-3.0.0-".to_string(),
                latest_stable: true,
            },
            CatalogEntry {
                candidate: "gradle".to_string(),
                version: "6.0".to_string(),
                url: "https://downloads.example/gradle-6.0-".to_string(),
                latest_stable: false,
            },
        ],
        10,
    );
    store
}

#[test]
fn remote_install_happy_path() {
    let mut reg = Registry::new();
    let cat = catalog_with_groovy();
    let mut mgr = InstallManager::new(false);
    let c = "groovy".to_string();
    let plan = mgr.begin_install(&reg, &cat, &c, None, None).expect("resolvable");
    assert_eq!(plan.version, "3.0.0");
    match &plan.action {
        InstallAction::FetchRemote { url } => {
            assert_eq!(url, "https://downloads.example/groovy-3.0.0-");
        }
        _ => panic!("expected a remote fetch"),
    }
    let record = mgr
        .complete_remote(
            &mut reg,
            &c,
            &plan.version,
            "/opt/registry/groovy/3.0.0".to_string(),
            Some("digest".to_string()),
            RemoteOutcome::Moved,
            77,
        )
        .expect("registered");
    assert_eq!(record.candidate, "groovy");
    assert_eq!(record.version, "3.0.0");
    assert_eq!(record.source, InstallSource::Remote);
    assert_eq!(record.timestamp, 77);
    assert_eq!(reg.list(Some(&c)).len(), 1);
}

#[test]
fn second_installer_of_a_pair_waits() {
    let mut reg = Registry::new();
    let cat = catalog_with_groovy();
    let mut mgr = InstallManager::new(false);
    let c = "groovy".to_string();
    let first = mgr.begin_install(&reg, &cat, &c, None, None).expect("first acquires");
    assert!(matches!(first.action, InstallAction::FetchRemote { .. }));
    // Exactly one caller acquires the work: the racing caller is told
    // to wait, not to download.
    let second = mgr.begin_install(&reg, &cat, &c, None, None).expect("second waits");
    assert!(matches!(second.action, InstallAction::Wait));
}

#[test]
fn waiting_installer_succeeds_trivially_after_the_first_finishes() {
    let mut reg = Registry::new();
    let cat = catalog_with_groovy();
    let mut mgr = InstallManager::new(false);
    let c = "groovy".to_string();
    let first = mgr.begin_install(&reg, &cat, &c, None, None).unwrap();
    let second = mgr.begin_install(&reg, &cat, &c, None, None).unwrap();
    assert!(matches!(second.action, InstallAction::Wait));
    mgr.complete_remote(
        &mut reg,
        &c,
        &first.version,
        "/opt/registry/groovy/3.0.0".to_string(),
        None,
        RemoteOutcome::Moved,
        1,
    )
    .unwrap();
    let retry = mgr.begin_install(&reg, &cat, &c, None, None).unwrap();
    assert!(matches!(retry.action, InstallAction::AlreadyInstalled));
    assert_eq!(reg.list(Some(&c)).len(), 1);
}

#[test]
fn second_installer_fails_in_strict_mode() {
    let mut reg = Registry::new();
    let cat = catalog_with_groovy();
    let mut mgr = InstallManager::new(true);
    let c = "groovy".to_string();
    let first = mgr.begin_install(&reg, &cat, &c, None, None).expect("first acquires");
    assert!(matches!(first.action, InstallAction::FetchRemote { .. }));
    let second = mgr.begin_install(&reg, &cat, &c, None, None);
    assert!(matches!(second, Err(ErrorKind::AlreadyInstalling)));
}

#[test]
fn installed_pair_needs_no_work() {
    let mut reg = Registry::new();
    let cat = catalog_with_groovy();
    let mut mgr = InstallManager::new(false);
    let c = "groovy".to_string();
    let plan = mgr.begin_install(&reg, &cat, &c, None, None).unwrap();
    mgr.complete_remote(
        &mut reg,
        &c,
        &plan.version,
        "/opt/registry/groovy/3.0.0".to_string(),
        None,
        RemoteOutcome::Moved,
        1,
    )
    .unwrap();
    let again = mgr.begin_install(&reg, &cat, &c, None, None).unwrap();
    assert!(matches!(again.action, InstallAction::AlreadyInstalled));
    assert_eq!(reg.list(Some(&c)).len(), 1);
}

#[test]
fn failed_acquisitions_leave_no_trace() {
    let mut reg = Registry::new();
    let cat = catalog_with_groovy();
    let c = "groovy".to_string();
    let failures = [
        (RemoteOutcome::NetworkFailed, ErrorKind::NetworkUnavailable),
        (RemoteOutcome::ArchiveCorrupt, ErrorKind::CorruptArchive),
        (RemoteOutcome::MoveFailed, ErrorKind::InstallIncomplete),
    ];
    for (outcome, expected) in failures {
        let mut mgr = InstallManager::new(false);
        let plan = mgr.begin_install(&reg, &cat, &c, None, None).unwrap();
        let r = mgr.complete_remote(
            &mut reg,
            &c,
            &plan.version,
            "/opt/registry/groovy/3.0.0".to_string(),
            None,
            outcome,
            1,
        );
        assert_eq!(r.err(), Some(expected));
        assert!(reg.list(None).is_empty(), "registry must be untouched after {:?}", outcome);
        // The claim is released, so a later attempt may acquire again.
        let retry = mgr.begin_install(&reg, &cat, &c, None, None).unwrap();
        assert!(matches!(retry.action, InstallAction::FetchRemote { .. }));
    }
}

#[test]
fn unknown_candidate_fails_resolution() {
    let reg = Registry::new();
    let cat = catalog_with_groovy();
    let mut mgr = InstallManager::new(false);
    let r = mgr.begin_install(&reg, &cat, &"kotlin".to_string(), None, None);
    assert!(matches!(r, Err(ErrorKind::NoSuchCandidate)));
}

#[test]
fn known_candidate_without_stable_version_fails_resolution() {
    let reg = Registry::new();
    let cat = catalog_with_groovy();
    let mut mgr = InstallManager::new(false);
    let r = mgr.begin_install(&reg, &cat, &"gradle".to_string(), None, None);
    assert!(matches!(r, Err(ErrorKind::NoVersionsAvailable)));
}

#[test]
fn explicit_version_without_catalog_entry_fails() {
    let reg = Registry::new();
    let cat = catalog_with_groovy();
    let mut mgr = InstallManager::new(false);
    let r = mgr.begin_install(&reg, &cat, &"groovy".to_string(), Some("9.9".to_string()), None);
    assert!(matches!(r, Err(ErrorKind::NoVersionsAvailable)));
    let r2 = mgr.begin_install(&reg, &cat, &"kotlin".to_string(), Some("1.0".to_string()), None);
    assert!(matches!(r2, Err(ErrorKind::NoSuchCandidate)));
}

#[test]
fn local_install_links_without_copying() {
    let mut reg = Registry::new();
    let cat = catalog_with_groovy();
    let mut mgr = InstallManager::new(false);
    let c = "groovy".to_string();
    let plan = mgr
        .begin_install(
            &reg,
            &cat,
            &c,
            Some("2.4.13-local".to_string()),
            Some("/home/dev/groovy".to_string()),
        )
        .unwrap();
    match &plan.action {
        InstallAction::LinkLocal { path } => assert_eq!(path, "/home/dev/groovy"),
        _ => panic!("expected a local link"),
    }
    let record = mgr
        .complete_local(&mut reg, &c, &plan.version, "/home/dev/groovy".to_string(), true, true, 5)
        .expect("registered by reference");
    assert_eq!(record.source, InstallSource::LocalPath);
    assert_eq!(record.install_path, "/home/dev/groovy");
    assert!(record.checksum.is_none());
}

#[test]
fn invalid_local_path_is_rejected() {
    let mut reg = Registry::new();
    let cat = catalog_with_groovy();
    let c = "groovy".to_string();
    let mut mgr = InstallManager::new(false);
    let plan = mgr
        .begin_install(&reg, &cat, &c, Some("x".to_string()), Some("/missing".to_string()))
        .unwrap();
    let r = mgr.complete_local(&mut reg, &c, &plan.version, "/missing".to_string(), false, false, 5);
    assert_eq!(r.err(), Some(ErrorKind::NotFound));
    let r2 = mgr.begin_install(&reg, &cat, &c, Some("x".to_string()), Some("/nobin".to_string()));
    let plan2 = r2.unwrap();
    let r3 = mgr.complete_local(&mut reg, &c, &plan2.version, "/nobin".to_string(), true, false, 5);
    assert_eq!(r3.err(), Some(ErrorKind::NotFound));
    assert!(reg.list(None).is_empty());
}
