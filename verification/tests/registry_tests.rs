use devkit::registry::InstallSource;
use devkit::registry::Registry;
use devkit::switcher::switch;
use devkit::switcher::Scope;
use devkit::switcher::SwitchEffect;
use devkit::ErrorKind;

fn install_groovy(reg: &mut Registry, version: &str, ts: u64) {
    let r = reg.register(
        "groovy".to_string(),
        version.to_string(),
        format!("/opt/registry/groovy/{}", version),
        InstallSource::Remote,
        Some("abc123".to_string()),
        ts,
    );
    assert!(r.is_ok());
}

#[test]
fn register_then_list_includes_pair() {
    let mut reg = Registry::new();
    install_groovy(&mut reg, "2.4.13", 100);
    let listed = reg.list(Some(&"groovy".to_string()));
    assert_eq!(listed.len(), 1);
    assert_eq!(listed[0].candidate, "groovy");
    assert_eq!(listed[0].version, "2.4.13");
    assert_eq!(listed[0].install_path, "/opt/registry/groovy/2.4.13");
    assert_eq!(listed[0].timestamp, 100);
    let all = reg.list(None);
    assert_eq!(all.len(), 1);
    let other = reg.list(Some(&"scala".to_string()));
    assert!(other.is_empty());
}

#[test]
fn register_duplicate_pair_is_refused() {
    let mut reg = Registry::new();
    install_groovy(&mut reg, "2.4.13", 100);
    let again = reg.register(
        "groovy".to_string(),
        "2.4.13".to_string(),
        "/elsewhere".to_string(),
        InstallSource::Remote,
        None,
        200,
    );
    assert_eq!(again.err(), Some(ErrorKind::AlreadyInstalling));
    assert_eq!(reg.list(None).len(), 1);
}

#[test]
fn unregister_unknown_pair_not_found() {
    let mut reg = Registry::new();
    let r = reg.unregister(&"groovy".to_string(), &"9.9".to_string(), false);
    assert_eq!(r, Err(ErrorKind::NotFound));
}

#[test]
fn unregister_global_default_needs_force() {
    let mut reg = Registry::new();
    install_groovy(&mut reg, "2.4.13", 100);
    let c = "groovy".to_string();
    let v = "2.4.13".to_string();
    assert!(reg.set_global_default(&c, &v).is_ok());
    let refused = reg.unregister(&c, &v, false);
    assert_eq!(refused, Err(ErrorKind::IsCurrent));
    assert_eq!(reg.list(None).len(), 1);
    let forced = reg.unregister(&c, &v, true);
    assert_eq!(forced, Ok(()));
    assert!(reg.list(None).is_empty());
    let current = reg.get_current(&c, 7);
    assert_eq!(current, Err(ErrorKind::NoneInstalled));
}

#[test]
fn global_switch_visible_to_fresh_session() {
    let mut reg = Registry::new();
    install_groovy(&mut reg, "2.4.13", 100);
    let c = "groovy".to_string();
    let v = "2.4.13".to_string();
    let effect = switch(&mut reg, &c, &v, Scope::Global);
    assert!(matches!(effect, Ok(SwitchEffect::Persisted)));
    let fresh_session = 42;
    assert_eq!(reg.get_current(&c, fresh_session), Ok(v));
}

#[test]
fn session_override_does_not_leak_to_other_sessions() {
    let mut reg = Registry::new();
    install_groovy(&mut reg, "2.4.13", 100);
    install_groovy(&mut reg, "3.0.0", 200);
    let c = "groovy".to_string();
    let old = "2.4.13".to_string();
    let newer = "3.0.0".to_string();
    assert!(switch(&mut reg, &c, &old, Scope::Global).is_ok());
    let s1 = 1;
    let s2 = 2;
    let effect = switch(&mut reg, &c, &newer, Scope::Session(s1));
    match effect {
        Ok(SwitchEffect::Export(e)) => {
            assert_eq!(e.var, "groovy_HOME");
            assert_eq!(e.value, "/opt/registry/groovy/3.0.0");
        }
        other => panic!("expected an export, got {:?}", other.is_ok()),
    }
    assert_eq!(reg.get_current(&c, s1), Ok(newer));
    assert_eq!(reg.get_current(&c, s2), Ok(old));
}

#[test]
fn switch_not_installed_fails() {
    let mut reg = Registry::new();
    let r = switch(&mut reg, &"groovy".to_string(), &"9.9".to_string(), Scope::Global);
    assert!(matches!(r, Err(ErrorKind::NotInstalled)));
    let r2 = switch(&mut reg, &"groovy".to_string(), &"9.9".to_string(), Scope::Session(1));
    assert!(matches!(r2, Err(ErrorKind::NotInstalled)));
}

#[test]
fn dangling_override_falls_back_to_global() {
    let mut reg = Registry::new();
    install_groovy(&mut reg, "2.4.13", 100);
    install_groovy(&mut reg, "3.0.0", 200);
    let c = "groovy".to_string();
    let old = "2.4.13".to_string();
    let newer = "3.0.0".to_string();
    assert!(reg.set_global_default(&c, &old).is_ok());
    let s1 = 1;
    assert!(reg.set_session_override(s1, &c, &newer).is_ok());
    assert_eq!(reg.get_current(&c, s1), Ok(newer.clone()));
    assert!(reg.unregister(&c, &newer, false).is_ok());
    assert_eq!(reg.get_current(&c, s1), Ok(old));
}

#[test]
fn set_defaults_require_installed_version() {
    let mut reg = Registry::new();
    let c = "groovy".to_string();
    let v = "9.9".to_string();
    assert_eq!(reg.set_global_default(&c, &v), Err(ErrorKind::NotInstalled));
    assert_eq!(reg.set_session_override(1, &c, &v), Err(ErrorKind::NotInstalled));
}

#[test]
fn reinstall_after_uninstall_gets_fresh_timestamp() {
    let mut reg = Registry::new();
    install_groovy(&mut reg, "2.4.13", 100);
    assert!(reg.unregister(&"groovy".to_string(), &"2.4.13".to_string(), false).is_ok());
    assert!(reg.list(None).is_empty());
    install_groovy(&mut reg, "2.4.13", 500);
    let found = reg.get_installed(&"groovy".to_string(), &"2.4.13".to_string());
    match found {
        Some(record) => assert_eq!(record.timestamp, 500),
        None => panic!("pair should be installed again"),
    }
}

#[test]
fn local_path_entry_survives_in_registry() {
    let mut reg = Registry::new();
    let r = reg.register(
        "groovy".to_string(),
        "2.4.13-local".to_string(),
        "/home/dev/groovy".to_string(),
        InstallSource::LocalPath,
        None,
        7,
    );
    assert!(r.is_ok());
    let record = reg
        .get_installed(&"groovy".to_string(), &"2.4.13-local".to_string())
        .expect("registered");
    assert_eq!(record.source, InstallSource::LocalPath);
    assert!(record.checksum.is_none());
}

#[test]
fn error_kind_names_are_distinct() {
    let kinds = [
        ErrorKind::NotInstalled,
        ErrorKind::AlreadyInstalling,
        ErrorKind::IsCurrent,
        ErrorKind::NoSuchCandidate,
        ErrorKind::NoVersionsAvailable,
        ErrorKind::NetworkUnavailable,
        ErrorKind::CorruptArchive,
        ErrorKind::InstallIncomplete,
        ErrorKind::RegistryLocked,
        ErrorKind::NotFound,
        ErrorKind::NoneInstalled,
    ];
    for (i, a) in kinds.iter().enumerate() {
        for (j, b) in kinds.iter().enumerate() {
            if i != j {
                assert_ne!(a.name(), b.name());
            }
        }
    }
    assert_eq!(ErrorKind::RegistryLocked.name(), "registry locked");
}
