use devkit::dispatch::parse_command;
use devkit::dispatch::Command;

#[test]
fn parse_install_carries_arguments() {
    let r = parse_command(
        &"install".to_string(),
        Some("groovy".to_string()),
        Some("2.4.13".to_string()),
        Some("/opt/groovy-2.4.13".to_string()),
    );
    match r {
        Some(Command::Install { candidate, version, local_path }) => {
            assert_eq!(candidate.as_deref(), Some("groovy"));
            assert_eq!(version.as_deref(), Some("2.4.13"));
            assert_eq!(local_path.as_deref(), Some("/opt/groovy-2.4.13"));
        }
        other => panic!("expected install, got {:?}", other),
    }
}

#[test]
fn parse_install_alias() {
    let r = parse_command(&"i".to_string(), Some("scala".to_string()), None, None);
    assert!(matches!(r, Some(Command::Install { .. })));
}

#[test]
fn parse_verbs_and_aliases() {
    let cases: Vec<(&str, fn(&Command) -> bool)> = vec![
        ("init", |c| matches!(c, Command::Initialise)),
        ("rm", |c| matches!(c, Command::Uninstall)),
        ("uninstall", |c| matches!(c, Command::Uninstall)),
        ("ls", |c| matches!(c, Command::List)),
        ("list", |c| matches!(c, Command::List)),
        ("u", |c| matches!(c, Command::Use)),
        ("use", |c| matches!(c, Command::Use)),
        ("config", |c| matches!(c, Command::Config)),
        ("d", |c| matches!(c, Command::Default)),
        ("default", |c| matches!(c, Command::Default)),
        ("h", |c| matches!(c, Command::Home)),
        ("home", |c| matches!(c, Command::Home)),
        ("e", |c| matches!(c, Command::Env)),
        ("env", |c| matches!(c, Command::Env)),
        ("c", |c| matches!(c, Command::Current)),
        ("current", |c| matches!(c, Command::Current)),
        ("ug", |c| matches!(c, Command::Upgrade)),
        ("upgrade", |c| matches!(c, Command::Upgrade)),
        ("v", |c| matches!(c, Command::Version)),
        ("version", |c| matches!(c, Command::Version)),
        ("b", |c| matches!(c, Command::Broadcast)),
        ("broadcast", |c| matches!(c, Command::Broadcast)),
        ("help", |c| matches!(c, Command::Help)),
        ("offline", |c| matches!(c, Command::Offline)),
        ("selfupdate", |c| matches!(c, Command::SelfUpdate)),
        ("update", |c| matches!(c, Command::Update)),
        ("flush", |c| matches!(c, Command::Flush)),
    ];
    for (verb, check) in cases {
        let r = parse_command(&verb.to_string(), None, None, None);
        match r {
            Some(cmd) => assert!(check(&cmd), "verb {} parsed to {:?}", verb, cmd),
            None => panic!("verb {} did not parse", verb),
        }
    }
}

#[test]
fn parse_unknown_verb_is_none() {
    assert!(parse_command(&"frobnicate".to_string(), None, None, None).is_none());
    assert!(parse_command(&"".to_string(), None, None, None).is_none());
    assert!(parse_command(&"Install".to_string(), None, None, None).is_none());
}
