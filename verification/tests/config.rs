use ssht::config::{config_path, validate_forward, Config, ForwardError, Forwards, HostMeta, Layout, Window};
use ssht::paths::Root;
use ssht::state::state_db_path;

fn config_with_forwards() -> Config {
    let mut config = Config::default();
    config.hosts.insert(
        "web".to_string(),
        HostMeta {
            local_forwards: vec!["8080:localhost:80".into()],
            remote_forwards: vec!["9000:localhost:9000".into()],
            dynamic_forwards: vec!["1080".into()],
            ..Default::default()
        },
    );
    config
}

#[test]
fn builds_flags_for_each_forward_kind() {
    let config = config_with_forwards();
    let args = config.forward_args("web", &Forwards::default()).unwrap();
    assert_eq!(
        args,
        vec![
            "-L", "8080:localhost:80",
            "-R", "9000:localhost:9000",
            "-D", "1080",
        ]
    );
}

#[test]
fn host_without_forwards_gets_none() {
    let config = config_with_forwards();
    assert!(config.forward_args("other", &Forwards::default()).unwrap().is_empty());
}

#[test]
fn cli_forwards_append_to_configured_ones() {
    let config = config_with_forwards();
    let extra = Forwards {
        local: vec!["5432:db:5432".into()],
        ..Default::default()
    };
    let args = config.forward_args("web", &extra).unwrap();
    // Configured first, then the command-line addition, within -L.
    assert_eq!(&args[0..4], &["-L", "8080:localhost:80", "-L", "5432:db:5432"]);
}

#[test]
fn cli_forwards_work_for_hosts_with_no_config_entry() {
    let config = Config::default();
    let extra = Forwards {
        dynamic: vec!["1080".into()],
        ..Default::default()
    };
    assert_eq!(
        config.forward_args("anything", &extra).unwrap(),
        vec!["-D", "1080"]
    );
}

#[test]
fn whitespace_in_a_spec_is_rejected() {
    let mut config = Config::default();
    config.hosts.insert(
        "web".to_string(),
        HostMeta {
            // A plausible mistake: writing the flag into the value.
            local_forwards: vec!["-L 8080:localhost:80".into()],
            ..Default::default()
        },
    );
    let err = config
        .forward_args("web", &Forwards::default())
        .unwrap_err()
        .message();
    assert!(err.contains("whitespace"), "unexpected error: {err}");
    assert!(err.contains("\"-L 8080:localhost:80\""), "unexpected error: {err}");
}

#[test]
fn empty_spec_is_rejected() {
    let mut config = Config::default();
    config.hosts.insert(
        "web".to_string(),
        HostMeta {
            remote_forwards: vec!["  ".into()],
            ..Default::default()
        },
    );
    assert!(config.forward_args("web", &Forwards::default()).is_err());
    let err = config.forward_args("web", &Forwards::default()).unwrap_err();
    assert!(matches!(err, ForwardError::Empty { .. }));
    assert_eq!(err.message(), "empty -R port forward in config");
}

#[test]
fn first_faulty_forward_is_reported() {
    let extra = Forwards {
        local: vec!["1:a:1".into()],
        remote: vec!["x y".into()],
        dynamic: vec!["".into()],
    };
    let err = Config::default().forward_args("h", &extra).unwrap_err();
    assert!(matches!(err, ForwardError::Whitespace { ref flag, .. } if flag == "-R"));
}

#[test]
fn brackets_and_sockets_are_left_to_ssh() {
    for spec in ["[::1]:8080:localhost:80", "/tmp/a.sock:/tmp/b.sock", "*:1080"] {
        assert!(validate_forward("-L", spec).is_ok(), "{spec:?}");
    }
}

#[test]
fn white_space_anywhere_in_a_forward_is_refused() {
    for spec in [" 1080", "1080 ", "80 80", "8080:localhost:80\n", "\u{a0}1080"] {
        let err = validate_forward("-D", spec).unwrap_err();
        assert!(
            matches!(err, ForwardError::Whitespace { ref flag, spec: ref s } if flag == "-D" && s == spec),
            "{spec:?}"
        );
    }
    assert!(matches!(validate_forward("-D", " \t").unwrap_err(), ForwardError::Empty { .. }));
}

#[test]
fn forwards_are_empty_without_any_kind() {
    assert!(Forwards::default().is_empty());
    let some = Forwards { remote: vec!["1:a:1".into()], ..Default::default() };
    assert!(!some.is_empty());
}

#[test]
fn session_is_the_hosts_own_or_the_default() {
    let mut config = Config::default();
    config.hosts.insert(
        "web".to_string(),
        HostMeta { session: Some("ops".into()), ..Default::default() },
    );
    config.hosts.insert("db".to_string(), HostMeta::default());
    assert_eq!(config.session_for("web"), "ops");
    assert_eq!(config.session_for("db"), "main");
    assert_eq!(config.session_for("unknown"), "main");
}

#[test]
fn layout_override_beats_the_configured_layout() {
    let mut config = Config::default();
    let layout = |name: &str| Layout {
        windows: vec![Window { name: name.into(), command: None }],
    };
    config.layouts.insert("dev".to_string(), layout("editor"));
    config.layouts.insert("ops".to_string(), layout("logs"));
    config.hosts.insert(
        "web".to_string(),
        HostMeta { layout: Some("dev".into()), ..Default::default() },
    );
    let name = |l: Option<&Layout>| l.map(|l| l.windows[0].name.clone());
    assert_eq!(name(config.resolve_layout("web", None)).as_deref(), Some("editor"));
    assert_eq!(name(config.resolve_layout("web", Some("ops"))).as_deref(), Some("logs"));
    assert!(config.resolve_layout("web", Some("missing")).is_none());
    assert!(config.resolve_layout("db", None).is_none());
}

#[test]
fn files_follow_the_xdg_directories() {
    let l = config_path(true, true).unwrap();
    assert_eq!((l.root, l.parts), (Root::XdgConfig, vec!["ssht".to_string(), "config.toml".into()]));
    let l = config_path(false, true).unwrap();
    assert_eq!(l.root, Root::Home);
    assert_eq!(l.parts, vec![".config", "ssht", "config.toml"]);
    let l = state_db_path(false, true).unwrap();
    assert_eq!(l.parts, vec![".local", "share", "ssht", "state.db"]);
    let l = state_db_path(true, false).unwrap();
    assert_eq!((l.root, l.parts), (Root::XdgData, vec!["ssht".to_string(), "state.db".into()]));
    let e = config_path(false, false).unwrap_err();
    assert_eq!(e.message(), "could not determine home directory");
    assert!(state_db_path(false, false).is_err());
}
