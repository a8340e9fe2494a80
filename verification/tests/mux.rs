use ssht::config::Config;
use ssht::mux::{
    candidate_dirs, control_file, copy_alias, copy_args, copy_failed, dir_fits, next_control_dir,
    parse_endpoint, render_endpoint, ssh_args, CopyError, Endpoint, CONTROL_HASH_LEN,
    CONTROL_PREFIX_LEN, MAX_SOCKET_PATH, SSH_TEMP_SUFFIX_LEN,
};
use ssht::paths::{Location, Root};
use ssht::vault::HostSettings;

#[test]
fn splits_host_from_path() {
    assert_eq!(
        parse_endpoint("web:/var/log/app.log"),
        Endpoint::Remote {
            host: "web".into(),
            path: "/var/log/app.log".into()
        }
    );
}

#[test]
fn plain_path_is_local() {
    assert_eq!(parse_endpoint("./file"), Endpoint::Local("./file".into()));
    assert_eq!(parse_endpoint("/tmp/x"), Endpoint::Local("/tmp/x".into()));
}

#[test]
fn slash_before_colon_stays_local() {
    // A local file that happens to contain a colon must not look remote.
    assert_eq!(
        parse_endpoint("./notes/2026:draft.md"),
        Endpoint::Local("./notes/2026:draft.md".into())
    );
}

#[test]
fn leading_colon_is_local() {
    assert_eq!(parse_endpoint(":weird"), Endpoint::Local(":weird".into()));
}

#[test]
fn empty_remote_path_means_home() {
    assert_eq!(
        parse_endpoint("web:"),
        Endpoint::Remote { host: "web".into(), path: String::new() }
    );
}

#[test]
fn renders_local_unchanged() {
    let e = Endpoint::Local("./f".into());
    assert_eq!(render_endpoint(&e, "web", None, None), "./f");
}

#[test]
fn renders_remote_with_vault_overrides() {
    let e = Endpoint::Remote { host: "web".into(), path: "/tmp/f".into() };
    assert_eq!(render_endpoint(&e, "web", None, None), "web:/tmp/f");
    assert_eq!(
        render_endpoint(&e, "web", Some("deploy"), Some("10.0.0.4")),
        "deploy@10.0.0.4:/tmp/f"
    );
}

#[test]
fn other_hosts_keep_their_name() {
    let e = Endpoint::Remote { host: "db".into(), path: "f".into() };
    assert_eq!(render_endpoint(&e, "web", None, Some("10.0.0.4")), "db:f");
}

#[test]
fn multiplex_can_be_turned_off() {
    let mut config = Config::default();
    config.settings.multiplex = false;
    assert!(ssh_args(&config, &None).is_empty());
    assert!(ssh_args(&config, &Some("/home/bob/.ssht/cm-%C".into())).is_empty());
}

#[test]
fn multiplexing_names_the_socket() {
    let mut config = Config::default();
    config.settings.control_persist_secs = 90;
    assert_eq!(
        ssh_args(&config, &Some("/home/bob/.ssht/cm-%C".into())),
        vec![
            "-o",
            "ControlMaster=auto",
            "-o",
            "ControlPath=/home/bob/.ssht/cm-%C",
            "-o",
            "ControlPersist=90s",
        ]
    );
    assert!(ssh_args(&config, &None).is_empty());
    assert_eq!(control_file(), "cm-%C");
}

#[test]
fn rejects_the_directory_that_actually_broke() {
    // The directory is 44 characters; once ssh expands %C to a 40-char hash and
    // adds its 17-char temporary suffix the socket path is 105 bytes, past the
    // macOS limit of 103.
    let dir = "/Users/ayaanhafeez/.local/share/ssht/control";
    assert_eq!(dir.len(), 44);
    assert_eq!(
        dir.len() + 1 + CONTROL_PREFIX_LEN + CONTROL_HASH_LEN + SSH_TEMP_SUFFIX_LEN,
        105
    );
    assert!(!dir_fits(dir.len()));
}

#[test]
fn accepts_a_short_enough_directory() {
    assert!(dir_fits("/Users/ayaanhafeez/.ssht".len()));
    assert!(dir_fits("/run/user/1000/ssht".len()));
    assert!(dir_fits("/home/bob/.local/share/ssht/control".len()));
}

#[test]
fn boundary_is_exactly_the_socket_limit() {
    // Longest directory that still fits, and one character more.
    let max_dir_len =
        MAX_SOCKET_PATH - 1 - CONTROL_PREFIX_LEN - CONTROL_HASH_LEN - SSH_TEMP_SUFFIX_LEN;
    let ok = "/".repeat(1) + &"a".repeat(max_dir_len - 1);
    assert_eq!(ok.len(), max_dir_len);
    assert!(dir_fits(ok.len()));

    let too_long = "/".repeat(1) + &"a".repeat(max_dir_len);
    assert!(!dir_fits(too_long.len()));
    assert!(!dir_fits(usize::MAX));
}

fn length(l: &Location) -> usize {
    let root = match l.root {
        Root::Home => "/Users/ayaanhafeez",
        Root::XdgRuntime => "/run/user/1000",
        Root::XdgData => "/Users/ayaanhafeez/some/rather/long/data",
        _ => panic!("no other root is a candidate"),
    };
    root.len() + l.parts.iter().map(|p| p.len() + 1).sum::<usize>()
}

#[test]
fn always_offers_a_short_candidate() {
    // Whatever is set, at least one candidate must be usable -- otherwise
    // multiplexing silently never works.
    for data in [false, true] {
        for runtime in [false, true] {
            let dirs = candidate_dirs(data, runtime, true);
            assert!(dirs.iter().any(|d| dir_fits(length(d))));
        }
    }
}

#[test]
fn candidates_come_best_first() {
    let dirs = candidate_dirs(false, true, true);
    let roots: Vec<Root> = dirs.iter().map(|d| d.root).collect();
    assert_eq!(roots, vec![Root::Home, Root::XdgRuntime, Root::Home]);
    assert_eq!(dirs[0].parts, vec![".local", "share", "ssht", "control"]);
    assert_eq!(dirs[2].parts, vec![".ssht"]);
    assert!(candidate_dirs(false, false, false).is_empty());
    assert_eq!(candidate_dirs(true, false, false)[0].parts, vec!["ssht", "control"]);
    assert_eq!(next_control_dir(&vec![44, 19, 24], 0), Some(1));
    assert_eq!(next_control_dir(&vec![44, 19, 24], 2), Some(2));
    assert_eq!(next_control_dir(&vec![44, 99], 0), None);
}

#[test]
fn exactly_one_side_of_a_copy_is_remote() {
    assert_eq!(copy_alias("web:a", "./b"), Ok("web".to_string()));
    assert_eq!(copy_alias("./b", "web:a"), Ok("web".to_string()));
    assert_eq!(copy_alias("web:a", "db:b"), Err(CopyError::BothRemote));
    assert_eq!(copy_alias("a", "b"), Err(CopyError::BothLocal));
    assert!(CopyError::BothRemote.message().starts_with("both paths are remote"));
    assert!(CopyError::BothLocal.message().starts_with("neither path names a host"));
}

#[test]
fn copy_arguments_follow_the_vault() {
    let settings = Some(HostSettings {
        address: Some("10.0.0.4".into()),
        username: Some("deploy".into()),
        ..Default::default()
    });
    assert_eq!(
        copy_args("web:/tmp/f", "./f", true, vec!["-o".into(), "X=y".into()], "web", &settings),
        vec!["-o", "X=y", "-r", "deploy@10.0.0.4:/tmp/f", "./f"]
    );
    assert_eq!(copy_args("./f", "web:", false, vec![], "web", &None), vec!["./f", "web:"]);
    assert_eq!(copy_failed("a", "web:b"), "scp failed copying a to web:b");
}

#[test]
fn a_home_of_36_bytes_is_short_enough() {
    let home = 36;
    for data in [false, true] {
        for runtime in [false, true] {
            let dirs = candidate_dirs(data, runtime, true);
            let last = dirs.last().unwrap();
            assert_eq!((last.root, last.parts.as_slice()), (Root::Home, &[".ssht".to_string()][..]));
            let mut lens = vec![usize::MAX; dirs.len()];
            *lens.last_mut().unwrap() = home + 6;
            assert_eq!(next_control_dir(&lens, 0), Some(dirs.len() - 1));
            *lens.last_mut().unwrap() = home + 7;
            assert_eq!(next_control_dir(&lens, 0), None);
        }
    }
}
