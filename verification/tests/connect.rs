use std::time::Duration;

use ssht::config::{Config, Forwards, HostMeta, Layout, Window};
use ssht::connect::{
    after_exit, connect_args, plan_connect, reconnect_notice, target_of, ConnectError,
    ConnectOptions, ReconnectPolicy, Verdict,
};
use ssht::tmux::build_remote_command;
use ssht::vault::HostSettings;

fn policy() -> ReconnectPolicy {
    ReconnectPolicy {
        enabled: true,
        max_attempts: 10,
        initial_delay_secs: 1,
        max_delay_secs: 30,
    }
}

fn options() -> ConnectOptions {
    ConnectOptions {
        local_echo: false,
        no_reconnect: false,
        forwards: Forwards::default(),
        read_only: false,
        scrollback: None,
    }
}

#[test]
fn backoff_doubles_then_caps() {
    let p = policy();
    let delay_for = |n: u32| Duration::from_secs(p.delay_for(n));
    assert_eq!(delay_for(1), Duration::from_secs(1));
    assert_eq!(delay_for(2), Duration::from_secs(2));
    assert_eq!(delay_for(3), Duration::from_secs(4));
    assert_eq!(delay_for(4), Duration::from_secs(8));
    assert_eq!(delay_for(5), Duration::from_secs(16));
    // capped from here on
    assert_eq!(delay_for(6), Duration::from_secs(30));
    assert_eq!(delay_for(50), Duration::from_secs(30));
}

#[test]
fn backoff_does_not_overflow_on_absurd_attempt_counts() {
    let p = policy();
    assert_eq!(Duration::from_secs(p.delay_for(u32::MAX)), Duration::from_secs(30));
}

#[test]
fn backoff_at_the_edges() {
    let p = ReconnectPolicy { initial_delay_secs: 0, ..policy() };
    assert_eq!(p.delay_for(u32::MAX), 0);
    let p = ReconnectPolicy { initial_delay_secs: u64::MAX, max_delay_secs: u64::MAX, ..policy() };
    assert_eq!(p.delay_for(2), u64::MAX);
    assert_eq!(policy().delay_for(0), 1);
    let p = ReconnectPolicy { max_delay_secs: 0, ..policy() };
    assert_eq!(p.delay_for(1), 0);
    let p = ReconnectPolicy { max_delay_secs: u64::MAX, ..policy() };
    assert_eq!(p.delay_for(64), 1 << 63);
    assert_eq!(p.delay_for(65), u64::MAX);
}

#[test]
fn reattach_command_drops_the_scrollback_replay() {
    // Integration invariant: the first attach replays history, a reconnect
    // must not -- the local terminal still holds everything from before the
    // drop, so replaying again would duplicate it once per retry.
    let first = build_remote_command("main", None, false, 500, false);
    let reattach = build_remote_command("main", None, false, 0, false);
    assert!(first.contains("capture-pane"));
    assert!(!reattach.contains("capture-pane"));
}

#[test]
fn flag_overrides_config_default() {
    let config = Config::default();
    assert!(ReconnectPolicy::from_config(&config, false).enabled);
    assert!(!ReconnectPolicy::from_config(&config, true).enabled);
}

#[test]
fn plan_replays_on_the_first_attempt_only() {
    let mut config = Config::default();
    config.settings.scrollback_lines = 200;
    let plan = plan_connect("web", &config, None, &options(), true).unwrap();
    assert!(plan.first_attach.contains("capture-pane -p -e -S -200"));
    assert_eq!(plan.reattach, "tmux new-session -A -s 'main'");
    assert!(!plan.local_echo);
    let more = ConnectOptions { scrollback: Some(9), ..options() };
    let plan = plan_connect("web", &config, None, &more, true).unwrap();
    assert!(plan.first_attach.contains("-S -9 "));
}

#[test]
fn local_echo_needs_a_terminal_and_something_to_type_into() {
    let config = Config::default();
    let echo = ConnectOptions { local_echo: true, ..options() };
    let plan = plan_connect("web", &config, None, &echo, true).unwrap();
    assert!(plan.local_echo);
    assert!(plan.reattach.contains("+ssht;alt="));
    assert!(plan.reattach.contains("+ssht;ready"));
    assert!(!plan_connect("web", &config, None, &echo, false).unwrap().local_echo);
    let viewer = ConnectOptions { read_only: true, ..echo };
    let plan = plan_connect("web", &config, None, &viewer, true).unwrap();
    assert!(!plan.local_echo);
    assert!(!plan.reattach.contains("+ssht"));
}

#[test]
fn plan_refuses_a_missing_layout_and_a_faulty_forward() {
    let mut config = Config::default();
    let err = plan_connect("web", &config, Some("dev"), &options(), true).unwrap_err();
    assert_eq!(err.message(), "layout \"dev\" not found in config");
    config.layouts.insert(
        "dev".to_string(),
        Layout { windows: vec![Window { name: "editor".into(), command: None }] },
    );
    let plan = plan_connect("web", &config, Some("dev"), &options(), true).unwrap();
    assert!(plan.reattach.contains("-n 'editor'"));
    // A configured layout that does not exist is no error.
    config.hosts.insert(
        "db".to_string(),
        HostMeta { layout: Some("gone".into()), ..Default::default() },
    );
    let plan = plan_connect("db", &config, None, &options(), true).unwrap();
    assert_eq!(plan.reattach, "tmux new-session -A -s 'main'");
    let bad = ConnectOptions {
        forwards: Forwards { local: vec!["".into()], ..Default::default() },
        ..options()
    };
    let err = plan_connect("web", &config, None, &bad, true).unwrap_err();
    assert!(matches!(err, ConnectError::Forward(_)));
    assert_eq!(err.message(), "empty -L port forward in config");
}

#[test]
fn only_a_failed_connection_is_retried() {
    let p = policy();
    for code in [Some(0), Some(1), Some(254), None] {
        assert!(matches!(after_exit(&p, "web", 0, code, 0), Verdict::Done));
    }
    match after_exit(&p, "web", 2, Some(255), 29) {
        Verdict::Retry { attempt, delay_secs } => assert_eq!((attempt, delay_secs), (3, 4)),
        v => panic!("{v:?}"),
    }
    // A session that lasted earns a fresh budget.
    match after_exit(&p, "web", 10, Some(255), 30) {
        Verdict::Retry { attempt, delay_secs } => assert_eq!((attempt, delay_secs), (1, 1)),
        v => panic!("{v:?}"),
    }
    match after_exit(&p, "web", 10, Some(255), 29) {
        Verdict::Fail(e) => {
            assert_eq!(e.message(), "ssh connection to web failed after 10 reconnect attempts")
        }
        v => panic!("{v:?}"),
    }
    let off = ReconnectPolicy { enabled: false, ..p };
    match after_exit(&off, "web", 0, Some(255), 100) {
        Verdict::Fail(e) => assert_eq!(e.message(), "ssh connection to web failed"),
        v => panic!("{v:?}"),
    }
    let endless = ReconnectPolicy { max_attempts: u32::MAX, ..p };
    match after_exit(&endless, "web", u32::MAX, Some(255), 0) {
        Verdict::Fail(ConnectError::GaveUp { attempts, .. }) => assert_eq!(attempts, u32::MAX),
        v => panic!("{v:?}"),
    }
}

#[test]
fn budget_runs_out_after_the_configured_attempts() {
    let p = ReconnectPolicy { max_attempts: 3, ..policy() };
    let mut attempt = 0;
    let mut retries = 0;
    while let Verdict::Retry { attempt: next, .. } = after_exit(&p, "web", attempt, Some(255), 1) {
        attempt = next;
        retries += 1;
    }
    assert_eq!(retries, 3);
}

#[test]
fn arguments_put_passthrough_last() {
    let settings = Some(HostSettings {
        address: Some("10.0.0.4".into()),
        username: Some("deploy".into()),
        password: Some("pw".into()),
        ..Default::default()
    });
    let target = target_of("web", &settings);
    assert_eq!(target.password.as_deref(), Some("pw"));
    let args = connect_args(
        &vec!["-o".into(), "ControlMaster=auto".into()],
        &vec!["-L".into(), "1:a:1".into()],
        &vec!["-v".into()],
        &target,
        "tmux",
    );
    assert_eq!(
        args,
        vec![
            "-t", "-o", "ControlMaster=auto", "-L", "1:a:1", "-v", "-l", "deploy", "10.0.0.4", "tmux",
        ]
    );
    let target = target_of("web", &None);
    assert_eq!(
        connect_args(&vec![], &vec![], &vec![], &target, "tmux"),
        vec!["-t", "web", "tmux"]
    );
}

#[test]
fn notice_names_the_wait() {
    assert_eq!(
        reconnect_notice("web", 2, 4, 10),
        "Connection to web lost — reconnecting in 4s (attempt 2/10)…"
    );
}
