use ssht::registry::{
    kill, kill_command, list, list_command, parse_sessions, remote_args, rename, rename_command,
    Outcome, SessionInfo,
};
use ssht::vault::HostSettings;

#[test]
fn parses_listing() {
    let out = "main\t3\t1\nbuild\t1\t0\n";
    assert_eq!(
        parse_sessions(out),
        vec![
            SessionInfo {
                name: "main".into(),
                windows: 3,
                clients: 1
            },
            SessionInfo {
                name: "build".into(),
                windows: 1,
                clients: 0
            },
        ]
    );
}

#[test]
fn empty_output_is_no_sessions() {
    assert!(parse_sessions("").is_empty());
    assert!(parse_sessions("\n").is_empty());
}

#[test]
fn skips_malformed_lines_but_keeps_the_rest() {
    let out = "main\t3\t1\ngarbage\nbuild\tnotanumber\t0\nlogs\t2\t0\n";
    let sessions = parse_sessions(out);
    assert_eq!(sessions.len(), 2);
    assert_eq!(sessions[0].name, "main");
    assert_eq!(sessions[1].name, "logs");
}

#[test]
fn preserves_attached_client_count() {
    let sessions = parse_sessions("main\t1\t2\n");
    assert_eq!(sessions[0].clients, 2);
}

#[test]
fn counts_stop_at_the_largest_number() {
    assert_eq!(parse_sessions("a\t4294967295\t+7")[0].windows, u32::MAX);
    assert!(parse_sessions("a\t4294967296\t0").is_empty());
    assert!(parse_sessions("a\t-1\t0").is_empty());
    assert!(parse_sessions(" \t1\t0").is_empty());
}

fn outcome(code: Option<i32>, stdout: &[u8], stderr: &[u8]) -> Outcome {
    Outcome { code, stdout: stdout.to_vec(), stderr: stderr.to_vec() }
}

#[test]
fn only_ssh_failing_is_a_listing_error() {
    let sessions = list("web", &outcome(Some(1), b"", b"no server running")).unwrap();
    assert!(sessions.is_empty());
    let sessions = list("web", &outcome(Some(0), b"ma\xffin\t1\t0\n", b"")).unwrap();
    assert_eq!(sessions[0].name, "ma\u{fffd}in");
    let err = list("web", &outcome(Some(255), b"", b" refused\n")).unwrap_err();
    assert_eq!(err.message(), "ssh connection to web failed: refused");
    assert!(list("web", &outcome(None, b"", b"")).unwrap().is_empty());
}

#[test]
fn killing_and_renaming_report_what_tmux_said() {
    assert!(kill("web", "main", &outcome(Some(0), b"", b"")).is_ok());
    let err = kill("web", "a\"b", &outcome(Some(1), b"", b"can't find session\n")).unwrap_err();
    assert_eq!(err.message(), "killing session \"a\\\"b\" on web: can't find session");
    assert!(rename("web", "main", &outcome(Some(0), b"", b"")).is_ok());
    let err = rename("web", "main", &outcome(None, b"", b"gone")).unwrap_err();
    assert_eq!(err.message(), "renaming session \"main\" on web: gone");
}

#[test]
fn commands_quote_their_sessions() {
    assert_eq!(
        list_command(),
        "tmux ls -F '#{session_name}\t#{session_windows}\t#{session_attached}' 2>/dev/null"
    );
    assert_eq!(kill_command("it's"), "tmux kill-session -t 'it'\\''s'");
    assert_eq!(rename_command("a b", "c"), "tmux rename-session -t 'a b' 'c'");
}

#[test]
fn remote_commands_follow_the_vault() {
    let settings = Some(HostSettings {
        address: Some("10.0.0.4".into()),
        username: Some("deploy".into()),
        ..Default::default()
    });
    assert_eq!(remote_args("web", &settings, "tmux ls"), vec!["-l", "deploy", "10.0.0.4", "tmux ls"]);
    assert_eq!(remote_args("web", &None, "tmux ls"), vec!["web", "tmux ls"]);
}
