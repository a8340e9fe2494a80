use ssht::config::{Layout, Window};
use ssht::tmux::{
    build_remote_command, probe_active, probe_args, scrollback_replay, sh_quote,
    with_alt_screen_watcher,
};

#[test]
fn quotes_safely() {
    assert_eq!(sh_quote("main"), "'main'");
    assert_eq!(sh_quote("a b"), "'a b'");
    assert_eq!(sh_quote("it's"), "'it'\\''s'");
}

#[test]
fn quotes_nothing_and_only_quotes() {
    assert_eq!(sh_quote(""), "''");
    assert_eq!(sh_quote("''"), ["'", "'\\''", "'\\''", "'"].concat());
}

#[test]
fn plain_session_uses_attach_or_create() {
    let cmd = build_remote_command("main", None, false, 0, false);
    assert_eq!(cmd, "tmux new-session -A -s 'main'");
}

#[test]
fn empty_layout_falls_back_to_plain() {
    let layout = Layout { windows: vec![] };
    let cmd = build_remote_command("main", Some(&layout), false, 0, false);
    assert_eq!(cmd, "tmux new-session -A -s 'main'");
}

#[test]
fn read_only_attaches_without_creating() {
    let cmd = build_remote_command("main", None, true, 0, false);
    assert!(cmd.contains("tmux attach -r -t 'main'"));
    // A viewer must never bring a session into existence.
    assert!(!cmd.contains("new-session"));
}

#[test]
fn read_only_ignores_layout() {
    let layout = Layout {
        windows: vec![Window {
            name: "editor".into(),
            command: Some("nvim".into()),
        }],
    };
    let cmd = build_remote_command("dev", Some(&layout), true, 0, false);
    assert!(!cmd.contains("new-window"));
    assert!(!cmd.contains("send-keys"));
    assert!(cmd.contains("tmux attach -r -t 'dev'"));
}

#[test]
fn read_only_reports_which_session_is_missing() {
    let cmd = build_remote_command("build", None, true, 0, false);
    assert!(cmd.contains("no tmux session build"));
}

#[test]
fn zero_lines_replays_nothing() {
    assert_eq!(scrollback_replay("main", 0), "");
    assert!(!build_remote_command("main", None, false, 0, false).contains("capture-pane"));
}

#[test]
fn replay_captures_history_above_the_visible_screen() {
    let cmd = build_remote_command("main", None, false, 500, false);
    // -E -1 stops above the screen that attaching will redraw anyway.
    assert!(cmd.contains("tmux capture-pane -p -e -S -500 -E -1 -t 'main'"));
    // and the replay has to happen before the attach, not after
    let replay_at = cmd.find("capture-pane").unwrap();
    let attach_at = cmd.find("new-session").unwrap();
    assert!(replay_at < attach_at);
}

#[test]
fn ready_mark_stands_between_replay_and_attach() {
    let cmd = build_remote_command("main", None, false, 500, true);
    let replay_at = cmd.find("capture-pane").unwrap();
    let ready_at = cmd.find("+ssht;ready").unwrap();
    let attach_at = cmd.find("new-session").unwrap();
    assert!(replay_at < ready_at);
    assert!(ready_at < attach_at);
    assert!(cmd.contains("printf '\\033P+ssht;ready\\033\\\\'; "));
}

#[test]
fn replay_skips_the_alternate_screen() {
    let cmd = build_remote_command("main", None, false, 500, false);
    assert!(cmd.contains("'#{alternate_on}'"));
}

#[test]
fn replay_precedes_a_layout_bootstrap_too() {
    let layout = Layout {
        windows: vec![Window {
            name: "editor".into(),
            command: None,
        }],
    };
    let cmd = build_remote_command("dev", Some(&layout), false, 200, false);
    assert!(cmd.starts_with("if tmux has-session -t 'dev' 2>/dev/null && "));
    assert!(cmd.contains("capture-pane"));
    assert!(cmd.contains("new-session -d -s 'dev'"));
}

#[test]
fn layout_creates_windows_only_when_absent() {
    let layout = Layout {
        windows: vec![
            Window {
                name: "editor".into(),
                command: Some("nvim".into()),
            },
            Window {
                name: "shell".into(),
                command: None,
            },
        ],
    };
    let cmd = build_remote_command("dev", Some(&layout), false, 0, false);
    assert!(cmd.starts_with("if tmux has-session -t 'dev'"));
    assert!(cmd.contains("tmux new-session -d -s 'dev' -n 'editor'"));
    assert!(cmd.contains("tmux send-keys -t 'dev:0' 'nvim' C-m"));
    assert!(cmd.contains("tmux new-window -t 'dev' -n 'shell'"));
    assert!(cmd.contains("tmux attach -t 'dev'"));
}

#[test]
fn layout_command_in_full() {
    let layout = Layout {
        windows: vec![Window { name: "w".into(), command: Some("x".into()) }],
    };
    assert_eq!(
        build_remote_command("d", Some(&layout), false, 0, false),
        "if tmux has-session -t 'd' 2>/dev/null; then tmux attach -t 'd'; else \
         tmux new-session -d -s 'd' -n 'w'; tmux send-keys -t 'd:0' 'x' C-m; \
         tmux select-window -t 'd:0'; tmux attach -t 'd'; fi"
    );
    assert_eq!(
        scrollback_replay("d", 5),
        "if tmux has-session -t 'd' 2>/dev/null && \
         [ \"$(tmux display-message -p -t 'd' '#{alternate_on}')\" = 0 ]; then \
         tmux capture-pane -p -e -S -5 -E -1 -t 'd'; fi; "
    );
    assert_eq!(
        build_remote_command("d", None, true, 0, false),
        "if tmux has-session -t 'd' 2>/dev/null; then tmux attach -r -t 'd'; \
         else echo \"ssht: no tmux session d to view on this host\" >&2; exit 1; fi"
    );
}

#[test]
fn watcher_reports_the_alternate_screen_and_keeps_the_status() {
    let cmd = with_alt_screen_watcher("dev box", "tmux attach -t 'dev box'");
    assert!(cmd.contains("'#{alternate_on}'"));
    assert!(cmd.contains("'#{session_attached}'"));
    assert!(cmd.contains("+ssht;arm"));
    assert!(cmd.contains("\\033P+ssht;alt=%s\\033\\\\\\033P+ssht;alt=%s"));
    assert!(cmd.contains("if ! sleep 0.05"));
    assert!(cmd.contains("-t 'dev box'"));
    assert!(cmd.ends_with("exit $status"));
    assert_eq!(
        with_alt_screen_watcher("d", "C"),
        "attached=$(tmux display-message -p -t 'd' '#{session_attached}' 2>/dev/null || printf 0); \
         (if ! sleep 0.05 2>/dev/null; then printf '\\033P+ssht;alt=1\\033\\\\'; exit; fi; armed=0; \
         while :; do state=$(tmux display-message -p -t 'd' '#{alternate_on}' 2>/dev/null) || \
         { sleep 0.05; continue; }; \
         clients=$(tmux display-message -p -t 'd' '#{session_attached}' 2>/dev/null || printf 0); \
         if [ \"$armed\" = 0 ] && [ \"$clients\" -gt \"$attached\" ] 2>/dev/null; then \
         sleep 0.2; printf '\\033P+ssht;arm\\033\\\\\\033P+ssht;arm\\033\\\\'; armed=1; fi; \
         printf '\\033P+ssht;alt=%s\\033\\\\\\033P+ssht;alt=%s\\033\\\\' \"$state\" \"$state\"; \
         sleep 0.05; done) & watcher=$!; C; status=$?; \
         kill \"$watcher\" 2>/dev/null; wait \"$watcher\" 2>/dev/null; exit $status"
    );
}

#[test]
fn probe_tells_no_session_from_no_answer() {
    assert_eq!(probe_active(Some(0), b"main: 1 windows"), Some(true));
    assert_eq!(probe_active(Some(0), b""), Some(false));
    assert_eq!(probe_active(Some(1), b""), Some(false));
    assert_eq!(probe_active(Some(1), b"x"), Some(true));
    assert_eq!(probe_active(Some(255), b""), None);
    assert_eq!(probe_active(None, b""), None);
    assert_eq!(probe_args("web")[6..], ["web", "tmux ls 2>/dev/null"]);
}
