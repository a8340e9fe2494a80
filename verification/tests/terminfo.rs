use ssht::terminfo::{
    active_term, apply_override, install_args, install_command, install_outcome, plan_install,
    unavailable_notice, TermError, TermPlan, NO_REMOTE_TIC,
};

#[test]
fn install_script_quotes_the_terminal() {
    let script = install_command("odd term'value");
    assert!(script.contains("'odd term'\\''value'"));
    assert_eq!(
        install_command("xterm"),
        "term='xterm'; \
         if command -v infocmp >/dev/null 2>&1 && infocmp -x \"$term\" >/dev/null 2>&1; then \
         cat >/dev/null; exit 0; fi; \
         if ! command -v tic >/dev/null 2>&1; then cat >/dev/null; exit 42; fi; \
         mkdir -p \"$HOME/.terminfo\" && tic -x -o \"$HOME/.terminfo\" -"
    );
}

#[test]
fn term_override_is_scoped_to_remote_command() {
    assert_eq!(
        apply_override("tmux attach", Some("xterm-kitty")),
        "export TERM='xterm-kitty'; tmux attach"
    );
    assert_eq!(apply_override("tmux attach", None), "tmux attach");
}

#[test]
fn dumb_and_empty_terminals_need_nothing() {
    assert_eq!(active_term(Some("xterm-kitty".into())).as_deref(), Some("xterm-kitty"));
    assert_eq!(active_term(Some("dumb".into())), None);
    assert_eq!(active_term(Some("".into())), None);
    assert_eq!(active_term(None), None);
}

#[test]
fn fallback_is_used_where_the_terminal_is_unknown() {
    let plan = plan_install("xterm-kitty", true, false).unwrap();
    assert_eq!((plan.term.as_str(), plan.forced), ("xterm-kitty", false));
    let plan = plan_install("xterm-kitty", false, true).unwrap();
    assert_eq!((plan.term.as_str(), plan.forced), ("xterm-256color", true));
    let err = plan_install("xterm-kitty", false, false).unwrap_err();
    assert!(matches!(err, TermError::NoFallback));
    assert!(err.message().contains("xterm-256color"));
    assert!(unavailable_notice("xterm-kitty").contains("xterm-kitty"));
}

fn plan(forced: bool) -> TermPlan {
    TermPlan { term: "xterm-kitty".into(), forced }
}

#[test]
fn outcome_decides_the_remote_terminal() {
    let o = install_outcome(plan(false), Some(0), true, "web").unwrap();
    assert!(o.term.is_none() && o.notice.is_none());
    let o = install_outcome(plan(true), Some(0), true, "web").unwrap();
    assert_eq!(o.term.as_deref(), Some("xterm-kitty"));
    let o = install_outcome(plan(false), Some(NO_REMOTE_TIC), true, "web").unwrap();
    assert_eq!(o.term.as_deref(), Some("xterm-256color"));
    assert!(o.notice.unwrap().contains("remote tic is unavailable for xterm-kitty"));
    for code in [Some(1), None] {
        let o = install_outcome(plan(false), code, false, "web").unwrap();
        assert_eq!(o.term.as_deref(), Some("xterm-256color"));
        assert!(o.notice.unwrap().contains("could not install"));
    }
    let err = install_outcome(plan(false), Some(255), true, "web").unwrap_err();
    assert_eq!(err.message(), "SSH failed while checking terminfo on web");
    let err = install_outcome(plan(false), Some(0), false, "web").unwrap_err();
    assert!(matches!(err, TermError::NotSent));
    assert_eq!(err.message(), "sending local terminfo to the remote host");
}

#[test]
fn installation_has_no_terminal_of_its_own() {
    let args = install_args(
        &vec!["-o".into(), "X=y".into()],
        &vec!["-v".into()],
        Some("deploy"),
        "web",
        "xterm",
    );
    assert_eq!(&args[..7], &["-T", "-o", "X=y", "-v", "-l", "deploy", "web"]);
    assert_eq!(args[7], install_command("xterm"));
    assert_eq!(install_args(&vec![], &vec![], None, "web", "xterm").len(), 3);
}
