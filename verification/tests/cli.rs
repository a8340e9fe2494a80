use ssht::cli::{
    editor_of, field_defaults, last_alias, list_text, remove_settings, removed_notice,
    session_of_command, vault_lines, Cli, CliError, Command,
};
use ssht::config::{Config, HostMeta};
use ssht::model::{Host, HostSource};
use ssht::state::HostState;
use ssht::vault::{HostSettings, Vault};

fn no_arguments() -> Cli {
    Cli {
        host: None,
        layout: None,
        no_reconnect: false,
        local_echo: false,
        mosh: false,
        local_forward: vec![],
        remote_forward: vec![],
        dynamic_forward: vec![],
        read_only: false,
        scrollback: None,
        ssh_args: vec![],
        command: None,
    }
}

#[test]
fn mosh_and_local_echo_conflict() {
    let cli = Cli {
        mosh: true,
        local_echo: true,
        host: Some("host".into()),
        ..no_arguments()
    };
    assert!(cli.check().is_err());
    assert_eq!(cli.check(), Err(CliError::MoshWithLocalEcho));
    assert!(CliError::MoshWithLocalEcho.message().contains("--mosh"));
}

#[test]
fn mosh_can_be_selected_for_a_host() {
    let cli = Cli { mosh: true, host: Some("host".into()), ..no_arguments() };
    cli.check().unwrap();
    assert!(cli.mosh);
    assert_eq!(cli.host.as_deref(), Some("host"));
}

#[test]
fn a_command_takes_no_arguments_for_connecting() {
    let alone = Cli { command: Some(Command::List), ..no_arguments() };
    assert_eq!(alone.check(), Ok(()));
    let both = Cli {
        command: Some(Command::List),
        layout: Some("dev".into()),
        ..no_arguments()
    };
    assert_eq!(both.check(), Err(CliError::ArgumentsWithCommand));
    assert!(CliError::ArgumentsWithCommand.message().contains("command"));
    let scrolled = Cli { command: Some(Command::Edit), scrollback: Some(0), ..no_arguments() };
    assert_eq!(scrolled.check(), Err(CliError::ArgumentsWithCommand));
}

#[test]
fn options_carry_the_flags_over() {
    let cli = Cli {
        local_echo: true,
        read_only: true,
        scrollback: Some(7),
        local_forward: vec!["1:a:1".into()],
        remote_forward: vec!["2:b:2".into()],
        dynamic_forward: vec!["3".into()],
        ..no_arguments()
    };
    let opts = cli.connect_options();
    assert!(opts.local_echo && opts.read_only && !opts.no_reconnect);
    assert_eq!(opts.scrollback, Some(7));
    assert_eq!(opts.forwards.local, vec!["1:a:1"]);
    assert_eq!(opts.forwards.remote, vec!["2:b:2"]);
    assert_eq!(opts.forwards.dynamic, vec!["3"]);
}

#[test]
fn hosts_are_listed_one_to_a_line() {
    let host = |alias: &str| Host {
        alias: alias.into(),
        hostname: None,
        user: None,
        port: None,
        source: HostSource::SshConfig,
        meta: HostMeta::default(),
        state: HostState::default(),
    };
    assert_eq!(list_text(&vec![host("db"), host("web")]), "db\nweb\n");
    assert_eq!(list_text(&vec![]), "");
}

#[test]
fn last_needs_a_connection() {
    assert_eq!(last_alias(Some("db".into())), Ok("db".to_string()));
    assert_eq!(last_alias(None), Err(CliError::NoPreviousHost));
    assert_eq!(CliError::NoPreviousHost.message(), "no previous connection recorded yet");
}

#[test]
fn editor_falls_back_to_visual_and_vi() {
    assert_eq!(editor_of(Some("nvim".into()), Some("code".into())), "nvim");
    assert_eq!(editor_of(None, Some("code".into())), "code");
    assert_eq!(editor_of(None, None), "vi");
}

#[test]
fn unnamed_session_is_the_configured_one() {
    let mut config = Config::default();
    config.hosts.insert(
        "web".to_string(),
        HostMeta { session: Some("ops".into()), ..Default::default() },
    );
    assert_eq!(session_of_command(&config, "web", &None), "ops");
    assert_eq!(session_of_command(&config, "db", &None), "main");
    assert_eq!(session_of_command(&config, "web", &Some("x".into())), "x");
}

#[test]
fn fields_offer_what_is_stored_then_what_is_known() {
    let stored = Some(HostSettings { address: Some("10.0.0.9".into()), ..Default::default() });
    let d = field_defaults(&stored, "web", Some("web.internal"), Some("deploy"));
    assert_eq!(d.name.as_deref(), Some("web"));
    assert_eq!(d.address.as_deref(), Some("10.0.0.9"));
    assert_eq!(d.username.as_deref(), Some("deploy"));
    assert_eq!(d.password, None);
    let d = field_defaults(&None, "web", None, None);
    assert_eq!(d.name.as_deref(), Some("web"));
    assert_eq!(d.address, None);
}

#[test]
fn vault_listing_shows_addresses() {
    let mut vault = Vault::init("p", false).unwrap();
    assert!(vault_lines(&vault).is_empty());
    vault.set_settings("web", HostSettings { address: Some("10.0.0.4".into()), ..Default::default() });
    vault.set_settings("db", HostSettings::default());
    assert_eq!(
        vault_lines(&vault),
        vec!["db                   address=-", "web                  address=10.0.0.4"]
    );
    assert!(remove_settings(&mut vault, "web"));
    assert!(!remove_settings(&mut vault, "web"));
    assert_eq!(vault.len(), 1);
    assert_eq!(removed_notice(true, "web"), "Settings removed for web");
    assert_eq!(removed_notice(false, "web"), "No settings stored for web");
}
