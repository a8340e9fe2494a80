use ssht::config::HostMeta;
use ssht::listing::MAX_QUERY;
use ssht::model::{Host, HostSource};
use ssht::picker::{
    handle_key, handle_settings_key, handle_vault_unlock_key, on_key, trim_last_word, App, Key,
    KeyOutcome, Mode, Step, VaultOnDisk, VaultRequest, VaultUnlockAction,
};
use ssht::state::HostState;
use ssht::vault::{AliasIndex, HostSettings, LazyVault, Vault};
use ssht::view::{
    alias_width, centered_rect, field_line, input_line, list_count, list_title, mode_badge, pad_right,
    row, settings_hint, status_visual, unlock_error, unlock_line, unlock_title, Piece, Role,
};

fn sample_hosts() -> Vec<Host> {
    vec![
        Host {
            alias: "prod-web".into(),
            hostname: Some("10.0.0.1".into()),
            user: Some("deploy".into()),
            port: None,
            source: HostSource::SshConfig,
            meta: HostMeta { notes: Some("primary".into()), ..Default::default() },
            state: HostState { connection_count: 3, ..Default::default() },
        },
        Host {
            alias: "db".into(),
            hostname: Some("db.internal".into()),
            user: None,
            port: None,
            source: HostSource::KnownHosts,
            meta: HostMeta::default(),
            state: HostState::default(),
        },
    ]
}

fn no_vault() -> VaultOnDisk {
    VaultOnDisk { exists: false, index: AliasIndex::NoVault }
}

fn vault_with(aliases: &[&str]) -> VaultOnDisk {
    VaultOnDisk {
        exists: true,
        index: AliasIndex::Aliases(aliases.iter().map(|a| a.to_string()).collect()),
    }
}

fn press(app: &mut App, c: char) -> Option<KeyOutcome> {
    handle_key(app, Key::Char(c), false, &no_vault())
}

#[test]
fn trims_last_word() {
    let mut q = String::from("prod web");
    trim_last_word(&mut q);
    assert_eq!(q, "prod ");
    trim_last_word(&mut q);
    assert_eq!(q, "");
}

fn exit_alias(alias: &str) -> Option<KeyOutcome> {
    Some(KeyOutcome::Exit(Some(alias.to_string())))
}

fn exit_none() -> Option<KeyOutcome> {
    Some(KeyOutcome::Exit(None))
}

#[test]
fn vim_navigation_in_normal_mode() {
    let mut app = App::new(sample_hosts(), LazyVault::new());
    assert_eq!(app.selected, 0);
    press(&mut app, 'j');
    assert_eq!(app.selected, 1);
    press(&mut app, 'j');
    assert_eq!(app.selected, 1);
    press(&mut app, 'k');
    assert_eq!(app.selected, 0);
    press(&mut app, 'G');
    assert_eq!(app.selected, 1);
    press(&mut app, 'g');
    assert_eq!(app.selected, 0);
}

#[test]
fn slash_enters_search_and_filters() {
    let mut app = App::new(sample_hosts(), LazyVault::new());
    press(&mut app, '/');
    assert_eq!(app.mode, Mode::Search);
    for c in "db".chars() {
        press(&mut app, c);
    }
    assert_eq!(app.query, "db");
    let filtered_with_query = app.filtered.len();
    handle_key(&mut app, Key::Esc, false, &no_vault());
    assert_eq!(app.mode, Mode::Normal);
    assert_eq!(app.filtered.len(), filtered_with_query);
}

#[test]
fn enter_returns_selection_and_q_cancels() {
    let mut app = App::new(sample_hosts(), LazyVault::new());
    let chosen = press(&mut app, 'l');
    assert_eq!(chosen, exit_alias("db"));
    let cancelled = press(&mut app, 'q');
    assert_eq!(cancelled, exit_none());
}

#[test]
fn e_key_enters_settings_immediately() {
    let mut app = App::new(sample_hosts(), LazyVault::new());
    app.selected = 0;
    press(&mut app, 'e');
    assert_eq!(app.mode, Mode::Settings);
    let s = app.settings.as_ref().unwrap();
    assert_eq!(s.fields[0].value, "db");
    assert_eq!(s.fields[1].value, "db.internal");
    assert_eq!(s.fields[2].value, "");
    assert!(s.fields[3].value.is_empty()); // locked vault => pw blank
}

fn edit(app: &mut App, key: Key) -> Option<VaultRequest> {
    handle_settings_key(app, key, &no_vault())
}

#[test]
fn esc_during_edit_reverts_uncommitted_typing() {
    let mut app = App::new(sample_hosts(), LazyVault::new());
    app.selected = 0;
    press(&mut app, 'e');
    // Select and start editing the Address field (index 1).
    edit(&mut app, Key::Char('j'));
    edit(&mut app, Key::Enter);
    assert!(app.settings.as_ref().unwrap().editing);
    for c in "extra".chars() {
        edit(&mut app, Key::Char(c));
    }
    assert_eq!(app.settings.as_ref().unwrap().fields[1].value, "db.internalextra");
    edit(&mut app, Key::Esc);
    assert!(!app.settings.as_ref().unwrap().editing);
    assert_eq!(app.settings.as_ref().unwrap().fields[1].value, "db.internal");
}

#[test]
fn typing_then_undoing_leaves_no_net_change() {
    let mut app = App::new(sample_hosts(), LazyVault::new());
    app.selected = 0;
    press(&mut app, 'e');
    edit(&mut app, Key::Enter); // edit Name field
    edit(&mut app, Key::Char('x'));
    edit(&mut app, Key::Backspace);
    edit(&mut app, Key::Enter); // confirm edit
    let settings = app.settings.as_ref().unwrap();
    let changed = settings.fields.iter().zip(settings.originals.iter())
        .any(|(f, orig)| &f.value != orig);
    assert!(!changed, "typing a char and backspacing it should not register as a change");
    assert!(!settings.changed());
}

fn select_alias(app: &mut App, alias: &str) {
    app.selected = app.filtered.iter()
        .position(|&i| app.hosts[i].alias == alias)
        .expect("alias present in filtered list");
}

fn test_vault() -> Vault {
    let mut vault = Vault::init("testpass", false).unwrap();
    let settings = HostSettings {
        password: Some("s3cret".into()),
        ..Default::default()
    };
    vault.set_settings("db", settings);
    vault
}

#[test]
fn connecting_to_vaulted_host_pops_up_unlock_instead_of_exiting() {
    let disk = vault_with(&["db"]);
    let mut app = App::new(sample_hosts(), LazyVault::new());

    select_alias(&mut app, "db"); // has vault settings

    // Enter/'l' should NOT exit the picker straight away — it should
    // pop up the vault-unlock prompt instead of dropping to a bare
    // terminal password prompt.
    let outcome = app.try_connect(&disk);
    assert_eq!(outcome, None);
    assert_eq!(app.mode, Mode::VaultUnlock);
    assert!(app.vault_unlock.is_some());

    // A host with no vault settings should connect immediately with
    // no unlock popup at all.
    select_alias(&mut app, "prod-web"); // no vault entry
    let outcome = app.try_connect(&disk);
    assert_eq!(outcome, Some(KeyOutcome::Exit(Some("prod-web".into()))));
    assert_eq!(app.mode, Mode::VaultUnlock, "unrelated in-progress unlock is untouched");

    // Now actually unlock "db"'s pending prompt and confirm the loop
    // gets told to exit and connect.
    app.unlocked(test_vault());
    assert_eq!(app.connect_target.as_deref(), Some("db"));
    assert_eq!(app.mode, Mode::Normal);
}

fn text(pieces: &[Piece]) -> String {
    pieces.iter().map(|p| p.text.as_str()).collect()
}

#[test]
fn renders_without_panicking() {
    let app = App::new(sample_hosts(), LazyVault::new());
    let width = alias_width(&app.hosts);
    let mut shown = text(&list_title()) + &list_count(&app) + mode_badge(app.mode).0;
    for &i in &app.filtered {
        shown += &text(&row(&app.hosts[i], None, width, "never"));
    }
    shown += &text(&input_line(&app));
    assert!(shown.contains("ssht"));
    assert!(shown.contains("NORMAL"));
    assert!(shown.contains("prod-web"));
    assert!(shown.contains("deploy@10.0.0.1"));
}

#[test]
fn arrows_and_pages_move_in_every_mode() {
    let mut hosts = vec![];
    for i in 0..30 {
        let mut h = sample_hosts().remove(1);
        h.alias = format!("h{i:02}");
        hosts.push(h);
    }
    let mut app = App::new(hosts, LazyVault::new());
    let disk = no_vault();
    handle_key(&mut app, Key::Down, false, &disk);
    handle_key(&mut app, Key::Char('n'), true, &disk);
    assert_eq!(app.selected, 2);
    handle_key(&mut app, Key::Up, false, &disk);
    handle_key(&mut app, Key::Char('p'), true, &disk);
    assert_eq!(app.selected, 0);
    handle_key(&mut app, Key::PageDown, false, &disk);
    assert_eq!(app.selected, 10);
    handle_key(&mut app, Key::Char('d'), true, &disk);
    assert_eq!(app.selected, 15);
    handle_key(&mut app, Key::Char('u'), true, &disk);
    assert_eq!(app.selected, 10);
    app.set_viewport(0);
    handle_key(&mut app, Key::Char('d'), true, &disk);
    assert_eq!(app.selected, 11);
    app.set_viewport(40);
    handle_key(&mut app, Key::PageUp, false, &disk);
    assert_eq!(app.selected, 0);
    handle_key(&mut app, Key::PageDown, false, &disk);
    assert_eq!(app.selected, 29);
    app.mode = Mode::Search;
    handle_key(&mut app, Key::Up, false, &disk);
    assert_eq!(app.selected, 28);
}

#[test]
fn search_can_be_edited() {
    let mut app = App::new(sample_hosts(), LazyVault::new());
    let disk = no_vault();
    press(&mut app, 's');
    for c in "prod we".chars() {
        press(&mut app, c);
    }
    assert_eq!(app.filtered, vec![0]);
    handle_key(&mut app, Key::Char('w'), true, &disk);
    assert_eq!(app.query, "prod ");
    handle_key(&mut app, Key::Backspace, false, &disk);
    assert_eq!(app.query, "prod");
    handle_key(&mut app, Key::Char('u'), true, &disk);
    assert_eq!(app.query, "");
    assert_eq!(app.filtered.len(), 2);
    for c in "zzz".chars() {
        press(&mut app, c);
    }
    assert!(app.filtered.is_empty());
    assert_eq!(app.selected_alias(), None);
    assert_eq!(app.try_connect(&disk), exit_none());
}

#[test]
fn the_longest_search_can_be_scored_and_cleared() {
    let mut hosts = sample_hosts();
    hosts[0].alias = "a".repeat(MAX_QUERY);
    hosts[0].hostname = None;
    hosts[0].meta.notes = None;
    let mut app = App::new(hosts, LazyVault::new());
    app.mode = Mode::Search;
    app.query = "a".repeat(MAX_QUERY - 1);
    press(&mut app, 'a');
    assert_eq!(app.query.len(), MAX_QUERY);
    assert_eq!(app.filtered, vec![0]);
    assert!(matches!(on_key(&mut app, Key::Char('n'), true, &no_vault()), Step::Stay));
    assert!(matches!(on_key(&mut app, Key::Char('u'), true, &no_vault()), Step::Stay));
    assert_eq!(app.query, "");
    assert_eq!(app.filtered.len(), 2);
}

#[test]
fn a_key_fits_where_the_search_stays_possible() {
    let mut hosts = sample_hosts();
    hosts[1].alias = "\u{17f}x".into();
    let mut app = App::new(hosts, LazyVault::new());
    assert!(app.key_fits(Key::Char('\u{e4}'), false));
    app.mode = Mode::Search;
    assert!(!app.key_fits(Key::Char('\u{e4}'), false));
    assert!(app.key_fits(Key::Char('a'), false));
    app.query = "a".repeat(MAX_QUERY);
    assert!(!app.key_fits(Key::Char('a'), false));
    for c in ['u', 'w', 'p', 'n', 'd', 'c', 'g'] {
        assert!(app.key_fits(Key::Char(c), true), "{c}");
    }
    assert!(app.key_fits(Key::Backspace, false));
    assert!(app.key_fits(Key::Enter, false));
}

#[test]
fn recent_hosts_come_first() {
    let mut hosts = sample_hosts();
    hosts[0].state.last_connected = Some(5);
    let mut third = sample_hosts().remove(0);
    third.alias = "newest".into();
    third.state.last_connected = Some(9);
    hosts.push(third);
    let app = App::new(hosts, LazyVault::new());
    assert_eq!(app.filtered, vec![2, 0, 1]);
}

#[test]
fn top_level_keys() {
    let mut app = App::new(sample_hosts(), LazyVault::new());
    let disk = no_vault();
    assert!(matches!(on_key(&mut app, Key::Char('c'), true, &disk), Step::Exit(None)));
    assert!(matches!(on_key(&mut app, Key::Char('g'), true, &disk), Step::Exit(None)));
    assert!(matches!(on_key(&mut app, Key::Esc, false, &disk), Step::Exit(None)));
    assert!(matches!(on_key(&mut app, Key::Other, false, &disk), Step::Stay));
    assert!(matches!(on_key(&mut app, Key::Enter, false, &disk), Step::Exit(Some(a)) if a == "db"));
    let disk = vault_with(&["db"]);
    assert!(matches!(on_key(&mut app, Key::Enter, false, &disk), Step::Stay));
    for c in "qc".chars() {
        assert!(matches!(on_key(&mut app, Key::Char(c), true, &disk), Step::Stay));
    }
    match on_key(&mut app, Key::Enter, false, &disk) {
        Step::Vault(VaultRequest::Open(p)) => assert_eq!(p, "qc"),
        step => panic!("{step:?}"),
    }
    app.unlock_failed("wrong".into());
    let data = app.vault_unlock.as_ref().unwrap();
    assert_eq!((data.passphrase.as_str(), data.error.as_deref()), ("", Some("wrong")));
    assert_eq!(unlock_error(data).unwrap().text, "  wrong");
    assert_eq!(unlock_title(data), " Vault passphrase (connect) ");
    on_key(&mut app, Key::Char('x'), false, &disk);
    assert_eq!(app.vault_unlock.as_ref().unwrap().error, None);
    assert_eq!(text(&unlock_line(app.vault_unlock.as_ref().unwrap())), "  Passphrase: *█");
    on_key(&mut app, Key::Backspace, false, &disk);
    assert_eq!(text(&unlock_line(app.vault_unlock.as_ref().unwrap())), "  Passphrase: ");
    assert_eq!(text(&input_line(&app)), "❯ enter vault passphrase");
    on_key(&mut app, Key::Esc, false, &disk);
    assert_eq!(app.mode, Mode::Normal);
    assert!(app.vault_unlock.is_none());
}

fn change_address(app: &mut App) {
    press(app, 'e');
    edit(app, Key::Down);
    edit(app, Key::Enter);
    edit(app, Key::Char('!'));
    edit(app, Key::Enter);
}

#[test]
fn unlocked_vault_takes_changed_settings() {
    let mut vault = LazyVault::new();
    vault.inject(test_vault());
    let mut app = App::new(sample_hosts(), vault);
    change_address(&mut app);
    let disk = vault_with(&["db"]);
    assert!(matches!(handle_settings_key(&mut app, Key::Esc, &disk), Some(VaultRequest::Save)));
    assert_eq!(app.mode, Mode::Normal);
    let stored = app.vault.get_settings("db").unwrap();
    assert_eq!(stored.address.as_deref(), Some("db.internal!"));
    assert_eq!(stored.password.as_deref(), Some("s3cret"));
    // The disk refuses: the screen is back, under the error.
    app.save_failed("disk full".into());
    assert_eq!(app.mode, Mode::VaultUnlock);
    assert_eq!(app.settings.as_ref().unwrap().fields[1].value, "db.internal!");
    let data = app.vault_unlock.as_ref().unwrap();
    assert_eq!(data.error.as_deref(), Some("disk full"));
    assert!(matches!(data.action, VaultUnlockAction::ReenterSettings));
    handle_vault_unlock_key(&mut app, Key::Esc);
    assert_eq!(app.mode, Mode::Settings);
    handle_settings_key(&mut app, Key::Esc, &disk);
    app.saved();
    assert!(app.unsaved.is_none());
    app.save_failed("late".into());
    assert_eq!(app.mode, Mode::Normal);
}

#[test]
fn locked_vault_is_asked_for_before_saving() {
    let mut app = App::new(sample_hosts(), LazyVault::new());
    change_address(&mut app);
    let disk = vault_with(&[]);
    assert!(handle_settings_key(&mut app, Key::Esc, &disk).is_none());
    assert_eq!(app.mode, Mode::VaultUnlock);
    assert_eq!(unlock_title(app.vault_unlock.as_ref().unwrap()), " Vault passphrase (save) ");
    let request = app.unlocked(test_vault());
    assert!(matches!(request, Some(VaultRequest::Save)));
    assert_eq!(app.mode, Mode::Normal);
    assert_eq!(
        app.vault.get_settings("db").unwrap().address.as_deref(),
        Some("db.internal!")
    );
}

#[test]
fn without_a_vault_only_a_password_creates_one() {
    let mut app = App::new(sample_hosts(), LazyVault::new());
    change_address(&mut app);
    assert!(edit(&mut app, Key::Esc).is_none());
    assert_eq!(app.mode, Mode::Normal);
    press(&mut app, 'e');
    for _ in 0..5 {
        edit(&mut app, Key::Char('j'));
    }
    edit(&mut app, Key::Enter);
    edit(&mut app, Key::Char('p'));
    edit(&mut app, Key::Enter);
    match edit(&mut app, Key::Esc) {
        Some(VaultRequest::Create(alias, settings)) => {
            assert_eq!(alias, "db");
            assert_eq!(settings.password.as_deref(), Some("p"));
            app.vault_created(Vault::init("x", false).unwrap(), &alias, settings);
        }
        r => panic!("{r:?}"),
    }
    assert_eq!(app.vault.get_password("db").as_deref(), Some("p"));
    assert_eq!(app.mode, Mode::Normal);
}

#[test]
fn password_of_a_locked_vault_is_unlocked_first() {
    let mut app = App::new(sample_hosts(), LazyVault::new());
    let disk = vault_with(&["db"]);
    press(&mut app, 'e');
    for _ in 0..3 {
        handle_settings_key(&mut app, Key::Char('j'), &disk);
    }
    let line = text(&field_line(app.settings.as_ref().unwrap(), 3));
    assert_eq!(line, "  Password  ******** (↵ to unlock)");
    handle_settings_key(&mut app, Key::Enter, &disk);
    assert_eq!(app.mode, Mode::VaultUnlock);
    assert_eq!(unlock_title(app.vault_unlock.as_ref().unwrap()), " Vault passphrase ");
    assert!(app.unlocked(test_vault()).is_none());
    assert_eq!(app.mode, Mode::Settings);
    let s = app.settings.as_ref().unwrap();
    assert!(s.editing && s.selected == 3);
    assert_eq!(s.fields[3].value, "s3cret");
    assert_eq!(text(&field_line(s, 3)), "  Password  s3cret█");
    assert_eq!(text(&field_line(s, 0)), "  Name      db");
    assert_eq!(text(&input_line(&app)), "❯ editing db");
}

#[test]
fn looking_at_settings_stores_nothing() {
    let mut vault = LazyVault::new();
    vault.inject(test_vault());
    let mut app = App::new(sample_hosts(), vault);
    press(&mut app, 'e');
    assert!(edit(&mut app, Key::Esc).is_none());
    assert_eq!(app.mode, Mode::Normal);
    assert!(app.vault.get_settings("db").unwrap().address.is_none());
}

#[test]
fn rows_say_what_is_known() {
    let hosts = sample_hosts();
    assert_eq!(
        text(&row(&hosts[0], Some(Some(true)), 8, "3h ago")),
        "● prod-web  deploy@10.0.0.1  3h ago  ×3  tmux  — primary"
    );
    assert_eq!(
        text(&row(&hosts[1], Some(None), 8, "never")),
        "⨯ db        db.internal  never  (known_hosts)"
    );
    assert_eq!(status_visual(Some(Some(false))).0, "○");
    assert_eq!(status_visual(None), ("•", Role::Faint, ""));
    assert_eq!(alias_width(&vec![]), 8);
    let mut long = sample_hosts();
    long[0].alias = "x".repeat(40);
    assert_eq!(alias_width(&long), 28);
    assert_eq!(pad_right("abc", 5), "abc  ");
    assert_eq!(pad_right("abc", 2), "abc");
}

#[test]
fn popups_are_centred() {
    assert_eq!(centered_rect(100, 20, 50, 25), (25, 7, 50, 5));
    assert_eq!(centered_rect(0, 0, 50, 25), (0, 0, 0, 0));
    assert_eq!(centered_rect(10, 10, 200, 100), (0, 0, 10, 10));
}

#[test]
fn the_bottom_line_shows_the_search() {
    let mut app = App::new(sample_hosts(), LazyVault::new());
    assert_eq!(text(&input_line(&app)), "❯ press / to search…");
    press(&mut app, 'i');
    press(&mut app, 'd');
    assert_eq!(text(&input_line(&app)), "❯ d█");
    handle_key(&mut app, Key::Esc, false, &no_vault());
    assert_eq!(text(&input_line(&app)), "❯ d");
    assert_eq!(list_count(&app), " 2/2 hosts ");
    assert_eq!(settings_hint(true), "  ↵ save  esc cancel");
    assert!(settings_hint(false).contains("esc save & back"));
    app.set_status("db".into(), Some(true));
    assert_eq!(app.statuses.get("db"), Some(&Some(true)));
}
