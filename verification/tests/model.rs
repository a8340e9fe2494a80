use ssht::config::HostMeta;
use ssht::listing::{can_search, list_hosts, rank_hosts, MAX_QUERY};
use ssht::model::{merge_hosts, Host, HostSource};
use ssht::order::{sorted, SortKey};
use ssht::state::HostState;
use ssht::table::Table;

fn host(alias: &str, source: HostSource) -> Host {
    Host {
        alias: alias.into(),
        hostname: None,
        user: None,
        port: None,
        source,
        meta: HostMeta::default(),
        state: HostState::default(),
    }
}

#[test]
fn endpoints_leave_out_what_is_unknown() {
    let mut h = host("web", HostSource::SshConfig);
    assert_eq!(h.endpoint(), "web");
    h.port = Some(2200);
    assert_eq!(h.endpoint(), "web:2200");
    h.user = Some("deploy".into());
    h.hostname = Some("10.0.0.1".into());
    assert_eq!(h.endpoint(), "deploy@10.0.0.1:2200");
    h.port = None;
    assert_eq!(h.endpoint(), "deploy@10.0.0.1");
}

#[test]
fn haystacks_hold_alias_hostname_and_notes() {
    let mut h = host("web", HostSource::SshConfig);
    assert_eq!(h.haystack(), "web");
    h.hostname = Some("web".into());
    assert_eq!(h.haystack(), "web");
    h.hostname = Some("10.0.0.1".into());
    h.meta.notes = Some("primary".into());
    assert_eq!(h.haystack(), "web 10.0.0.1 primary");
}

#[test]
fn sources_have_labels() {
    assert_eq!(HostSource::SshConfig.label(), "ssh_config");
    assert_eq!(HostSource::KnownHosts.label(), "known_hosts");
}

#[test]
fn merging_prefers_the_ssh_configuration() {
    let mut known = host("web", HostSource::KnownHosts);
    known.user = Some("known".into());
    let mut first = host("web", HostSource::SshConfig);
    first.user = Some("first".into());
    let mut second = host("web", HostSource::SshConfig);
    second.user = Some("second".into());
    let mut late = host("web", HostSource::KnownHosts);
    late.user = Some("late".into());
    let mut db1 = host("db", HostSource::KnownHosts);
    db1.user = Some("one".into());
    let mut db2 = host("db", HostSource::KnownHosts);
    db2.user = Some("two".into());
    let merged = merge_hosts(
        vec![known, first, second, late, db1, db2],
        &Table::new(),
        &Table::new(),
    );
    let seen: Vec<(&str, Option<&str>)> =
        merged.iter().map(|h| (h.alias.as_str(), h.user.as_deref())).collect();
    assert_eq!(seen, vec![("db", Some("two")), ("web", Some("first"))]);
}

#[test]
fn merging_fills_in_and_sorts_without_case() {
    let mut metas = Table::new();
    metas.insert(
        "Beta".to_string(),
        HostMeta { notes: Some("n".into()), ..Default::default() },
    );
    let mut states = Table::new();
    states.insert(
        "alpha".to_string(),
        HostState { connection_count: 4, last_connected: Some(7), notes: None },
    );
    let merged = merge_hosts(
        vec![
            host("gamma", HostSource::SshConfig),
            host("Beta", HostSource::SshConfig),
            host("alpha", HostSource::SshConfig),
            host("ÄRGER", HostSource::SshConfig),
            host("ärz", HostSource::SshConfig),
        ],
        &metas,
        &states,
    );
    let aliases: Vec<&str> = merged.iter().map(|h| h.alias.as_str()).collect();
    assert_eq!(aliases, vec!["alpha", "Beta", "gamma", "ÄRGER", "ärz"]);
    assert_eq!(merged[0].state.connection_count, 4);
    assert_eq!(merged[0].state.last_connected, Some(7));
    assert_eq!(merged[1].meta.notes.as_deref(), Some("n"));
    assert_eq!(merged[2].meta.notes, None);
}

#[test]
fn sorting_is_by_rank_then_text_then_place() {
    let keys = vec![
        SortKey::new(1, "a"),
        SortKey::new(0, "b"),
        SortKey::new(0, "a"),
        SortKey::new(0, "ab"),
        SortKey::new(0, "a"),
        SortKey::new(0, ""),
    ];
    assert_eq!(sorted(&keys), vec![5, 2, 4, 3, 1, 0]);
}

#[test]
fn tables_map_texts() {
    let mut t: Table<u32> = Table::new();
    assert!(t.is_empty());
    t.insert("a".to_string(), 1);
    t.insert("b".to_string(), 2);
    t.insert("a".to_string(), 3);
    assert_eq!(t.len(), 2);
    assert_eq!(t.get("a"), Some(&3));
    assert!(t.contains_key("b") && !t.contains_key("c"));
    let mut keys = t.keys();
    keys.sort();
    assert_eq!(keys, vec!["a", "b"]);
    assert_eq!(t.remove("a"), Some(3));
    assert_eq!(t.remove("a"), None);
    assert_eq!(t.get("a"), None);
    assert_eq!(t.len(), 1);
}

#[test]
fn ranking_puts_the_smallest_first() {
    let hosts = vec![
        host("b", HostSource::SshConfig),
        host("a", HostSource::SshConfig),
        host("c", HostSource::SshConfig),
        host("a2", HostSource::SshConfig),
    ];
    let ranks = vec![Some(-5), Some(-5), None, Some(-9)];
    assert_eq!(rank_hosts(&hosts, &ranks), vec![3, 1, 0]);
}

#[test]
fn searching_lists_matches_best_first() {
    let mut matcher = nucleo_matcher::Matcher::new(nucleo_matcher::Config::DEFAULT);
    let hosts = vec![
        host("w-e-b", HostSource::SshConfig),
        host("database", HostSource::SshConfig),
        host("web", HostSource::SshConfig),
    ];
    assert_eq!(list_hosts(&hosts, "web", &mut matcher), vec![2, 0]);
    assert_eq!(list_hosts(&hosts, "", &mut matcher), vec![1, 0, 2]);
    assert!(list_hosts(&hosts, "xyz", &mut matcher).is_empty());
}

#[test]
fn only_searches_that_the_matcher_takes_are_possible() {
    let hosts = vec![host("\u{17f}sx\u{e4}x", HostSource::SshConfig)];
    assert!(can_search(&hosts, ""));
    assert!(can_search(&hosts, "s"));
    assert!(can_search(&hosts, "\u{436}"));
    assert!(!can_search(&hosts, "s\u{e4}"));
    let plain = vec![host("web", HostSource::SshConfig)];
    assert!(can_search(&plain, "s\u{e4}"));
    assert!(can_search(&plain, &"a".repeat(MAX_QUERY)));
    assert!(can_search(&plain, &"\\".repeat(MAX_QUERY)));
    assert!(!can_search(&plain, &"a".repeat(MAX_QUERY + 1)));
    let half = "\\".repeat(MAX_QUERY / 2);
    assert!(!can_search(&plain, &format!("\u{436}{half}")));
    assert!(can_search(&plain, &format!("\u{436}{}", &half[1..])));
    assert!(can_search(&Vec::new(), &"a".repeat(MAX_QUERY + 1)));
}

#[test]
fn a_final_sigma_can_be_searched_for() {
    let mut matcher = nucleo_matcher::Matcher::new(nucleo_matcher::Config::DEFAULT);
    let hosts = vec![
        host("\u{3b4}\u{3af}\u{3c3}\u{3ba}\u{3bf}\u{3c2}", HostSource::SshConfig),
        host("web", HostSource::SshConfig),
    ];
    assert!(can_search(&hosts, "\u{3b4}\u{3ba}\u{3bf}"));
    assert_eq!(list_hosts(&hosts, "\u{3b4}\u{3ba}\u{3bf}", &mut matcher), vec![0]);
}
