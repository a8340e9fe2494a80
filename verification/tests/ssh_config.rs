use ssht::discovery::{
    discover, parse_config_file, parse_known_hosts, resolve_include, Discovery, Need, PathRules,
    Snapshot, SourceFile,
};
use ssht::model::HostSource;
use ssht::ssh_config::{
    clean_known_host, glob_matches, is_literal, read_directive, split_kv, strip_comment,
    wildcard_match, DirEntry, Directive,
};
use ssht::table::Table;

#[test]
fn literal_detection() {
    assert!(is_literal("prod-web"));
    assert!(!is_literal("*.example.com"));
    assert!(!is_literal("web?"));
    assert!(!is_literal("!secret"));
}

fn kv(line: &str) -> Option<(String, String)> {
    split_kv(line)
}

fn pair(k: &str, v: &str) -> Option<(String, String)> {
    Some((k.to_string(), v.to_string()))
}

#[test]
fn kv_splitting() {
    assert_eq!(kv("Host prod"), pair("Host", "prod"));
    assert_eq!(kv("HostName = 1.2.3.4"), pair("HostName", "1.2.3.4"));
    assert_eq!(kv("  Port   2222 "), pair("Port", "2222"));
    assert_eq!(kv(""), None);
}

#[test]
fn odd_lines_split_too() {
    assert_eq!(kv("Compression"), pair("Compression", ""));
    assert_eq!(kv("= x"), pair("=", "x"));
    assert_eq!(kv("=a=b c"), pair("=a=b", "c"));
    assert_eq!(kv("a=b=c"), pair("a", "b=c"));
    assert_eq!(kv("a=\t=b"), pair("a", "=b"));
    assert_eq!(kv("a ="), pair("a", ""));
    assert_eq!(kv(" \t "), None);
}

#[test]
fn an_equals_sign_in_a_value_stays_there() {
    assert_eq!(kv("SetEnv FOO=bar"), pair("SetEnv", "FOO=bar"));
    assert_eq!(kv("SetEnv = FOO=bar"), pair("SetEnv", "FOO=bar"));
    assert_eq!(kv("ProxyCommand nc -x a=b = c"), pair("ProxyCommand", "nc -x a=b = c"));
    assert!(matches!(read_directive("User a=b"), Directive::User(u) if u == "a=b"));
    assert!(matches!(read_directive("Host a=b"), Directive::Host(p) if p == ["a=b"]));
    assert!(matches!(read_directive("Include x=y.conf"), Directive::Include(p) if p == ["x=y.conf"]));
}

#[test]
fn comment_stripping() {
    assert_eq!(strip_comment("Host prod # primary").trim(), "Host prod");
    assert_eq!(strip_comment("# whole line").trim(), "");
}

#[test]
fn wildcard_matching() {
    assert!(wildcard_match("*.conf", "web.conf"));
    assert!(wildcard_match("config*", "config_local"));
    assert!(wildcard_match("h?st", "host"));
    assert!(!wildcard_match("*.conf", "web.txt"));
    assert!(wildcard_match("*", "anything"));
    assert!(wildcard_match("a*b*c", "aXbYbc"));
    assert!(!wildcard_match("?", ""));
    assert!(wildcard_match("", ""));
}

#[test]
fn known_host_cleaning() {
    assert_eq!(clean_known_host("example.com").as_deref(), Some("example.com"));
    assert_eq!(clean_known_host("[example.com]:2222").as_deref(), Some("example.com"));
    assert_eq!(clean_known_host("  ").as_deref(), None);
    assert_eq!(clean_known_host("[]:22").as_deref(), None);
    assert_eq!(clean_known_host("[open").as_deref(), Some("[open"));
}

#[test]
fn directives_are_read_in_any_case() {
    assert!(matches!(read_directive("HOST a b"), Directive::Host(v) if v == vec!["a", "b"]));
    assert!(matches!(read_directive("match host x"), Directive::Match));
    assert!(matches!(read_directive("Include a/* b"), Directive::Include(v) if v.len() == 2));
    assert!(matches!(read_directive("HostName=x # y"), Directive::HostName(v) if v == "x"));
    assert!(matches!(read_directive("\tUser bob"), Directive::User(v) if v == "bob"));
    assert!(matches!(read_directive("Port 22"), Directive::Port(22)));
    assert!(matches!(read_directive("Port 65536"), Directive::Other));
    assert!(matches!(read_directive("Port x"), Directive::Other));
    assert!(matches!(read_directive("# Host a"), Directive::Other));
}

fn file(path: &str, dir: &str, text: Option<&str>) -> SourceFile {
    SourceFile {
        canonical: path.to_string(),
        dir: Some(dir.to_string()),
        text: text.map(|t| t.to_string()),
    }
}

fn empty_snapshot() -> Snapshot {
    Snapshot { paths: PathRules::Unix, files: Table::new(), globs: Table::new() }
}

#[test]
fn parses_hosts_and_options_with_include() {
    let mut snapshot = empty_snapshot();
    snapshot.files.insert(
        "/t/config".to_string(),
        file(
            "/t/config",
            "/t",
            Some(
                "Host prod-web\n  HostName 10.0.0.1\n  User deploy\n  Port 2200\n\n\
                 Host *\n  ServerAliveInterval 60\n\n\
                 Include conf.d/*.conf\n",
            ),
        ),
    );
    let entries = vec![
        DirEntry { name: "extra.conf".into(), path: "/t/conf.d/extra.conf".into() },
        DirEntry { name: "notes.txt".into(), path: "/t/conf.d/notes.txt".into() },
    ];
    snapshot.globs.insert(
        "/t/conf.d/*.conf".to_string(),
        Some(glob_matches("*.conf", &entries)),
    );
    snapshot.files.insert(
        "/t/conf.d/extra.conf".to_string(),
        file("/t/conf.d/extra.conf", "/t/conf.d", Some("Host db\n  HostName db.internal\n")),
    );

    let found = parse_config_file("/t/config", &snapshot, &None, Discovery::new()).unwrap();
    let hosts = found.hosts;

    let prod = hosts.iter().find(|h| h.alias == "prod-web").expect("prod-web");
    assert_eq!(prod.hostname.as_deref(), Some("10.0.0.1"));
    assert_eq!(prod.user.as_deref(), Some("deploy"));
    assert_eq!(prod.port, Some(2200));

    // Wildcard `Host *` must be skipped.
    assert!(!hosts.iter().any(|h| h.alias == "*"));
    // Included host present.
    assert!(hosts.iter().any(|h| h.alias == "db"));
}

#[test]
fn missing_files_and_globs_are_asked_for_in_turn() {
    let mut snapshot = empty_snapshot();
    let home = Some("/home/bob".to_string());
    let ask = |snapshot: &Snapshot| parse_config_file("/c", snapshot, &home, Discovery::new());
    assert!(matches!(ask(&snapshot), Err(Need::File(p)) if p == "/c"));
    snapshot.files.insert(
        "/c".to_string(),
        file("/c", "/", Some("Include ~/x.d/* plain\nHost a")),
    );
    assert!(matches!(ask(&snapshot), Err(Need::Glob(p)) if p == "/home/bob/x.d/*"));
    snapshot.globs.insert("/home/bob/x.d/*".to_string(), Some(vec!["/home/bob/x.d/1".into()]));
    assert!(matches!(ask(&snapshot), Err(Need::File(p)) if p == "/home/bob/x.d/1"));
    snapshot.files.insert("/home/bob/x.d/1".to_string(), file("/1", "/home/bob/x.d", None));
    assert!(matches!(ask(&snapshot), Err(Need::File(p)) if p == "/plain"));
    snapshot.files.insert("/plain".to_string(), file("/plain", "/", Some("Host b")));
    let found = ask(&snapshot).unwrap();
    let aliases: Vec<&str> = found.hosts.iter().map(|h| h.alias.as_str()).collect();
    assert_eq!(aliases, vec!["b", "a"]);
}

#[test]
fn reading_more_changes_no_answer() {
    let mut snapshot = empty_snapshot();
    snapshot.files.insert("/c".to_string(), file("/c", "/", Some("Host a\nInclude d\nPort 7")));
    snapshot.files.insert("/d".to_string(), file("/d", "/", Some("Host b")));
    let read = |snapshot: &Snapshot| {
        let found = parse_config_file("/c", snapshot, &None, Discovery::new()).unwrap();
        let seen = found.hosts.into_iter().map(|h| (h.alias, h.port));
        seen.collect::<Vec<(String, Option<u16>)>>()
    };
    let before = read(&snapshot);
    assert_eq!(before, vec![("a".to_string(), Some(7)), ("b".to_string(), None)]);
    snapshot.files.insert("/e".to_string(), file("/e", "/", Some("Host c")));
    snapshot.globs.insert("/*".to_string(), Some(vec!["/e".to_string()]));
    assert_eq!(read(&snapshot), before);
}

#[test]
fn a_glob_without_a_listing_is_a_path() {
    let mut snapshot = empty_snapshot();
    snapshot.files.insert("/c".to_string(), file("/c", "/", Some("Include */..")));
    snapshot.globs.insert("/*/..".to_string(), None);
    let r = parse_config_file("/c", &snapshot, &None, Discovery::new());
    assert!(matches!(r, Err(Need::File(p)) if p == "/*/.."));
}

#[test]
fn files_that_include_each_other_are_read_once() {
    let mut snapshot = empty_snapshot();
    snapshot.files.insert("/a".to_string(), file("/a", "/", Some("Host a\nInclude b\nPort 1")));
    snapshot.files.insert("/b".to_string(), file("/b", "/", Some("Include a b\nHost b a\nPort 2")));
    let found = parse_config_file("/a", &snapshot, &None, Discovery::new()).unwrap();
    let seen: Vec<(&str, Option<u16>)> =
        found.hosts.iter().map(|h| (h.alias.as_str(), h.port)).collect();
    // The block of `a` goes on behind the inclusion.
    assert_eq!(seen, vec![("a", Some(1)), ("b", Some(2))]);
    assert_eq!(found.visited.len(), 2);
    let again = parse_config_file("/a", &snapshot, &None, found).unwrap();
    assert_eq!(again.hosts.len(), 2);
}

#[test]
fn deep_nesting_is_followed() {
    let mut snapshot = empty_snapshot();
    for i in 0..50 {
        let text = format!("Host h{i}\nInclude {}", i + 1);
        snapshot.files.insert(format!("/{i}"), file(&format!("/{i}"), "/", Some(&text)));
    }
    snapshot.files.insert("/50".to_string(), file("/50", "/", Some("Host end")));
    let found = parse_config_file("/0", &snapshot, &None, Discovery::new()).unwrap();
    assert_eq!(found.hosts.len(), 51);
    assert_eq!(found.hosts[50].alias, "end");
}

#[test]
fn match_blocks_set_nothing() {
    let mut snapshot = empty_snapshot();
    snapshot.files.insert(
        "/c".to_string(),
        file("/c", "/", Some("Host a\nMatch all\nUser bob\nHost b\nUser eve\nUser amy")),
    );
    let found = parse_config_file("/c", &snapshot, &None, Discovery::new()).unwrap();
    assert_eq!(found.hosts[0].user, None);
    assert_eq!(found.hosts[1].user.as_deref(), Some("amy"));
}

#[test]
fn include_paths_are_resolved() {
    let home = Some("/home/bob".to_string());
    let dir = Some("/home/bob/.ssh".to_string());
    let at = |token: &str| resolve_include(token, &PathRules::Unix, &home, &dir).unwrap();
    assert_eq!(at("~/x"), "/home/bob/x");
    assert_eq!(at("~"), "/home/bob");
    assert_eq!(at("~eve/x"), "/home/bob/.ssh/~eve/x");
    assert_eq!(at("/etc/x"), "/etc/x");
    assert_eq!(at("x/y"), "/home/bob/.ssh/x/y");
    assert_eq!(at("~\\x"), "/home/bob/.ssh/~\\x");
    let root = Some("/".to_string());
    assert_eq!(resolve_include("~/x", &PathRules::Unix, &None, &root).unwrap(), "/~/x");
    assert_eq!(resolve_include("x", &PathRules::Unix, &None, &None).unwrap(), "x");
}

#[test]
fn on_windows_the_system_tells_where_a_path_leads() {
    let home = Some("C:\\Users\\bob".to_string());
    let dir = Some("C:\\Users\\bob\\.ssh".to_string());
    let mut from = Table::new();
    from.insert("C:\\Users\\bob\\x".to_string(), "C:\\Users\\bob\\x".to_string());
    from.insert("x".to_string(), "C:\\Users\\bob\\.ssh\\x".to_string());
    let mut places = Table::new();
    places.insert(dir.clone().unwrap(), from);
    let rules = PathRules::Windows(places);
    let at = |token: &str| resolve_include(token, &rules, &home, &dir);
    assert_eq!(at("~\\x").unwrap(), "C:\\Users\\bob\\x");
    assert_eq!(at("x").unwrap(), "C:\\Users\\bob\\.ssh\\x");
    assert!(matches!(at("~/x"), Err(Need::Place { path, .. }) if path == "C:\\Users\\bob/x"));
    assert!(matches!(
        at("D:\\y"),
        Err(Need::Place { dir, path }) if dir == "C:\\Users\\bob\\.ssh" && path == "D:\\y"
    ));
    assert_eq!(resolve_include("~\\x", &rules, &home, &None).unwrap(), "C:\\Users\\bob\\x");
    assert_eq!(resolve_include("~\\x", &rules, &None, &None).unwrap(), "~\\x");
}

#[test]
fn places_are_asked_for_before_files() {
    let mut snapshot = empty_snapshot();
    snapshot.paths = PathRules::Windows(Table::new());
    snapshot.files.insert("C:\\c".to_string(), file("C:\\c", "C:\\", Some("Include d")));
    let ask = |snapshot: &Snapshot| parse_config_file("C:\\c", snapshot, &None, Discovery::new());
    assert!(matches!(
        ask(&snapshot),
        Err(Need::Place { dir, path }) if dir == "C:\\" && path == "d"
    ));
    let mut from = Table::new();
    from.insert("d".to_string(), "C:\\d".to_string());
    let mut places = Table::new();
    places.insert("C:\\".to_string(), from);
    snapshot.paths = PathRules::Windows(places);
    assert!(matches!(ask(&snapshot), Err(Need::File(p)) if p == "C:\\d"));
    snapshot.files.insert("C:\\d".to_string(), file("C:\\d", "C:\\", Some("Host d")));
    assert_eq!(ask(&snapshot).unwrap().hosts[0].alias, "d");
}

#[test]
fn globs_are_sorted_by_name() {
    let entry = |n: &str| DirEntry { name: n.into(), path: format!("/d/{n}") };
    let entries = vec![entry("b.conf"), entry("a.txt"), entry("a.conf"), entry("Z.conf")];
    assert_eq!(glob_matches("*.conf", &entries), vec!["/d/Z.conf", "/d/a.conf", "/d/b.conf"]);
}

#[test]
fn known_hosts_only_fill_in() {
    let mut snapshot = empty_snapshot();
    snapshot.files.insert("/c".to_string(), file("/c", "/", Some("Host web\nUser bob")));
    let known = "# comment\n@revoked bad ssh-rsa x\n|1|hash|hash ssh-rsa x\n\
                 web,10.0.0.1 ssh-rsa x\n[db]:22,web ssh-rsa x\n\n";
    let hosts = discover(
        &Some("/c".to_string()),
        &Some(known.to_string()),
        &snapshot,
        &None,
    )
    .unwrap();
    let seen: Vec<(&str, HostSource)> =
        hosts.iter().map(|h| (h.alias.as_str(), h.source)).collect();
    assert_eq!(
        seen,
        vec![
            ("web", HostSource::SshConfig),
            ("10.0.0.1", HostSource::KnownHosts),
            ("db", HostSource::KnownHosts),
        ]
    );
    assert_eq!(hosts[0].user.as_deref(), Some("bob"));
    assert!(discover(&None, &None, &snapshot, &None).unwrap().is_empty());
    let need = discover(&Some("/x".to_string()), &None, &snapshot, &None);
    assert!(matches!(need, Err(Need::File(p)) if p == "/x"));
    let mut found = Discovery::new();
    parse_known_hosts("a b\na c", &mut found);
    assert_eq!(found.hosts.len(), 1);
}
