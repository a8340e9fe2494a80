//! For which hosts an option of the ssh configuration holds.

use vstd::prelude::*;

use crate::discovery::Found;
use crate::discovery::NeedModel;
use crate::discovery::Snapshot;
use crate::model::HostModel;
use crate::model::HostSource;
use crate::ssh_config::DirectiveModel;

verus! {

/// Whether a pattern of a `Host` line names a host by itself.
pub open spec fn names_host(pattern: Seq<char>) -> bool {
    !pattern.contains('*') && !pattern.contains('?') && (pattern.len() == 0 || pattern[0] != '!')
}

/// Whether a line neither begins a block nor reads other files.
pub open spec fn stays_in_block(line: Seq<char>) -> bool {
    match crate::ssh_config::directive(line) {
        DirectiveModel::Host(_) => false,
        DirectiveModel::Match => false,
        DirectiveModel::Include(_) => false,
        _ => true,
    }
}

/// Whether two lists hold the same aliases at the same places, and differ at most in
/// hosts that the patterns name.
spec fn differ_in_block(
    before: Seq<HostModel>,
    after: Seq<HostModel>,
    patterns: Seq<Seq<char>>,
) -> bool {
    &&& before.len() == after.len()
    &&& forall|i: int|
        0 <= i < before.len() ==> (#[trigger] after[i]).alias == before[i].alias && after[i].source
            == before[i].source
    &&& forall|i: int|
        0 <= i < before.len() && !patterns.contains(before[i].alias) ==> (#[trigger] after[i])
            == before[i]
}

/// Lines that stay in a block are read one behind the other.
proof fn lemma_block_lines(
    snap: Snapshot,
    home: Option<Seq<char>>,
    dir: Option<Seq<char>>,
    lines: Seq<Seq<char>>,
    rest: Seq<Seq<char>>,
    found: Found,
    patterns: Seq<Seq<char>>,
    depth: nat,
) -> (mid: Found)
    requires
        forall|i: int| 0 <= i < lines.len() ==> stays_in_block(#[trigger] lines[i]),
    ensures
        crate::discovery::lines_parsed(snap, home, dir, lines + rest, found, patterns, depth)
            == crate::discovery::lines_parsed(snap, home, dir, rest, mid, patterns, depth),
        mid.visited == found.visited,
        differ_in_block(found.hosts, mid.hosts, patterns),
    decreases lines.len(),
{
    if lines.len() == 0 {
        assert(lines + rest =~= rest);
        found
    } else {
        let d = crate::ssh_config::directive(lines[0]);
        assert(stays_in_block(lines[0]));
        let all = lines + rest;
        assert(all[0] == lines[0]);
        assert(all.skip(1) =~= lines.skip(1) + rest);
        assert forall|i: int| 0 <= i < lines.skip(1).len() implies stays_in_block(
            #[trigger] lines.skip(1)[i],
        ) by {
            assert(lines.skip(1)[i] == lines[i + 1]);
        }
        let next = match d {
            DirectiveModel::Other => found,
            _ => Found {
                hosts: crate::discovery::configured(found.hosts, patterns, d),
                ..found
            },
        };
        let mid = lemma_block_lines(
            snap,
            home,
            dir,
            lines.skip(1),
            rest,
            next,
            patterns,
            depth,
        );
        assert forall|i: int| 0 <= i < found.hosts.len() && !patterns.contains(
            found.hosts[i].alias,
        ) implies (#[trigger] mid.hosts[i]) == found.hosts[i] by {
            assert(next.hosts[i] == found.hosts[i]);
        }
        assert forall|i: int| 0 <= i < found.hosts.len() implies (#[trigger] mid.hosts[i]).alias
            == found.hosts[i].alias && mid.hosts[i].source == found.hosts[i].source by {
            assert(next.hosts[i].alias == found.hosts[i].alias);
        }
        mid
    }
}

/// A `Host` line leaves the hosts as they are and adds, behind them, those that it
/// names and that are new.
proof fn lemma_declared(hosts: Seq<HostModel>, patterns: Seq<Seq<char>>)
    ensures
        ({
            let after = crate::discovery::declared(hosts, patterns);
            &&& hosts.len() <= after.len()
            &&& forall|i: int| 0 <= i < hosts.len() ==> (#[trigger] after[i]) == hosts[i]
            &&& forall|i: int|
                hosts.len() <= i < after.len() ==> patterns.contains((#[trigger] after[i]).alias)
                    && names_host(after[i].alias) && after[i].source == HostSource::SshConfig
            &&& forall|k: int|
                0 <= k < patterns.len() && names_host(#[trigger] patterns[k]) ==> exists|i: int|
                    0 <= i < after.len() && (#[trigger] after[i]).alias == patterns[k]
        }),
    decreases patterns.len(),
{
    let after = crate::discovery::declared(hosts, patterns);
    if patterns.len() > 0 {
        let fewer = patterns.drop_last();
        let before = crate::discovery::declared(hosts, fewer);
        lemma_declared(hosts, fewer);
        let p = patterns.last();
        assert(patterns[patterns.len() - 1] == p);
        assert forall|i: int| hosts.len() <= i < after.len() implies patterns.contains(
            (#[trigger] after[i]).alias,
        ) && names_host(after[i].alias) && after[i].source == HostSource::SshConfig by {
            if i < before.len() {
                assert(after[i] == before[i]);
                let k = choose|k: int| 0 <= k < fewer.len() && fewer[k] == before[i].alias;
                assert(patterns[k] == before[i].alias);
            } else {
                assert(after[i].alias == p);
            }
        }
        assert forall|k: int| 0 <= k < patterns.len() && names_host(#[trigger] patterns[k]) implies
            exists|i: int|
            0 <= i < after.len() && (#[trigger] after[i]).alias == patterns[k] by {
            if k < fewer.len() {
                assert(fewer[k] == patterns[k]);
                let i = choose|i: int|
                    0 <= i < before.len() && (#[trigger] before[i]).alias == fewer[k];
                assert(after[i] == before[i]);
            } else if crate::discovery::has_alias(before, p) {
                let i = choose|i: int| 0 <= i < before.len() && #[trigger] before[i].alias == p;
                assert(after[i].alias == p);
            } else {
                assert(after[before.len() as int].alias == p);
            }
        }
    }
}

/// What an option in a block says holds for every host that the `Host` line names, at
/// whatever place in the line, and for no other. All the hosts that the line names are
/// there afterwards, and those that it does not name are as they were.
pub proof fn law_options_reach_every_alias(
    snap: Snapshot,
    home: Option<Seq<char>>,
    dir: Option<Seq<char>>,
    host_line: Seq<char>,
    patterns: Seq<Seq<char>>,
    middle: Seq<Seq<char>>,
    option_line: Seq<char>,
    found: Found,
    block: Seq<Seq<char>>,
    depth: nat,
)
    requires
        crate::ssh_config::directive(host_line) == DirectiveModel::Host(patterns),
        forall|i: int| 0 <= i < middle.len() ==> stays_in_block(#[trigger] middle[i]),
        crate::ssh_config::directive(option_line) is HostName || crate::ssh_config::directive(
            option_line,
        ) is User || crate::ssh_config::directive(option_line) is Port,
    ensures
        ({
            let all = seq![host_line] + middle + seq![option_line];
            let read = crate::discovery::lines_parsed(snap, home, dir, all, found, block, depth);
            let next = read->Ok_0;
            &&& read is Ok
            &&& next.visited == found.visited
            &&& forall|k: int|
                0 <= k < patterns.len() && names_host(#[trigger] patterns[k]) ==> exists|i: int|
                    0 <= i < next.hosts.len() && (#[trigger] next.hosts[i]).alias == patterns[k]
            &&& forall|i: int, k: int|
                0 <= i < next.hosts.len() && 0 <= k < patterns.len() && names_host(patterns[k])
                    && (#[trigger] next.hosts[i]).alias == #[trigger] patterns[k]
                    ==> match crate::ssh_config::directive(option_line) {
                    DirectiveModel::HostName(v) => next.hosts[i].hostname == Some(v),
                    DirectiveModel::User(v) => next.hosts[i].user == Some(v),
                    DirectiveModel::Port(p) => next.hosts[i].port == Some(p),
                    _ => false,
                }
            &&& next.hosts.len() >= found.hosts.len()
            &&& forall|i: int|
                0 <= i < found.hosts.len() && !patterns.contains(found.hosts[i].alias) ==> (
                #[trigger] next.hosts[i]) == found.hosts[i]
            &&& forall|i: int|
                found.hosts.len() <= i < next.hosts.len() ==> patterns.contains(
                    (#[trigger] next.hosts[i]).alias,
                )
        }),
{
    let all = seq![host_line] + middle + seq![option_line];
    let d = crate::ssh_config::directive(option_line);
    let start = Found { hosts: crate::discovery::declared(found.hosts, patterns), ..found };
    lemma_declared(found.hosts, patterns);
    assert(all[0] == host_line);
    assert(all.skip(1) =~= middle + seq![option_line]);
    let last = seq![option_line];
    let mid = lemma_block_lines(snap, home, dir, middle, last, start, patterns, depth);
    let hosts = crate::discovery::configured(mid.hosts, patterns, d);
    let next = Found { hosts, ..mid };
    assert(last.skip(1) =~= Seq::<Seq<char>>::empty());
    assert(crate::discovery::lines_parsed(
        snap,
        home,
        dir,
        Seq::empty(),
        next,
        patterns,
        depth,
    ) == Ok::<Found, NeedModel>(next));
    assert(crate::discovery::lines_parsed(snap, home, dir, last, mid, patterns, depth) == Ok::<
        Found,
        NeedModel,
    >(next));
    assert forall|k: int| 0 <= k < patterns.len() && names_host(#[trigger] patterns[k]) implies
        exists|i: int| 0 <= i < hosts.len() && (#[trigger] hosts[i]).alias == patterns[k] by {
        let i = choose|i: int|
            0 <= i < start.hosts.len() && (#[trigger] start.hosts[i]).alias == patterns[k];
        assert(mid.hosts[i].alias == start.hosts[i].alias);
        assert(hosts[i].alias == patterns[k]);
    }
    assert forall|i: int, k: int|
        0 <= i < hosts.len() && 0 <= k < patterns.len() && names_host(patterns[k]) && (
        #[trigger] hosts[i]).alias == #[trigger] patterns[k] implies match d {
        DirectiveModel::HostName(v) => hosts[i].hostname == Some(v),
        DirectiveModel::User(v) => hosts[i].user == Some(v),
        DirectiveModel::Port(p) => hosts[i].port == Some(p),
        _ => false,
    } by {
        assert(patterns.contains(patterns[k]));
        assert(crate::discovery::in_block(patterns, mid.hosts[i].alias));
    }
    assert forall|i: int| 0 <= i < found.hosts.len() && !patterns.contains(
        found.hosts[i].alias,
    ) implies (#[trigger] hosts[i]) == found.hosts[i] by {
        assert(start.hosts[i] == found.hosts[i]);
        assert(mid.hosts[i] == start.hosts[i]);
    }
    assert forall|i: int| found.hosts.len() <= i < hosts.len() implies patterns.contains(
        (#[trigger] hosts[i]).alias,
    ) by {
        assert(mid.hosts[i].alias == start.hosts[i].alias);
    }
}

/// An option changes nothing but what it is about.
pub proof fn law_option_sets_one_thing(
    hosts: Seq<HostModel>,
    patterns: Seq<Seq<char>>,
    i: int,
    v: Seq<char>,
    p: u16,
)
    requires
        0 <= i < hosts.len(),
    ensures
        ({
            let named = patterns.contains(hosts[i].alias) && names_host(hosts[i].alias);
            let h = crate::discovery::configured(hosts, patterns, DirectiveModel::HostName(v))[i];
            let u = crate::discovery::configured(hosts, patterns, DirectiveModel::User(v))[i];
            let q = crate::discovery::configured(hosts, patterns, DirectiveModel::Port(p))[i];
            &&& named ==> h == (HostModel { hostname: Some(v), ..hosts[i] })
            &&& named ==> u == (HostModel { user: Some(v), ..hosts[i] })
            &&& named ==> q == (HostModel { port: Some(p), ..hosts[i] })
            &&& !named ==> h == hosts[i] && u == hosts[i] && q == hosts[i]
        }),
{
}

/// Options in a `Match` block, and options before the first `Host` line, hold for no
/// host.
pub proof fn law_match_names_no_host(
    snap: Snapshot,
    home: Option<Seq<char>>,
    dir: Option<Seq<char>>,
    match_line: Seq<char>,
    lines: Seq<Seq<char>>,
    found: Found,
    block: Seq<Seq<char>>,
    depth: nat,
)
    requires
        crate::ssh_config::directive(match_line) is Match,
        forall|i: int| 0 <= i < lines.len() ==> stays_in_block(#[trigger] lines[i]),
    ensures
        crate::discovery::lines_parsed(
            snap,
            home,
            dir,
            seq![match_line] + lines,
            found,
            block,
            depth,
        ) == Ok::<Found, NeedModel>(found),
        crate::discovery::lines_parsed(snap, home, dir, lines, found, Seq::empty(), depth) == Ok::<
            Found,
            NeedModel,
        >(found),
{
    let none = Seq::<Seq<char>>::empty();
    let all = seq![match_line] + lines;
    assert(all[0] == match_line);
    assert(all.skip(1) =~= lines);
    let mid = lemma_block_lines(snap, home, dir, lines, none, found, none, depth);
    assert(lines + none =~= lines);
    assert(mid.hosts =~= found.hosts) by {
        assert forall|i: int| 0 <= i < found.hosts.len() implies mid.hosts[i] == found.hosts[i] by {
            assert(!none.contains(found.hosts[i].alias));
        }
    }
    assert(mid =~= found);
    assert(crate::discovery::lines_parsed(snap, home, dir, none, mid, none, depth) == Ok::<
        Found,
        NeedModel,
    >(mid));
}

/// A file is read once, line by line and from the start, outside of any block.
pub proof fn law_file_is_its_lines(
    snap: Snapshot,
    home: Option<Seq<char>>,
    path: Seq<char>,
    found: Found,
    depth: nat,
)
    requires
        snap.files@.dom().contains(path),
        depth > 0,
        snap.files@[path]@.text is Some,
        !found.visited.contains(snap.files@[path]@.canonical),
    ensures
        crate::discovery::file_parsed(snap, home, path, found, depth)
            == crate::discovery::lines_parsed(
            snap,
            home,
            snap.files@[path]@.dir,
            crate::text::lines(snap.files@[path]@.text->0),
            Found { visited: found.visited.insert(snap.files@[path]@.canonical), ..found },
            Seq::empty(),
            depth,
        ),
{
}

/// A file that is included is read in place of the line, and the block goes on behind
/// it.
pub proof fn law_include_reads_in_place(
    snap: Snapshot,
    home: Option<Seq<char>>,
    dir: Option<Seq<char>>,
    line: Seq<char>,
    tokens: Seq<Seq<char>>,
    path: Seq<char>,
    rest: Seq<Seq<char>>,
    found: Found,
    mid: Found,
    block: Seq<Seq<char>>,
    depth: nat,
)
    requires
        crate::ssh_config::directive(line) == DirectiveModel::Include(tokens),
        crate::discovery::included(snap, home, dir, tokens) == Ok::<Seq<Seq<char>>, NeedModel>(
            seq![path],
        ),
        depth > 0,
        crate::discovery::file_parsed(snap, home, path, found, (depth - 1) as nat) == Ok::<
            Found,
            NeedModel,
        >(mid),
    ensures
        crate::discovery::lines_parsed(snap, home, dir, seq![line] + rest, found, block, depth)
            == crate::discovery::lines_parsed(snap, home, dir, rest, mid, block, depth),
{
    let all = seq![line] + rest;
    let paths = seq![path];
    assert(all[0] == line);
    assert(all.skip(1) =~= rest);
    assert(paths.skip(1) =~= Seq::<Seq<char>>::empty());
    reveal_with_fuel(crate::discovery::files_parsed, 2);
    assert(crate::discovery::files_parsed(snap, home, paths, found, (depth - 1) as nat) == Ok::<
        Found,
        NeedModel,
    >(mid));
}

/// The files of an `Include` line come in the order of its words: each word stands for
/// the path itself, or where that has a wildcard, for the files that match it.
pub proof fn law_include_words(
    snap: Snapshot,
    home: Option<Seq<char>>,
    dir: Option<Seq<char>>,
    tokens: Seq<Seq<char>>,
    token: Seq<char>,
    before: Seq<Seq<char>>,
    path: Seq<char>,
)
    requires
        crate::discovery::included(snap, home, dir, tokens) == Ok::<Seq<Seq<char>>, NeedModel>(
            before,
        ),
        crate::discovery::include_path(snap.paths, token, home, dir) == Ok::<Seq<char>, NeedModel>(
            path,
        ),
    ensures
        ({
            let after = crate::discovery::included(snap, home, dir, tokens.push(token));
            let wild = path.contains('*') || path.contains('?');
            &&& !wild ==> after == Ok::<Seq<Seq<char>>, NeedModel>(before.push(path))
            &&& wild && !snap.globs@.dom().contains(path) ==> after == Err::<
                Seq<Seq<char>>,
                NeedModel,
            >(NeedModel::Glob(path))
            &&& wild && snap.globs@.dom().contains(path) && snap.globs@[path] is Some ==> after
                == Ok::<Seq<Seq<char>>, NeedModel>(
                before + crate::text::texts(snap.globs@[path]->0@),
            )
            &&& wild && snap.globs@.dom().contains(path) && snap.globs@[path] is None ==> after
                == Ok::<Seq<Seq<char>>, NeedModel>(before.push(path))
        }),
        crate::discovery::included(snap, home, dir, Seq::empty()) == Ok::<
            Seq<Seq<char>>,
            NeedModel,
        >(Seq::empty()),
{
    assert(tokens.push(token).drop_last() =~= tokens);
}

/// Where a word behind `Include` leads on unix: an absolute path to itself, a path
/// behind a tilde into the home directory, and any other into the directory of the
/// file that the line stands in.
pub proof fn law_include_paths(
    name: Seq<char>,
    home: Seq<char>,
    dir: Seq<char>,
)
    requires
        home.len() > 0 && home[0] == '/',
        dir.len() > 0 && dir.last() != '/',
        name.len() > 0 && name[0] != '~' && name[0] != '/',
    ensures
        ({
            let unix = crate::discovery::PathRules::Unix;
            let slashed = seq!['/'] + name;
            &&& crate::discovery::include_path(unix, slashed, Some(home), Some(dir)) == Ok::<
                Seq<char>,
                NeedModel,
            >(slashed)
            &&& crate::discovery::include_path(unix, seq!['~'] + slashed, Some(home), Some(dir))
                == Ok::<Seq<char>, NeedModel>(home + slashed)
            &&& crate::discovery::include_path(unix, seq!['~'], Some(home), Some(dir)) == Ok::<
                Seq<char>,
                NeedModel,
            >(home)
            &&& crate::discovery::include_path(unix, name, Some(home), Some(dir)) == Ok::<
                Seq<char>,
                NeedModel,
            >(dir + slashed)
            &&& crate::discovery::include_path(unix, name, Some(home), Some(dir.push('/'))) == Ok::<
                Seq<char>,
                NeedModel,
            >(dir + slashed)
            &&& crate::discovery::include_path(unix, seq!['~'] + name, Some(home), None) == Ok::<
                Seq<char>,
                NeedModel,
            >(seq!['~'] + name)
            &&& crate::discovery::include_path(unix, seq!['~'] + slashed, None, None) == Ok::<
                Seq<char>,
                NeedModel,
            >(seq!['~'] + slashed)
        }),
{
    let unix = crate::discovery::PathRules::Unix;
    let slashed = seq!['/'] + name;
    reveal_strlit("/");
    assert((seq!['~'] + slashed).skip(1) =~= slashed);
    assert(seq!['~'].skip(1) =~= Seq::<char>::empty());
    assert(home + Seq::<char>::empty() =~= home);
    assert(dir + "/"@ + name =~= dir + slashed);
    assert(dir.push('/') + name =~= dir + slashed);
    assert((seq!['~'] + name)[1] == name[0]);
}

/// On Windows the system says where a path leads; it is asked for the path with the
/// home directory in place of a leading tilde.
pub proof fn law_include_paths_on_windows(
    rules: crate::discovery::PathRules,
    token: Seq<char>,
    name: Seq<char>,
    home: Seq<char>,
    dir: Seq<char>,
)
    requires
        rules is Windows,
        token.len() > 0 && token[0] != '~',
    ensures
        crate::discovery::include_path(rules, token, Some(home), Some(dir)) == match rules.told(
            dir,
            token,
        ) {
            Some(place) => Ok::<Seq<char>, NeedModel>(place),
            None => Err::<Seq<char>, NeedModel>(NeedModel::Place(dir, token)),
        },
        crate::discovery::include_path(rules, seq!['~', '\\'] + name, Some(home), None) == Ok::<
            Seq<char>,
            NeedModel,
        >(home + seq!['\\'] + name),
        crate::discovery::include_path(rules, seq!['~', '/'] + name, Some(home), None) == Ok::<
            Seq<char>,
            NeedModel,
        >(home + seq!['/'] + name),
{
    assert((seq!['~', '\\'] + name).skip(1) =~= seq!['\\'] + name);
    assert((seq!['~', '/'] + name).skip(1) =~= seq!['/'] + name);
    assert(home + (seq!['\\'] + name) =~= home + seq!['\\'] + name);
    assert(home + (seq!['/'] + name) =~= home + seq!['/'] + name);
}


/// A file that was not read yet is asked for; one that cannot be read says nothing, and
/// one that was read before is passed over.
pub proof fn law_files_that_say_nothing(
    snap: Snapshot,
    home: Option<Seq<char>>,
    path: Seq<char>,
    found: Found,
    depth: nat,
)
    ensures
        ({
            let read = crate::discovery::file_parsed(snap, home, path, found, depth);
            let there = snap.files@.dom().contains(path);
            let file = snap.files@[path]@;
            let seen = found.visited.contains(file.canonical);
            &&& !there ==> read == Err::<Found, NeedModel>(NeedModel::File(path))
            &&& there && seen ==> read == Ok::<Found, NeedModel>(found)
            &&& there && !seen && file.text is None ==> read == Ok::<Found, NeedModel>(
                Found { hosts: found.hosts, visited: found.visited.insert(file.canonical) },
            )
        }),
{
}

/// Files are read in the order in which they are named, and what one lacks is asked for
/// before the next is read.
pub proof fn law_files_in_order(
    snap: Snapshot,
    home: Option<Seq<char>>,
    path: Seq<char>,
    rest: Seq<Seq<char>>,
    found: Found,
    depth: nat,
)
    ensures
        crate::discovery::files_parsed(snap, home, Seq::empty(), found, depth) == Ok::<
            Found,
            NeedModel,
        >(found),
        crate::discovery::files_parsed(snap, home, seq![path] + rest, found, depth)
            == match crate::discovery::file_parsed(snap, home, path, found, depth) {
            Ok(mid) => crate::discovery::files_parsed(snap, home, rest, mid, depth),
            Err(n) => Err(n),
        },
{
    let all = seq![path] + rest;
    assert(all[0] == path);
    assert(all.skip(1) =~= rest);
}

/// What an `Include` line lacks is asked for, whatever stands behind the line.
pub proof fn law_needs_are_handed_on(
    snap: Snapshot,
    home: Option<Seq<char>>,
    dir: Option<Seq<char>>,
    line: Seq<char>,
    tokens: Seq<Seq<char>>,
    rest: Seq<Seq<char>>,
    found: Found,
    block: Seq<Seq<char>>,
    depth: nat,
    need: NeedModel,
)
    requires
        crate::ssh_config::directive(line) == DirectiveModel::Include(tokens),
        crate::discovery::included(snap, home, dir, tokens) == Err::<Seq<Seq<char>>, NeedModel>(
            need,
        ),
    ensures
        crate::discovery::lines_parsed(snap, home, dir, seq![line] + rest, found, block, depth)
            == Err::<Found, NeedModel>(need),
{
    let all = seq![line] + rest;
    assert(all[0] == line);
}

/// A `Host` line begins a new block: from there on options hold for its aliases, and no
/// longer for those of the block before.
pub proof fn law_host_line_begins_a_block(
    snap: Snapshot,
    home: Option<Seq<char>>,
    dir: Option<Seq<char>>,
    line: Seq<char>,
    patterns: Seq<Seq<char>>,
    rest: Seq<Seq<char>>,
    found: Found,
    block: Seq<Seq<char>>,
    other: Seq<Seq<char>>,
    depth: nat,
)
    requires
        crate::ssh_config::directive(line) == DirectiveModel::Host(patterns),
    ensures
        crate::discovery::lines_parsed(snap, home, dir, seq![line] + rest, found, block, depth)
            == crate::discovery::lines_parsed(
            snap,
            home,
            dir,
            seq![line] + rest,
            found,
            other,
            depth,
        ),
{
    let all = seq![line] + rest;
    assert(all[0] == line);
}

/// All hosts: first those of the configuration, as they are there, and behind them the
/// known hosts that are new. Without a configuration there are only the known hosts, and
/// without known hosts only the configuration.
pub proof fn law_all_sources_count(
    snap: Snapshot,
    home: Option<Seq<char>>,
    path: Seq<char>,
    found: Found,
    text: Seq<char>,
)
    requires
        crate::discovery::parsed(snap, home, path, crate::discovery::nothing_found()) == Ok::<
            Found,
            NeedModel,
        >(found),
    ensures
        crate::discovery::discovered(Some(path), None, snap, home) == Ok::<
            Seq<HostModel>,
            NeedModel,
        >(found.hosts),
        crate::discovery::discovered(Some(path), Some(text), snap, home) == Ok::<
            Seq<HostModel>,
            NeedModel,
        >(crate::discovery::known_parsed(found.hosts, crate::text::lines(text))),
        crate::discovery::discovered(None, Some(text), snap, home) == Ok::<
            Seq<HostModel>,
            NeedModel,
        >(crate::discovery::known_parsed(Seq::empty(), crate::text::lines(text))),
        crate::discovery::discovered(None, None, snap, home) == Ok::<Seq<HostModel>, NeedModel>(
            Seq::empty(),
        ),
        crate::discovery::nothing_found().hosts.len() == 0,
        crate::discovery::nothing_found().visited == Set::<Seq<char>>::empty(),
{
}

/// A host that was only named has nothing else: no address, no user, no port, no notes,
/// and no connection.
pub proof fn law_named_hosts_are_bare(alias: Seq<char>, source: HostSource)
    ensures
        ({
            let h = crate::discovery::bare_host(alias, source);
            &&& h.alias == alias && h.source == source
            &&& h.hostname is None && h.user is None && h.port is None
            &&& h.meta.session is None && h.meta.layout is None && h.meta.notes is None
            &&& h.meta.local.len() == 0 && h.meta.remote.len() == 0 && h.meta.dynamic.len() == 0
            &&& h.state.last_connected is None && h.state.connection_count == 0
            &&& h.state.notes is None
        }),
{
}


/// On Windows the system is believed about the place that it told for a path seen from a
/// directory, and about no other.
pub proof fn law_told_places(
    places: crate::table::Table<crate::table::Table<String>>,
    dir: Seq<char>,
    path: Seq<char>,
)
    ensures
        ({
            let rules = crate::discovery::PathRules::Windows(places);
            let known = places@.dom().contains(dir) && places@[dir]@.dom().contains(path);
            &&& known ==> rules.told(dir, path) == Some(places@[dir]@[path]@)
            &&& !known ==> rules.told(dir, path) is None
            &&& crate::discovery::PathRules::Unix.told(dir, path) is None
        }),
{
}

/// Whether no alias occurs twice.
pub open spec fn aliases_differ(hosts: Seq<HostModel>) -> bool {
    forall|i: int, j: int|
        0 <= i < j < hosts.len() ==> (#[trigger] hosts[i]).alias != (#[trigger] hosts[j]).alias
}

proof fn lemma_declared_differ(hosts: Seq<HostModel>, patterns: Seq<Seq<char>>)
    requires
        aliases_differ(hosts),
    ensures
        aliases_differ(crate::discovery::declared(hosts, patterns)),
    decreases patterns.len(),
{
    if patterns.len() > 0 {
        lemma_declared_differ(hosts, patterns.drop_last());
        lemma_with_host_differ(
            crate::discovery::declared(hosts, patterns.drop_last()),
            patterns.last(),
            HostSource::SshConfig,
        );
    }
}

proof fn lemma_with_host_differ(hosts: Seq<HostModel>, alias: Seq<char>, source: HostSource)
    requires
        aliases_differ(hosts),
    ensures
        aliases_differ(crate::discovery::with_host(hosts, alias, source)),
{
    let after = crate::discovery::with_host(hosts, alias, source);
    assert forall|i: int, j: int| 0 <= i < j < after.len() implies (#[trigger] after[i]).alias != (
    #[trigger] after[j]).alias by {
        if j == hosts.len() {
            assert(hosts[i].alias != alias);
        } else {
            assert(hosts[i].alias != hosts[j].alias);
        }
    }
}

/// Reading a file, and all that it leads to, never lists an alias twice.
pub proof fn law_files_list_aliases_once(
    snap: Snapshot,
    home: Option<Seq<char>>,
    path: Seq<char>,
    found: Found,
    depth: nat,
)
    requires
        aliases_differ(found.hosts),
    ensures
        crate::discovery::file_parsed(snap, home, path, found, depth) matches Ok(next)
            ==> aliases_differ(next.hosts),
    decreases depth, 1int, 0nat,
{
    if snap.files@.dom().contains(path) {
        let file = snap.files@[path]@;
        let entered = Found { visited: found.visited.insert(file.canonical), ..found };
        if !found.visited.contains(file.canonical) && depth > 0 && file.text is Some {
            let lines = crate::text::lines(file.text->0);
            lemma_lines_differ(snap, home, file.dir, lines, entered, Seq::empty(), depth);
        }
    }
}

proof fn lemma_files_differ(
    snap: Snapshot,
    home: Option<Seq<char>>,
    paths: Seq<Seq<char>>,
    found: Found,
    depth: nat,
)
    requires
        aliases_differ(found.hosts),
    ensures
        crate::discovery::files_parsed(snap, home, paths, found, depth) matches Ok(next)
            ==> aliases_differ(next.hosts),
    decreases depth, 2int, paths.len(),
{
    if paths.len() > 0 {
        law_files_list_aliases_once(snap, home, paths[0], found, depth);
        if let Ok(mid) = crate::discovery::file_parsed(snap, home, paths[0], found, depth) {
            lemma_files_differ(snap, home, paths.skip(1), mid, depth);
        }
    }
}

proof fn lemma_lines_differ(
    snap: Snapshot,
    home: Option<Seq<char>>,
    dir: Option<Seq<char>>,
    lines: Seq<Seq<char>>,
    found: Found,
    block: Seq<Seq<char>>,
    depth: nat,
)
    requires
        aliases_differ(found.hosts),
    ensures
        crate::discovery::lines_parsed(snap, home, dir, lines, found, block, depth) matches Ok(next)
            ==> aliases_differ(next.hosts),
    decreases depth, 0int, lines.len(),
{
    if lines.len() > 0 {
        let d = crate::ssh_config::directive(lines[0]);
        let rest = lines.skip(1);
        match d {
            DirectiveModel::Host(patterns) => {
                lemma_declared_differ(found.hosts, patterns);
                let mid = Found {
                    hosts: crate::discovery::declared(found.hosts, patterns),
                    ..found
                };
                lemma_lines_differ(snap, home, dir, rest, mid, patterns, depth);
            },
            DirectiveModel::Match => {
                lemma_lines_differ(snap, home, dir, rest, found, Seq::empty(), depth);
            },
            DirectiveModel::Other => {
                lemma_lines_differ(snap, home, dir, rest, found, block, depth);
            },
            DirectiveModel::Include(tokens) => {
                if let Ok(paths) = crate::discovery::included(snap, home, dir, tokens) {
                    if depth > 0 {
                        lemma_files_differ(snap, home, paths, found, (depth - 1) as nat);
                        if let Ok(next) = crate::discovery::files_parsed(
                            snap,
                            home,
                            paths,
                            found,
                            (depth - 1) as nat,
                        ) {
                            lemma_lines_differ(snap, home, dir, rest, next, block, depth);
                        }
                    }
                }
            },
            _ => {
                let hosts = crate::discovery::configured(found.hosts, block, d);
                assert forall|i: int, j: int| 0 <= i < j < hosts.len() implies (
                #[trigger] hosts[i]).alias != (#[trigger] hosts[j]).alias by {
                    assert(hosts[i].alias == found.hosts[i].alias);
                    assert(hosts[j].alias == found.hosts[j].alias);
                }
                lemma_lines_differ(snap, home, dir, rest, Found { hosts, ..found }, block, depth);
            },
        }
    }
}

/// The known hosts never list an alias twice either, nor one that the configuration has.
pub proof fn law_known_hosts_list_aliases_once(hosts: Seq<HostModel>, lines: Seq<Seq<char>>)
    requires
        aliases_differ(hosts),
    ensures
        aliases_differ(crate::discovery::known_parsed(hosts, lines)),
    decreases lines.len(),
{
    if lines.len() > 0 {
        law_known_hosts_list_aliases_once(hosts, lines.drop_last());
        lemma_known_differ(
            crate::discovery::known_parsed(hosts, lines.drop_last()),
            crate::discovery::known_names(lines.last()),
        );
    }
}

proof fn lemma_known_differ(hosts: Seq<HostModel>, tokens: Seq<Seq<char>>)
    requires
        aliases_differ(hosts),
    ensures
        aliases_differ(crate::discovery::known_added(hosts, tokens)),
    decreases tokens.len(),
{
    if tokens.len() > 0 {
        lemma_known_differ(hosts, tokens.drop_last());
        if let Some(name) = crate::ssh_config::known_host(tokens.last()) {
            lemma_with_host_differ(
                crate::discovery::known_added(hosts, tokens.drop_last()),
                name,
                HostSource::KnownHosts,
            );
        }
    }
}


/// Whether a text can be the value of a line as it stands.
pub open spec fn is_value(v: Seq<char>) -> bool {
    &&& v.len() > 0 && crate::ssh_config_laws::is_tight(v)
    &&& v[0] != '=' && !v.contains('#') && !v.contains('\n')
}

/// A line of a key and a value, with a space between them, is one line and is read as
/// these.
proof fn lemma_option_line(key: Seq<char>, value: Seq<char>)
    requires
        crate::ssh_config_laws::is_key(key),
        is_value(value),
    ensures
        ({
            let line = key + seq![' '] + value;
            let none = Seq::<char>::empty();
            &&& !line.contains('\n')
            &&& line.last() == value.last()
            &&& none + key + seq![' '] + value + none == line
            &&& crate::ssh_config_laws::is_gap(seq![' '])
            &&& crate::text_laws::is_blank(none)
        }),
{
    let line = key + seq![' '] + value;
    let none = Seq::<char>::empty();
    if line.contains('\n') {
        let i = choose|i: int| 0 <= i < line.len() && line[i] == '\n';
        if i < key.len() {
            assert(!crate::text::is_space(key[i]));
        } else if i > key.len() {
            assert(value[i - key.len() - 1] == '\n');
            assert(value.contains('\n'));
        }
    }
    assert(none + key + seq![' '] + value + none =~= line);
    assert(crate::text_laws::is_blank(seq![' ']));
}

/// A file that says `Host` and some names and, on the next line, `HostName` and a value:
/// every host among the names has that value afterwards, wherever in the line it is
/// named, and every host that is not among them is as it was.
pub proof fn law_host_names_of_a_file(
    snap: Snapshot,
    home: Option<Seq<char>>,
    path: Seq<char>,
    found: Found,
    depth: nat,
    host_key: Seq<char>,
    names: Seq<char>,
    name_key: Seq<char>,
    value: Seq<char>,
)
    requires
        snap.files@.dom().contains(path),
        depth > 0,
        !found.visited.contains(snap.files@[path]@.canonical),
        snap.files@[path]@.text == Some(
            host_key + seq![' '] + names + seq!['\n'] + (name_key + seq![' '] + value),
        ),
        crate::text::lowercase(host_key) == "host"@,
        crate::text::lowercase(name_key) == "hostname"@,
        crate::ssh_config_laws::is_key(host_key),
        crate::ssh_config_laws::is_key(name_key),
        is_value(names),
        is_value(value),
    ensures
        ({
            let read = crate::discovery::file_parsed(snap, home, path, found, depth);
            let hosts = (read->Ok_0).hosts;
            let named = crate::text::words(names);
            &&& read is Ok
            &&& forall|k: int|
                0 <= k < named.len() && names_host(#[trigger] named[k]) ==> exists|i: int|
                    0 <= i < hosts.len() && (#[trigger] hosts[i]).alias == named[k]
            &&& forall|i: int, k: int|
                0 <= i < hosts.len() && 0 <= k < named.len() && names_host(named[k]) && (
                #[trigger] hosts[i]).alias == #[trigger] named[k] ==> hosts[i].hostname == Some(value)
            &&& forall|i: int|
                0 <= i < found.hosts.len() && !named.contains(found.hosts[i].alias) ==> (
                #[trigger] hosts[i]) == found.hosts[i]
        }),
{
    let first = host_key + seq![' '] + names;
    let second = name_key + seq![' '] + value;
    let named = crate::text::words(names);
    let none = Seq::<char>::empty();
    lemma_option_line(host_key, names);
    lemma_option_line(name_key, value);
    crate::ssh_config_laws::law_keys(none, host_key, seq![' '], names, none);
    crate::ssh_config_laws::law_keys(none, name_key, seq![' '], value, none);
    assert(crate::ssh_config::directive(first) == DirectiveModel::Host(named));
    assert(crate::ssh_config::directive(second) == DirectiveModel::HostName(value));
    assert(crate::text::is_space('\r'));
    crate::text_laws::law_lines(first, second);
    crate::text_laws::law_lines(second, none);
    let middle = Seq::<Seq<char>>::empty();
    assert(seq![first] + seq![second] =~= seq![first] + middle + seq![second]);
    law_file_is_its_lines(snap, home, path, found, depth);
    let entered = Found {
        visited: found.visited.insert(snap.files@[path]@.canonical),
        ..found
    };
    law_options_reach_every_alias(
        snap,
        home,
        snap.files@[path]@.dir,
        first,
        named,
        middle,
        second,
        entered,
        Seq::empty(),
        depth,
    );
}

} // verus!
