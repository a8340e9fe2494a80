//! What holds of every configuration that is read.

use vstd::prelude::*;

use crate::discovery::Found;
use crate::discovery::NeedModel;
use crate::discovery::Snapshot;
use crate::model::HostModel;
use crate::model::HostSource;
use crate::ssh_config::DirectiveModel;

verus! {

/// Whether `next` holds all that `found` holds: no file is forgotten, no alias is
/// lost or moved, and what was added are aliases of the ssh configuration, never
/// patterns.
pub open spec fn grows(found: Found, next: Found) -> bool {
    &&& found.visited.subset_of(next.visited)
    &&& found.hosts.len() <= next.hosts.len()
    &&& forall|i: int| 0 <= i < found.hosts.len() ==> #[trigger] next.hosts[i].alias == found.hosts[i].alias
    &&& forall|i: int|
        found.hosts.len() <= i < next.hosts.len() ==> crate::ssh_config::literal(
            (#[trigger] next.hosts[i]).alias,
        ) && next.hosts[i].source == HostSource::SshConfig
    &&& forall|i: int|
        0 <= i < found.hosts.len() ==> (#[trigger] next.hosts[i]).source == found.hosts[i].source
}

/// What grew twice grew.
proof fn lemma_grows_on(a: Found, b: Found, c: Found)
    requires
        grows(a, b),
        grows(b, c),
    ensures
        grows(a, c),
{
    assert forall|i: int| 0 <= i < a.hosts.len() implies #[trigger] c.hosts[i].alias
        == a.hosts[i].alias by {
        assert(b.hosts[i].alias == a.hosts[i].alias);
    }
    assert forall|i: int| a.hosts.len() <= i < c.hosts.len() implies crate::ssh_config::literal(
        (#[trigger] c.hosts[i]).alias,
    ) && c.hosts[i].source == HostSource::SshConfig by {
        if i < b.hosts.len() {
            assert(c.hosts[i].alias == b.hosts[i].alias);
        }
    }
    assert forall|i: int| 0 <= i < a.hosts.len() implies (#[trigger] c.hosts[i]).source
        == a.hosts[i].source by {
        assert(b.hosts[i].source == a.hosts[i].source);
    }
}

/// A `Host` line adds aliases.
proof fn lemma_declared_grows(found: Found, patterns: Seq<Seq<char>>)
    ensures
        grows(found, Found { hosts: crate::discovery::declared(found.hosts, patterns), ..found }),
    decreases patterns.len(),
{
    if patterns.len() > 0 {
        lemma_declared_grows(found, patterns.drop_last());
    }
}

/// Reading a file loses nothing and adds aliases only: a pattern with a wildcard
/// or a negation never becomes a host.
pub proof fn law_reading_a_file_adds_aliases(
    snap: Snapshot,
    home: Option<Seq<char>>,
    path: Seq<char>,
    found: Found,
    depth: nat,
)
    ensures
        crate::discovery::file_parsed(snap, home, path, found, depth) matches Ok(next) ==> grows(
            found,
            next,
        ),
    decreases depth, 1int, 0nat,
{
    if snap.files@.dom().contains(path) {
        let file = snap.files@[path]@;
        let entered = Found { visited: found.visited.insert(file.canonical), ..found };
        if !found.visited.contains(file.canonical) && depth > 0 && file.text is Some {
            let lines = crate::text::lines(file.text->0);
            lemma_lines_grow(snap, home, file.dir, lines, entered, Seq::empty(), depth);
            if let Ok(next) = crate::discovery::file_parsed(snap, home, path, found, depth) {
                lemma_grows_on(found, entered, next);
            }
        }
    }
}

proof fn lemma_files_grow(
    snap: Snapshot,
    home: Option<Seq<char>>,
    paths: Seq<Seq<char>>,
    found: Found,
    depth: nat,
)
    ensures
        crate::discovery::files_parsed(snap, home, paths, found, depth) matches Ok(next) ==> grows(
            found,
            next,
        ),
    decreases depth, 2int, paths.len(),
{
    if paths.len() > 0 {
        law_reading_a_file_adds_aliases(snap, home, paths[0], found, depth);
        if let Ok(mid) = crate::discovery::file_parsed(snap, home, paths[0], found, depth) {
            lemma_files_grow(snap, home, paths.skip(1), mid, depth);
            if let Ok(next) = crate::discovery::files_parsed(snap, home, paths, found, depth) {
                lemma_grows_on(found, mid, next);
            }
        }
    }
}

proof fn lemma_lines_grow(
    snap: Snapshot,
    home: Option<Seq<char>>,
    dir: Option<Seq<char>>,
    lines: Seq<Seq<char>>,
    found: Found,
    block: Seq<Seq<char>>,
    depth: nat,
)
    ensures
        crate::discovery::lines_parsed(snap, home, dir, lines, found, block, depth) matches Ok(next)
            ==> grows(found, next),
    decreases depth, 0int, lines.len(),
{
    if lines.len() > 0 {
        let d = crate::ssh_config::directive(lines[0]);
        let rest = lines.skip(1);
        let (mid, inner) = match d {
            DirectiveModel::Host(patterns) => {
                lemma_declared_grows(found, patterns);
                (Found { hosts: crate::discovery::declared(found.hosts, patterns), ..found }, patterns)
            },
            DirectiveModel::Match => (found, Seq::empty()),
            DirectiveModel::Other => (found, block),
            DirectiveModel::Include(tokens) => {
                match crate::discovery::included(snap, home, dir, tokens) {
                    Ok(paths) if depth > 0 => {
                        lemma_files_grow(snap, home, paths, found, (depth - 1) as nat);
                        match crate::discovery::files_parsed(snap, home, paths, found, (depth - 1) as nat) {
                            Ok(next) => (next, block),
                            Err(n) => (found, block),
                        }
                    },
                    _ => (found, block),
                }
            },
            _ => (Found { hosts: crate::discovery::configured(found.hosts, block, d), ..found }, block),
        };
        lemma_lines_grow(snap, home, dir, rest, mid, inner, depth);
        if let Ok(next) = crate::discovery::lines_parsed(snap, home, dir, lines, found, block, depth) {
            if next != found {
                lemma_grows_on(found, mid, next);
            }
        }
    }
}

/// The canonical paths of the files that were read.
pub open spec fn canonical_paths(snap: Snapshot) -> Set<Seq<char>> {
    snap.files@.dom().map(|p: Seq<char>| snap.files@[p]@.canonical)
}

/// How many files are left to enter.
spec fn room(snap: Snapshot, found: Found) -> nat {
    canonical_paths(snap).difference(found.visited).len()
}

proof fn lemma_canonical_paths(snap: Snapshot)
    requires
        snap.files@.dom().finite(),
    ensures
        canonical_paths(snap).finite(),
        canonical_paths(snap).len() <= snap.files@.len(),
{
    let f = |p: Seq<char>| snap.files@[p]@.canonical;
    snap.files@.dom().lemma_map_finite(f);
    vstd::set_lib::lemma_map_size_bound(snap.files@.dom(), canonical_paths(snap), f);
}

/// Visiting more leaves less room.
proof fn lemma_room_shrinks(snap: Snapshot, a: Found, b: Found)
    requires
        snap.files@.dom().finite(),
        a.visited.subset_of(b.visited),
    ensures
        room(snap, b) <= room(snap, a),
{
    lemma_canonical_paths(snap);
    let c = canonical_paths(snap);
    vstd::set_lib::lemma_len_subset(c.difference(b.visited), c.difference(a.visited));
}

/// Entering a new file leaves less room.
proof fn lemma_room_used(snap: Snapshot, path: Seq<char>, a: Found)
    requires
        snap.files@.dom().finite(),
        snap.files@.dom().contains(path),
        !a.visited.contains(snap.files@[path]@.canonical),
    ensures
        ({
            let entered = Found { visited: a.visited.insert(snap.files@[path]@.canonical), ..a };
            room(snap, entered) + 1 == room(snap, a)
        }),
{
    lemma_canonical_paths(snap);
    let c = canonical_paths(snap);
    let name = snap.files@[path]@.canonical;
    let f = |p: Seq<char>| snap.files@[p]@.canonical;
    assert(c.contains(f(path)));
    assert(c.difference(a.visited).contains(name));
    assert(c.difference(a.visited.insert(name)) =~= c.difference(a.visited).remove(name));
}

proof fn lemma_file_depth(
    snap: Snapshot,
    home: Option<Seq<char>>,
    path: Seq<char>,
    found: Found,
    d: nat,
    e: nat,
)
    requires
        snap.files@.dom().finite(),
        room(snap, found) <= d,
        room(snap, found) <= e,
    ensures
        crate::discovery::file_parsed(snap, home, path, found, d) == crate::discovery::file_parsed(
            snap,
            home,
            path,
            found,
            e,
        ),
    decreases d, 1int, 0nat,
{
    if snap.files@.dom().contains(path) {
        let file = snap.files@[path]@;
        let entered = Found { visited: found.visited.insert(file.canonical), ..found };
        if !found.visited.contains(file.canonical) {
            lemma_room_used(snap, path, found);
            if file.text is Some {
                let lines = crate::text::lines(file.text->0);
                lemma_lines_depth(snap, home, file.dir, lines, entered, Seq::empty(), d, e);
            }
        }
    }
}

proof fn lemma_files_depth(
    snap: Snapshot,
    home: Option<Seq<char>>,
    paths: Seq<Seq<char>>,
    found: Found,
    d: nat,
    e: nat,
)
    requires
        snap.files@.dom().finite(),
        room(snap, found) <= d,
        room(snap, found) <= e,
    ensures
        crate::discovery::files_parsed(snap, home, paths, found, d) == crate::discovery::files_parsed(
            snap,
            home,
            paths,
            found,
            e,
        ),
    decreases d, 2int, paths.len(),
{
    if paths.len() > 0 {
        lemma_file_depth(snap, home, paths[0], found, d, e);
        law_reading_a_file_adds_aliases(snap, home, paths[0], found, d);
        if let Ok(mid) = crate::discovery::file_parsed(snap, home, paths[0], found, d) {
            lemma_room_shrinks(snap, found, mid);
            lemma_files_depth(snap, home, paths.skip(1), mid, d, e);
        }
    }
}

proof fn lemma_lines_depth(
    snap: Snapshot,
    home: Option<Seq<char>>,
    dir: Option<Seq<char>>,
    lines: Seq<Seq<char>>,
    found: Found,
    block: Seq<Seq<char>>,
    d: nat,
    e: nat,
)
    requires
        snap.files@.dom().finite(),
        room(snap, found) < d,
        room(snap, found) < e,
    ensures
        crate::discovery::lines_parsed(snap, home, dir, lines, found, block, d)
            == crate::discovery::lines_parsed(snap, home, dir, lines, found, block, e),
    decreases d, 0int, lines.len(),
{
    if lines.len() > 0 {
        let dv = crate::ssh_config::directive(lines[0]);
        let rest = lines.skip(1);
        match dv {
            DirectiveModel::Host(patterns) => {
                let next = Found { hosts: crate::discovery::declared(found.hosts, patterns), ..found };
                lemma_lines_depth(snap, home, dir, rest, next, patterns, d, e);
            },
            DirectiveModel::Match => {
                lemma_lines_depth(snap, home, dir, rest, found, Seq::empty(), d, e);
            },
            DirectiveModel::Other => {
                lemma_lines_depth(snap, home, dir, rest, found, block, d, e);
            },
            DirectiveModel::Include(tokens) => {
                if let Ok(paths) = crate::discovery::included(snap, home, dir, tokens) {
                    let d1 = (d - 1) as nat;
                    lemma_files_depth(snap, home, paths, found, d1, (e - 1) as nat);
                    lemma_files_grow(snap, home, paths, found, d1);
                    if let Ok(next) = crate::discovery::files_parsed(snap, home, paths, found, d1) {
                        lemma_room_shrinks(snap, found, next);
                        lemma_lines_depth(snap, home, dir, rest, next, block, d, e);
                    }
                }
            },
            _ => {
                let next = Found { hosts: crate::discovery::configured(found.hosts, block, dv), ..found };
                lemma_lines_depth(snap, home, dir, rest, next, block, d, e);
            },
        }
    }
}

/// Files may nest as deep as they like: a larger bound on the depth than the
/// number of files changes nothing.
pub proof fn law_depth_is_no_limit(
    snap: Snapshot,
    home: Option<Seq<char>>,
    path: Seq<char>,
    found: Found,
    depth: nat,
)
    requires
        snap.files@.dom().finite(),
        snap.files@.len() <= depth,
    ensures
        crate::discovery::file_parsed(snap, home, path, found, depth) == crate::discovery::parsed(
            snap,
            home,
            path,
            found,
        ),
{
    lemma_canonical_paths(snap);
    let c = canonical_paths(snap);
    vstd::set_lib::lemma_len_subset(c.difference(found.visited), c);
    lemma_file_depth(snap, home, path, found, depth, snap.files@.len());
}

/// A file that was read is not read again, so files that include each other do no
/// harm.
pub proof fn law_no_file_is_read_twice(
    snap: Snapshot,
    home: Option<Seq<char>>,
    path: Seq<char>,
    found: Found,
)
    requires
        snap.files@.dom().finite(),
        crate::discovery::parsed(snap, home, path, found) is Ok,
    ensures
        ({
            let next = crate::discovery::parsed(snap, home, path, found)->Ok_0;
            crate::discovery::parsed(snap, home, path, next) == Ok::<Found, NeedModel>(next)
        }),
{
    law_reading_a_file_adds_aliases(snap, home, path, found, snap.files@.len());
    let next = crate::discovery::parsed(snap, home, path, found)->Ok_0;
    let file = snap.files@[path]@;
    if !found.visited.contains(file.canonical) {
        let entered = Found { visited: found.visited.insert(file.canonical), ..found };
        lemma_room_used(snap, path, found);
        lemma_canonical_paths(snap);
        vstd::set_lib::lemma_len_subset(
            canonical_paths(snap).difference(found.visited),
            canonical_paths(snap),
        );
        if file.text is Some {
            lemma_lines_grow(
                snap,
                home,
                file.dir,
                crate::text::lines(file.text->0),
                entered,
                Seq::empty(),
                snap.files@.len(),
            );
        }
        assert(next.visited.contains(file.canonical));
    }
}

/// Whether what is needed was not read yet.
pub open spec fn is_new(snap: Snapshot, need: NeedModel) -> bool {
    match need {
        NeedModel::File(p) => !snap.files@.dom().contains(p),
        NeedModel::Glob(p) => !snap.globs@.dom().contains(p),
        NeedModel::Place(d, p) => snap.paths.told(d, p) is None,
    }
}

/// Only what was not read yet is ever asked for, so reading and asking again comes
/// closer to an answer every time.
pub proof fn law_needs_are_new(
    snap: Snapshot,
    home: Option<Seq<char>>,
    path: Seq<char>,
    found: Found,
    depth: nat,
)
    ensures
        crate::discovery::file_parsed(snap, home, path, found, depth) matches Err(n) ==> is_new(snap, n),
    decreases depth, 1int, 0nat,
{
    if snap.files@.dom().contains(path) {
        let file = snap.files@[path]@;
        let entered = Found { visited: found.visited.insert(file.canonical), ..found };
        if !found.visited.contains(file.canonical) && depth > 0 && file.text is Some {
            let lines = crate::text::lines(file.text->0);
            lemma_lines_needs(snap, home, file.dir, lines, entered, Seq::empty(), depth);
        }
    }
}

proof fn lemma_files_needs(
    snap: Snapshot,
    home: Option<Seq<char>>,
    paths: Seq<Seq<char>>,
    found: Found,
    depth: nat,
)
    ensures
        crate::discovery::files_parsed(snap, home, paths, found, depth) matches Err(n) ==> is_new(snap, n),
    decreases depth, 2int, paths.len(),
{
    if paths.len() > 0 {
        law_needs_are_new(snap, home, paths[0], found, depth);
        if let Ok(mid) = crate::discovery::file_parsed(snap, home, paths[0], found, depth) {
            lemma_files_needs(snap, home, paths.skip(1), mid, depth);
        }
    }
}

proof fn lemma_included_needs(
    snap: Snapshot,
    home: Option<Seq<char>>,
    dir: Option<Seq<char>>,
    tokens: Seq<Seq<char>>,
)
    ensures
        crate::discovery::included(snap, home, dir, tokens) matches Err(n) ==> is_new(snap, n),
    decreases tokens.len(),
{
    if tokens.len() > 0 {
        lemma_included_needs(snap, home, dir, tokens.drop_last());
    }
}

proof fn lemma_lines_needs(
    snap: Snapshot,
    home: Option<Seq<char>>,
    dir: Option<Seq<char>>,
    lines: Seq<Seq<char>>,
    found: Found,
    block: Seq<Seq<char>>,
    depth: nat,
)
    ensures
        crate::discovery::lines_parsed(snap, home, dir, lines, found, block, depth) matches Err(n)
            ==> is_new(snap, n),
    decreases depth, 0int, lines.len(),
{
    if lines.len() > 0 {
        let d = crate::ssh_config::directive(lines[0]);
        let rest = lines.skip(1);
        match d {
            DirectiveModel::Host(patterns) => {
                let next = Found { hosts: crate::discovery::declared(found.hosts, patterns), ..found };
                lemma_lines_needs(snap, home, dir, rest, next, patterns, depth);
            },
            DirectiveModel::Match => {
                lemma_lines_needs(snap, home, dir, rest, found, Seq::empty(), depth);
            },
            DirectiveModel::Other => {
                lemma_lines_needs(snap, home, dir, rest, found, block, depth);
            },
            DirectiveModel::Include(tokens) => {
                lemma_included_needs(snap, home, dir, tokens);
                if let Ok(paths) = crate::discovery::included(snap, home, dir, tokens) {
                    if depth > 0 {
                        let less = (depth - 1) as nat;
                        lemma_files_needs(snap, home, paths, found, less);
                        if let Ok(next) = crate::discovery::files_parsed(snap, home, paths, found, less) {
                            lemma_lines_needs(snap, home, dir, rest, next, block, depth);
                        }
                    }
                }
            },
            _ => {
                let next = Found { hosts: crate::discovery::configured(found.hosts, block, d), ..found };
                lemma_lines_needs(snap, home, dir, rest, next, block, depth);
            },
        }
    }
}

/// Whether all that was read in `snap` was read in `more`, with the same contents.
pub open spec fn read_on(snap: Snapshot, more: Snapshot) -> bool {
    &&& snap.files@.submap_of(more.files@)
    &&& snap.globs@.submap_of(more.globs@)
    &&& snap.paths is Windows == more.paths is Windows
    &&& forall|d: Seq<char>, p: Seq<char>|
        (#[trigger] snap.paths.told(d, p)) is Some ==> more.paths.told(d, p) == snap.paths.told(d, p)
}

/// An answer stands: having read more than it needs changes nothing.
pub proof fn law_reading_more_keeps_the_answer(
    snap: Snapshot,
    more: Snapshot,
    home: Option<Seq<char>>,
    path: Seq<char>,
    found: Found,
)
    requires
        more.files@.dom().finite(),
        read_on(snap, more),
        crate::discovery::parsed(snap, home, path, found) is Ok,
    ensures
        crate::discovery::parsed(more, home, path, found) == crate::discovery::parsed(
            snap,
            home,
            path,
            found,
        ),
{
    let depth = more.files@.len();
    assert(snap.files@.dom().subset_of(more.files@.dom()));
    vstd::set_lib::lemma_len_subset(snap.files@.dom(), more.files@.dom());
    law_depth_is_no_limit(snap, home, path, found, depth);
    lemma_file_more(snap, more, home, path, found, depth);
}

proof fn lemma_file_more(
    snap: Snapshot,
    more: Snapshot,
    home: Option<Seq<char>>,
    path: Seq<char>,
    found: Found,
    depth: nat,
)
    requires
        read_on(snap, more),
    ensures
        crate::discovery::file_parsed(snap, home, path, found, depth) is Ok
            ==> crate::discovery::file_parsed(more, home, path, found, depth)
            == crate::discovery::file_parsed(snap, home, path, found, depth),
    decreases depth, 1int, 0nat,
{
    if snap.files@.dom().contains(path) {
        let file = snap.files@[path]@;
        assert(more.files@[path] == snap.files@[path]);
        let entered = Found { visited: found.visited.insert(file.canonical), ..found };
        if !found.visited.contains(file.canonical) && depth > 0 && file.text is Some {
            let lines = crate::text::lines(file.text->0);
            lemma_lines_more(snap, more, home, file.dir, lines, entered, Seq::empty(), depth);
        }
    }
}

proof fn lemma_files_more(
    snap: Snapshot,
    more: Snapshot,
    home: Option<Seq<char>>,
    paths: Seq<Seq<char>>,
    found: Found,
    depth: nat,
)
    requires
        read_on(snap, more),
    ensures
        crate::discovery::files_parsed(snap, home, paths, found, depth) is Ok
            ==> crate::discovery::files_parsed(more, home, paths, found, depth)
            == crate::discovery::files_parsed(snap, home, paths, found, depth),
    decreases depth, 2int, paths.len(),
{
    if paths.len() > 0 {
        lemma_file_more(snap, more, home, paths[0], found, depth);
        if let Ok(mid) = crate::discovery::file_parsed(snap, home, paths[0], found, depth) {
            lemma_files_more(snap, more, home, paths.skip(1), mid, depth);
        }
    }
}

proof fn lemma_included_more(
    snap: Snapshot,
    more: Snapshot,
    home: Option<Seq<char>>,
    dir: Option<Seq<char>>,
    tokens: Seq<Seq<char>>,
)
    requires
        read_on(snap, more),
    ensures
        crate::discovery::included(snap, home, dir, tokens) is Ok
            ==> crate::discovery::included(more, home, dir, tokens)
            == crate::discovery::included(snap, home, dir, tokens),
    decreases tokens.len(),
{
    if tokens.len() > 0 {
        lemma_included_more(snap, more, home, dir, tokens.drop_last());
    }
}

proof fn lemma_lines_more(
    snap: Snapshot,
    more: Snapshot,
    home: Option<Seq<char>>,
    dir: Option<Seq<char>>,
    lines: Seq<Seq<char>>,
    found: Found,
    block: Seq<Seq<char>>,
    depth: nat,
)
    requires
        read_on(snap, more),
    ensures
        crate::discovery::lines_parsed(snap, home, dir, lines, found, block, depth) is Ok
            ==> crate::discovery::lines_parsed(more, home, dir, lines, found, block, depth)
            == crate::discovery::lines_parsed(snap, home, dir, lines, found, block, depth),
    decreases depth, 0int, lines.len(),
{
    if lines.len() > 0 {
        let d = crate::ssh_config::directive(lines[0]);
        let rest = lines.skip(1);
        match d {
            DirectiveModel::Host(patterns) => {
                let next = Found { hosts: crate::discovery::declared(found.hosts, patterns), ..found };
                lemma_lines_more(snap, more, home, dir, rest, next, patterns, depth);
            },
            DirectiveModel::Match => {
                lemma_lines_more(snap, more, home, dir, rest, found, Seq::empty(), depth);
            },
            DirectiveModel::Other => {
                lemma_lines_more(snap, more, home, dir, rest, found, block, depth);
            },
            DirectiveModel::Include(tokens) => {
                lemma_included_more(snap, more, home, dir, tokens);
                if let Ok(paths) = crate::discovery::included(snap, home, dir, tokens) {
                    if depth > 0 {
                        let less = (depth - 1) as nat;
                        lemma_files_more(snap, more, home, paths, found, less);
                        if let Ok(next) = crate::discovery::files_parsed(snap, home, paths, found, less) {
                            lemma_lines_more(snap, more, home, dir, rest, next, block, depth);
                        }
                    }
                }
            },
            _ => {
                let next = Found { hosts: crate::discovery::configured(found.hosts, block, d), ..found };
                lemma_lines_more(snap, more, home, dir, rest, next, block, depth);
            },
        }
    }
}

/// The known hosts only add: what the ssh configuration says of a host stands.
pub proof fn law_known_hosts_only_add(hosts: Seq<HostModel>, lines: Seq<Seq<char>>)
    ensures
        hosts.len() <= crate::discovery::known_parsed(hosts, lines).len(),
        crate::discovery::known_parsed(hosts, lines).take(hosts.len() as int) == hosts,
        forall|i: int|
            hosts.len() <= i < crate::discovery::known_parsed(hosts, lines).len() ==> (
            #[trigger] crate::discovery::known_parsed(hosts, lines)[i]).source
                == HostSource::KnownHosts,
    decreases lines.len(),
{
    if lines.len() == 0 {
        assert(hosts.take(hosts.len() as int) =~= hosts);
    } else {
        let mid = crate::discovery::known_parsed(hosts, lines.drop_last());
        law_known_hosts_only_add(hosts, lines.drop_last());
        lemma_known_added(mid, crate::discovery::known_names(lines.last()));
        let end = crate::discovery::known_parsed(hosts, lines);
        assert(end.take(hosts.len() as int) =~= mid.take(hosts.len() as int)) by {
            assert forall|i: int| 0 <= i < hosts.len() implies end[i] == mid[i] by {
                assert(end.take(mid.len() as int)[i] == mid[i]);
            }
        }
        assert forall|i: int| hosts.len() <= i < end.len() implies (#[trigger] end[i]).source
            == HostSource::KnownHosts by {
            if i < mid.len() {
                assert(end.take(mid.len() as int)[i] == mid[i]);
            }
        }
    }
}

proof fn lemma_known_added(hosts: Seq<HostModel>, tokens: Seq<Seq<char>>)
    ensures
        hosts.len() <= crate::discovery::known_added(hosts, tokens).len(),
        crate::discovery::known_added(hosts, tokens).take(hosts.len() as int) == hosts,
        forall|i: int|
            hosts.len() <= i < crate::discovery::known_added(hosts, tokens).len() ==> (
            #[trigger] crate::discovery::known_added(hosts, tokens)[i]).source
                == HostSource::KnownHosts,
    decreases tokens.len(),
{
    if tokens.len() == 0 {
        assert(hosts.take(hosts.len() as int) =~= hosts);
    } else {
        lemma_known_added(hosts, tokens.drop_last());
        let mid = crate::discovery::known_added(hosts, tokens.drop_last());
        let end = crate::discovery::known_added(hosts, tokens);
        assert(end.take(hosts.len() as int) =~= mid.take(hosts.len() as int));
        assert forall|i: int| hosts.len() <= i < end.len() implies (#[trigger] end[i]).source
            == HostSource::KnownHosts by {
            if i < mid.len() {
                assert(end[i] == mid[i]);
            }
        }
    }
}

} // verus!
