//! Finding every host that ssh knows: the configuration, the files that it
//! includes, and the known hosts.
//!
//! No file is read here. A [`Snapshot`] holds what was read so far; where more is
//! needed, the answer is a [`Need`], and the caller reads that and asks again.

use vstd::prelude::*;

use crate::config::HostMeta;
use crate::model::Host;
use crate::model::HostModel;
use crate::model::HostSource;
use crate::ssh_config::clean_known_host;
use crate::ssh_config::is_literal;
use crate::ssh_config::read_directive;
use crate::ssh_config::Directive;
use crate::ssh_config::DirectiveModel;
use crate::state::HostState;
use crate::table::Table;
use crate::text::chars_of;
use crate::text::has_char;
use crate::text::holds_text;
use crate::text::same_text;
use crate::text::split_at_char;
use crate::text::split_lines;
use crate::text::split_words;
use crate::text::text_of;
use crate::text::trim;

verus! {

/// A configuration file as it was read.
#[derive(Debug)]
pub struct SourceFile {
    /// The path without links and detours, by which the file is known again.
    pub canonical: String,
    /// The directory that relative paths in the file start from.
    pub dir: Option<String>,
    /// The contents; none where the file could not be read.
    pub text: Option<String>,
}

/// How the system reads paths.
pub enum PathRules {
    /// A slash parts a path, and one at its front makes it absolute.
    Unix,
    /// As on Windows, where a backslash parts a path too and only the system can tell
    /// where one leads: the places that it told, by the directory that a path was seen
    /// from and then by the path.
    Windows(Table<Table<String>>),
}

/// What was read so far.
pub struct Snapshot {
    /// How paths are read here.
    pub paths: PathRules,
    /// Files by the path they were asked for.
    pub files: Table<SourceFile>,
    /// The files that a path with wildcards stands for, in order; none where the
    /// path has no directory or no last component and is taken as it stands.
    pub globs: Table<Option<Vec<String>>>,
}

/// What has to be read before the answer is known.
#[derive(Debug)]
pub enum Need {
    /// The file at this path.
    File(String),
    /// The files that this path with wildcards stands for.
    Glob(String),
    /// Where a path leads that is seen from a directory: the path itself where it is
    /// absolute.
    Place { dir: String, path: String },
}

/// What was found so far.
#[derive(Debug)]
pub struct Discovery {
    /// Each alias once, in the order in which they were found.
    pub hosts: Vec<Host>,
    /// The canonical paths of the files that were read.
    pub visited: Vec<String>,
}

/// What a configuration file holds.
pub struct FileModel {
    pub canonical: Seq<char>,
    pub dir: Option<Seq<char>>,
    pub text: Option<Seq<char>>,
}

/// What has to be read.
pub enum NeedModel {
    File(Seq<char>),
    Glob(Seq<char>),
    Place(Seq<char>, Seq<char>),
}

/// What was found.
#[verifier::ext_equal]
pub struct Found {
    pub hosts: Seq<HostModel>,
    pub visited: Set<Seq<char>>,
}

impl View for SourceFile {
    type V = FileModel;

    open spec fn view(&self) -> FileModel {
        FileModel {
            canonical: self.canonical@,
            dir: crate::text::opt_text(self.dir),
            text: crate::text::opt_text(self.text),
        }
    }
}

impl View for Need {
    type V = NeedModel;

    open spec fn view(&self) -> NeedModel {
        match self {
            Need::File(p) => NeedModel::File(p@),
            Need::Glob(p) => NeedModel::Glob(p@),
            Need::Place { dir, path } => NeedModel::Place(dir@, path@),
        }
    }
}

impl PathRules {
    /// The place that the system told for a path seen from a directory.
    pub open spec fn told(self, dir: Seq<char>, path: Seq<char>) -> Option<Seq<char>> {
        match self {
            PathRules::Unix => None,
            PathRules::Windows(places) => if places@.dom().contains(dir)
                && places@[dir]@.dom().contains(path) {
                Some(places@[dir]@[path]@)
            } else {
                None
            },
        }
    }
}

impl View for Discovery {
    type V = Found;

    open spec fn view(&self) -> Found {
        Found {
            hosts: crate::model::host_models(self.hosts@),
            visited: crate::text::texts(self.visited@).to_set(),
        }
    }
}

impl Found {
    /// Whether no alias occurs twice.
    pub open spec fn wf(self) -> bool {
        forall|i: int, j: int|
            0 <= i < j < self.hosts.len() ==> #[trigger] self.hosts[i].alias
                != #[trigger] self.hosts[j].alias
    }
}

/// A host of which only the alias is known.
pub open spec fn bare_host(alias: Seq<char>, source: HostSource) -> HostModel {
    HostModel {
        alias,
        hostname: None,
        user: None,
        port: None,
        source,
        meta: crate::config::no_meta(),
        state: crate::state::fresh_state(),
    }
}

/// A host of which only the alias is known.
pub fn new_host(alias: String, source: HostSource) -> (r: Host)
    ensures
        r@ == bare_host(alias@, source),
{
    Host {
        alias,
        hostname: None,
        user: None,
        port: None,
        source,
        meta: HostMeta::default(),
        state: HostState::default(),
    }
}

/// Whether an alias is among the hosts.
pub open spec fn has_alias(hosts: Seq<HostModel>, alias: Seq<char>) -> bool {
    exists|i: int| 0 <= i < hosts.len() && #[trigger] hosts[i].alias == alias
}

/// The hosts with one more, where its alias is new.
pub open spec fn with_host(hosts: Seq<HostModel>, alias: Seq<char>, source: HostSource) -> Seq<
    HostModel,
> {
    if has_alias(hosts, alias) {
        hosts
    } else {
        hosts.push(bare_host(alias, source))
    }
}

/// The hosts after a `Host` line: the aliases among its patterns are added.
pub open spec fn declared(hosts: Seq<HostModel>, patterns: Seq<Seq<char>>) -> Seq<HostModel>
    decreases patterns.len(),
{
    if patterns.len() == 0 {
        hosts
    } else {
        let before = declared(hosts, patterns.drop_last());
        if crate::ssh_config::literal(patterns.last()) {
            with_host(before, patterns.last(), HostSource::SshConfig)
        } else {
            before
        }
    }
}

/// Whether an option in the block of these patterns holds for an alias.
pub open spec fn in_block(patterns: Seq<Seq<char>>, alias: Seq<char>) -> bool {
    patterns.contains(alias) && crate::ssh_config::literal(alias)
}

/// A host after an option that holds for it.
pub open spec fn with_option(h: HostModel, d: DirectiveModel) -> HostModel {
    match d {
        DirectiveModel::HostName(v) => HostModel { hostname: Some(v), ..h },
        DirectiveModel::User(v) => HostModel { user: Some(v), ..h },
        DirectiveModel::Port(p) => HostModel { port: Some(p), ..h },
        _ => h,
    }
}

/// The hosts after an option in the block of these patterns.
pub open spec fn configured(
    hosts: Seq<HostModel>,
    patterns: Seq<Seq<char>>,
    d: DirectiveModel,
) -> Seq<HostModel> {
    Seq::new(
        hosts.len(),
        |i: int|
            if in_block(patterns, hosts[i].alias) {
                with_option(hosts[i], d)
            } else {
                hosts[i]
            },
    )
}

/// A path with the home directory in place of a leading tilde. Only a lone tilde,
/// or one before a slash, stands for it; on Windows one before a backslash, too.
pub open spec fn tilde_expanded(token: Seq<char>, home: Option<Seq<char>>, windows: bool) -> Seq<char> {
    if token.len() > 0 && token[0] == '~' && (token.len() == 1 || token[1] == '/' || (windows
        && token[1] == '\\')) && home is Some {
        home->0 + token.skip(1)
    } else {
        token
    }
}

/// A relative path seen from a directory, by the rules of unix.
pub open spec fn joined(dir: Seq<char>, path: Seq<char>) -> Seq<char> {
    if dir.len() == 0 || dir.last() == '/' {
        dir + path
    } else {
        dir + "/"@ + path
    }
}

/// The path that a word behind `Include` stands for, or what the system has to tell
/// to know.
pub open spec fn include_path(
    rules: PathRules,
    token: Seq<char>,
    home: Option<Seq<char>>,
    dir: Option<Seq<char>>,
) -> Result<Seq<char>, NeedModel> {
    let path = tilde_expanded(token, home, rules is Windows);
    match dir {
        None => Ok(path),
        Some(d) => if rules is Windows {
            match rules.told(d, path) {
                Some(place) => Ok(place),
                None => Err(NeedModel::Place(d, path)),
            }
        } else if path.len() > 0 && path[0] == '/' {
            Ok(path)
        } else {
            Ok(joined(d, path))
        },
    }
}

/// Whether a path has wildcards.
pub open spec fn has_wildcard(path: Seq<char>) -> bool {
    path.contains('*') || path.contains('?')
}

/// The files that the words behind `Include` stand for, or what has to be read to
/// know.
pub open spec fn included(
    snap: Snapshot,
    home: Option<Seq<char>>,
    dir: Option<Seq<char>>,
    tokens: Seq<Seq<char>>,
) -> Result<Seq<Seq<char>>, NeedModel>
    decreases tokens.len(),
{
    if tokens.len() == 0 {
        Ok(Seq::empty())
    } else {
        match included(snap, home, dir, tokens.drop_last()) {
            Err(n) => Err(n),
            Ok(paths) => match include_path(snap.paths, tokens.last(), home, dir) {
                Err(n) => Err(n),
                Ok(path) => if !has_wildcard(path) {
                    Ok(paths.push(path))
                } else if !snap.globs@.dom().contains(path) {
                    Err(NeedModel::Glob(path))
                } else {
                    match snap.globs@[path] {
                        Some(v) => Ok(paths + crate::text::texts(v@)),
                        None => Ok(paths.push(path)),
                    }
                },
            },
        }
    }
}

/// What is found after reading one file. A file that was read before is passed
/// over, so files may include each other. `depth` bounds how deep files include
/// files.
pub open spec fn file_parsed(
    snap: Snapshot,
    home: Option<Seq<char>>,
    path: Seq<char>,
    found: Found,
    depth: nat,
) -> Result<Found, NeedModel>
    decreases depth, 1int, 0nat,
{
    if !snap.files@.dom().contains(path) {
        Err(NeedModel::File(path))
    } else {
        let file = snap.files@[path]@;
        let entered = Found { visited: found.visited.insert(file.canonical), ..found };
        if found.visited.contains(file.canonical) {
            Ok(found)
        } else if depth == 0 || file.text is None {
            Ok(entered)
        } else {
            lines_parsed(
                snap,
                home,
                file.dir,
                crate::text::lines(file.text->0),
                entered,
                Seq::empty(),
                depth,
            )
        }
    }
}

/// What is found after reading some files, one behind the other.
pub open spec fn files_parsed(
    snap: Snapshot,
    home: Option<Seq<char>>,
    paths: Seq<Seq<char>>,
    found: Found,
    depth: nat,
) -> Result<Found, NeedModel>
    decreases depth, 2int, paths.len(),
{
    if paths.len() == 0 {
        Ok(found)
    } else {
        match file_parsed(snap, home, paths[0], found, depth) {
            Err(n) => Err(n),
            Ok(next) => files_parsed(snap, home, paths.skip(1), next, depth),
        }
    }
}

/// What is found after reading the lines of a file. Options hold for the aliases
/// of the last `Host` line, which an `Include` does not end and a `Match` does.
pub open spec fn lines_parsed(
    snap: Snapshot,
    home: Option<Seq<char>>,
    dir: Option<Seq<char>>,
    lines: Seq<Seq<char>>,
    found: Found,
    block: Seq<Seq<char>>,
    depth: nat,
) -> Result<Found, NeedModel>
    decreases depth, 0int, lines.len(),
{
    if lines.len() == 0 {
        Ok(found)
    } else {
        let d = crate::ssh_config::directive(lines[0]);
        let rest = lines.skip(1);
        match d {
            DirectiveModel::Host(patterns) => lines_parsed(
                snap,
                home,
                dir,
                rest,
                Found { hosts: declared(found.hosts, patterns), ..found },
                patterns,
                depth,
            ),
            DirectiveModel::Match => lines_parsed(snap, home, dir, rest, found, Seq::empty(), depth),
            DirectiveModel::Include(tokens) => match included(snap, home, dir, tokens) {
                Err(n) => Err(n),
                Ok(paths) => if depth == 0 {
                    Ok(found)
                } else {
                    match files_parsed(snap, home, paths, found, (depth - 1) as nat) {
                        Err(n) => Err(n),
                        Ok(next) => lines_parsed(snap, home, dir, rest, next, block, depth),
                    }
                },
            },
            DirectiveModel::Other => lines_parsed(snap, home, dir, rest, found, block, depth),
            _ => lines_parsed(
                snap,
                home,
                dir,
                rest,
                Found { hosts: configured(found.hosts, block, d), ..found },
                block,
                depth,
            ),
        }
    }
}

/// What is found after reading a configuration file and all that it includes.
/// Every level of nesting reads a file that no level above it has read, so the
/// number of files bounds the depth.
pub open spec fn parsed(
    snap: Snapshot,
    home: Option<Seq<char>>,
    path: Seq<char>,
    found: Found,
) -> Result<Found, NeedModel> {
    file_parsed(snap, home, path, found, snap.files@.len())
}

/// What `shellexpand::tilde_with_context` makes of a path: the home directory
/// takes the place of a tilde that stands alone or before a slash, and nothing else
/// changes. A tilde before a backslash is left out: what becomes of it differs
/// between systems.
#[verifier::external_body]
fn expand_tilde(token: &str, home: &Option<String>) -> (r: String)
    requires
        !(token@.len() > 1 && token@[0] == '~' && token@[1] == '\\'),
    ensures
        r@ == tilde_expanded(token@, crate::text::opt_text(*home), false),
{
    shellexpand::tilde_with_context(token, || home.as_ref()).into_owned()
}

/// A path with the home directory in place of a leading tilde.
fn without_tilde(token: &str, home: &Option<String>, windows: bool) -> (r: String)
    ensures
        r@ == tilde_expanded(token@, crate::text::opt_text(*home), windows),
{
    let v = chars_of(token);
    if v.len() > 1 && v[0] == '~' && v[1] == '\\' {
        if !windows {
            return token.to_string();
        }
        proof {
            reveal_strlit("~");
        }
        let mut out = expand_tilde("~", home);
        let rest = text_of(&v, 1, v.len());
        out.append(rest.as_str());
        assert("~"@.skip(1) =~= Seq::<char>::empty());
        assert(v@.subrange(1, v@.len() as int) =~= token@.skip(1));
        assert(out@ =~= tilde_expanded(token@, crate::text::opt_text(*home), windows));
        out
    } else {
        expand_tilde(token, home)
    }
}

/// The path that a word behind `Include` stands for.
pub fn resolve_include(
    token: &str,
    rules: &PathRules,
    home: &Option<String>,
    dir: &Option<String>,
) -> (r: Result<String, Need>)
    ensures
        match r {
            Ok(path) => include_path(
                *rules,
                token@,
                crate::text::opt_text(*home),
                crate::text::opt_text(*dir),
            ) == Ok::<Seq<char>, NeedModel>(path@),
            Err(n) => include_path(
                *rules,
                token@,
                crate::text::opt_text(*home),
                crate::text::opt_text(*dir),
            ) == Err::<Seq<char>, NeedModel>(n@),
        },
{
    let windows = matches!(rules, PathRules::Windows(_));
    let path = without_tilde(token, home, windows);
    let d = match dir {
        Some(d) => d,
        None => return Ok(path),
    };
    if let PathRules::Windows(places) = rules {
        if let Some(from) = places.get(d.as_str()) {
            if let Some(place) = from.get(path.as_str()) {
                return Ok(place.clone());
            }
        }
        return Err(Need::Place { dir: d.clone(), path });
    }
    let p = chars_of(path.as_str());
    if p.len() > 0 && p[0] == '/' {
        return Ok(path);
    }
    let dv = chars_of(d.as_str());
    let mut out = d.clone();
    if dv.len() > 0 && dv[dv.len() - 1] != '/' {
        out.append("/");
    }
    out.append(path.as_str());
    Ok(out)
}

/// The files that the words behind `Include` stand for.
pub fn expand_includes(
    tokens: &Vec<String>,
    snapshot: &Snapshot,
    home: &Option<String>,
    dir: &Option<String>,
) -> (r: Result<Vec<String>, Need>)
    ensures
        match r {
            Ok(paths) => included(
                *snapshot,
                crate::text::opt_text(*home),
                crate::text::opt_text(*dir),
                crate::text::texts(tokens@),
            ) == Ok::<Seq<Seq<char>>, NeedModel>(crate::text::texts(paths@)),
            Err(n) => included(
                *snapshot,
                crate::text::opt_text(*home),
                crate::text::opt_text(*dir),
                crate::text::texts(tokens@),
            ) == Err::<Seq<Seq<char>>, NeedModel>(n@),
        },
{
    let ghost all = crate::text::texts(tokens@);
    let ghost h = crate::text::opt_text(*home);
    let ghost b = crate::text::opt_text(*dir);
    let mut out: Vec<String> = Vec::new();
    assert(crate::text::texts(out@) =~= Seq::<Seq<char>>::empty());
    for i in 0..tokens.len()
        invariant
            all == crate::text::texts(tokens@),
            h == crate::text::opt_text(*home),
            b == crate::text::opt_text(*dir),
            included(*snapshot, h, b, all.take(i as int)) == Ok::<Seq<Seq<char>>, NeedModel>(
                crate::text::texts(out@),
            ),
    {
        let ghost had = crate::text::texts(out@);
        assert(all.take(i + 1).drop_last() =~= all.take(i as int));
        assert(all.take(i + 1).last() == tokens@[i as int]@);
        let path = match resolve_include(tokens[i].as_str(), &snapshot.paths, home, dir) {
            Ok(path) => path,
            Err(n) => {
                proof {
                    lemma_included_stops(*snapshot, h, b, all, i + 1);
                }
                return Err(n);
            },
        };
        let ghost p = path@;
        if !has_char(path.as_str(), '*') && !has_char(path.as_str(), '?') {
            out.push(path);
            assert(crate::text::texts(out@) =~= had.push(p));
        } else {
            match snapshot.globs.get(path.as_str()) {
                None => {
                    proof {
                        lemma_included_stops(*snapshot, h, b, all, i + 1);
                    }
                    return Err(Need::Glob(path));
                },
                Some(Some(paths)) => {
                    let mut more = crate::text::clone_texts(paths);
                    let ghost right = crate::text::texts(more@);
                    out.append(&mut more);
                    assert(crate::text::texts(out@) =~= had + right);
                },
                Some(None) => {
                    out.push(path);
                    assert(crate::text::texts(out@) =~= had.push(p));
                },
            }
        }
    }
    assert(all.take(tokens@.len() as int) =~= all);
    Ok(out)
}

/// What is needed for some of the words is needed for all of them.
proof fn lemma_included_stops(
    snap: Snapshot,
    home: Option<Seq<char>>,
    dir: Option<Seq<char>>,
    tokens: Seq<Seq<char>>,
    n: int,
)
    requires
        0 <= n <= tokens.len(),
        included(snap, home, dir, tokens.take(n)) is Err,
    ensures
        included(snap, home, dir, tokens) == included(snap, home, dir, tokens.take(n)),
    decreases tokens.len() - n,
{
    if n < tokens.len() {
        assert(tokens.take(n + 1).drop_last() =~= tokens.take(n));
        lemma_included_stops(snap, home, dir, tokens, n + 1);
    } else {
        assert(tokens.take(n) =~= tokens);
    }
}

impl Discovery {
    /// Nothing found yet.
    pub fn new() -> (r: Discovery)
        ensures
            r@ == (Found { hosts: Seq::empty(), visited: Set::empty() }),
            r@.wf(),
    {
        let r = Discovery { hosts: Vec::new(), visited: Vec::new() };
        assert(r@.hosts =~= Seq::<HostModel>::empty());
        assert(r@.visited =~= Set::<Seq<char>>::empty());
        r
    }

    /// Whether an alias was found.
    fn has(&self, alias: &str) -> (r: bool)
        ensures
            r == has_alias(self@.hosts, alias@),
    {
        for i in 0..self.hosts.len()
            invariant
                forall|j: int| 0 <= j < i ==> #[trigger] self@.hosts[j].alias != alias@,
        {
            assert(self@.hosts[i as int].alias == self.hosts@[i as int].alias@);
            if same_text(self.hosts[i].alias.as_str(), alias) {
                return true;
            }
        }
        false
    }

    /// Adds a host, where its alias is new.
    fn put(&mut self, alias: &str, source: HostSource)
        requires
            old(self)@.wf(),
        ensures
            final(self)@.wf(),
            final(self)@ == (Found { hosts: with_host(old(self)@.hosts, alias@, source), ..old(self)@ }),
    {
        if !self.has(alias) {
            let ghost before = self@.hosts;
            let host = new_host(alias.to_string(), source);
            let ghost model = host@;
            self.hosts.push(host);
            assert(self@.hosts =~= before.push(model));
        }
    }

    /// Takes a `Host` line.
    fn declare(&mut self, patterns: &Vec<String>)
        requires
            old(self)@.wf(),
        ensures
            final(self)@.wf(),
            final(self)@ == (Found {
                hosts: declared(old(self)@.hosts, crate::text::texts(patterns@)),
                ..old(self)@
            }),
    {
        let ghost all = crate::text::texts(patterns@);
        let ghost before = self@;
        for i in 0..patterns.len()
            invariant
                all == crate::text::texts(patterns@),
                self@.wf(),
                self@ == (Found { hosts: declared(before.hosts, all.take(i as int)), ..before }),
        {
            assert(all.take(i + 1).drop_last() =~= all.take(i as int));
            assert(all.take(i + 1).last() == patterns@[i as int]@);
            if is_literal(patterns[i].as_str()) {
                self.put(patterns[i].as_str(), HostSource::SshConfig);
            }
        }
        assert(all.take(patterns@.len() as int) =~= all);
    }

    /// Takes an option in the block of these patterns.
    fn configure(&mut self, patterns: &Vec<String>, d: &Directive)
        requires
            old(self)@.wf(),
        ensures
            final(self)@.wf(),
            final(self)@ == (Found {
                hosts: configured(old(self)@.hosts, crate::text::texts(patterns@), d@),
                ..old(self)@
            }),
    {
        let ghost before = self@;
        let ghost block = crate::text::texts(patterns@);
        let ghost want = configured(before.hosts, block, d@);
        let count: usize = self.hosts.len();
        for i in 0..count
            invariant
                count == self.hosts@.len(),
                block == crate::text::texts(patterns@),
                want == configured(before.hosts, block, d@),
                self.hosts@.len() == before.hosts.len(),
                self@.visited == before.visited,
                forall|j: int| 0 <= j < i ==> (#[trigger] self.hosts@[j])@ == want[j],
                forall|j: int|
                    i <= j < self.hosts@.len() ==> (#[trigger] self.hosts@[j])@ == before.hosts[j],
        {
            let ghost had = self.hosts@;
            if is_literal(self.hosts[i].alias.as_str()) && holds_text(
                patterns,
                self.hosts[i].alias.as_str(),
            ) {
                let mut host = self.hosts[i].clone();
                match d {
                    Directive::HostName(v) => {
                        host.hostname = Some(v.clone());
                    },
                    Directive::User(v) => {
                        host.user = Some(v.clone());
                    },
                    Directive::Port(p) => {
                        host.port = Some(*p);
                    },
                    _ => {},
                }
                assert(host@ =~= with_option(had[i as int]@, d@));
                self.hosts.set(i, host);
            }
            assert(self.hosts@[i as int]@ == want[i as int]);
        }
        assert(self@.hosts =~= want);
        assert(self@ =~= (Found { hosts: want, ..before }));
        assert forall|i: int, j: int| 0 <= i < j < want.len() implies #[trigger] want[i].alias
            != #[trigger] want[j].alias by {
            assert(before.hosts[i].alias != before.hosts[j].alias);
        }
    }

    /// Marks a file as read. Answers whether it was new.
    fn visit(&mut self, canonical: &str) -> (r: bool)
        requires
            old(self)@.wf(),
        ensures
            final(self)@.wf(),
            r == !old(self)@.visited.contains(canonical@),
            r ==> final(self)@ == (Found {
                visited: old(self)@.visited.insert(canonical@),
                ..old(self)@
            }),
            !r ==> final(self)@ == old(self)@,
    {
        if holds_text(&self.visited, canonical) {
            return false;
        }
        let ghost before = self@;
        let ghost had = crate::text::texts(self.visited@);
        self.visited.push(canonical.to_string());
        let ghost now = crate::text::texts(self.visited@);
        assert(now =~= had.push(canonical@));
        assert(now.to_set() =~= had.to_set().insert(canonical@)) by {
            assert forall|c: Seq<char>| now.contains(c) == had.to_set().insert(canonical@).contains(c) by {
                if had.contains(c) {
                    let i = choose|i: int| 0 <= i < had.len() && had[i] == c;
                    assert(now[i] == c);
                }
                if c == canonical@ {
                    assert(now[had.len() as int] == c);
                }
                if now.contains(c) {
                    let i = choose|i: int| 0 <= i < now.len() && now[i] == c;
                    if i < had.len() {
                        assert(had[i] == c);
                    }
                }
            }
        }
        true
    }
}

/// Whether an outcome is the one that is stated.
spec fn is_outcome(
    r: Result<(), Need>,
    found: Found,
    want: Result<Found, NeedModel>,
) -> bool {
    match r {
        Ok(_) => found.wf() && want == Ok::<Found, NeedModel>(found),
        Err(n) => want == Err::<Found, NeedModel>(n@),
    }
}

/// Reads one file and all that it includes.
fn parse_file(
    path: &str,
    snapshot: &Snapshot,
    home: &Option<String>,
    found: &mut Discovery,
    depth: usize,
) -> (r: Result<(), Need>)
    requires
        old(found)@.wf(),
    ensures
        is_outcome(
            r,
            final(found)@,
            file_parsed(*snapshot, crate::text::opt_text(*home), path@, old(found)@, depth as nat),
        ),
    decreases depth, 0int,
{
    let ghost h = crate::text::opt_text(*home);
    let file = match snapshot.files.get(path) {
        Some(f) => f,
        None => return Err(Need::File(path.to_string())),
    };
    if !found.visit(file.canonical.as_str()) || depth == 0 {
        return Ok(());
    }
    let text = match &file.text {
        Some(t) => t,
        None => return Ok(()),
    };
    let lines = split_lines(text.as_str());
    let ghost all = crate::text::lines(text@);
    let ghost dir = crate::text::opt_text(file.dir);
    let mut block: Vec<String> = Vec::new();
    assert(crate::text::texts(block@) =~= Seq::<Seq<char>>::empty());
    let ghost want = lines_parsed(*snapshot, h, dir, all, found@, Seq::empty(), depth as nat);
    assert(all.skip(0) =~= all);
    for i in 0..lines.len()
        invariant
            want == file_parsed(
                *snapshot,
                crate::text::opt_text(*home),
                path@,
                old(found)@,
                depth as nat,
            ),
            h == crate::text::opt_text(*home),
            dir == crate::text::opt_text(file.dir),
            all == crate::text::texts(lines@),
            depth > 0,
            found@.wf(),
            want == lines_parsed(
                *snapshot,
                h,
                dir,
                all.skip(i as int),
                found@,
                crate::text::texts(block@),
                depth as nat,
            ),
    {
        let ghost rest = all.skip(i as int);
        assert(rest.skip(1) =~= all.skip(i + 1));
        assert(rest[0] == lines@[i as int]@);
        let d = read_directive(lines[i].as_str());
        match d {
            Directive::Host(patterns) => {
                found.declare(&patterns);
                block = patterns;
            },
            Directive::Match => {
                block = Vec::new();
                assert(crate::text::texts(block@) =~= Seq::<Seq<char>>::empty());
            },
            Directive::Include(tokens) => {
                let paths = match expand_includes(&tokens, snapshot, home, &file.dir) {
                    Ok(paths) => paths,
                    Err(n) => return Err(n),
                };
                if let Err(n) = parse_files(&paths, snapshot, home, found, depth - 1) {
                    return Err(n);
                }
            },
            Directive::Other => {},
            d => {
                found.configure(&block, &d);
            },
        }
    }
    assert(all.skip(lines@.len() as int) =~= Seq::<Seq<char>>::empty());
    Ok(())
}

/// Reads some files, one behind the other.
fn parse_files(
    paths: &Vec<String>,
    snapshot: &Snapshot,
    home: &Option<String>,
    found: &mut Discovery,
    depth: usize,
) -> (r: Result<(), Need>)
    requires
        old(found)@.wf(),
    ensures
        is_outcome(
            r,
            final(found)@,
            files_parsed(
                *snapshot,
                crate::text::opt_text(*home),
                crate::text::texts(paths@),
                old(found)@,
                depth as nat,
            ),
        ),
    decreases depth, 1int,
{
    let ghost h = crate::text::opt_text(*home);
    let ghost all = crate::text::texts(paths@);
    let ghost want = files_parsed(*snapshot, h, all, found@, depth as nat);
    assert(all.skip(0) =~= all);
    for i in 0..paths.len()
        invariant
            want == files_parsed(*snapshot, h, all, old(found)@, depth as nat),
            h == crate::text::opt_text(*home),
            all == crate::text::texts(paths@),
            found@.wf(),
            want == files_parsed(*snapshot, h, all.skip(i as int), found@, depth as nat),
    {
        assert(all.skip(i as int).skip(1) =~= all.skip(i + 1));
        assert(all.skip(i as int)[0] == paths@[i as int]@);
        if let Err(n) = parse_file(paths[i].as_str(), snapshot, home, found, depth) {
            return Err(n);
        }
    }
    assert(all.skip(paths@.len() as int) =~= Seq::<Seq<char>>::empty());
    Ok(())
}

/// Reads a configuration file and all that it includes.
pub fn parse_config_file(
    path: &str,
    snapshot: &Snapshot,
    home: &Option<String>,
    found: Discovery,
) -> (r: Result<Discovery, Need>)
    requires
        found@.wf(),
    ensures
        match r {
            Ok(d) => d@.wf() && parsed(*snapshot, crate::text::opt_text(*home), path@, found@)
                == Ok::<Found, NeedModel>(d@),
            Err(n) => parsed(*snapshot, crate::text::opt_text(*home), path@, found@)
                == Err::<Found, NeedModel>(n@),
        },
{
    let mut found = found;
    let depth: usize = snapshot.files.len();
    match parse_file(path, snapshot, home, &mut found, depth) {
        Ok(_) => Ok(found),
        Err(n) => Err(n),
    }
}

/// The hosts that a line of the known hosts names. Comments and markers name none,
/// and a hashed name cannot be read.
pub open spec fn known_names(line: Seq<char>) -> Seq<Seq<char>> {
    let t = crate::text::trimmed(line);
    let words = crate::text::words(t);
    if t.len() == 0 || t[0] == '#' || t[0] == '@' || words.len() == 0 {
        Seq::empty()
    } else if words[0].len() > 0 && words[0][0] == '|' {
        Seq::empty()
    } else {
        crate::text::split(words[0], ',')
    }
}

/// The hosts after some tokens of the known hosts.
pub open spec fn known_added(hosts: Seq<HostModel>, tokens: Seq<Seq<char>>) -> Seq<HostModel>
    decreases tokens.len(),
{
    if tokens.len() == 0 {
        hosts
    } else {
        let before = known_added(hosts, tokens.drop_last());
        match crate::ssh_config::known_host(tokens.last()) {
            Some(name) => with_host(before, name, HostSource::KnownHosts),
            None => before,
        }
    }
}

/// The hosts after some lines of the known hosts.
pub open spec fn known_parsed(hosts: Seq<HostModel>, lines: Seq<Seq<char>>) -> Seq<HostModel>
    decreases lines.len(),
{
    if lines.len() == 0 {
        hosts
    } else {
        known_added(known_parsed(hosts, lines.drop_last()), known_names(lines.last()))
    }
}

/// Reads one line of the known hosts.
fn parse_known_line(line: &str, found: &mut Discovery)
    requires
        old(found)@.wf(),
    ensures
        final(found)@.wf(),
        final(found)@ == (Found {
            hosts: known_added(old(found)@.hosts, known_names(line@)),
            ..old(found)@
        }),
{
    let t = trim(line);
    let v = chars_of(t.as_str());
    let words = split_words(t.as_str());
    assert(words@.len() == crate::text::words(t@).len());
    if v.len() == 0 || v[0] == '#' || v[0] == '@' || words.len() == 0 {
        return;
    }
    assert(words@[0]@ == crate::text::texts(words@)[0]);
    let first = chars_of(words[0].as_str());
    if first.len() > 0 && first[0] == '|' {
        return;
    }
    let tokens = split_at_char(words[0].as_str(), ',');
    let ghost all = crate::text::texts(tokens@);
    let ghost before = found@;
    for i in 0..tokens.len()
        invariant
            all == crate::text::texts(tokens@),
            found@.wf(),
            found@ == (Found { hosts: known_added(before.hosts, all.take(i as int)), ..before }),
    {
        assert(all.take(i + 1).drop_last() =~= all.take(i as int));
        assert(all.take(i + 1).last() == tokens@[i as int]@);
        if let Some(name) = clean_known_host(tokens[i].as_str()) {
            found.put(name.as_str(), HostSource::KnownHosts);
        }
    }
    assert(all.take(tokens@.len() as int) =~= all);
}

/// Adds the known hosts that were not found yet.
pub fn parse_known_hosts(text: &str, found: &mut Discovery)
    requires
        old(found)@.wf(),
    ensures
        final(found)@.wf(),
        final(found)@ == (Found {
            hosts: known_parsed(old(found)@.hosts, crate::text::lines(text@)),
            ..old(found)@
        }),
{
    let lines = split_lines(text);
    let ghost all = crate::text::texts(lines@);
    let ghost before = found@;
    for i in 0..lines.len()
        invariant
            all == crate::text::texts(lines@),
            found@.wf(),
            found@ == (Found { hosts: known_parsed(before.hosts, all.take(i as int)), ..before }),
    {
        assert(all.take(i + 1).drop_last() =~= all.take(i as int));
        assert(all.take(i + 1).last() == lines@[i as int]@);
        parse_known_line(lines[i].as_str(), found);
    }
    assert(all.take(lines@.len() as int) =~= all);
}

/// Nothing found.
pub open spec fn nothing_found() -> Found {
    Found { hosts: Seq::empty(), visited: Set::empty() }
}

/// All hosts: those of the configuration, where there is one, and then the known
/// hosts, where they could be read; or what has to be read to know.
pub open spec fn discovered(
    config: Option<Seq<char>>,
    known_hosts: Option<Seq<char>>,
    snap: Snapshot,
    home: Option<Seq<char>>,
) -> Result<Seq<HostModel>, NeedModel> {
    let read = match config {
        Some(path) => parsed(snap, home, path, nothing_found()),
        None => Ok(nothing_found()),
    };
    match read {
        Err(n) => Err(n),
        Ok(found) => Ok(
            match known_hosts {
                Some(text) => known_parsed(found.hosts, crate::text::lines(text)),
                None => found.hosts,
            },
        ),
    }
}

/// All hosts: those of the configuration, where there is one, and then the known
/// hosts, where they could be read.
pub fn discover(
    config: &Option<String>,
    known_hosts: &Option<String>,
    snapshot: &Snapshot,
    home: &Option<String>,
) -> (r: Result<Vec<Host>, Need>)
    ensures
        ({
            let all = discovered(
                crate::text::opt_text(*config),
                crate::text::opt_text(*known_hosts),
                *snapshot,
                crate::text::opt_text(*home),
            );
            match r {
                Ok(hosts) => all == Ok::<Seq<HostModel>, NeedModel>(
                    crate::model::host_models(hosts@),
                ),
                Err(n) => all == Err::<Seq<HostModel>, NeedModel>(n@),
            }
        }),
{
    let mut found = Discovery::new();
    if let Some(path) = config {
        match parse_config_file(path.as_str(), snapshot, home, found) {
            Ok(d) => {
                found = d;
            },
            Err(n) => return Err(n),
        }
    }
    if let Some(text) = known_hosts {
        parse_known_hosts(text.as_str(), &mut found);
    }
    Ok(found.hosts)
}

} // verus!
