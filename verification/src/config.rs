//! The program's own configuration: settings, host metadata and layouts.

use vstd::prelude::*;

use crate::paths::location;
use crate::paths::Location;
use crate::paths::NoHome;
use crate::paths::Root;
use crate::table::Table;
use crate::text::char_is_space;
use crate::text::chars_of;
use crate::text::clone_opt;
use crate::text::clone_texts;
use crate::text::debug_text;
use crate::text::split_words;

verus! {

/// The whole configuration.
pub struct Config {
    pub settings: Settings,
    /// Metadata of hosts, by ssh alias.
    pub hosts: Table<HostMeta>,
    /// Named tmux layouts.
    pub layouts: Table<Layout>,
}

/// What holds for every host.
#[derive(Debug)]
pub struct Settings {
    /// The tmux session for hosts that name none.
    pub default_session: String,
    /// Whether a dropped connection is made again.
    pub reconnect: bool,
    /// How many times in a row it is made again.
    pub reconnect_max_attempts: u32,
    /// How long to wait before the first new attempt.
    pub reconnect_delay_secs: u64,
    /// The longest wait between attempts.
    pub reconnect_max_delay_secs: u64,
    /// Whether connections to a host share one ssh master.
    pub multiplex: bool,
    /// How long a master outlives its last connection.
    pub control_persist_secs: u64,
    /// How many lines of history are replayed on attach.
    pub scrollback_lines: u32,
}

/// Metadata of one host.
#[derive(Debug)]
pub struct HostMeta {
    /// The tmux session, in place of the default one.
    pub session: Option<String>,
    /// The layout to apply on first attach.
    pub layout: Option<String>,
    /// Notes shown in the picker.
    pub notes: Option<String>,
    /// Local forwards, as behind `ssh -L`.
    pub local_forwards: Vec<String>,
    /// Remote forwards, as behind `ssh -R`.
    pub remote_forwards: Vec<String>,
    /// Dynamic forwards, as behind `ssh -D`.
    pub dynamic_forwards: Vec<String>,
}

/// A tmux layout: windows in order.
#[derive(Debug)]
pub struct Layout {
    pub windows: Vec<Window>,
}

/// One tmux window of a layout.
#[derive(Debug)]
pub struct Window {
    pub name: String,
    /// What to run in the window when it is created.
    pub command: Option<String>,
}

/// Forwards given on the command line, added to the configured ones.
#[derive(Debug)]
pub struct Forwards {
    pub local: Vec<String>,
    pub remote: Vec<String>,
    pub dynamic: Vec<String>,
}

/// Why a forward is refused.
#[derive(Debug)]
pub enum ForwardError {
    /// Nothing but white space.
    Empty { flag: String },
    /// White space between other characters.
    Whitespace { flag: String, spec: String },
}

/// What host metadata holds.
pub struct MetaModel {
    pub session: Option<Seq<char>>,
    pub layout: Option<Seq<char>>,
    pub notes: Option<Seq<char>>,
    pub local: Seq<Seq<char>>,
    pub remote: Seq<Seq<char>>,
    pub dynamic: Seq<Seq<char>>,
}

/// What a window holds.
pub struct WindowModel {
    pub name: Seq<char>,
    pub command: Option<Seq<char>>,
}

impl View for HostMeta {
    type V = MetaModel;

    open spec fn view(&self) -> MetaModel {
        MetaModel {
            session: crate::text::opt_text(self.session),
            layout: crate::text::opt_text(self.layout),
            notes: crate::text::opt_text(self.notes),
            local: crate::text::texts(self.local_forwards@),
            remote: crate::text::texts(self.remote_forwards@),
            dynamic: crate::text::texts(self.dynamic_forwards@),
        }
    }
}

impl View for Window {
    type V = WindowModel;

    open spec fn view(&self) -> WindowModel {
        WindowModel { name: self.name@, command: crate::text::opt_text(self.command) }
    }
}

impl View for Layout {
    type V = Seq<WindowModel>;

    open spec fn view(&self) -> Seq<WindowModel> {
        Seq::new(self.windows@.len(), |i: int| self.windows@[i]@)
    }
}

impl View for ForwardError {
    type V = (bool, Seq<char>, Seq<char>);

    /// Whether it is the empty one, the flag, and the spec where it is kept.
    open spec fn view(&self) -> (bool, Seq<char>, Seq<char>) {
        match self {
            ForwardError::Empty { flag } => (true, flag@, Seq::empty()),
            ForwardError::Whitespace { flag, spec } => (false, flag@, spec@),
        }
    }
}

/// The metadata of a host that has none.
pub open spec fn no_meta() -> MetaModel {
    MetaModel {
        session: None,
        layout: None,
        notes: None,
        local: Seq::empty(),
        remote: Seq::empty(),
        dynamic: Seq::empty(),
    }
}

impl Settings {
    /// Whether the settings are those of a configuration that says nothing.
    pub open spec fn is_default(self) -> bool {
        &&& self.default_session@ == "main"@
        &&& self.reconnect
        &&& self.reconnect_max_attempts == 10
        &&& self.reconnect_delay_secs == 1
        &&& self.reconnect_max_delay_secs == 30
        &&& self.multiplex
        &&& self.control_persist_secs == 600
        &&& self.scrollback_lines == 0
    }
}

impl Default for Settings {
    fn default() -> (r: Settings)
        ensures
            r.is_default(),
    {
        Settings {
            default_session: "main".to_string(),
            reconnect: true,
            reconnect_max_attempts: 10,
            reconnect_delay_secs: 1,
            reconnect_max_delay_secs: 30,
            multiplex: true,
            control_persist_secs: 600,
            scrollback_lines: 0,
        }
    }
}

impl Default for HostMeta {
    fn default() -> (r: HostMeta)
        ensures
            r@ == no_meta(),
    {
        let r = HostMeta {
            session: None,
            layout: None,
            notes: None,
            local_forwards: Vec::new(),
            remote_forwards: Vec::new(),
            dynamic_forwards: Vec::new(),
        };
        assert(r@.local =~= Seq::<Seq<char>>::empty());
        assert(r@.remote =~= Seq::<Seq<char>>::empty());
        assert(r@.dynamic =~= Seq::<Seq<char>>::empty());
        r
    }
}

impl Default for Layout {
    fn default() -> (r: Layout)
        ensures
            r@ == Seq::<WindowModel>::empty(),
    {
        Layout { windows: Vec::new() }
    }
}

impl Default for Forwards {
    fn default() -> (r: Forwards)
        ensures
            r.local@.len() == 0,
            r.remote@.len() == 0,
            r.dynamic@.len() == 0,
    {
        Forwards { local: Vec::new(), remote: Vec::new(), dynamic: Vec::new() }
    }
}

impl Default for Config {
    fn default() -> (r: Config)
        ensures
            r.settings.is_default(),
            r.hosts@ == Map::<Seq<char>, HostMeta>::empty(),
            r.layouts@ == Map::<Seq<char>, Layout>::empty(),
    {
        Config { settings: Settings::default(), hosts: Table::new(), layouts: Table::new() }
    }
}

impl Clone for HostMeta {
    fn clone(&self) -> (r: HostMeta)
        ensures
            r@ == self@,
    {
        HostMeta {
            session: clone_opt(&self.session),
            layout: clone_opt(&self.layout),
            notes: clone_opt(&self.notes),
            local_forwards: clone_texts(&self.local_forwards),
            remote_forwards: clone_texts(&self.remote_forwards),
            dynamic_forwards: clone_texts(&self.dynamic_forwards),
        }
    }
}

impl Clone for Window {
    fn clone(&self) -> (r: Window)
        ensures
            r@ == self@,
    {
        Window { name: self.name.clone(), command: clone_opt(&self.command) }
    }
}

impl Clone for Layout {
    fn clone(&self) -> (r: Layout)
        ensures
            r@ == self@,
    {
        let mut windows: Vec<Window> = Vec::new();
        for i in 0..self.windows.len()
            invariant
                windows@.len() == i,
                forall|j: int| 0 <= j < i ==> #[trigger] windows@[j]@ == self.windows@[j]@,
        {
            windows.push(self.windows[i].clone());
        }
        let r = Layout { windows };
        assert(r@ =~= self@);
        r
    }
}

impl Clone for Forwards {
    fn clone(&self) -> (r: Forwards)
        ensures
            crate::text::texts(r.local@) == crate::text::texts(self.local@),
            crate::text::texts(r.remote@) == crate::text::texts(self.remote@),
            crate::text::texts(r.dynamic@) == crate::text::texts(self.dynamic@),
    {
        Forwards {
            local: clone_texts(&self.local),
            remote: clone_texts(&self.remote),
            dynamic: clone_texts(&self.dynamic),
        }
    }
}

impl Forwards {
    /// Whether nothing is forwarded.
    pub open spec fn forwards_nothing(self) -> bool {
        self.local@.len() == 0 && self.remote@.len() == 0 && self.dynamic@.len() == 0
    }

    /// Whether nothing is forwarded.
    pub fn is_empty(&self) -> (r: bool)
        ensures
            r == self.forwards_nothing(),
    {
        self.local.is_empty() && self.remote.is_empty() && self.dynamic.is_empty()
    }
}

/// Forwards with the flag that each is given by.
pub open spec fn flagged(flag: Seq<char>, specs: Seq<Seq<char>>) -> Seq<(Seq<char>, Seq<char>)> {
    Seq::new(specs.len(), |i: int| (flag, specs[i]))
}

/// Every forward of a host with its flag: local, remote, dynamic, and of each the
/// configured ones before those of the command line.
pub open spec fn all_forwards(meta: MetaModel, extra: Forwards) -> Seq<(Seq<char>, Seq<char>)> {
    flagged("-L"@, meta.local + crate::text::texts(extra.local@)) + flagged(
        "-R"@,
        meta.remote + crate::text::texts(extra.remote@),
    ) + flagged("-D"@, meta.dynamic + crate::text::texts(extra.dynamic@))
}

/// Flags and forwards as arguments of ssh.
pub open spec fn forward_words(pairs: Seq<(Seq<char>, Seq<char>)>) -> Seq<Seq<char>> {
    Seq::new(
        2 * pairs.len(),
        |i: int|
            if i % 2 == 0 {
                pairs[i / 2].0
            } else {
                pairs[i / 2].1
            },
    )
}

/// Why a forward is refused: it is blank, or holds white space, which ssh would not
/// read as part of one; `None` where it is not refused.
pub open spec fn forward_fault(flag: Seq<char>, spec: Seq<char>) -> Option<
    (bool, Seq<char>, Seq<char>),
> {
    if crate::text::words(spec).len() == 0 {
        Some((true, flag, Seq::empty()))
    } else if exists|i: int| 0 <= i < spec.len() && crate::text::is_space(#[trigger] spec[i]) {
        Some((false, flag, spec))
    } else {
        None
    }
}

/// Whether no forward of a list is refused.
pub open spec fn all_sound(pairs: Seq<(Seq<char>, Seq<char>)>) -> bool {
    forall|i: int|
        0 <= i < pairs.len() ==> forward_fault((#[trigger] pairs[i]).0, pairs[i].1) is None
}

/// Whether a fault is that of the first forward of a list that is refused.
pub open spec fn is_first_fault(
    pairs: Seq<(Seq<char>, Seq<char>)>,
    e: (bool, Seq<char>, Seq<char>),
) -> bool {
    exists|i: int|
        0 <= i < pairs.len() && forward_fault((#[trigger] pairs[i]).0, pairs[i].1) == Some(e)
            && forall|j: int|
            0 <= j < i ==> forward_fault((#[trigger] pairs[j]).0, pairs[j].1) is None
}

/// Refuses what ssh would not read as one forward. The grammar of forwards is left
/// to ssh: brackets, socket paths and wildcards are all legal there.
pub fn validate_forward(flag: &str, spec: &str) -> (r: Result<(), ForwardError>)
    ensures
        match r {
            Ok(_) => forward_fault(flag@, spec@) is None,
            Err(e) => forward_fault(flag@, spec@) == Some(e@),
        },
{
    let words = split_words(spec);
    assert(words@.len() == crate::text::words(spec@).len());
    if words.len() == 0 {
        return Err(ForwardError::Empty { flag: flag.to_string() });
    }
    let chars = chars_of(spec);
    for i in 0..chars.len()
        invariant
            chars@ == spec@,
            crate::text::words(spec@).len() > 0,
            forall|j: int| 0 <= j < i ==> !crate::text::is_space(#[trigger] spec@[j]),
    {
        if char_is_space(chars[i]) {
            assert(crate::text::is_space(spec@[i as int]));
            return Err(ForwardError::Whitespace { flag: flag.to_string(), spec: spec.to_string() });
        }
    }
    Ok(())
}

/// Appends one flag's forwards to the arguments, up to the first that is refused.
fn push_forwards(
    args: &mut Vec<String>,
    flag: &str,
    specs: &Vec<String>,
    Ghost(done): Ghost<Seq<(Seq<char>, Seq<char>)>>,
) -> (r: Result<(), ForwardError>)
    requires
        crate::text::texts(old(args)@) == forward_words(done),
    ensures
        match r {
            Ok(_) => crate::text::texts(final(args)@) == forward_words(
                done + flagged(flag@, crate::text::texts(specs@)),
            ) && forall|i: int|
                0 <= i < specs@.len() ==> forward_fault(flag@, #[trigger] crate::text::texts(specs@)[i]) is None,
            Err(e) => exists|i: int|
                0 <= i < specs@.len() && forward_fault(flag@, #[trigger] crate::text::texts(specs@)[i]) == Some(e@)
                    && forall|j: int|
                    0 <= j < i ==> forward_fault(flag@, #[trigger] crate::text::texts(specs@)[j]) is None,
        },
{
    let ghost all = crate::text::texts(specs@);
    assert(done + flagged(flag@, all.take(0)) =~= done);
    for i in 0..specs.len()
        invariant
            all == crate::text::texts(specs@),
            crate::text::texts(args@) == forward_words(done + flagged(flag@, all.take(i as int))),
            forall|j: int| 0 <= j < i ==> forward_fault(flag@, #[trigger] crate::text::texts(specs@)[j]) is None,
    {
        match validate_forward(flag, specs[i].as_str()) {
            Ok(_) => {},
            Err(e) => {
                assert(forward_fault(flag@, all[i as int]) == Some(e@));
                return Err(e);
            },
        }
        let ghost before = done + flagged(flag@, all.take(i as int));
        let ghost had = crate::text::texts(args@);
        args.push(flag.to_string());
        args.push(specs[i].clone());
        proof {
            let after = done + flagged(flag@, all.take(i + 1));
            assert(after =~= before.push((flag@, specs@[i as int]@)));
            assert(crate::text::texts(args@) =~= had.push(flag@).push(specs@[i as int]@));
            assert forall|k: int| 0 <= k < 2 * after.len() implies forward_words(after)[k]
                == crate::text::texts(args@)[k] by {
                if k < 2 * before.len() {
                    assert(after[k / 2] == before[k / 2]);
                    assert(forward_words(before)[k] == had[k]);
                }
            }
            assert(forward_words(after) =~= crate::text::texts(args@));
        }
    }
    assert(all.take(specs@.len() as int) =~= all);
    Ok(())
}

/// `a` followed by `b`.
fn joined(a: &Vec<String>, b: &Vec<String>) -> (r: Vec<String>)
    ensures
        crate::text::texts(r@) == crate::text::texts(a@) + crate::text::texts(b@),
{
    let mut out = clone_texts(a);
    let mut more = clone_texts(b);
    let ghost left = crate::text::texts(out@);
    let ghost right = crate::text::texts(more@);
    out.append(&mut more);
    assert(crate::text::texts(out@) =~= left + right);
    out
}

impl ForwardError {
    /// The error in words.
    pub open spec fn text(&self) -> Seq<char> {
        match self {
            ForwardError::Empty { flag } => "empty "@ + flag@ + " port forward in config"@,
            ForwardError::Whitespace { flag, spec } => flag@ + " port forward "@
                + crate::text::debug_quoted(spec@)
                + " contains whitespace; write it as a single spec such as \"8080:localhost:80\""@,
        }
    }

    /// What to tell the user.
    pub fn message(&self) -> (r: String)
        ensures
            r@ == self.text(),
    {
        match self {
            ForwardError::Empty { flag } => {
                let mut out = "empty ".to_string();
                out.append(flag.as_str());
                out.append(" port forward in config");
                out
            },
            ForwardError::Whitespace { flag, spec } => {
                let mut out = flag.clone();
                out.append(" port forward ");
                out.append(debug_text(spec.as_str()).as_str());
                out.append(
                    " contains whitespace; write it as a single spec such as \"8080:localhost:80\"",
                );
                out
            },
        }
    }
}

impl Config {
    /// The metadata of a host, empty where it has none.
    pub open spec fn meta_of(&self, alias: Seq<char>) -> MetaModel {
        if self.hosts@.dom().contains(alias) {
            self.hosts@[alias]@
        } else {
            no_meta()
        }
    }

    /// The tmux session of a host.
    pub open spec fn session_name(&self, alias: Seq<char>) -> Seq<char> {
        match self.meta_of(alias).session {
            Some(s) => s,
            None => self.settings.default_session@,
        }
    }

    /// The name of the layout to use for a host: the one asked for, else the
    /// configured one.
    pub open spec fn layout_name(&self, alias: Seq<char>, asked: Option<Seq<char>>) -> Option<
        Seq<char>,
    > {
        match asked {
            Some(n) => Some(n),
            None => self.meta_of(alias).layout,
        }
    }

    /// The tmux session of a host.
    pub fn session_for(&self, alias: &str) -> (r: String)
        ensures
            r@ == self.session_name(alias@),
    {
        if let Some(meta) = self.hosts.get(alias) {
            if let Some(session) = &meta.session {
                return session.clone();
            }
        }
        self.settings.default_session.clone()
    }

    /// The layout to use for a host, where one of that name is configured.
    pub fn resolve_layout(&self, alias: &str, override_name: Option<&str>) -> (r: Option<&Layout>)
        ensures
            match self.layout_name(alias@, crate::text::opt_str(override_name)) {
                Some(n) => if self.layouts@.dom().contains(n) {
                    r == Some(&self.layouts@[n])
                } else {
                    r is None
                },
                None => r is None,
            },
    {
        if let Some(name) = override_name {
            return self.layouts.get(name);
        }
        if let Some(meta) = self.hosts.get(alias) {
            if let Some(name) = &meta.layout {
                return self.layouts.get(name.as_str());
            }
        }
        None
    }

    /// The arguments of ssh for the forwards of a host, those of the command line
    /// included. They are the same on every call, so that forwards come back with
    /// each new connection.
    pub fn forward_args(&self, alias: &str, extra: &Forwards) -> (r: Result<Vec<String>, ForwardError>)
        ensures
            ({
                let pairs = all_forwards(self.meta_of(alias@), *extra);
                match r {
                    Ok(args) => crate::text::texts(args@) == forward_words(pairs) && all_sound(
                        pairs,
                    ),
                    Err(e) => is_first_fault(pairs, e@),
                }
            }),
    {
        let meta = match self.hosts.get(alias) {
            Some(m) => m.clone(),
            None => HostMeta::default(),
        };
        let local = joined(&meta.local_forwards, &extra.local);
        let remote = joined(&meta.remote_forwards, &extra.remote);
        let dynamic = joined(&meta.dynamic_forwards, &extra.dynamic);
        let ghost a = flagged("-L"@, crate::text::texts(local@));
        let ghost b = flagged("-R"@, crate::text::texts(remote@));
        let ghost c = flagged("-D"@, crate::text::texts(dynamic@));
        let ghost pairs = all_forwards(self.meta_of(alias@), *extra);
        assert(pairs == a + b + c);
        let mut args: Vec<String> = Vec::new();
        let ghost none = Seq::<(Seq<char>, Seq<char>)>::empty();
        assert(crate::text::texts(args@) =~= forward_words(none));
        if let Err(e) = push_forwards(&mut args, "-L", &local, Ghost(none)) {
            proof {
                lemma_first_fault(none, a, b + c, crate::text::texts(local@), "-L"@, e@);
                assert(none + a + (b + c) =~= pairs);
            }
            return Err(e);
        }
        assert(none + a =~= a);
        proof {
            lemma_no_fault(a, crate::text::texts(local@), "-L"@);
        }
        if let Err(e) = push_forwards(&mut args, "-R", &remote, Ghost(a)) {
            proof {
                lemma_first_fault(a, b, c, crate::text::texts(remote@), "-R"@, e@);
            }
            return Err(e);
        }
        proof {
            lemma_no_fault(b, crate::text::texts(remote@), "-R"@);
        }
        if let Err(e) = push_forwards(&mut args, "-D", &dynamic, Ghost(a + b)) {
            proof {
                assert forall|i: int| 0 <= i < (a + b).len() implies forward_fault(
                    (#[trigger] (a + b)[i]).0,
                    (a + b)[i].1,
                ) is None by {
                    if i < a.len() {
                        assert((a + b)[i] == a[i]);
                    } else {
                        assert((a + b)[i] == b[i - a.len()]);
                    }
                }
                lemma_first_fault(a + b, c, none, crate::text::texts(dynamic@), "-D"@, e@);
                assert(a + b + c + none =~= pairs);
            }
            return Err(e);
        }
        proof {
            lemma_no_fault(c, crate::text::texts(dynamic@), "-D"@);
            assert forall|i: int| 0 <= i < pairs.len() implies forward_fault(
                (#[trigger] pairs[i]).0,
                pairs[i].1,
            ) is None by {
                if i < a.len() {
                    assert(pairs[i] == a[i]);
                } else if i < a.len() + b.len() {
                    assert(pairs[i] == b[i - a.len()]);
                } else {
                    assert(pairs[i] == c[i - a.len() - b.len()]);
                }
            }
        }
        Ok(args)
    }
}

/// The first fault of a part is the first fault of the whole where nothing before
/// that part is at fault.
proof fn lemma_first_fault(
    before: Seq<(Seq<char>, Seq<char>)>,
    part: Seq<(Seq<char>, Seq<char>)>,
    after: Seq<(Seq<char>, Seq<char>)>,
    specs: Seq<Seq<char>>,
    flag: Seq<char>,
    e: (bool, Seq<char>, Seq<char>),
)
    requires
        part == flagged(flag, specs),
        forall|i: int|
            0 <= i < before.len() ==> forward_fault((#[trigger] before[i]).0, before[i].1) is None,
        exists|i: int|
            0 <= i < specs.len() && forward_fault(flag, #[trigger] specs[i]) == Some(e)
                && forall|j: int| 0 <= j < i ==> forward_fault(flag, #[trigger] specs[j]) is None,
    ensures
        is_first_fault(before + part + after, e),
{
    let pairs = before + part + after;
    let i = choose|i: int|
        0 <= i < specs.len() && forward_fault(flag, #[trigger] specs[i]) == Some(e) && forall|j: int|
            0 <= j < i ==> forward_fault(flag, #[trigger] specs[j]) is None;
    let k = before.len() + i;
    assert(pairs[k] == part[i]);
    assert forall|j: int| 0 <= j < k implies forward_fault((#[trigger] pairs[j]).0, pairs[j].1) is None by {
        if j < before.len() {
            assert(pairs[j] == before[j]);
        } else {
            assert(pairs[j] == part[j - before.len()]);
            assert(forward_fault(flag, specs[j - before.len()]) is None);
        }
    }
}

/// Forwards that are all in order.
proof fn lemma_no_fault(
    part: Seq<(Seq<char>, Seq<char>)>,
    specs: Seq<Seq<char>>,
    flag: Seq<char>,
)
    requires
        part == flagged(flag, specs),
        forall|i: int| 0 <= i < specs.len() ==> forward_fault(flag, #[trigger] specs[i]) is None,
    ensures
        forall|i: int| 0 <= i < part.len() ==> forward_fault((#[trigger] part[i]).0, part[i].1) is None,
{
    assert forall|i: int| 0 <= i < part.len() implies forward_fault(
        (#[trigger] part[i]).0,
        part[i].1,
    ) is None by {
        assert(forward_fault(flag, specs[i]) is None);
    }
}

/// Where the configuration lies; nowhere without a home directory.
pub open spec fn config_place(xdg_config_set: bool, home_known: bool) -> Option<
    (Root, Seq<Seq<char>>),
> {
    if xdg_config_set {
        Some((Root::XdgConfig, seq!["ssht"@, "config.toml"@]))
    } else if home_known {
        Some((Root::Home, seq![".config"@, "ssht"@, "config.toml"@]))
    } else {
        None
    }
}

/// Where the configuration lies: `ssht/config.toml` under `XDG_CONFIG_HOME`, or
/// under `~/.config` where that is unset or empty.
pub fn config_path(xdg_config_set: bool, home_known: bool) -> (r: Result<Location, NoHome>)
    ensures
        match r {
            Ok(l) => config_place(xdg_config_set, home_known) == Some(l@),
            Err(_) => config_place(xdg_config_set, home_known) is None,
        },
{
    if xdg_config_set {
        let l = location(Root::XdgConfig, &["ssht", "config.toml"]);
        assert(l@.1 =~= seq!["ssht"@, "config.toml"@]);
        Ok(l)
    } else if home_known {
        let l = location(Root::Home, &[".config", "ssht", "config.toml"]);
        assert(l@.1 =~= seq![".config"@, "ssht"@, "config.toml"@]);
        Ok(l)
    } else {
        Err(NoHome)
    }
}

} // verus!
