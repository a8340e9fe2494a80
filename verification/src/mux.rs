//! Sharing one ssh connection, and copying files over it.

use vstd::prelude::*;

use crate::config::Config;
use crate::paths::location;
use crate::paths::Location;
use crate::paths::Root;
use crate::text::chars_of;
use crate::text::decimal_text;
use crate::text::has_char;
use crate::text::part;
use crate::text::position;
use crate::text::same_text;
use crate::vault::HostSettings;
use crate::vault::SettingsModel;

verus! {

/// The longest path of a unix socket that every system takes.
pub const MAX_SOCKET_PATH: usize = 103;

/// The length of what ssh puts in place of `%C`.
pub const CONTROL_HASH_LEN: usize = 40;

/// The length of what ssh adds to a socket's name while it is being made: a dot and
/// sixteen characters.
pub const SSH_TEMP_SUFFIX_LEN: usize = 17;

/// The length of [`control_prefix`].
pub const CONTROL_PREFIX_LEN: usize = 3;

/// What the name of a control socket begins with.
pub open spec fn control_prefix() -> Seq<char> {
    "cm-"@
}

/// Whether a socket in a directory, under the longest name that ssh gives it, has a
/// path that can be bound. `dir_len` is the length of the directory's path in bytes.
pub open spec fn fits(dir_len: int) -> bool {
    dir_len + 1 + CONTROL_PREFIX_LEN + CONTROL_HASH_LEN + SSH_TEMP_SUFFIX_LEN <= MAX_SOCKET_PATH
}

/// Whether sockets fit into a directory whose path is `dir_len` bytes long.
pub fn dir_fits(dir_len: usize) -> (r: bool)
    ensures
        r == fits(dir_len as int),
{
    dir_len <= MAX_SOCKET_PATH - 1 - CONTROL_PREFIX_LEN - CONTROL_HASH_LEN - SSH_TEMP_SUFFIX_LEN
}

/// The directories that control sockets may lie in, best first: with the rest of the
/// program's data, in the runtime directory, and in a short directory of the home
/// directory. All of them are the user's own.
pub open spec fn candidates(
    xdg_data_set: bool,
    xdg_runtime_set: bool,
    home_known: bool,
) -> Seq<(Root, Seq<Seq<char>>)> {
    let data = if xdg_data_set {
        seq![(Root::XdgData, seq!["ssht"@, "control"@])]
    } else if home_known {
        seq![(Root::Home, seq![".local"@, "share"@, "ssht"@, "control"@])]
    } else {
        seq![]
    };
    let runtime = if xdg_runtime_set {
        seq![(Root::XdgRuntime, seq!["ssht"@])]
    } else {
        seq![]
    };
    let home = if home_known {
        seq![(Root::Home, seq![".ssht"@])]
    } else {
        seq![]
    };
    data + runtime + home
}

/// The places of a list.
pub open spec fn places(v: Seq<Location>) -> Seq<(Root, Seq<Seq<char>>)> {
    Seq::new(v.len(), |i: int| v[i]@)
}

/// The directories that control sockets may lie in, best first.
pub fn candidate_dirs(xdg_data_set: bool, xdg_runtime_set: bool, home_known: bool) -> (r: Vec<Location>)
    ensures
        places(r@) == candidates(xdg_data_set, xdg_runtime_set, home_known),
{
    let mut out: Vec<Location> = Vec::new();
    if xdg_data_set {
        let l = location(Root::XdgData, &["ssht", "control"]);
        assert(l@.1 =~= seq!["ssht"@, "control"@]);
        out.push(l);
    } else if home_known {
        let l = location(Root::Home, &[".local", "share", "ssht", "control"]);
        assert(l@.1 =~= seq![".local"@, "share"@, "ssht"@, "control"@]);
        out.push(l);
    }
    if xdg_runtime_set {
        let l = location(Root::XdgRuntime, &["ssht"]);
        assert(l@.1 =~= seq!["ssht"@]);
        out.push(l);
    }
    if home_known {
        let l = location(Root::Home, &[".ssht"]);
        assert(l@.1 =~= seq![".ssht"@]);
        out.push(l);
    }
    assert(places(out@) =~= candidates(xdg_data_set, xdg_runtime_set, home_known));
    out
}

/// Whether an answer is the next directory to try, from index `from` on.
pub open spec fn is_next_dir(dir_lens: Seq<usize>, from: int, answer: Option<usize>) -> bool {
    match answer {
        Some(i) => from <= i < dir_lens.len() && fits(dir_lens[i as int] as int) && forall|j: int|
            from <= j < i ==> !fits(#[trigger] dir_lens[j] as int),
        None => forall|j: int| from <= j < dir_lens.len() ==> !fits(#[trigger] dir_lens[j] as int),
    }
}

/// The next directory to try, from index `from` on: the first in which sockets fit.
pub fn next_control_dir(dir_lens: &Vec<usize>, from: usize) -> (r: Option<usize>)
    requires
        from <= dir_lens@.len(),
    ensures
        is_next_dir(dir_lens@, from as int, r),
{
    let mut i: usize = from;
    while i < dir_lens.len()
        invariant
            from <= i <= dir_lens@.len(),
            forall|j: int| from <= j < i ==> !fits(#[trigger] dir_lens@[j] as int),
        decreases dir_lens@.len() - i,
    {
        if dir_fits(dir_lens[i]) {
            return Some(i);
        }
        i = i + 1;
    }
    None
}

/// The name of the control sockets in their directory: ssh puts a hash of the
/// connection in place of `%C`.
pub open spec fn socket_name() -> Seq<char> {
    control_prefix() + "%C"@
}

/// The name of the control sockets in their directory.
pub fn control_file() -> (r: String)
    ensures
        r@ == socket_name(),
{
    let mut out = "cm-".to_string();
    out.append("%C");
    out
}

/// The arguments of ssh for a shared connection: none where sharing is turned off or
/// there is no place for the socket.
pub open spec fn mux_words(
    multiplex: bool,
    control_path: Option<Seq<char>>,
    persist_secs: u64,
) -> Seq<Seq<char>> {
    match control_path {
        Some(path) if multiplex => seq![
            "-o"@,
            "ControlMaster=auto"@,
            "-o"@,
            "ControlPath="@ + path,
            "-o"@,
            "ControlPersist="@ + crate::text::decimal(persist_secs as nat) + "s"@,
        ],
        _ => Seq::empty(),
    }
}

/// The arguments of ssh for a shared connection. That there is no place for the
/// socket is never a reason not to connect.
pub fn ssh_args(config: &Config, control_path: &Option<String>) -> (r: Vec<String>)
    ensures
        crate::text::texts(r@) == mux_words(
            config.settings.multiplex,
            crate::text::opt_text(*control_path),
            config.settings.control_persist_secs,
        ),
{
    let mut out: Vec<String> = Vec::new();
    if config.settings.multiplex {
        if let Some(path) = control_path {
            let mut p = "ControlPath=".to_string();
            p.append(path.as_str());
            let mut t = "ControlPersist=".to_string();
            t.append(decimal_text(config.settings.control_persist_secs).as_str());
            t.append("s");
            out.push("-o".to_string());
            out.push("ControlMaster=auto".to_string());
            out.push("-o".to_string());
            out.push(p);
            out.push("-o".to_string());
            out.push(t);
        }
    }
    assert(crate::text::texts(out@) =~= mux_words(
        config.settings.multiplex,
        crate::text::opt_text(*control_path),
        config.settings.control_persist_secs,
    ));
    out
}

/// One side of a copy.
#[derive(Debug, Clone, PartialEq, Eq)]
pub enum Endpoint {
    Local(String),
    Remote { host: String, path: String },
}

/// One side of a copy.
pub enum EndpointModel {
    Local(Seq<char>),
    Remote { host: Seq<char>, path: Seq<char> },
}

impl View for Endpoint {
    type V = EndpointModel;

    open spec fn view(&self) -> EndpointModel {
        match self {
            Endpoint::Local(p) => EndpointModel::Local(p@),
            Endpoint::Remote { host, path } => EndpointModel::Remote { host: host@, path: path@ },
        }
    }
}

/// What a side of a copy names: a host and a path where something stands before the
/// first colon and no slash does, and else a local path.
pub open spec fn endpoint_of(spec_text: Seq<char>) -> EndpointModel {
    let i = crate::text::find(spec_text, ':');
    if 0 < i < spec_text.len() && !spec_text.take(i).contains('/') {
        EndpointModel::Remote { host: spec_text.take(i), path: spec_text.skip(i + 1) }
    } else {
        EndpointModel::Local(spec_text)
    }
}

/// What a side of a copy names.
pub fn parse_endpoint(spec_text: &str) -> (r: Endpoint)
    ensures
        r@ == endpoint_of(spec_text@),
{
    let all = chars_of(spec_text);
    let len: usize = all.len();
    if let Some(i) = position(spec_text, ':') {
        if i > 0 {
            let host = part(spec_text, 0, i);
            assert(host@ =~= spec_text@.take(i as int));
            if !has_char(host.as_str(), '/') {
                let path = part(spec_text, i + 1, len);
                assert(path@ =~= spec_text@.skip(i + 1));
                return Endpoint::Remote { host, path };
            }
        }
    }
    Endpoint::Local(spec_text.to_string())
}

/// A side of a copy as an argument of scp. The address that the vault has for the
/// host of the copy takes its place, and the user goes before it.
pub open spec fn endpoint_word(
    e: EndpointModel,
    alias: Seq<char>,
    user: Option<Seq<char>>,
    address: Option<Seq<char>>,
) -> Seq<char> {
    match e {
        EndpointModel::Local(p) => p,
        EndpointModel::Remote { host, path } => {
            let target = if host == alias && address is Some {
                address->0
            } else {
                host
            };
            match user {
                Some(u) => u + "@"@ + target + ":"@ + path,
                None => target + ":"@ + path,
            }
        },
    }
}

/// A side of a copy as an argument of scp.
pub fn render_endpoint(
    endpoint: &Endpoint,
    alias: &str,
    user: Option<&str>,
    address: Option<&str>,
) -> (r: String)
    ensures
        r@ == endpoint_word(
            endpoint@,
            alias@,
            crate::text::opt_str(user),
            crate::text::opt_str(address),
        ),
{
    match endpoint {
        Endpoint::Local(p) => p.clone(),
        Endpoint::Remote { host, path } => {
            let mut target = host.clone();
            if same_text(host.as_str(), alias) {
                if let Some(a) = address {
                    target = a.to_string();
                }
            }
            match user {
                Some(u) => {
                    let mut out = u.to_string();
                    out.append("@");
                    out.append(target.as_str());
                    out.append(":");
                    out.append(path.as_str());
                    out
                },
                None => {
                    let mut out = target;
                    out.append(":");
                    out.append(path.as_str());
                    out
                },
            }
        },
    }
}

/// Why a copy is not possible.
#[derive(Debug, Clone, Copy, PartialEq, Eq, Structural)]
pub enum CopyError {
    /// Both sides are remote.
    BothRemote,
    /// Both sides are local.
    BothLocal,
}

impl CopyError {
    /// The error in words.
    pub open spec fn text(&self) -> Seq<char> {
        match self {
            CopyError::BothRemote =>
                "both paths are remote; ssht cp copies between local and one host"@,
            CopyError::BothLocal => "neither path names a host; use cp for local copies"@,
        }
    }

    /// What to tell the user.
    pub fn message(&self) -> (r: String)
        ensures
            r@ == self.text(),
    {
        match self {
            CopyError::BothRemote =>
                "both paths are remote; ssht cp copies between local and one host".to_string(),
            CopyError::BothLocal =>
                "neither path names a host; use cp for local copies".to_string(),
        }
    }
}

/// The host of a copy between two sides: that of the one that is remote.
pub open spec fn copy_host(src: EndpointModel, dst: EndpointModel) -> Result<Seq<char>, CopyError> {
    match (src, dst) {
        (EndpointModel::Remote { host, .. }, EndpointModel::Local(_)) => Ok(host),
        (EndpointModel::Local(_), EndpointModel::Remote { host, .. }) => Ok(host),
        (EndpointModel::Remote { .. }, EndpointModel::Remote { .. }) => Err(CopyError::BothRemote),
        (EndpointModel::Local(_), EndpointModel::Local(_)) => Err(CopyError::BothLocal),
    }
}

/// The host of a copy. Exactly one side may be remote.
pub fn copy_alias(source: &str, dest: &str) -> (r: Result<String, CopyError>)
    ensures
        match r {
            Ok(h) => copy_host(endpoint_of(source@), endpoint_of(dest@)) == Ok::<
                Seq<char>,
                CopyError,
            >(h@),
            Err(e) => copy_host(endpoint_of(source@), endpoint_of(dest@)) == Err::<
                Seq<char>,
                CopyError,
            >(e),
        },
{
    match (parse_endpoint(source), parse_endpoint(dest)) {
        (Endpoint::Remote { host, .. }, Endpoint::Local(_)) => Ok(host),
        (Endpoint::Local(_), Endpoint::Remote { host, .. }) => Ok(host),
        (Endpoint::Remote { .. }, Endpoint::Remote { .. }) => Err(CopyError::BothRemote),
        (Endpoint::Local(_), Endpoint::Local(_)) => Err(CopyError::BothLocal),
    }
}

/// The arguments of scp: the shared connection, the flag for directories, and the
/// two sides.
pub open spec fn copy_words(
    source: Seq<char>,
    dest: Seq<char>,
    recursive: bool,
    mux: Seq<Seq<char>>,
    alias: Seq<char>,
    settings: Option<SettingsModel>,
) -> Seq<Seq<char>> {
    let user = match settings {
        Some(s) => s.username,
        None => None,
    };
    let address = match settings {
        Some(s) => s.address,
        None => None,
    };
    let flags = if recursive {
        mux.push("-r"@)
    } else {
        mux
    };
    flags.push(endpoint_word(endpoint_of(source), alias, user, address)).push(
        endpoint_word(endpoint_of(dest), alias, user, address),
    )
}

/// The text behind an optional string.
fn as_str_opt(o: &Option<String>) -> (r: Option<&str>)
    ensures
        crate::text::opt_str(r) == crate::text::opt_text(*o),
{
    match o {
        Some(s) => Some(s.as_str()),
        None => None,
    }
}

/// The arguments of scp for a copy.
pub fn copy_args(
    source: &str,
    dest: &str,
    recursive: bool,
    mux: Vec<String>,
    alias: &str,
    settings: &Option<HostSettings>,
) -> (r: Vec<String>)
    ensures
        crate::text::texts(r@) == copy_words(
            source@,
            dest@,
            recursive,
            crate::text::texts(mux@),
            alias@,
            crate::vault::opt_settings(*settings),
        ),
{
    let (user, address) = match settings {
        Some(s) => (as_str_opt(&s.username), as_str_opt(&s.address)),
        None => (None, None),
    };
    let mut out = mux;
    let ghost flags = crate::text::texts(out@);
    if recursive {
        out.push("-r".to_string());
        assert(crate::text::texts(out@) =~= flags.push("-r"@));
    }
    let src = parse_endpoint(source);
    let dst = parse_endpoint(dest);
    let ghost before = crate::text::texts(out@);
    let a = render_endpoint(&src, alias, user, address);
    let b = render_endpoint(&dst, alias, user, address);
    let ghost (x, y) = (a@, b@);
    out.push(a);
    out.push(b);
    assert(crate::text::texts(out@) =~= before.push(x).push(y));
    out
}

/// The failure of a copy, in words.
pub open spec fn copy_failure(source: Seq<char>, dest: Seq<char>) -> Seq<char> {
    "scp failed copying "@ + source + " to "@ + dest
}

/// The failure of a copy, in words.
pub fn copy_failed(source: &str, dest: &str) -> (r: String)
    ensures
        r@ == copy_failure(source@, dest@),
{
    let mut out = "scp failed copying ".to_string();
    out.append(source);
    out.append(" to ");
    out.append(dest);
    out
}

/// Without settings in the vault, a side of a copy is handed to scp as it was
/// written.
pub proof fn law_endpoint_is_kept(spec_text: Seq<char>, alias: Seq<char>)
    ensures
        endpoint_word(endpoint_of(spec_text), alias, None, None) == spec_text,
{
    crate::text::lemma_find(spec_text, ':');
    let i = crate::text::find(spec_text, ':');
    if 0 < i < spec_text.len() && !spec_text.take(i).contains('/') {
        reveal_strlit(":");
        assert(spec_text.take(i) + ":"@ + spec_text.skip(i + 1) =~= spec_text);
    }
}

/// The prefix is as long as the budget for socket paths says.
pub proof fn law_prefix_length()
    ensures
        control_prefix().len() == CONTROL_PREFIX_LEN,
{
    reveal_strlit("cm-");
}

/// The longest that the path of a place can be, in bytes: that of its root, and a
/// separator in front of each component.
pub open spec fn place_len(root_len: int, parts: Seq<Seq<char>>) -> int
    decreases parts.len(),
{
    if parts.len() == 0 {
        root_len
    } else {
        place_len(root_len, parts.drop_last()) + 1 + vstd::utf8::encode_utf8(parts.last()).len()
    }
}

/// A directory that is short enough is always among those to try: where the path of
/// the home directory has at most 36 bytes, the last candidate lies in it and sockets
/// fit there, so trying them all in turn finds one.
pub proof fn law_a_short_directory_is_offered(
    xdg_data_set: bool,
    xdg_runtime_set: bool,
    home_len: int,
    dir_lens: Seq<usize>,
)
    requires
        0 <= home_len <= 36,
        dir_lens.len() == candidates(xdg_data_set, xdg_runtime_set, true).len(),
        dir_lens.last() <= place_len(
            home_len,
            candidates(xdg_data_set, xdg_runtime_set, true).last().1,
        ),
    ensures
        candidates(xdg_data_set, xdg_runtime_set, true).len() > 0,
        candidates(xdg_data_set, xdg_runtime_set, true).last() == (Root::Home, seq![".ssht"@]),
        place_len(home_len, seq![".ssht"@]) == home_len + 6,
        fits(place_len(home_len, seq![".ssht"@])),
        exists|i: int| 0 <= i < dir_lens.len() && fits(#[trigger] dir_lens[i] as int),
{
    let all = candidates(xdg_data_set, xdg_runtime_set, true);
    let parts = seq![".ssht"@];
    assert(all.last() == (Root::Home, parts));
    reveal_strlit(".ssht");
    assert(vstd::utf8::is_ascii_chars(".ssht"@));
    vstd::utf8::is_ascii_chars_encode_utf8(".ssht"@);
    assert(parts.drop_last() =~= Seq::<Seq<char>>::empty());
    assert(place_len(home_len, parts.drop_last()) == home_len);
    assert(place_len(home_len, parts) == home_len + 6);
    assert(fits(dir_lens[dir_lens.len() - 1] as int));
}

} // verus!
