//! What the command line can say, and what follows from it.

use vstd::prelude::*;

use crate::config::Config;
use crate::config::Forwards;
use crate::connect::ConnectOptions;
use crate::model::Host;
use crate::model::HostModel;
use crate::text::clone_texts;
use crate::vault::HostSettings;
use crate::vault::SettingsModel;
use crate::vault::Vault;
use crate::view::pad_right;

verus! {

/// The arguments of the program.
#[derive(Debug)]
pub struct Cli {
    /// The host to connect to; without one the picker is opened.
    pub host: Option<String>,
    /// The layout to apply.
    pub layout: Option<String>,
    /// Exit when the connection drops.
    pub no_reconnect: bool,
    /// Edit shell lines locally.
    pub local_echo: bool,
    /// Connect with Mosh.
    pub mosh: bool,
    /// Local forwards.
    pub local_forward: Vec<String>,
    /// Remote forwards.
    pub remote_forward: Vec<String>,
    /// Dynamic forwards.
    pub dynamic_forward: Vec<String>,
    /// Attach as a viewer.
    pub read_only: bool,
    /// How many lines of history to replay.
    pub scrollback: Option<u32>,
    /// What is passed to ssh as it stands.
    pub ssh_args: Vec<String>,
    pub command: Option<Command>,
}

/// What to do in place of connecting.
#[derive(Debug)]
pub enum Command {
    /// Print all known hosts.
    List,
    /// Connect to the host that was connected to last.
    Last,
    /// Open the configuration in an editor.
    Edit,
    /// List the tmux sessions of a host.
    Sessions { host: String },
    /// Kill a tmux session of a host.
    Kill { host: String, session: Option<String> },
    /// Rename a tmux session of a host.
    Rename { host: String, new_name: String, session: Option<String> },
    /// Copy files to or from a host.
    Cp { source: String, dest: String, recursive: bool },
    /// Do something with the vault.
    Vault { action: VaultAction },
}

/// What to do with the vault.
#[derive(Debug)]
pub enum VaultAction {
    /// Create it.
    Init,
    /// Store the settings of a host.
    SetSettings { host: String },
    /// Forget the settings of a host.
    Remove { host: String },
    /// List the hosts with settings.
    List,
    /// Say whether there is one.
    Status,
    /// Change its passphrase.
    ChangePassphrase,
}

/// Why a command line is refused, or a command fails.
#[derive(Debug, Clone, Copy, PartialEq, Eq, Structural)]
pub enum CliError {
    /// Local echo and Mosh were both asked for.
    MoshWithLocalEcho,
    /// A command was given together with arguments for connecting.
    ArgumentsWithCommand,
    /// No host was connected to yet.
    NoPreviousHost,
}

impl CliError {
    /// The error in words.
    pub open spec fn text(&self) -> Seq<char> {
        match self {
            CliError::MoshWithLocalEcho =>
                "the argument '--mosh' cannot be used with '--local-echo'"@,
            CliError::ArgumentsWithCommand =>
                "a command cannot be used with arguments for connecting"@,
            CliError::NoPreviousHost => "no previous connection recorded yet"@,
        }
    }

    /// What to tell the user.
    pub fn message(&self) -> (r: String)
        ensures
            r@ == self.text(),
    {
        match self {
            CliError::MoshWithLocalEcho =>
                "the argument '--mosh' cannot be used with '--local-echo'".to_string(),
            CliError::ArgumentsWithCommand =>
                "a command cannot be used with arguments for connecting".to_string(),
            CliError::NoPreviousHost => "no previous connection recorded yet".to_string(),
        }
    }
}

impl Cli {
    /// Whether anything was said about a connection.
    pub open spec fn says_connect(self) -> bool {
        self.host is Some || self.layout is Some || self.no_reconnect || self.local_echo || self.mosh
            || self.local_forward@.len() > 0 || self.remote_forward@.len() > 0
            || self.dynamic_forward@.len() > 0 || self.read_only || self.scrollback is Some
            || self.ssh_args@.len() > 0
    }

    /// Why the arguments are refused, where they are.
    pub open spec fn refusal(self) -> Option<CliError> {
        if self.mosh && self.local_echo {
            Some(CliError::MoshWithLocalEcho)
        } else if self.command is Some && self.says_connect() {
            Some(CliError::ArgumentsWithCommand)
        } else {
            None
        }
    }

    /// Whether options say what the arguments say about the connection.
    pub open spec fn asks_for(self, opts: ConnectOptions) -> bool {
        &&& opts.local_echo == self.local_echo
        &&& opts.no_reconnect == self.no_reconnect
        &&& opts.read_only == self.read_only
        &&& opts.scrollback == self.scrollback
        &&& crate::text::texts(opts.forwards.local@) == crate::text::texts(self.local_forward@)
        &&& crate::text::texts(opts.forwards.remote@) == crate::text::texts(self.remote_forward@)
        &&& crate::text::texts(opts.forwards.dynamic@) == crate::text::texts(self.dynamic_forward@)
    }

    /// Refuses what cannot go together.
    pub fn check(&self) -> (r: Result<(), CliError>)
        ensures
            match r {
                Ok(_) => self.refusal() is None,
                Err(e) => self.refusal() == Some(e),
            },
    {
        if self.mosh && self.local_echo {
            return Err(CliError::MoshWithLocalEcho);
        }
        if self.command.is_some() && (self.host.is_some() || self.layout.is_some()
            || self.no_reconnect || self.local_echo || self.mosh || !self.local_forward.is_empty()
            || !self.remote_forward.is_empty() || !self.dynamic_forward.is_empty() || self.read_only
            || self.scrollback.is_some() || !self.ssh_args.is_empty()) {
            return Err(CliError::ArgumentsWithCommand);
        }
        Ok(())
    }

    /// What was said about the connection.
    pub fn connect_options(&self) -> (r: ConnectOptions)
        ensures
            self.asks_for(r),
    {
        ConnectOptions {
            local_echo: self.local_echo,
            no_reconnect: self.no_reconnect,
            forwards: Forwards {
                local: clone_texts(&self.local_forward),
                remote: clone_texts(&self.remote_forward),
                dynamic: clone_texts(&self.dynamic_forward),
            },
            read_only: self.read_only,
            scrollback: self.scrollback,
        }
    }
}

/// The aliases of hosts, one to a line.
pub open spec fn alias_lines(hosts: Seq<HostModel>) -> Seq<char>
    decreases hosts.len(),
{
    if hosts.len() == 0 {
        Seq::empty()
    } else {
        alias_lines(hosts.drop_last()) + hosts.last().alias + "\n"@
    }
}

/// The listing of hosts: every alias, one to a line, with nothing added.
pub fn list_text(hosts: &Vec<Host>) -> (r: String)
    ensures
        r@ == alias_lines(crate::model::host_models(hosts@)),
{
    let ghost all = crate::model::host_models(hosts@);
    let mut out = String::new();
    assert(out@ =~= Seq::<char>::empty());
    for i in 0..hosts.len()
        invariant
            all == crate::model::host_models(hosts@),
            out@ == alias_lines(all.take(i as int)),
    {
        assert(all.take(i + 1).drop_last() =~= all.take(i as int));
        assert(all.take(i + 1).last() == hosts@[i as int]@);
        out.append(hosts[i].alias.as_str());
        out.append("\n");
    }
    assert(all.take(hosts@.len() as int) =~= all);
    out
}

/// The host that `last` connects to.
pub fn last_alias(last: Option<String>) -> (r: Result<String, CliError>)
    ensures
        match r {
            Ok(a) => crate::text::opt_text(last) == Some(a@),
            Err(e) => last is None && e == CliError::NoPreviousHost,
        },
{
    match last {
        Some(a) => Ok(a),
        None => Err(CliError::NoPreviousHost),
    }
}

/// The editor: the first of the two variables that is set, else `vi`.
pub open spec fn chosen_editor(editor: Option<Seq<char>>, visual: Option<Seq<char>>) -> Seq<char> {
    match editor {
        Some(e) => e,
        None => match visual {
            Some(v) => v,
            None => "vi"@,
        },
    }
}

/// The editor: the first of the two variables that is set, else `vi`.
pub fn editor_of(editor: Option<String>, visual: Option<String>) -> (r: String)
    ensures
        r@ == chosen_editor(crate::text::opt_text(editor), crate::text::opt_text(visual)),
{
    match editor {
        Some(e) => e,
        None => match visual {
            Some(v) => v,
            None => "vi".to_string(),
        },
    }
}

/// The session that a command means: the one that was named, else the host's own.
pub open spec fn meant_session(config: Config, host: Seq<char>, named: Option<Seq<char>>) -> Seq<char> {
    match named {
        Some(s) => s,
        None => config.session_name(host),
    }
}

/// The session that a command means: the one that was named, else the host's own.
pub fn session_of_command(config: &Config, host: &str, session: &Option<String>) -> (r: String)
    ensures
        r@ == meant_session(*config, host@, crate::text::opt_text(*session)),
{
    match session {
        Some(s) => s.clone(),
        None => config.session_for(host),
    }
}

/// What the fields of a host's settings offer before they are filled in.
#[derive(Debug)]
pub struct FieldDefaults {
    pub name: Option<String>,
    pub address: Option<String>,
    pub username: Option<String>,
    pub password: Option<String>,
}

impl View for FieldDefaults {
    type V = SettingsModel;

    open spec fn view(&self) -> SettingsModel {
        SettingsModel {
            name: crate::text::opt_text(self.name),
            address: crate::text::opt_text(self.address),
            username: crate::text::opt_text(self.username),
            password: crate::text::opt_text(self.password),
        }
    }
}

/// What the fields offer: what the vault has, and for the name, else the alias; for
/// address and username, else what is known of the host.
pub open spec fn offered(
    existing: Option<SettingsModel>,
    alias: Seq<char>,
    address: Option<Seq<char>>,
    user: Option<Seq<char>>,
) -> SettingsModel {
    let s = match existing {
        Some(s) => s,
        None => crate::vault::no_settings(),
    };
    SettingsModel {
        name: crate::picker::either(s.name, Some(alias)),
        address: crate::picker::either(s.address, address),
        username: crate::picker::either(s.username, user),
        password: s.password,
    }
}

/// What the fields offer: what the vault has, and for the name, else the alias; for
/// address and username, else what is known of the host.
pub fn field_defaults(
    existing: &Option<HostSettings>,
    alias: &str,
    current_addr: Option<&str>,
    current_user: Option<&str>,
) -> (r: FieldDefaults)
    ensures
        r@ == offered(
            crate::vault::opt_settings(*existing),
            alias@,
            crate::text::opt_str(current_addr),
            crate::text::opt_str(current_user),
        ),
{
    let s = match existing {
        Some(s) => s.clone(),
        None => HostSettings::default(),
    };
    FieldDefaults {
        name: Some(
            match s.name {
                Some(n) => n,
                None => alias.to_string(),
            },
        ),
        address: or_given(s.address, current_addr),
        username: or_given(s.username, current_user),
        password: s.password,
    }
}

/// A text, or another where there is none.
fn or_given(a: Option<String>, b: Option<&str>) -> (r: Option<String>)
    ensures
        crate::text::opt_text(r) == crate::picker::either(
            crate::text::opt_text(a),
            crate::text::opt_str(b),
        ),
{
    match a {
        Some(s) => Some(s),
        None => match b {
            Some(s) => Some(s.to_string()),
            None => None,
        },
    }
}

/// Forgets the settings of a host. Answers whether there were any.
pub fn remove_settings(vault: &mut Vault, host: &str) -> (r: bool)
    ensures
        r == (crate::vault::settings_in(Some(old(vault)@), host@) is Some),
        final(vault)@ == crate::vault::forgotten(old(vault)@, host@),
{
    let had = vault.get_settings(host).is_some();
    vault.remove(host);
    had
}

/// What is said after settings were to be forgotten.
pub open spec fn removed_text(had: bool, host: Seq<char>) -> Seq<char> {
    if had {
        "Settings removed for "@ + host
    } else {
        "No settings stored for "@ + host
    }
}

/// What is said after settings were to be forgotten.
pub fn removed_notice(had: bool, host: &str) -> (r: String)
    ensures
        r@ == removed_text(had, host@),
{
    let mut out = if had {
        "Settings removed for ".to_string()
    } else {
        "No settings stored for ".to_string()
    };
    out.append(host);
    out
}

/// The line of a host in the listing of the vault: alias and address.
pub open spec fn entry_line(alias: Seq<char>, settings: SettingsModel) -> Seq<char> {
    crate::view::padded(alias, 20) + " address="@ + match settings.address {
        Some(a) => a,
        None => "-"@,
    }
}

/// The listing of the vault: one line for each host with settings, by alias.
pub fn vault_lines(vault: &Vault) -> (r: Vec<String>)
    ensures
        exists|aliases: Seq<Seq<char>>| #[trigger]
            crate::vault::lists_in_order(aliases, vault@.entries.dom()) && r@.len() == aliases.len()
                && forall|i: int|
                0 <= i < r@.len() ==> (#[trigger] r@[i])@ == entry_line(
                    aliases[i],
                    vault@.entries[aliases[i]],
                ),
{
    let names = vault.list();
    let ghost aliases = crate::text::texts(names@);
    let mut out: Vec<String> = Vec::new();
    for i in 0..names.len()
        invariant
            aliases == crate::text::texts(names@),
            crate::vault::lists_in_order(aliases, vault@.entries.dom()),
            out@.len() == i,
            forall|j: int|
                0 <= j < i ==> (#[trigger] out@[j])@ == entry_line(
                    aliases[j],
                    vault@.entries[aliases[j]],
                ),
    {
        assert(aliases[i as int] == names@[i as int]@);
        assert(aliases.contains(aliases[i as int]));
        assert(aliases.to_set().contains(aliases[i as int]));
        let mut line = pad_right(names[i].as_str(), 20);
        line.append(" address=");
        let mut address = "-".to_string();
        if let Some(s) = vault.get_settings(names[i].as_str()) {
            if let Some(a) = &s.address {
                address = a.clone();
            }
        }
        line.append(address.as_str());
        out.push(line);
    }
    assert(crate::vault::lists_in_order(aliases, vault@.entries.dom()));
    out
}

} // verus!
