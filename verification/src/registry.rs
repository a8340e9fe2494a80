//! The tmux sessions of a remote host, managed without attaching to one.

use vstd::prelude::*;

use crate::text::debug_text;
use crate::text::from_utf8_lossy;
use crate::text::parse_number;
use crate::text::split_at_char;
use crate::text::split_lines;
use crate::text::trim;
use crate::tmux::sh_quote;
use crate::vault::HostSettings;
use crate::vault::SettingsModel;

verus! {

/// One tmux session.
#[derive(Debug, Clone, PartialEq, Eq)]
pub struct SessionInfo {
    pub name: String,
    pub windows: u32,
    pub clients: u32,
}

/// What is known of a session.
pub struct SessionModel {
    pub name: Seq<char>,
    pub windows: nat,
    pub clients: nat,
}

impl View for SessionInfo {
    type V = SessionModel;

    open spec fn view(&self) -> SessionModel {
        SessionModel { name: self.name@, windows: self.windows as nat, clients: self.clients as nat }
    }
}

/// The sessions of a list.
pub open spec fn session_models(v: Seq<SessionInfo>) -> Seq<SessionModel> {
    Seq::new(v.len(), |i: int| v[i]@)
}

/// How a command ended on the remote host.
#[derive(Debug)]
pub struct Outcome {
    /// The exit status; none where a signal ended it.
    pub code: Option<i32>,
    pub stdout: Vec<u8>,
    pub stderr: Vec<u8>,
}

/// Why a request failed.
#[derive(Debug)]
pub enum RegistryError {
    /// ssh could not connect.
    Connection { alias: String, detail: String },
    /// The session was not killed.
    Kill { alias: String, session: String, detail: String },
    /// The session was not renamed.
    Rename { alias: String, session: String, detail: String },
}

impl View for RegistryError {
    type V = (int, Seq<char>, Seq<char>, Seq<char>);

    /// The kind, the alias, the session where there is one, and the detail.
    open spec fn view(&self) -> (int, Seq<char>, Seq<char>, Seq<char>) {
        match self {
            RegistryError::Connection { alias, detail } => (0, alias@, Seq::empty(), detail@),
            RegistryError::Kill { alias, session, detail } => (1, alias@, session@, detail@),
            RegistryError::Rename { alias, session, detail } => (2, alias@, session@, detail@),
        }
    }
}

impl RegistryError {
    /// The error in words.
    pub open spec fn text(&self) -> Seq<char> {
        match self {
            RegistryError::Connection { alias, detail } => "ssh connection to "@ + alias@
                + " failed: "@ + detail@,
            RegistryError::Kill { alias, session, detail } => "killing session "@
                + crate::text::debug_quoted(session@) + " on "@ + alias@ + ": "@ + detail@,
            RegistryError::Rename { alias, session, detail } => "renaming session "@
                + crate::text::debug_quoted(session@) + " on "@ + alias@ + ": "@ + detail@,
        }
    }

    /// What to tell the user.
    pub fn message(&self) -> (r: String)
        ensures
            r@ == self.text(),
    {
        match self {
            RegistryError::Connection { alias, detail } => {
                let mut out = "ssh connection to ".to_string();
                out.append(alias.as_str());
                out.append(" failed: ");
                out.append(detail.as_str());
                out
            },
            RegistryError::Kill { alias, session, detail } => {
                let mut out = "killing session ".to_string();
                out.append(debug_text(session.as_str()).as_str());
                out.append(" on ");
                out.append(alias.as_str());
                out.append(": ");
                out.append(detail.as_str());
                out
            },
            RegistryError::Rename { alias, session, detail } => {
                let mut out = "renaming session ".to_string();
                out.append(debug_text(session.as_str()).as_str());
                out.append(" on ");
                out.append(alias.as_str());
                out.append(": ");
                out.append(detail.as_str());
                out
            },
        }
    }
}

/// The largest count of windows or clients.
pub const MAX_COUNT: u32 = 0xffff_ffff;

/// The session of a line of the listing: name, windows and clients between tabs.
/// None where the name is empty, a field is missing or a count is no number.
pub open spec fn session_of(line: Seq<char>) -> Option<SessionModel> {
    let fields = crate::text::split(line, '\t');
    if fields.len() < 3 {
        None
    } else {
        let name = crate::text::trimmed(fields[0]);
        let windows = crate::text::number_up_to(crate::text::trimmed(fields[1]), MAX_COUNT as nat);
        let clients = crate::text::number_up_to(crate::text::trimmed(fields[2]), MAX_COUNT as nat);
        if name.len() > 0 && windows is Some && clients is Some {
            Some(SessionModel { name, windows: windows->0, clients: clients->0 })
        } else {
            None
        }
    }
}

/// The sessions of a listing. Lines that name none are passed over, so that one odd
/// line does not hide the rest.
pub open spec fn sessions_of(lines: Seq<Seq<char>>) -> Seq<SessionModel>
    decreases lines.len(),
{
    if lines.len() == 0 {
        Seq::empty()
    } else {
        let before = sessions_of(lines.drop_last());
        match session_of(lines.last()) {
            Some(s) => before.push(s),
            None => before,
        }
    }
}

/// The session of one line.
fn parse_session(line: &str) -> (r: Option<SessionInfo>)
    ensures
        match r {
            Some(s) => session_of(line@) == Some(s@),
            None => session_of(line@) is None,
        },
{
    let fields = split_at_char(line, '\t');
    let ghost all = crate::text::texts(fields@);
    if fields.len() < 3 {
        return None;
    }
    assert(all[0] == fields@[0]@ && all[1] == fields@[1]@ && all[2] == fields@[2]@);
    let name = trim(fields[0].as_str());
    if name.as_str().is_empty() {
        return None;
    }
    let windows = parse_number(trim(fields[1].as_str()).as_str(), MAX_COUNT);
    let clients = parse_number(trim(fields[2].as_str()).as_str(), MAX_COUNT);
    match (windows, clients) {
        (Some(w), Some(c)) => Some(SessionInfo { name, windows: w, clients: c }),
        _ => None,
    }
}

/// Reads a listing of sessions.
pub fn parse_sessions(stdout: &str) -> (r: Vec<SessionInfo>)
    ensures
        session_models(r@) == sessions_of(crate::text::lines(stdout@)),
{
    let lines = split_lines(stdout);
    let ghost all = crate::text::texts(lines@);
    let mut out: Vec<SessionInfo> = Vec::new();
    assert(session_models(out@) =~= Seq::<SessionModel>::empty());
    for i in 0..lines.len()
        invariant
            all == crate::text::texts(lines@),
            session_models(out@) == sessions_of(all.take(i as int)),
    {
        assert(all.take(i + 1).drop_last() =~= all.take(i as int));
        assert(all.take(i + 1).last() == lines@[i as int]@);
        let ghost before = session_models(out@);
        if let Some(s) = parse_session(lines[i].as_str()) {
            let ghost model = s@;
            out.push(s);
            assert(session_models(out@) =~= before.push(model));
        }
    }
    assert(all.take(lines@.len() as int) =~= all);
    out
}

/// The arguments of ssh that run a command: the user and the address that the vault
/// has for the alias, else the alias.
pub open spec fn remote_words(
    alias: Seq<char>,
    settings: Option<SettingsModel>,
    remote: Seq<char>,
) -> Seq<Seq<char>> {
    let user = match settings {
        Some(s) => s.username,
        None => None,
    };
    let address = match settings {
        Some(s) => s.address,
        None => None,
    };
    let target = match address {
        Some(a) => a,
        None => alias,
    };
    match user {
        Some(u) => seq!["-l"@, u, target, remote],
        None => seq![target, remote],
    }
}

/// The arguments of ssh that run a command.
pub fn remote_args(alias: &str, settings: &Option<HostSettings>, remote: &str) -> (r: Vec<String>)
    ensures
        crate::text::texts(r@) == remote_words(
            alias@,
            crate::vault::opt_settings(*settings),
            remote@,
        ),
{
    let mut out: Vec<String> = Vec::new();
    let mut target = alias.to_string();
    if let Some(s) = settings {
        if let Some(user) = &s.username {
            out.push("-l".to_string());
            out.push(user.clone());
        }
        if let Some(address) = &s.address {
            target = address.clone();
        }
    }
    out.push(target);
    out.push(remote.to_string());
    assert(crate::text::texts(out@) =~= remote_words(
        alias@,
        crate::vault::opt_settings(*settings),
        remote@,
    ));
    out
}

/// The command that lists the sessions, one to a line, with fields between tabs.
pub open spec fn list_request() -> Seq<char> {
    "tmux ls -F "@ + crate::tmux::quoted(
        "#{session_name}\t#{session_windows}\t#{session_attached}"@,
    ) + " 2>/dev/null"@
}

/// The command that kills a session.
pub open spec fn kill_request(session: Seq<char>) -> Seq<char> {
    "tmux kill-session -t "@ + crate::tmux::quoted(session)
}

/// The command that renames a session.
pub open spec fn rename_request(from: Seq<char>, to: Seq<char>) -> Seq<char> {
    "tmux rename-session -t "@ + crate::tmux::quoted(from) + " "@ + crate::tmux::quoted(to)
}

/// The command that lists the sessions, one to a line, with fields between tabs.
pub fn list_command() -> (r: String)
    ensures
        r@ == list_request(),
{
    let mut out = "tmux ls -F ".to_string();
    out.append(
        sh_quote("#{session_name}\t#{session_windows}\t#{session_attached}").as_str(),
    );
    out.append(" 2>/dev/null");
    out
}

/// The command that kills a session.
pub fn kill_command(session: &str) -> (r: String)
    ensures
        r@ == kill_request(session@),
{
    let mut out = "tmux kill-session -t ".to_string();
    out.append(sh_quote(session).as_str());
    out
}

/// The command that renames a session.
pub fn rename_command(from: &str, to: &str) -> (r: String)
    ensures
        r@ == rename_request(from@, to@),
{
    let mut out = "tmux rename-session -t ".to_string();
    out.append(sh_quote(from).as_str());
    out.append(" ");
    out.append(sh_quote(to).as_str());
    out
}

/// What a failed command printed, as one line.
pub open spec fn complaint(outcome: Outcome) -> Seq<char> {
    crate::text::trimmed(crate::text::lossy_text(outcome.stderr@))
}

/// A fault of a request: its kind, the alias, the session where there is one, and the
/// detail.
pub type Fault = (int, Seq<char>, Seq<char>, Seq<char>);

/// What a listing found.
pub open spec fn listed(alias: Seq<char>, outcome: Outcome) -> Result<Seq<SessionModel>, Fault> {
    if outcome.code == Some(255i32) {
        Err((0int, alias, Seq::empty(), complaint(outcome)))
    } else {
        Ok(sessions_of(crate::text::lines(crate::text::lossy_text(outcome.stdout@))))
    }
}

/// What became of killing a session: the fault, where it failed.
pub open spec fn kill_fault(alias: Seq<char>, session: Seq<char>, outcome: Outcome) -> Option<Fault> {
    if outcome.code == Some(0i32) {
        None
    } else {
        Some((1int, alias, session, complaint(outcome)))
    }
}

/// What became of renaming a session: the fault, where it failed.
pub open spec fn rename_fault(alias: Seq<char>, from: Seq<char>, outcome: Outcome) -> Option<Fault> {
    if outcome.code == Some(0i32) {
        None
    } else {
        Some((2int, alias, from, complaint(outcome)))
    }
}

/// The sessions that a listing found. Only ssh failing to connect is an error: a
/// host without a tmux server has no sessions.
pub fn list(alias: &str, outcome: &Outcome) -> (r: Result<Vec<SessionInfo>, RegistryError>)
    ensures
        match r {
            Ok(v) => listed(alias@, *outcome) == Ok::<Seq<SessionModel>, Fault>(
                session_models(v@),
            ),
            Err(e) => listed(alias@, *outcome) == Err::<Seq<SessionModel>, Fault>(e@),
        },
{
    if let Some(code) = outcome.code {
        if code == 255 {
            return Err(
                RegistryError::Connection {
                    alias: alias.to_string(),
                    detail: trim(from_utf8_lossy(&outcome.stderr).as_str()),
                },
            );
        }
    }
    Ok(parse_sessions(from_utf8_lossy(&outcome.stdout).as_str()))
}

/// Whether a session was killed.
pub fn kill(alias: &str, session: &str, outcome: &Outcome) -> (r: Result<(), RegistryError>)
    ensures
        match r {
            Ok(_) => kill_fault(alias@, session@, *outcome) is None,
            Err(e) => kill_fault(alias@, session@, *outcome) == Some(e@),
        },
{
    if let Some(code) = outcome.code {
        if code == 0 {
            return Ok(());
        }
    }
    Err(
        RegistryError::Kill {
            alias: alias.to_string(),
            session: session.to_string(),
            detail: trim(from_utf8_lossy(&outcome.stderr).as_str()),
        },
    )
}

/// Whether a session was renamed.
pub fn rename(alias: &str, from: &str, outcome: &Outcome) -> (r: Result<(), RegistryError>)
    ensures
        match r {
            Ok(_) => rename_fault(alias@, from@, *outcome) is None,
            Err(e) => rename_fault(alias@, from@, *outcome) == Some(e@),
        },
{
    if let Some(code) = outcome.code {
        if code == 0 {
            return Ok(());
        }
    }
    Err(
        RegistryError::Rename {
            alias: alias.to_string(),
            session: from.to_string(),
            detail: trim(from_utf8_lossy(&outcome.stderr).as_str()),
        },
    )
}

/// A line that names no session hides no other: the sessions of two listings, one
/// behind the other, are the sessions of each.
pub proof fn law_odd_lines_hide_nothing(a: Seq<Seq<char>>, b: Seq<Seq<char>>)
    ensures
        sessions_of(a + b) == sessions_of(a) + sessions_of(b),
    decreases b.len(),
{
    if b.len() == 0 {
        assert(a + b =~= a);
        assert(sessions_of(a) + Seq::<SessionModel>::empty() =~= sessions_of(a));
    } else {
        law_odd_lines_hide_nothing(a, b.drop_last());
        assert((a + b).drop_last() =~= a + b.drop_last());
        assert(sessions_of(a + b) =~= sessions_of(a) + sessions_of(b));
    }
}

} // verus!
