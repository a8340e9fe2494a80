//! Making the local terminal known on the remote host.

use vstd::prelude::*;

use crate::text::clone_texts;
use crate::text::same_text;
use crate::tmux::sh_quote;

verus! {

/// The terminal that every host is taken to know.
pub open spec fn fallback_term() -> Seq<char> {
    "xterm-256color"@
}

/// The terminal that every host is taken to know.
fn fallback() -> (r: String)
    ensures
        r@ == fallback_term(),
{
    "xterm-256color".to_string()
}

/// The status with which the remote script says that it cannot compile.
pub const NO_REMOTE_TIC: i32 = 42;

/// Whether a terminal needs describing.
pub open spec fn is_real_term(term: Seq<char>) -> bool {
    term.len() > 0 && term != "dumb"@
}

/// The local terminal, where it is one that needs describing.
pub open spec fn described_term(term: Option<Seq<char>>) -> Option<Seq<char>> {
    match term {
        Some(t) => if is_real_term(t) {
            Some(t)
        } else {
            None
        },
        None => None,
    }
}

/// The local terminal, where it is one that needs describing.
pub fn active_term(term: Option<String>) -> (r: Option<String>)
    ensures
        crate::text::opt_text(r) == described_term(crate::text::opt_text(term)),
{
    match term {
        Some(t) => {
            if !t.as_str().is_empty() && !same_text(t.as_str(), "dumb") {
                Some(t)
            } else {
                None
            }
        },
        None => None,
    }
}

/// The script that reads a terminal's description and compiles it for the account,
/// unless the host knows the terminal already. Whatever it does, it reads its input.
pub open spec fn install_script(term: Seq<char>) -> Seq<char> {
    "term="@ + crate::tmux::quoted(term)
        + "; if command -v infocmp >/dev/null 2>&1 && infocmp -x \"$term\" >/dev/null 2>&1; then cat >/dev/null; exit 0; fi; if ! command -v tic >/dev/null 2>&1; then cat >/dev/null; exit 42; fi; mkdir -p \"$HOME/.terminfo\" && tic -x -o \"$HOME/.terminfo\" -"@
}

/// The script that installs a terminal's description.
pub fn install_command(term: &str) -> (r: String)
    ensures
        r@ == install_script(term@),
{
    let mut out = "term=".to_string();
    out.append(sh_quote(term).as_str());
    out.append(
        "; if command -v infocmp >/dev/null 2>&1 && infocmp -x \"$term\" >/dev/null 2>&1; then cat >/dev/null; exit 0; fi; if ! command -v tic >/dev/null 2>&1; then cat >/dev/null; exit 42; fi; mkdir -p \"$HOME/.terminfo\" && tic -x -o \"$HOME/.terminfo\" -",
    );
    out
}

/// A command with another terminal set for it.
pub open spec fn overridden(command: Seq<char>, term: Option<Seq<char>>) -> Seq<char> {
    match term {
        Some(t) => "export TERM="@ + crate::tmux::quoted(t) + "; "@ + command,
        None => command,
    }
}

/// Sets another terminal for a command.
pub fn apply_override(command: &str, term: Option<&str>) -> (r: String)
    ensures
        r@ == overridden(command@, crate::text::opt_str(term)),
{
    match term {
        Some(t) => {
            let mut out = "export TERM=".to_string();
            out.append(sh_quote(t).as_str());
            out.append("; ");
            out.append(command);
            out
        },
        None => command.to_string(),
    }
}

/// Why the terminal cannot be set up.
#[derive(Debug)]
pub enum TermError {
    /// Not even the fallback is described locally.
    NoFallback,
    /// ssh could not connect.
    Connection { target: String },
    /// The description could not be sent.
    NotSent,
}

impl TermError {
    /// The error in words.
    pub open spec fn text(&self) -> Seq<char> {
        match self {
            TermError::NoFallback => "local terminfo for fallback xterm-256color is unavailable"@,
            TermError::Connection { target } => "SSH failed while checking terminfo on "@ + target@,
            TermError::NotSent => "sending local terminfo to the remote host"@,
        }
    }

    /// What to tell the user.
    pub fn message(&self) -> (r: String)
        ensures
            r@ == self.text(),
    {
        match self {
            TermError::NoFallback =>
                "local terminfo for fallback xterm-256color is unavailable".to_string(),
            TermError::Connection { target } => {
                let mut out = "SSH failed while checking terminfo on ".to_string();
                out.append(target.as_str());
                out
            },
            TermError::NotSent => "sending local terminfo to the remote host".to_string(),
        }
    }
}

/// The terminal to install.
#[derive(Debug)]
pub struct TermPlan {
    pub term: String,
    /// Whether it is not the local one, so that the remote has to be told.
    pub forced: bool,
}

/// The terminal to install, and whether it is not the local one; none where neither
/// is described.
pub open spec fn chosen_term(requested: Seq<char>, exported: bool, fallback_exported: bool) -> Option<
    (Seq<char>, bool),
> {
    if exported {
        Some((requested, false))
    } else if fallback_exported {
        Some((fallback_term(), true))
    } else {
        None
    }
}

/// Chooses the terminal to install: the local one where its description could be
/// exported, else the fallback where that could.
pub fn plan_install(requested: &str, exported: bool, fallback_exported: bool) -> (r: Result<
    TermPlan,
    TermError,
>)
    ensures
        match r {
            Ok(p) => chosen_term(requested@, exported, fallback_exported) == Some(
                (p.term@, p.forced),
            ),
            Err(e) => chosen_term(requested@, exported, fallback_exported) is None
                && e is NoFallback,
        },
{
    if exported {
        Ok(TermPlan { term: requested.to_string(), forced: false })
    } else if fallback_exported {
        Ok(TermPlan { term: fallback(), forced: true })
    } else {
        Err(TermError::NoFallback)
    }
}

/// What is said where the local terminal cannot be described.
pub open spec fn unavailable_text(requested: Seq<char>) -> Seq<char> {
    "ssht: local terminfo for "@ + requested + " is unavailable; using xterm-256color remotely"@
}

/// What is said where the local terminal cannot be described.
pub fn unavailable_notice(requested: &str) -> (r: String)
    ensures
        r@ == unavailable_text(requested@),
{
    let mut out = "ssht: local terminfo for ".to_string();
    out.append(requested);
    out.append(" is unavailable; using xterm-256color remotely");
    out
}

/// The arguments of ssh that install a description.
pub open spec fn install_words(
    mux: Seq<Seq<char>>,
    passthrough: Seq<Seq<char>>,
    user: Option<Seq<char>>,
    target: Seq<char>,
    term: Seq<char>,
) -> Seq<Seq<char>> {
    let login = match user {
        Some(u) => seq!["-l"@, u],
        None => Seq::empty(),
    };
    seq!["-T"@] + mux + passthrough + login + seq![target, install_script(term)]
}

/// The arguments of ssh that install a description.
pub fn install_args(
    mux: &Vec<String>,
    passthrough: &Vec<String>,
    user: Option<&str>,
    target: &str,
    term: &str,
) -> (r: Vec<String>)
    ensures
        crate::text::texts(r@) == install_words(
            crate::text::texts(mux@),
            crate::text::texts(passthrough@),
            crate::text::opt_str(user),
            target@,
            term@,
        ),
{
    let mut out: Vec<String> = Vec::new();
    let mut a = clone_texts(mux);
    let mut b = clone_texts(passthrough);
    out.push("-T".to_string());
    out.append(&mut a);
    out.append(&mut b);
    if let Some(u) = user {
        out.push("-l".to_string());
        out.push(u.to_string());
    }
    out.push(target.to_string());
    out.push(install_command(term));
    proof {
        let want = install_words(
            crate::text::texts(mux@),
            crate::text::texts(passthrough@),
            crate::text::opt_str(user),
            target@,
            term@,
        );
        assert(crate::text::texts(mux@).len() == mux@.len());
        assert(crate::text::texts(passthrough@).len() == passthrough@.len());
        assert(crate::text::texts(out@) =~= want);
    }
    out
}

/// What became of an installation.
#[derive(Debug)]
pub struct TermOutcome {
    /// The terminal to set on the remote host.
    pub term: Option<String>,
    /// What to tell the user.
    pub notice: Option<String>,
}

/// What becomes of an installation.
pub enum OutcomeModel {
    /// The terminal to set on the remote host, and what to tell the user.
    Ready { term: Option<Seq<char>>, notice: Option<Seq<char>> },
    /// The description could not be sent.
    NotSent,
    /// ssh could not connect.
    NotConnected,
}

/// What becomes of an installation, by the status of the script.
pub open spec fn installed(term: Seq<char>, forced: bool, code: Option<i32>, sent: bool) -> OutcomeModel {
    if code == Some(0i32) {
        if sent {
            OutcomeModel::Ready {
                term: if forced {
                    Some(term)
                } else {
                    None
                },
                notice: None,
            }
        } else {
            OutcomeModel::NotSent
        }
    } else if code == Some(255i32) {
        OutcomeModel::NotConnected
    } else {
        OutcomeModel::Ready {
            term: Some(fallback_term()),
            notice: Some(
                if code == Some(NO_REMOTE_TIC) {
                    "ssht: remote tic is unavailable for "@ + term
                        + "; using xterm-256color remotely"@
                } else {
                    "ssht: could not install remote terminfo for "@ + term
                        + "; using xterm-256color remotely"@
                },
            ),
        }
    }
}

/// What becomes of an installation, by the status of the script. A host that cannot
/// take the description gets the fallback, and only ssh failing is an error.
pub fn install_outcome(plan: TermPlan, code: Option<i32>, sent: bool, target: &str) -> (r: Result<
    TermOutcome,
    TermError,
>)
    ensures
        match r {
            Ok(o) => installed(plan.term@, plan.forced, code, sent) == (OutcomeModel::Ready {
                term: crate::text::opt_text(o.term),
                notice: crate::text::opt_text(o.notice),
            }),
            Err(TermError::NotSent) => installed(plan.term@, plan.forced, code, sent) is NotSent,
            Err(TermError::Connection { target: t }) => installed(
                plan.term@,
                plan.forced,
                code,
                sent,
            ) is NotConnected && t@ == target@,
            Err(TermError::NoFallback) => false,
        },
{
    let status: i32 = match code {
        Some(c) => c,
        None => -1,
    };
    if status == 0 {
        if !sent {
            return Err(TermError::NotSent);
        }
        let term = if plan.forced {
            Some(plan.term)
        } else {
            None
        };
        return Ok(TermOutcome { term, notice: None });
    }
    if status == 255 {
        return Err(TermError::Connection { target: target.to_string() });
    }
    let mut notice = if code.is_some() && status == NO_REMOTE_TIC {
        "ssht: remote tic is unavailable for ".to_string()
    } else {
        "ssht: could not install remote terminfo for ".to_string()
    };
    notice.append(plan.term.as_str());
    notice.append("; using xterm-256color remotely");
    Ok(TermOutcome { term: Some(fallback()), notice: Some(notice) })
}

/// The terminal that a command runs under is one word of it, whatever its name, and
/// the command behind it is left as it is.
pub proof fn law_override_is_one_word(command: Seq<char>, term: Seq<char>)
    ensures
        ({
            let whole = overridden(command, Some(term));
            let value = whole.skip("export TERM="@.len() as int);
            whole.take("export TERM="@.len() as int) == "export TERM="@ && crate::tmux::shell_word(value)
                == (term, "; "@ + command)
        }),
{
    let head = "export TERM="@;
    let whole = overridden(command, Some(term));
    let rest = "; "@ + command;
    reveal_strlit("; ");
    assert(whole.skip(head.len() as int) =~= crate::tmux::quoted(term) + rest);
    assert(whole.take(head.len() as int) =~= head);
    assert(rest[0] == ';');
    crate::tmux::law_quoted_is_one_word(term, rest);
}

} // verus!
