//! The commands that run on the remote host: attaching to a tmux session, filling
//! in its history, and reporting full-screen programs.

use vstd::prelude::*;

use crate::config::Layout;
use crate::config::Window;
use crate::config::WindowModel;
use crate::text::chars_of;
use crate::text::decimal_text;

verus! {

/// The inside of a single-quoted shell word: a quote becomes `'\''`.
pub open spec fn quoted_body(s: Seq<char>) -> Seq<char>
    decreases s.len(),
{
    if s.len() == 0 {
        Seq::empty()
    } else if s.last() == '\'' {
        quoted_body(s.drop_last()) + "'\\''"@
    } else {
        quoted_body(s.drop_last()).push(s.last())
    }
}

/// A text as one word of a POSIX shell.
pub open spec fn quoted(s: Seq<char>) -> Seq<char> {
    seq!['\''] + quoted_body(s) + seq!['\'']
}

/// A text as one word of a POSIX shell.
pub fn sh_quote(s: &str) -> (r: String)
    ensures
        r@ == quoted(s@),
{
    let mut out = String::new();
    out.push('\'');
    let v = chars_of(s);
    assert(out@ =~= seq!['\''] + quoted_body(s@.take(0)));
    for i in 0..v.len()
        invariant
            v@ == s@,
            out@ == seq!['\''] + quoted_body(s@.take(i as int)),
    {
        assert(s@.take(i + 1).drop_last() =~= s@.take(i as int));
        let ghost before = quoted_body(s@.take(i as int));
        if v[i] == '\'' {
            out.append("'\\''");
            assert(out@ =~= seq!['\''] + (before + "'\\''"@));
        } else {
            out.push(v[i]);
            assert(out@ =~= seq!['\''] + before.push(v@[i as int]));
        }
    }
    assert(s@.take(s@.len() as int) =~= s@);
    out.push('\'');
    assert(out@ =~= quoted(s@));
    out
}

/// The command that prints up to `lines` lines of a session's history, or nothing
/// for none. It stops above the visible screen, which attaching draws anyway, and
/// prints nothing while a full-screen program is running.
pub open spec fn replay_command(session: Seq<char>, lines: u32) -> Seq<char> {
    let s = quoted(session);
    if lines == 0 {
        Seq::empty()
    } else {
        "if tmux has-session -t "@ + s
            + " 2>/dev/null && [ \"$(tmux display-message -p -t "@ + s + " "@ + quoted(
            "#{alternate_on}"@,
        ) + ")\" = 0 ]; then tmux capture-pane -p -e -S -"@ + crate::text::decimal(lines as nat)
            + " -E -1 -t "@ + s + "; fi; "@
    }
}

/// The command that prints a session's history.
pub fn scrollback_replay(session: &str, lines: u32) -> (r: String)
    ensures
        r@ == replay_command(session@, lines),
{
    if lines == 0 {
        let r = String::new();
        assert(r@ =~= Seq::<char>::empty());
        return r;
    }
    let s = sh_quote(session);
    let mut out = "if tmux has-session -t ".to_string();
    out.append(s.as_str());
    out.append(" 2>/dev/null && [ \"$(tmux display-message -p -t ");
    out.append(s.as_str());
    out.append(" ");
    out.append(sh_quote("#{alternate_on}").as_str());
    out.append(")\" = 0 ]; then tmux capture-pane -p -e -S -");
    out.append(decimal_text(lines as u64).as_str());
    out.append(" -E -1 -t ");
    out.append(s.as_str());
    out.append("; fi; ");
    out
}

/// The command that tells the line editor that history is over, or nothing.
pub open spec fn ready_command(local_echo: bool) -> Seq<char> {
    if local_echo {
        "printf '\\033P+ssht;ready\\033\\\\'; "@
    } else {
        ""@
    }
}

/// The commands that create one window of a layout and run its command there. The
/// first window comes with the session.
pub open spec fn window_commands(session: Seq<char>, i: nat, w: WindowModel) -> Seq<char> {
    let opened = if i == 0 {
        "tmux new-session -d -s "@ + quoted(session) + " -n "@ + quoted(w.name) + "; "@
    } else {
        "tmux new-window -t "@ + quoted(session) + " -n "@ + quoted(w.name) + "; "@
    };
    match w.command {
        Some(c) => opened + "tmux send-keys -t "@ + quoted(
            session + ":"@ + crate::text::decimal(i),
        ) + " "@ + quoted(c) + " C-m; "@,
        None => opened,
    }
}

/// The commands that create the first `n` windows of a layout.
pub open spec fn layout_commands(session: Seq<char>, windows: Seq<WindowModel>, n: nat) -> Seq<char>
    decreases n,
{
    if n == 0 {
        ""@
    } else {
        let i = (n - 1) as nat;
        layout_commands(session, windows, i) + window_commands(session, i, windows[i as int])
    }
}

/// The command that attaches to a session.
///
/// A viewer joins a session that exists and changes nothing. Without a layout the
/// session is attached to or created; with one, its windows are created only where
/// the session does not exist yet.
pub open spec fn attach_command(
    session: Seq<char>,
    layout: Option<Seq<WindowModel>>,
    read_only: bool,
) -> Seq<char> {
    let s = quoted(session);
    if read_only {
        "if tmux has-session -t "@ + s + " 2>/dev/null; then tmux attach -r -t "@ + s
            + "; else echo \"ssht: no tmux session "@ + session
            + " to view on this host\" >&2; exit 1; fi"@
    } else {
        match layout {
            Some(windows) if windows.len() > 0 => "if tmux has-session -t "@ + s
                + " 2>/dev/null; then tmux attach -t "@ + s + "; else "@ + layout_commands(
                session,
                windows,
                windows.len(),
            ) + "tmux select-window -t "@ + quoted(session + ":0"@) + "; tmux attach -t "@ + s
                + "; fi"@,
            _ => "tmux new-session -A -s "@ + s,
        }
    }
}

/// The layout of an optional layout.
pub open spec fn layout_model(layout: Option<&Layout>) -> Option<Seq<WindowModel>> {
    match layout {
        Some(l) => Some(l@),
        None => None,
    }
}

/// The command that a connection runs: history, then the mark that it is over,
/// then the attach.
pub open spec fn remote_command(
    session: Seq<char>,
    layout: Option<Seq<WindowModel>>,
    read_only: bool,
    lines: u32,
    local_echo: bool,
) -> Seq<char> {
    replay_command(session, lines) + ready_command(local_echo) + attach_command(
        session,
        layout,
        read_only,
    )
}

/// Creates one window.
fn window_text(session: &str, i: usize, w: &Window) -> (r: String)
    ensures
        r@ == window_commands(session@, i as nat, w@),
{
    let mut out = if i == 0 {
        "tmux new-session -d -s ".to_string()
    } else {
        "tmux new-window -t ".to_string()
    };
    out.append(sh_quote(session).as_str());
    out.append(" -n ");
    out.append(sh_quote(w.name.as_str()).as_str());
    out.append("; ");
    if let Some(c) = &w.command {
        let mut target = session.to_string();
        target.append(":");
        target.append(decimal_text(i as u64).as_str());
        out.append("tmux send-keys -t ");
        out.append(sh_quote(target.as_str()).as_str());
        out.append(" ");
        out.append(sh_quote(c.as_str()).as_str());
        out.append(" C-m; ");
    }
    out
}

/// Creates the windows of a layout.
fn layout_text(session: &str, layout: &Layout) -> (r: String)
    ensures
        r@ == layout_commands(session@, layout@, layout@.len()),
{
    let mut out = "".to_string();
    for i in 0..layout.windows.len()
        invariant
            out@ == layout_commands(session@, layout@, i as nat),
    {
        let text = window_text(session, i, &layout.windows[i]);
        out.append(text.as_str());
    }
    out
}

/// The command that a connection runs on the remote host.
pub fn build_remote_command(
    session: &str,
    layout: Option<&Layout>,
    read_only: bool,
    scrollback_lines: u32,
    local_echo: bool,
) -> (r: String)
    ensures
        r@ == remote_command(session@, layout_model(layout), read_only, scrollback_lines, local_echo),
{
    let s = sh_quote(session);
    let mut out = scrollback_replay(session, scrollback_lines);
    if local_echo {
        out.append("printf '\\033P+ssht;ready\\033\\\\'; ");
    } else {
        out.append("");
    }
    let attach = if read_only {
        let mut a = "if tmux has-session -t ".to_string();
        a.append(s.as_str());
        a.append(" 2>/dev/null; then tmux attach -r -t ");
        a.append(s.as_str());
        a.append("; else echo \"ssht: no tmux session ");
        a.append(session);
        a.append(" to view on this host\" >&2; exit 1; fi");
        a
    } else {
        match layout {
            Some(l) if !l.windows.is_empty() => {
                let mut a = "if tmux has-session -t ".to_string();
                a.append(s.as_str());
                a.append(" 2>/dev/null; then tmux attach -t ");
                a.append(s.as_str());
                a.append("; else ");
                a.append(layout_text(session, l).as_str());
                let mut first = session.to_string();
                first.append(":0");
                a.append("tmux select-window -t ");
                a.append(sh_quote(first.as_str()).as_str());
                a.append("; tmux attach -t ");
                a.append(s.as_str());
                a.append("; fi");
                a
            },
            _ => {
                let mut a = "tmux new-session -A -s ".to_string();
                a.append(s.as_str());
                a
            },
        }
    };
    out.append(attach.as_str());
    out
}

/// A command with a watcher beside it. Every 50 ms the watcher prints the marker of
/// the pane's alternate screen; once one more client than before is attached it
/// also says, one time, that the session is drawn. The status of the command is
/// kept.
pub open spec fn watched_command(session: Seq<char>, command: Seq<char>) -> Seq<char> {
    let s = quoted(session);
    let alt = quoted("#{alternate_on}"@);
    let att = quoted("#{session_attached}"@);
    "attached=$(tmux display-message -p -t "@ + s + " "@ + att
        + " 2>/dev/null || printf 0); (if ! sleep 0.05 2>/dev/null; then printf '\\033P+ssht;alt=1\\033\\\\'; exit; fi; armed=0; while :; do state=$(tmux display-message -p -t "@
        + s + " "@ + alt
        + " 2>/dev/null) || { sleep 0.05; continue; }; clients=$(tmux display-message -p -t "@ + s + " "@
        + att
        + " 2>/dev/null || printf 0); if [ \"$armed\" = 0 ] && [ \"$clients\" -gt \"$attached\" ] 2>/dev/null; then sleep 0.2; printf '\\033P+ssht;arm\\033\\\\\\033P+ssht;arm\\033\\\\'; armed=1; fi; printf '\\033P+ssht;alt=%s\\033\\\\\\033P+ssht;alt=%s\\033\\\\' \"$state\" \"$state\"; sleep 0.05; done) & watcher=$!; "@
        + command
        + "; status=$?; kill \"$watcher\" 2>/dev/null; wait \"$watcher\" 2>/dev/null; exit $status"@
}

/// Puts a watcher beside a command. tmux keeps a pane's alternate screen to itself,
/// so nothing else would tell the local side about it.
pub fn with_alt_screen_watcher(session: &str, command: &str) -> (r: String)
    ensures
        r@ == watched_command(session@, command@),
{
    let s = sh_quote(session);
    let alt = sh_quote("#{alternate_on}");
    let att = sh_quote("#{session_attached}");
    let mut out = "attached=$(tmux display-message -p -t ".to_string();
    out.append(s.as_str());
    out.append(" ");
    out.append(att.as_str());
    out.append(
        " 2>/dev/null || printf 0); (if ! sleep 0.05 2>/dev/null; then printf '\\033P+ssht;alt=1\\033\\\\'; exit; fi; armed=0; while :; do state=$(tmux display-message -p -t ",
    );
    out.append(s.as_str());
    out.append(" ");
    out.append(alt.as_str());
    out.append(" 2>/dev/null) || { sleep 0.05; continue; }; clients=$(tmux display-message -p -t ");
    out.append(s.as_str());
    out.append(" ");
    out.append(att.as_str());
    out.append(
        " 2>/dev/null || printf 0); if [ \"$armed\" = 0 ] && [ \"$clients\" -gt \"$attached\" ] 2>/dev/null; then sleep 0.2; printf '\\033P+ssht;arm\\033\\\\\\033P+ssht;arm\\033\\\\'; armed=1; fi; printf '\\033P+ssht;alt=%s\\033\\\\\\033P+ssht;alt=%s\\033\\\\' \"$state\" \"$state\"; sleep 0.05; done) & watcher=$!; ",
    );
    out.append(command);
    out.append(
        "; status=$?; kill \"$watcher\" 2>/dev/null; wait \"$watcher\" 2>/dev/null; exit $status",
    );
    out
}

/// What a probe of a host's tmux found.
#[derive(Debug, Clone)]
pub struct TmuxStatus {
    pub alias: String,
    /// Whether a session is running; none where the host could not be asked.
    pub active: Option<bool>,
}

/// What the outcome of a probe says: output means sessions; without output, ssh
/// failing to connect, or dying, means that nothing is known, and any other exit
/// that there is no session.
pub open spec fn probe_says(code: Option<i32>, printed: bool) -> Option<bool> {
    if printed {
        Some(true)
    } else if code is None || code == Some(255i32) {
        None
    } else {
        Some(false)
    }
}

/// What the outcome of a probe says.
pub fn probe_active(code: Option<i32>, stdout: &[u8]) -> (r: Option<bool>)
    ensures
        r == probe_says(code, stdout@.len() > 0),
{
    if stdout.len() > 0 {
        return Some(true);
    }
    match code {
        None => None,
        Some(c) => if c == 255 {
            None
        } else {
            Some(false)
        },
    }
}

/// The arguments of ssh for a probe.
pub open spec fn probe_words(alias: Seq<char>) -> Seq<Seq<char>> {
    seq![
        "-o"@,
        "BatchMode=yes"@,
        "-o"@,
        "ConnectTimeout=4"@,
        "-o"@,
        "StrictHostKeyChecking=accept-new"@,
        alias,
        "tmux ls 2>/dev/null"@,
    ]
}

/// The arguments of ssh for a probe: no questions, a short wait, and new host keys
/// taken.
pub fn probe_args(alias: &str) -> (r: Vec<String>)
    ensures
        crate::text::texts(r@) == probe_words(alias@),
{
    let mut out: Vec<String> = Vec::new();
    out.push("-o".to_string());
    out.push("BatchMode=yes".to_string());
    out.push("-o".to_string());
    out.push("ConnectTimeout=4".to_string());
    out.push("-o".to_string());
    out.push("StrictHostKeyChecking=accept-new".to_string());
    out.push(alias.to_string());
    out.push("tmux ls 2>/dev/null".to_string());
    assert(crate::text::texts(out@) =~= probe_words(alias@));
    out
}

/// Whether a character ends an unquoted shell word.
pub open spec fn ends_word(c: char) -> bool {
    c == ' ' || c == '\t' || c == '\n' || c == ';' || c == '&' || c == '|' || c == '<' || c == '>'
        || c == '(' || c == ')'
}

/// The word that a POSIX shell reads at the start of a text, and what is left.
/// Quoted text stands for itself, and so does a character behind a backslash.
pub open spec fn shell_word(s: Seq<char>) -> (Seq<char>, Seq<char>)
    decreases s.len(),
{
    let close = crate::text::find(s.skip(1), '\'');
    if s.len() == 0 || ends_word(s[0]) {
        (Seq::empty(), s)
    } else if s[0] == '\'' && 0 <= close && close + 1 < s.len() {
        let (word, rest) = shell_word(s.skip(close + 2));
        (s.subrange(1, close + 1) + word, rest)
    } else if s[0] == '\\' && s.len() > 1 {
        let (word, rest) = shell_word(s.skip(2));
        (seq![s[1]] + word, rest)
    } else {
        let (word, rest) = shell_word(s.skip(1));
        (seq![s[0]] + word, rest)
    }
}

/// The quoted form of two texts, one behind the other.
proof fn lemma_body_append(a: Seq<char>, b: Seq<char>)
    ensures
        quoted_body(a + b) == quoted_body(a) + quoted_body(b),
    decreases b.len(),
{
    if b.len() == 0 {
        assert(a + b =~= a);
        assert(quoted_body(a) + Seq::<char>::empty() =~= quoted_body(a));
    } else {
        lemma_body_append(a, b.drop_last());
        assert((a + b).drop_last() =~= a + b.drop_last());
        assert(quoted_body(a + b) =~= quoted_body(a) + quoted_body(b));
    }
}

/// A text without a quote is quoted as it stands.
proof fn lemma_body_plain(s: Seq<char>)
    requires
        !s.contains('\''),
    ensures
        quoted_body(s) == s,
    decreases s.len(),
{
    if s.len() > 0 {
        assert(s.contains(s[s.len() - 1]));
        assert forall|i: int| 0 <= i < s.len() - 1 implies s.drop_last()[i] != '\'' by {
            assert(s.contains(s[i]));
        }
        lemma_body_plain(s.drop_last());
        assert(s.drop_last().push(s.last()) =~= s);
    }
}

/// A quoted text is read by the shell as one word, which is the text, whatever
/// stands in it.
#[verifier::rlimit(40)]
pub proof fn law_quoted_is_one_word(s: Seq<char>, rest: Seq<char>)
    requires
        rest.len() == 0 || ends_word(rest[0]),
    ensures
        shell_word(quoted(s) + rest) == (s, rest),
    decreases s.len(),
{
    let q = quoted(s) + rest;
    let k = crate::text::find(s, '\'');
    crate::text::lemma_find(s, '\'');
    let a = s.take(k);
    assert(!a.contains('\'')) by {
        if a.contains('\'') {
            let i = choose|i: int| 0 <= i < a.len() && a[i] == '\'';
            assert(s[i] == '\'');
        }
    }
    lemma_body_plain(a);
    if k == s.len() {
        assert(a =~= s);
        assert(q.skip(1) =~= s + seq!['\''] + rest);
        crate::text::lemma_find_is(q.skip(1), '\'', k);
        assert(q.skip(k + 2) =~= rest);
        assert(q.subrange(1, k + 1) =~= s);
        assert(shell_word(rest) == (Seq::<char>::empty(), rest));
        assert(s + Seq::<char>::empty() =~= s);
    } else {
        let b = s.skip(k + 1);
        reveal_strlit("'\\''");
        assert(s =~= a + seq!['\''] + b);
        lemma_body_append(a + seq!['\''], b);
        lemma_body_append(a, seq!['\'']);
        assert(seq!['\''].drop_last() =~= Seq::<char>::empty());
        assert(quoted_body(Seq::<char>::empty()) =~= Seq::<char>::empty());
        assert(seq!['\''].last() == '\'');
        assert(quoted_body(seq!['\'']) =~= "'\\''"@);
        let tail = quoted(b) + rest;
        assert(q.skip(1) =~= a + seq!['\'', '\\', '\''] + tail);
        crate::text::lemma_find_is(q.skip(1), '\'', k);
        let after = q.skip(k + 2);
        assert(after =~= seq!['\\', '\''] + tail);
        law_quoted_is_one_word(b, rest);
        assert(after.skip(2) =~= tail);
        assert(shell_word(after) == (seq!['\''] + b, rest));
        assert(q.subrange(1, k + 1) =~= a);
        assert(a + (seq!['\''] + b) =~= s);
    }
}

/// A viewer gets the same command whatever the layout.
pub proof fn law_viewer_ignores_layout(
    session: Seq<char>,
    a: Option<Seq<WindowModel>>,
    b: Option<Seq<WindowModel>>,
    lines: u32,
    local_echo: bool,
)
    ensures
        remote_command(session, a, true, lines, local_echo) == remote_command(
            session,
            b,
            true,
            lines,
            local_echo,
        ),
{
}

/// A layout without windows is no layout.
pub proof fn law_empty_layout_is_none(session: Seq<char>, lines: u32, local_echo: bool)
    ensures
        remote_command(session, Some(Seq::empty()), false, lines, local_echo) == remote_command(
            session,
            None,
            false,
            lines,
            local_echo,
        ),
{
}

/// History comes first: the command with a replay is the replay followed by the
/// command without it.
pub proof fn law_replay_comes_first(
    session: Seq<char>,
    layout: Option<Seq<WindowModel>>,
    read_only: bool,
    lines: u32,
    local_echo: bool,
)
    ensures
        remote_command(session, layout, read_only, lines, local_echo) == replay_command(session, lines)
            + remote_command(session, layout, read_only, 0, local_echo),
{
    let none = replay_command(session, 0);
    let rest = ready_command(local_echo);
    let attach = attach_command(session, layout, read_only);
    assert(none + rest + attach =~= rest + attach);
    assert(replay_command(session, lines) + rest + attach =~= replay_command(session, lines) + (rest
        + attach));
}

} // verus!
