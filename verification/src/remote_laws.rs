//! What holds of the sessions of a remote host, and of its terminal.

use vstd::prelude::*;

use crate::registry::Fault;
use crate::registry::Outcome;
use crate::registry::SessionModel;
use crate::terminfo::OutcomeModel;
use crate::tmux_laws::Part;
use crate::vault::SettingsModel;

verus! {

/// The listing asks for the name, the windows and the clients of each session, in this
/// order, as one word of the shell.
pub proof fn law_list_request()
    ensures
        crate::tmux_laws::reads(
            crate::registry::list_request(),
            seq![
                Part::Text("tmux ls -F "@),
                Part::Word("#{session_name}\t#{session_windows}\t#{session_attached}"@),
                Part::Text(" 2>/dev/null"@),
            ],
        ),
{
    let t1 = "tmux ls -F "@;
    let w = "#{session_name}\t#{session_windows}\t#{session_attached}"@;
    let t2 = " 2>/dev/null"@;
    assert(t2.len() > 0 && t2[0] == ' ') by {
        reveal_strlit(" 2>/dev/null");
    }
    crate::tmux_laws::lemma_only_text(t2);
    crate::tmux_laws::lemma_text_word(t1, w, t2, seq![Part::Text(t2)]);
    assert(crate::registry::list_request() =~= t1 + (crate::tmux::quoted(w) + t2));
    assert(seq![Part::Text(t1), Part::Word(w)] + seq![Part::Text(t2)] =~= seq![
        Part::Text(t1),
        Part::Word(w),
        Part::Text(t2),
    ]);
}

/// A session is killed by its name, whatever the name holds.
pub proof fn law_kill_request(session: Seq<char>)
    ensures
        crate::tmux_laws::reads(
            crate::registry::kill_request(session),
            seq![Part::Text("tmux kill-session -t "@), Part::Word(session)],
        ),
{
    let none = Seq::<Part>::empty();
    let end = Seq::<char>::empty();
    let t1 = "tmux kill-session -t "@;
    crate::tmux_laws::lemma_text_word(t1, session, end, none);
    assert(crate::registry::kill_request(session) =~= t1 + (crate::tmux::quoted(session) + end));
    assert(seq![Part::Text(t1), Part::Word(session)] + none =~= seq![
        Part::Text(t1),
        Part::Word(session),
    ]);
}

/// A session is renamed from its old name to its new one.
pub proof fn law_rename_request(from: Seq<char>, to: Seq<char>)
    ensures
        crate::tmux_laws::reads(
            crate::registry::rename_request(from, to),
            seq![
                Part::Text("tmux rename-session -t "@),
                Part::Word(from),
                Part::Text(" "@),
                Part::Word(to),
            ],
        ),
{
    let none = Seq::<Part>::empty();
    let end = Seq::<char>::empty();
    let t1 = "tmux rename-session -t "@;
    let t2 = " "@;
    assert(t2.len() > 0 && t2[0] == ' ') by {
        reveal_strlit(" ");
    }
    crate::tmux_laws::lemma_text_word(t2, to, end, none);
    let r2 = t2 + (crate::tmux::quoted(to) + end);
    let p2 = seq![Part::Text(t2), Part::Word(to)] + none;
    crate::tmux_laws::lemma_text_word(t1, from, r2, p2);
    assert(crate::registry::rename_request(from, to) =~= t1 + (crate::tmux::quoted(from) + r2));
    assert(seq![Part::Text(t1), Part::Word(from)] + p2 =~= seq![
        Part::Text(t1),
        Part::Word(from),
        Part::Text(t2),
        Part::Word(to),
    ]);
}

/// A line of the listing is read back: the name, then the number of windows, then that
/// of clients. Further fields say nothing.
pub proof fn law_sessions_are_read(name: Seq<char>, windows: u32, clients: u32, more: Seq<char>)
    requires
        name.len() > 0,
        !name.contains('\t'),
        !crate::text::is_space(name[0]),
        !crate::text::is_space(name.last()),
    ensures
        crate::registry::session_of(
            name + seq!['\t'] + crate::text::decimal(windows as nat) + seq!['\t']
                + crate::text::decimal(clients as nat),
        ) == Some(SessionModel { name, windows: windows as nat, clients: clients as nat }),
        crate::registry::session_of(
            name + seq!['\t'] + crate::text::decimal(windows as nat) + seq!['\t']
                + crate::text::decimal(clients as nat) + seq!['\t'] + more,
        ) == Some(SessionModel { name, windows: windows as nat, clients: clients as nat }),
{
    let w = crate::text::decimal(windows as nat);
    let c = crate::text::decimal(clients as nat);
    let line = name + seq!['\t'] + w + seq!['\t'] + c;
    lemma_number_field(windows as nat);
    lemma_number_field(clients as nat);
    crate::text_laws::law_splitting(name, '\t', w + seq!['\t'] + c);
    crate::text_laws::law_splitting(w, '\t', c);
    crate::text_laws::law_splitting(c, '\t', Seq::empty());
    assert(line =~= name + seq!['\t'] + (w + seq!['\t'] + c));
    let fields = crate::text::split(line, '\t');
    assert(fields =~= seq![name, w, c]);
    let longer = line + seq!['\t'] + more;
    let rest = c + seq!['\t'] + more;
    crate::text_laws::law_splitting(name, '\t', w + seq!['\t'] + rest);
    crate::text_laws::law_splitting(w, '\t', rest);
    crate::text_laws::law_splitting(c, '\t', more);
    assert(longer =~= name + seq!['\t'] + (w + seq!['\t'] + rest));
    let all = crate::text::split(longer, '\t');
    assert(all =~= seq![name, w, c] + crate::text::split(more, '\t'));
    let none = Seq::<char>::empty();
    crate::text_laws::law_trimming(none, name, none);
    assert(none + name + none =~= name);
}

proof fn lemma_number_field(n: nat)
    requires
        n <= 0xffff_ffff,
    ensures
        ({
            let d = crate::text::decimal(n);
            &&& !d.contains('\t')
            &&& crate::text::trimmed(d) == d
            &&& crate::text::number_up_to(d, 0xffff_ffff) == Some(n)
        }),
{
    let d = crate::text::decimal(n);
    crate::text_laws::law_decimal_reads_back(n);
    if d.contains('\t') {
        let i = choose|i: int| 0 <= i < d.len() && d[i] == '\t';
        assert('0' <= d[i] <= '9');
    }
    let none = Seq::<char>::empty();
    assert(!crate::text::is_space(d[0]) && !crate::text::is_space(d[d.len() - 1]));
    crate::text_laws::law_trimming(none, d, none);
    assert(none + d + none =~= d);
}

/// A line without all three fields, or without a name, names no session.
pub proof fn law_odd_lines_name_no_session(line: Seq<char>, rest: Seq<char>)
    ensures
        !line.contains('\t') ==> crate::registry::session_of(line) is None,
        crate::registry::session_of(seq!['\t'] + rest) is None,
{
    if !line.contains('\t') {
        crate::text_laws::law_splitting(line, '\t', rest);
    }
    let none = Seq::<char>::empty();
    crate::text_laws::law_splitting(none, '\t', rest);
    assert(none + seq!['\t'] + rest =~= seq!['\t'] + rest);
    let fields = crate::text::split(seq!['\t'] + rest, '\t');
    assert(fields[0] == none);
    crate::text_laws::law_trimming(none, none, none);
    assert(none + none + none =~= none);
}

/// A listing has one session for each line that names one, in the order of the lines.
pub proof fn law_sessions_in_order(lines: Seq<Seq<char>>, line: Seq<char>)
    ensures
        crate::registry::sessions_of(Seq::empty()) == Seq::<SessionModel>::empty(),
        crate::registry::session_of(line) is Some ==> crate::registry::sessions_of(lines.push(line))
            == crate::registry::sessions_of(lines).push(crate::registry::session_of(line)->0),
        crate::registry::session_of(line) is None ==> crate::registry::sessions_of(lines.push(line))
            == crate::registry::sessions_of(lines),
{
    assert(lines.push(line).drop_last() =~= lines);
}

/// A listing fails only where ssh could not connect, and says whom it could not reach.
/// Killing and renaming succeed only with status zero.
pub proof fn law_registry_faults(alias: Seq<char>, session: Seq<char>, outcome: Outcome)
    ensures
        ({
            let found = crate::registry::listed(alias, outcome);
            let said = crate::text::trimmed(crate::text::lossy_text(outcome.stderr@));
            &&& outcome.code == Some(255i32) ==> found == Err::<Seq<SessionModel>, Fault>(
                (0int, alias, Seq::<char>::empty(), said),
            )
            &&& outcome.code != Some(255i32) ==> found == Ok::<Seq<SessionModel>, Fault>(
                crate::registry::sessions_of(
                    crate::text::lines(crate::text::lossy_text(outcome.stdout@)),
                ),
            )
            &&& outcome.code == Some(0i32) ==> crate::registry::kill_fault(alias, session, outcome) is None
                && crate::registry::rename_fault(alias, session, outcome) is None
            &&& outcome.code != Some(0i32) ==> crate::registry::kill_fault(alias, session, outcome)
                == Some((1int, alias, session, said)) && crate::registry::rename_fault(
                alias,
                session,
                outcome,
            ) == Some((2int, alias, session, said))
        }),
{
}

/// A command runs on the host that the vault names, as the user that it names; without
/// these, on the alias and as whom ssh takes.
pub proof fn law_commands_reach_the_host(
    alias: Seq<char>,
    s: SettingsModel,
    user: Seq<char>,
    address: Seq<char>,
    remote: Seq<char>,
)
    ensures
        crate::registry::remote_words(alias, None, remote) == seq![alias, remote],
        s.username is None && s.address is None ==> crate::registry::remote_words(
            alias,
            Some(s),
            remote,
        ) == seq![alias, remote],
        s.username is None && s.address == Some(address) ==> crate::registry::remote_words(
            alias,
            Some(s),
            remote,
        ) == seq![address, remote],
        s.username == Some(user) && s.address is None ==> crate::registry::remote_words(
            alias,
            Some(s),
            remote,
        ) == seq!["-l"@, user, alias, remote],
        s.username == Some(user) && s.address == Some(address) ==> crate::registry::remote_words(
            alias,
            Some(s),
            remote,
        ) == seq!["-l"@, user, address, remote],
{
}

/// A terminal needs describing where it has a name and is not a dumb one.
pub proof fn law_described_terminals(term: Seq<char>)
    ensures
        crate::terminfo::described_term(None) is None,
        crate::terminfo::described_term(Some(Seq::<char>::empty())) is None,
        crate::terminfo::described_term(Some("dumb"@)) is None,
        term.len() > 0 && term != "dumb"@ ==> crate::terminfo::described_term(Some(term)) == Some(
            term,
        ),
{
}

/// The local terminal is installed where it is described here, else the one that every
/// host is taken to know, of which the remote is then told.
pub proof fn law_terminal_choice(term: Seq<char>, fallback: bool)
    ensures
        crate::terminfo::chosen_term(term, true, fallback) == Some((term, false)),
        crate::terminfo::chosen_term(term, false, true) == Some(("xterm-256color"@, true)),
        crate::terminfo::chosen_term(term, false, false) is None,
{
}

/// What becomes of an installation: with status zero the terminal is known, and is set
/// only where it is not the local one; where ssh failed, nothing; and with any other
/// status, or none, the terminal that every host knows is set and the user is told.
pub proof fn law_installation(term: Seq<char>, forced: bool, sent: bool, code: Option<i32>)
    ensures
        crate::terminfo::installed(term, true, Some(0i32), true) == (OutcomeModel::Ready {
            term: Some(term),
            notice: None,
        }),
        crate::terminfo::installed(term, false, Some(0i32), true) == (OutcomeModel::Ready {
            term: None,
            notice: None,
        }),
        crate::terminfo::installed(term, forced, Some(0i32), false) is NotSent,
        crate::terminfo::installed(term, forced, Some(255i32), sent) is NotConnected,
        crate::terminfo::installed(term, forced, Some(42i32), sent) == (OutcomeModel::Ready {
            term: Some("xterm-256color"@),
            notice: Some(
                "ssht: remote tic is unavailable for "@ + term
                    + "; using xterm-256color remotely"@,
            ),
        }),
        code != Some(0i32) && code != Some(255i32) && code != Some(42i32)
            ==> crate::terminfo::installed(term, forced, code, sent) == (OutcomeModel::Ready {
            term: Some("xterm-256color"@),
            notice: Some(
                "ssht: could not install remote terminfo for "@ + term
                    + "; using xterm-256color remotely"@,
            ),
        }),
{
}

/// The script that installs a description names the terminal as one word.
pub proof fn law_install_script(term: Seq<char>)
    ensures
        crate::tmux_laws::reads(
            crate::terminfo::install_script(term),
            seq![
                Part::Text("term="@),
                Part::Word(term),
                Part::Text(
                    "; if command -v infocmp >/dev/null 2>&1 && infocmp -x \"$term\" >/dev/null 2>&1; then cat >/dev/null; exit 0; fi; if ! command -v tic >/dev/null 2>&1; then cat >/dev/null; exit 42; fi; mkdir -p \"$HOME/.terminfo\" && tic -x -o \"$HOME/.terminfo\" -"@,
                ),
            ],
        ),
{
    let t1 = "term="@;
    let t2 = "; if command -v infocmp >/dev/null 2>&1 && infocmp -x \"$term\" >/dev/null 2>&1; then cat >/dev/null; exit 0; fi; if ! command -v tic >/dev/null 2>&1; then cat >/dev/null; exit 42; fi; mkdir -p \"$HOME/.terminfo\" && tic -x -o \"$HOME/.terminfo\" -"@;
    assert(t2.len() > 0 && t2[0] == ';') by {
        reveal_strlit(
            "; if command -v infocmp >/dev/null 2>&1 && infocmp -x \"$term\" >/dev/null 2>&1; then cat >/dev/null; exit 0; fi; if ! command -v tic >/dev/null 2>&1; then cat >/dev/null; exit 42; fi; mkdir -p \"$HOME/.terminfo\" && tic -x -o \"$HOME/.terminfo\" -",
        );
    }
    crate::tmux_laws::lemma_only_text(t2);
    crate::tmux_laws::lemma_text_word(t1, term, t2, seq![Part::Text(t2)]);
    assert(crate::terminfo::install_script(term) =~= t1 + (crate::tmux::quoted(term) + t2));
    assert(seq![Part::Text(t1), Part::Word(term)] + seq![Part::Text(t2)] =~= seq![
        Part::Text(t1),
        Part::Word(term),
        Part::Text(t2),
    ]);
}

/// The description is installed without a terminal, over the same connection, as the
/// same user and at the same address as the session; a command whose terminal is not
/// set runs as it is.
pub proof fn law_install_arguments(
    mux: Seq<Seq<char>>,
    passed: Seq<Seq<char>>,
    user: Seq<char>,
    target: Seq<char>,
    term: Seq<char>,
    command: Seq<char>,
)
    ensures
        crate::terminfo::install_words(mux, passed, None, target, term) == seq!["-T"@] + mux + passed
            + seq![target, crate::terminfo::install_script(term)],
        crate::terminfo::install_words(mux, passed, Some(user), target, term) == seq!["-T"@] + mux
            + passed + seq!["-l"@, user, target, crate::terminfo::install_script(term)],
        crate::terminfo::overridden(command, None) == command,
{
    assert(crate::terminfo::install_words(mux, passed, None, target, term) =~= seq!["-T"@] + mux
        + passed + seq![target, crate::terminfo::install_script(term)]);
    assert(crate::terminfo::install_words(mux, passed, Some(user), target, term) =~= seq!["-T"@]
        + mux + passed + seq!["-l"@, user, target, crate::terminfo::install_script(term)]);
}


/// White space around the fields of a listing says nothing.
pub proof fn law_session_fields_are_trimmed(
    name: Seq<char>,
    windows: u32,
    clients: u32,
    spaces: nat,
)
    requires
        name.len() > 0,
        !name.contains('\t'),
        !crate::text::is_space(name[0]),
        !crate::text::is_space(name.last()),
    ensures
        ({
            let gap = Seq::new(spaces, |i: int| ' ');
            crate::registry::session_of(
                gap + name + gap + seq!['\t'] + (gap + crate::text::decimal(windows as nat) + gap)
                    + seq!['\t'] + (gap + crate::text::decimal(clients as nat) + gap),
            ) == Some(SessionModel { name, windows: windows as nat, clients: clients as nat })
        }),
{
    let gap = Seq::new(spaces, |i: int| ' ');
    let w = crate::text::decimal(windows as nat);
    let c = crate::text::decimal(clients as nat);
    assert(crate::text_laws::is_blank(gap));
    lemma_padded_field(name, gap);
    lemma_number_field(windows as nat);
    lemma_number_field(clients as nat);
    crate::text_laws::law_decimal_reads_back(windows as nat);
    crate::text_laws::law_decimal_reads_back(clients as nat);
    assert(!crate::text::is_space(w[0]) && !crate::text::is_space(w[w.len() - 1]));
    assert(!crate::text::is_space(c[0]) && !crate::text::is_space(c[c.len() - 1]));
    lemma_padded_field(w, gap);
    lemma_padded_field(c, gap);
    let a = gap + name + gap;
    let b = gap + w + gap;
    let d = gap + c + gap;
    let line = a + seq!['\t'] + b + seq!['\t'] + d;
    crate::text_laws::law_splitting(a, '\t', b + seq!['\t'] + d);
    crate::text_laws::law_splitting(b, '\t', d);
    crate::text_laws::law_splitting(d, '\t', Seq::empty());
    assert(line =~= a + seq!['\t'] + (b + seq!['\t'] + d));
    assert(crate::text::split(line, '\t') =~= seq![a, b, d]);
}

proof fn lemma_padded_field(s: Seq<char>, gap: Seq<char>)
    requires
        s.len() > 0,
        !s.contains('\t'),
        !crate::text::is_space(s[0]),
        !crate::text::is_space(s.last()),
        crate::text_laws::is_blank(gap),
        !gap.contains('\t'),
    ensures
        !(gap + s + gap).contains('\t'),
        crate::text::trimmed(gap + s + gap) == s,
{
    let field = gap + s + gap;
    crate::text_laws::law_trimming(gap, s, gap);
    if field.contains('\t') {
        let i = choose|i: int| 0 <= i < field.len() && field[i] == '\t';
        if i < gap.len() {
            assert(gap.contains(gap[i]));
        } else if i < gap.len() + s.len() {
            assert(s.contains(s[i - gap.len()]));
        } else {
            assert(gap.contains(gap[i - gap.len() - s.len()]));
        }
    }
}

} // verus!
