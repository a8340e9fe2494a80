//! How the remote shell reads the commands that it is given.

use vstd::prelude::*;

use crate::config::WindowModel;

verus! {

/// A part of a shell command: text that stands there as it is, or a word that the
/// shell reads there.
pub enum Part {
    Text(Seq<char>),
    Word(Seq<char>),
}

/// Whether a command consists of these parts, one behind the other, and nothing more.
pub open spec fn reads(t: Seq<char>, parts: Seq<Part>) -> bool
    decreases parts.len(),
{
    if parts.len() == 0 {
        t.len() == 0
    } else {
        match parts[0] {
            Part::Text(s) => s.len() <= t.len() && t.take(s.len() as int) == s && reads(
                t.skip(s.len() as int),
                parts.skip(1),
            ),
            Part::Word(w) => crate::tmux::shell_word(t).0 == w && reads(
                crate::tmux::shell_word(t).1,
                parts.skip(1),
            ),
        }
    }
}

/// A command with a text in front of it.
pub proof fn lemma_text(s: Seq<char>, t: Seq<char>, parts: Seq<Part>)
    requires
        reads(t, parts),
    ensures
        reads(s + t, seq![Part::Text(s)] + parts),
{
    let all = seq![Part::Text(s)] + parts;
    assert(all.skip(1) =~= parts);
    assert((s + t).take(s.len() as int) =~= s);
    assert((s + t).skip(s.len() as int) =~= t);
}

/// A command with a quoted word in front of it, where something ends the word.
pub proof fn lemma_word(w: Seq<char>, t: Seq<char>, parts: Seq<Part>)
    requires
        reads(t, parts),
        t.len() == 0 || crate::tmux::ends_word(t[0]),
    ensures
        reads(crate::tmux::quoted(w) + t, seq![Part::Word(w)] + parts),
{
    let all = seq![Part::Word(w)] + parts;
    assert(all.skip(1) =~= parts);
    crate::tmux::law_quoted_is_one_word(w, t);
}

/// A text, a word, and what comes behind them.
pub proof fn lemma_text_word(s: Seq<char>, w: Seq<char>, t: Seq<char>, parts: Seq<Part>)
    requires
        reads(t, parts),
        t.len() == 0 || crate::tmux::ends_word(t[0]),
    ensures
        reads(
            s + (crate::tmux::quoted(w) + t),
            seq![Part::Text(s), Part::Word(w)] + parts,
        ),
{
    lemma_word(w, t, parts);
    let rest = crate::tmux::quoted(w) + t;
    lemma_text(s, rest, seq![Part::Word(w)] + parts);
    assert(seq![Part::Text(s)] + (seq![Part::Word(w)] + parts) =~= seq![
        Part::Text(s),
        Part::Word(w),
    ] + parts);
}

/// A command that is only a text.
pub proof fn lemma_only_text(s: Seq<char>)
    ensures
        reads(s, seq![Part::Text(s)]),
{
    let none = Seq::<Part>::empty();
    assert(reads(Seq::<char>::empty(), none));
    lemma_text(s, Seq::empty(), none);
    assert(s + Seq::<char>::empty() =~= s);
    assert(seq![Part::Text(s)] + none =~= seq![Part::Text(s)]);
}

/// Three texts, one behind the other, however they are grouped.
proof fn lemma_grouping(a: Seq<char>, b: Seq<char>, c: Seq<char>)
    ensures
        (a + b) + c == a + (b + c),
{
    assert((a + b) + c =~= a + (b + c));
}

/// Five texts, one behind the other, grouped from the end.
proof fn lemma_five(a: Seq<char>, b: Seq<char>, c: Seq<char>, d: Seq<char>, e: Seq<char>)
    ensures
        a + b + c + d + e == a + (b + (c + (d + e))),
{
    lemma_grouping(a + b + c, d, e);
    lemma_grouping(a + b, c, d + e);
    lemma_grouping(a, b, c + (d + e));
}

/// Nine texts, one behind the other, grouped from the end.
proof fn lemma_nine(
    a: Seq<char>,
    b: Seq<char>,
    c: Seq<char>,
    d: Seq<char>,
    e: Seq<char>,
    f: Seq<char>,
    g: Seq<char>,
    h: Seq<char>,
    i: Seq<char>,
)
    ensures
        a + b + c + d + e + f + g + h + i == a + (b + (c + (d + (e + (f + (g + (h + i))))))),
{
    let start = a + b + c + d;
    lemma_five(start, e, f, g, h + i);
    lemma_grouping(start + e + f + g, h, i);
    lemma_five(a, b, c, d, e + (f + (g + (h + i))));
}

/// Without a layout the session is attached to, or created where there is none.
pub proof fn law_plain_attach(session: Seq<char>)
    ensures
        reads(
            crate::tmux::remote_command(session, None, false, 0, false),
            seq![Part::Text("tmux new-session -A -s "@), Part::Word(session)],
        ),
{
    let none = Seq::<Part>::empty();
    let start = "tmux new-session -A -s "@;
    let end = Seq::<char>::empty();
    lemma_text_word(start, session, end, none);
    let whole = crate::tmux::remote_command(session, None, false, 0, false);
    reveal_strlit("");
    assert(whole =~= start + (crate::tmux::quoted(session) + end));
    assert(seq![Part::Text(start), Part::Word(session)] + none =~= seq![
        Part::Text(start),
        Part::Word(session),
    ]);
}

/// A viewer attaches to the session read-only where there is one, and creates nothing.
pub proof fn law_viewer_attach(session: Seq<char>, layout: Option<Seq<WindowModel>>)
    ensures
        reads(
            crate::tmux::remote_command(session, layout, true, 0, false),
            seq![
                Part::Text("if tmux has-session -t "@),
                Part::Word(session),
                Part::Text(" 2>/dev/null; then tmux attach -r -t "@),
                Part::Word(session),
                Part::Text(
                    "; else echo \"ssht: no tmux session "@ + session
                        + " to view on this host\" >&2; exit 1; fi"@,
                ),
            ],
        ),
{
    let s = crate::tmux::quoted(session);
    let t1 = "if tmux has-session -t "@;
    let t2 = " 2>/dev/null; then tmux attach -r -t "@;
    let t3 = "; else echo \"ssht: no tmux session "@ + session
        + " to view on this host\" >&2; exit 1; fi"@;
    assert(t2.len() > 0 && t2[0] == ' ' && t3.len() > 0 && t3[0] == ';') by {
        reveal_strlit(" 2>/dev/null; then tmux attach -r -t ");
        reveal_strlit("; else echo \"ssht: no tmux session ");
    }
    lemma_only_text(t3);
    let p3 = seq![Part::Text(t3)];
    lemma_text_word(t2, session, t3, p3);
    let r2 = t2 + (s + t3);
    let p2 = seq![Part::Text(t2), Part::Word(session)] + p3;
    lemma_text_word(t1, session, r2, p2);
    reveal_strlit("");
    let x = "; else echo \"ssht: no tmux session "@;
    let y = " to view on this host\" >&2; exit 1; fi"@;
    let front = t1 + s + t2 + s;
    lemma_grouping(front, x, session);
    lemma_grouping(front, x + session, y);
    lemma_five(t1, s, t2, s, t3);
    let attach = crate::tmux::attach_command(session, layout, true);
    assert(attach == t1 + (s + r2));
    assert(crate::tmux::remote_command(session, layout, true, 0, false) =~= attach);
    assert(seq![Part::Text(t1), Part::Word(session)] + p2 =~= seq![
        Part::Text(t1),
        Part::Word(session),
        Part::Text(t2),
        Part::Word(session),
        Part::Text(t3),
    ]);
}

/// History is printed up to the line above the screen, and not while a full-screen
/// program is running; no lines are no command at all.
pub proof fn law_replay(session: Seq<char>, lines: u32)
    ensures
        crate::tmux::replay_command(session, 0) == Seq::<char>::empty(),
        lines > 0 ==> reads(
            crate::tmux::replay_command(session, lines),
            seq![
                Part::Text("if tmux has-session -t "@),
                Part::Word(session),
                Part::Text(" 2>/dev/null && [ \"$(tmux display-message -p -t "@),
                Part::Word(session),
                Part::Text(" "@),
                Part::Word("#{alternate_on}"@),
                Part::Text(
                    ")\" = 0 ]; then tmux capture-pane -p -e -S -"@ + crate::text::decimal(
                        lines as nat,
                    ) + " -E -1 -t "@,
                ),
                Part::Word(session),
                Part::Text("; fi; "@),
            ],
        ),
{
    if lines > 0 {
        let s = crate::tmux::quoted(session);
        let alt = "#{alternate_on}"@;
        let t1 = "if tmux has-session -t "@;
        let t2 = " 2>/dev/null && [ \"$(tmux display-message -p -t "@;
        let t3 = " "@;
        let t4 = ")\" = 0 ]; then tmux capture-pane -p -e -S -"@ + crate::text::decimal(
            lines as nat,
        ) + " -E -1 -t "@;
        let t5 = "; fi; "@;
        assert(t2.len() > 0 && t2[0] == ' ' && t3.len() > 0 && t3[0] == ' ' && t4.len() > 0 && t4[0] == ')' && t5.len() > 0 && t5[0] == ';') by {
            reveal_strlit(" 2>/dev/null && [ \"$(tmux display-message -p -t ");
            reveal_strlit(" ");
            reveal_strlit(")\" = 0 ]; then tmux capture-pane -p -e -S -");
            reveal_strlit("; fi; ");
        }
        lemma_only_text(t5);
        let p5 = seq![Part::Text(t5)];
        lemma_text_word(t4, session, t5, p5);
        let r4 = t4 + (s + t5);
        let p4 = seq![Part::Text(t4), Part::Word(session)] + p5;
        lemma_text_word(t3, alt, r4, p4);
        let r3 = t3 + (crate::tmux::quoted(alt) + r4);
        let p3 = seq![Part::Text(t3), Part::Word(alt)] + p4;
        lemma_text_word(t2, session, r3, p3);
        let r2 = t2 + (s + r3);
        let p2 = seq![Part::Text(t2), Part::Word(session)] + p3;
        lemma_text_word(t1, session, r2, p2);
        let x = ")\" = 0 ]; then tmux capture-pane -p -e -S -"@;
        let y = crate::text::decimal(lines as nat);
        let z = " -E -1 -t "@;
        let front = t1 + s + t2 + s + t3 + crate::tmux::quoted(alt);
        lemma_grouping(front, x, y);
        lemma_grouping(front, x + y, z);
        lemma_nine(t1, s, t2, s, t3, crate::tmux::quoted(alt), t4, s, t5);
        assert(crate::tmux::replay_command(session, lines) == t1 + (s + r2));
        assert(seq![Part::Text(t1), Part::Word(session)] + p2 =~= seq![
            Part::Text(t1),
            Part::Word(session),
            Part::Text(t2),
            Part::Word(session),
            Part::Text(t3),
            Part::Word(alt),
            Part::Text(t4),
            Part::Word(session),
            Part::Text(t5),
        ]);
    }
}

/// The mark for the line editor stands between history and attach, and changes neither.
pub proof fn law_ready_mark(
    session: Seq<char>,
    layout: Option<Seq<WindowModel>>,
    read_only: bool,
    lines: u32,
)
    ensures
        crate::tmux::remote_command(session, layout, read_only, lines, true)
            == crate::tmux::replay_command(session, lines)
            + "printf '\\033P+ssht;ready\\033\\\\'; "@ + crate::tmux::remote_command(
            session,
            layout,
            read_only,
            0,
            false,
        ),
        crate::tmux::remote_command(session, layout, read_only, lines, false)
            == crate::tmux::replay_command(session, lines) + crate::tmux::remote_command(
            session,
            layout,
            read_only,
            0,
            false,
        ),
{
    let attach = crate::tmux::attach_command(session, layout, read_only);
    let bare = crate::tmux::remote_command(session, layout, read_only, 0, false);
    reveal_strlit("");
    assert(bare =~= attach);
    assert(crate::tmux::remote_command(session, layout, read_only, lines, true)
        =~= crate::tmux::replay_command(session, lines) + "printf '\\033P+ssht;ready\\033\\\\'; "@
        + bare);
    assert(crate::tmux::remote_command(session, layout, read_only, lines, false)
        =~= crate::tmux::replay_command(session, lines) + bare);
}

/// With a layout, a session that exists is attached to as it is; else its windows are
/// made, the first is selected, and the session is attached to.
pub proof fn law_layout_attach(session: Seq<char>, windows: Seq<WindowModel>)
    requires
        windows.len() > 0,
    ensures
        reads(
            crate::tmux::remote_command(session, Some(windows), false, 0, false),
            seq![
                Part::Text("if tmux has-session -t "@),
                Part::Word(session),
                Part::Text(" 2>/dev/null; then tmux attach -t "@),
                Part::Word(session),
                Part::Text(
                    "; else "@ + crate::tmux::layout_commands(session, windows, windows.len())
                        + "tmux select-window -t "@,
                ),
                Part::Word(session + ":0"@),
                Part::Text("; tmux attach -t "@),
                Part::Word(session),
                Part::Text("; fi"@),
            ],
        ),
{
    let s = crate::tmux::quoted(session);
    let first = session + ":0"@;
    let made = crate::tmux::layout_commands(session, windows, windows.len());
    let t1 = "if tmux has-session -t "@;
    let t2 = " 2>/dev/null; then tmux attach -t "@;
    let t3 = "; else "@ + made + "tmux select-window -t "@;
    let t4 = "; tmux attach -t "@;
    let t5 = "; fi"@;
    assert(t2.len() > 0 && t2[0] == ' ' && t3.len() > 0 && t3[0] == ';' && t4.len() > 0 && t4[0] == ';' && t5.len() > 0 && t5[0] == ';') by {
        reveal_strlit(" 2>/dev/null; then tmux attach -t ");
        reveal_strlit("; else ");
        reveal_strlit("; tmux attach -t ");
        reveal_strlit("; fi");
    }
    lemma_only_text(t5);
    let p5 = seq![Part::Text(t5)];
    lemma_text_word(t4, session, t5, p5);
    let r4 = t4 + (s + t5);
    let p4 = seq![Part::Text(t4), Part::Word(session)] + p5;
    lemma_text_word(t3, first, r4, p4);
    let r3 = t3 + (crate::tmux::quoted(first) + r4);
    let p3 = seq![Part::Text(t3), Part::Word(first)] + p4;
    lemma_text_word(t2, session, r3, p3);
    let r2 = t2 + (s + r3);
    let p2 = seq![Part::Text(t2), Part::Word(session)] + p3;
    lemma_text_word(t1, session, r2, p2);
    reveal_strlit("");
    let x = "; else "@;
    let z = "tmux select-window -t "@;
    let front = t1 + s + t2 + s;
    lemma_grouping(front, x, made);
    lemma_grouping(front, x + made, z);
    lemma_nine(t1, s, t2, s, t3, crate::tmux::quoted(first), t4, s, t5);
    let attach = crate::tmux::attach_command(session, Some(windows), false);
    assert(attach == t1 + (s + r2));
    assert(crate::tmux::remote_command(session, Some(windows), false, 0, false) =~= attach);
    assert(seq![Part::Text(t1), Part::Word(session)] + p2 =~= seq![
        Part::Text(t1),
        Part::Word(session),
        Part::Text(t2),
        Part::Word(session),
        Part::Text(t3),
        Part::Word(first),
        Part::Text(t4),
        Part::Word(session),
        Part::Text(t5),
    ]);
}

/// The commands of one window.
proof fn lemma_bare_window(session: Seq<char>, i: nat, w: WindowModel)
    requires
        w.command is None,
    ensures
        reads(
            crate::tmux::window_commands(session, i, w),
            seq![
                Part::Text(
                    if i == 0 {
                        "tmux new-session -d -s "@
                    } else {
                        "tmux new-window -t "@
                    },
                ),
                Part::Word(session),
                Part::Text(" -n "@),
                Part::Word(w.name),
                Part::Text("; "@),
            ],
        ),
{
    let s = crate::tmux::quoted(session);
    let t1 = if i == 0 {
        "tmux new-session -d -s "@
    } else {
        "tmux new-window -t "@
    };
    let t2 = " -n "@;
    let t3 = "; "@;
    assert(t2.len() > 0 && t2[0] == ' ' && t3.len() > 0 && t3[0] == ';') by {
        reveal_strlit(" -n ");
        reveal_strlit("; ");
    }
    lemma_only_text(t3);
    let p3 = seq![Part::Text(t3)];
    lemma_text_word(t2, w.name, t3, p3);
    let r2 = t2 + (crate::tmux::quoted(w.name) + t3);
    let p2 = seq![Part::Text(t2), Part::Word(w.name)] + p3;
    lemma_text_word(t1, session, r2, p2);
    lemma_five(t1, s, t2, crate::tmux::quoted(w.name), t3);
    assert(crate::tmux::window_commands(session, i, w) == t1 + (s + r2));
    assert(seq![Part::Text(t1), Part::Word(session)] + p2 =~= seq![
        Part::Text(t1),
        Part::Word(session),
        Part::Text(t2),
        Part::Word(w.name),
        Part::Text(t3),
    ]);
}

/// The commands of one window that runs a command.
proof fn lemma_busy_window(session: Seq<char>, i: nat, w: WindowModel)
    requires
        w.command is Some,
    ensures
        reads(
            crate::tmux::window_commands(session, i, w),
            seq![
                Part::Text(
                    if i == 0 {
                        "tmux new-session -d -s "@
                    } else {
                        "tmux new-window -t "@
                    },
                ),
                Part::Word(session),
                Part::Text(" -n "@),
                Part::Word(w.name),
                Part::Text("; tmux send-keys -t "@),
                Part::Word(session + ":"@ + crate::text::decimal(i)),
                Part::Text(" "@),
                Part::Word(w.command->0),
                Part::Text(" C-m; "@),
            ],
        ),
{
    let s = crate::tmux::quoted(session);
    let n = crate::tmux::quoted(w.name);
    let c = w.command->0;
    let target = session + ":"@ + crate::text::decimal(i);
    let t1 = if i == 0 {
        "tmux new-session -d -s "@
    } else {
        "tmux new-window -t "@
    };
    let t2 = " -n "@;
    let t3 = "; tmux send-keys -t "@;
    let t4 = " "@;
    let t5 = " C-m; "@;
    assert(t2.len() > 0 && t2[0] == ' ' && t3.len() > 0 && t3[0] == ';' && t4.len() > 0 && t4[0] == ' ' && t5.len() > 0 && t5[0] == ' ' && t3 == "; "@
        + "tmux send-keys -t "@) by {
        reveal_strlit(" -n ");
        reveal_strlit("; ");
        reveal_strlit("tmux send-keys -t ");
        reveal_strlit("; tmux send-keys -t ");
        reveal_strlit(" ");
        reveal_strlit(" C-m; ");
    }
    lemma_only_text(t5);
    let p5 = seq![Part::Text(t5)];
    lemma_text_word(t4, c, t5, p5);
    let r4 = t4 + (crate::tmux::quoted(c) + t5);
    let p4 = seq![Part::Text(t4), Part::Word(c)] + p5;
    lemma_text_word(t3, target, r4, p4);
    let r3 = t3 + (crate::tmux::quoted(target) + r4);
    let p3 = seq![Part::Text(t3), Part::Word(target)] + p4;
    lemma_text_word(t2, w.name, r3, p3);
    let r2 = t2 + (n + r3);
    let p2 = seq![Part::Text(t2), Part::Word(w.name)] + p3;
    lemma_text_word(t1, session, r2, p2);
    let front = t1 + s + t2 + n;
    lemma_grouping(front, "; "@, "tmux send-keys -t "@);
    lemma_nine(t1, s, t2, n, t3, crate::tmux::quoted(target), t4, crate::tmux::quoted(c), t5);
    assert(crate::tmux::window_commands(session, i, w) == t1 + (s + r2));
    assert(seq![Part::Text(t1), Part::Word(session)] + p2 =~= seq![
        Part::Text(t1),
        Part::Word(session),
        Part::Text(t2),
        Part::Word(w.name),
        Part::Text(t3),
        Part::Word(target),
        Part::Text(t4),
        Part::Word(c),
        Part::Text(t5),
    ]);
}

/// What the `i`th window adds to the commands of a layout: it is made under its name,
/// the first one with the session, and where it has a command, that is typed into the
/// window with this number. What the windows before it added stays as it is.
pub proof fn law_window_is_made(session: Seq<char>, windows: Seq<WindowModel>, i: nat)
    requires
        i < windows.len(),
    ensures
        ({
            let before = crate::tmux::layout_commands(session, windows, i);
            let after = crate::tmux::layout_commands(session, windows, i + 1);
            let own = after.skip(before.len() as int);
            let making = if i == 0 {
                "tmux new-session -d -s "@
            } else {
                "tmux new-window -t "@
            };
            &&& before.len() <= after.len()
            &&& after.take(before.len() as int) == before
            &&& match windows[i as int].command {
                None => reads(
                    own,
                    seq![
                        Part::Text(making),
                        Part::Word(session),
                        Part::Text(" -n "@),
                        Part::Word(windows[i as int].name),
                        Part::Text("; "@),
                    ],
                ),
                Some(c) => reads(
                    own,
                    seq![
                        Part::Text(making),
                        Part::Word(session),
                        Part::Text(" -n "@),
                        Part::Word(windows[i as int].name),
                        Part::Text("; tmux send-keys -t "@),
                        Part::Word(session + ":"@ + crate::text::decimal(i)),
                        Part::Text(" "@),
                        Part::Word(c),
                        Part::Text(" C-m; "@),
                    ],
                ),
            }
        }),
        crate::tmux::layout_commands(session, windows, 0) == Seq::<char>::empty(),
{
    let before = crate::tmux::layout_commands(session, windows, i);
    let after = crate::tmux::layout_commands(session, windows, i + 1);
    let w = windows[i as int];
    reveal_strlit("");
    assert(crate::tmux::layout_commands(session, windows, 0) =~= Seq::<char>::empty());
    let own = crate::tmux::window_commands(session, i, w);
    assert(after == before + own);
    assert(after.skip(before.len() as int) =~= own);
    assert(after.take(before.len() as int) =~= before);
    match w.command {
        None => lemma_bare_window(session, i, w),
        Some(c) => lemma_busy_window(session, i, w),
    }
}

/// The commands of the first windows of a layout begin those of more of them.
proof fn lemma_layout_grows(session: Seq<char>, windows: Seq<WindowModel>, i: nat, n: nat)
    requires
        i <= n,
    ensures
        ({
            let some = crate::tmux::layout_commands(session, windows, i);
            let all = crate::tmux::layout_commands(session, windows, n);
            some.len() <= all.len() && all.take(some.len() as int) == some
        }),
    decreases n - i,
{
    let some = crate::tmux::layout_commands(session, windows, i);
    let all = crate::tmux::layout_commands(session, windows, n);
    if i < n {
        let m = (n - 1) as nat;
        lemma_layout_grows(session, windows, i, m);
        let less = crate::tmux::layout_commands(session, windows, m);
        assert(all.take(some.len() as int) =~= less.take(some.len() as int));
    } else {
        assert(all.take(some.len() as int) =~= some);
    }
}

/// The command that types another one into a window.
spec fn typing(session: Seq<char>, i: nat, c: Seq<char>) -> Seq<char> {
    "tmux send-keys -t "@ + (crate::tmux::quoted(session + ":"@ + crate::text::decimal(i)) + (" "@ + (
    crate::tmux::quoted(c) + " C-m; "@)))
}

proof fn lemma_typing_reads(session: Seq<char>, i: nat, c: Seq<char>)
    ensures
        reads(
            typing(session, i, c),
            seq![
                Part::Text("tmux send-keys -t "@),
                Part::Word(session + ":"@ + crate::text::decimal(i)),
                Part::Text(" "@),
                Part::Word(c),
                Part::Text(" C-m; "@),
            ],
        ),
{
    let target = session + ":"@ + crate::text::decimal(i);
    let t1 = "tmux send-keys -t "@;
    let t2 = " "@;
    let t3 = " C-m; "@;
    assert(t2.len() > 0 && t2[0] == ' ' && t3.len() > 0 && t3[0] == ' ') by {
        reveal_strlit(" ");
        reveal_strlit(" C-m; ");
    }
    lemma_only_text(t3);
    let p3 = seq![Part::Text(t3)];
    lemma_text_word(t2, c, t3, p3);
    let r2 = t2 + (crate::tmux::quoted(c) + t3);
    let p2 = seq![Part::Text(t2), Part::Word(c)] + p3;
    lemma_text_word(t1, target, r2, p2);
    assert(seq![Part::Text(t1), Part::Word(target)] + p2 =~= seq![
        Part::Text(t1),
        Part::Word(target),
        Part::Text(t2),
        Part::Word(c),
        Part::Text(t3),
    ]);
}

proof fn lemma_typing_in_layout(session: Seq<char>, windows: Seq<WindowModel>, i: nat)
    requires
        i < windows.len(),
        windows[i as int].command is Some,
    ensures
        crate::text_laws::stands_in(
            typing(session, i, windows[i as int].command->0),
            crate::tmux::layout_commands(session, windows, windows.len()),
        ),
{
    let w = windows[i as int];
    let text = typing(session, i, w.command->0);
    let own = crate::tmux::window_commands(session, i, w);
    let none = Seq::<char>::empty();
    let head = crate::tmux::window_commands(session, i, (WindowModel { name: w.name, command: None }));
    let c = w.command->0;
    let target = session + ":"@ + crate::text::decimal(i);
    let t1 = "tmux send-keys -t "@;
    let q = crate::tmux::quoted(target);
    let r = " "@ + (crate::tmux::quoted(c) + " C-m; "@);
    lemma_five(head + t1, q, " "@, crate::tmux::quoted(c), " C-m; "@);
    lemma_grouping(head, t1, q + r);
    assert(own == head + text);
    assert(head + text + none =~= head + text);
    crate::text_laws::lemma_stands_in(head, text, none);
    let before = crate::tmux::layout_commands(session, windows, i);
    let after = crate::tmux::layout_commands(session, windows, i + 1);
    let all = crate::tmux::layout_commands(session, windows, windows.len());
    assert(after == before + own);
    lemma_layout_grows(session, windows, i + 1, windows.len());
    let more = all.skip(after.len() as int);
    assert(all =~= all.take(after.len() as int) + more);
    crate::text_laws::lemma_stands_deeper(text, before, own, more);
}

proof fn lemma_layout_in_command(
    part: Seq<char>,
    session: Seq<char>,
    windows: Seq<WindowModel>,
    lines: u32,
    local_echo: bool,
)
    requires
        windows.len() > 0,
        crate::text_laws::stands_in(
            part,
            crate::tmux::layout_commands(session, windows, windows.len()),
        ),
    ensures
        crate::text_laws::stands_in(
            part,
            crate::tmux::remote_command(session, Some(windows), false, lines, local_echo),
        ),
{
    let whole = crate::tmux::remote_command(session, Some(windows), false, lines, local_echo);
    let s = crate::tmux::quoted(session);
    let replay = crate::tmux::replay_command(session, lines) + crate::tmux::ready_command(local_echo);
    let attach = crate::tmux::attach_command(session, Some(windows), false);
    let none = Seq::<char>::empty();
    let front = "if tmux has-session -t "@ + s + " 2>/dev/null; then tmux attach -t "@ + s
        + "; else "@;
    let rest = "tmux select-window -t "@ + crate::tmux::quoted(session + ":0"@)
        + "; tmux attach -t "@ + s + "; fi"@;
    let all = crate::tmux::layout_commands(session, windows, windows.len());
    let sel = "tmux select-window -t "@;
    let first = crate::tmux::quoted(session + ":0"@);
    let t4 = "; tmux attach -t "@;
    let t5 = "; fi"@;
    lemma_five(front + all + sel, first, t4, s, t5);
    lemma_five(sel, first, t4, s, t5);
    lemma_grouping(front + all, sel, first + (t4 + (s + t5)));
    assert(attach == front + all + rest);
    crate::text_laws::lemma_stands_deeper(part, front, all, rest);
    assert(whole =~= replay + attach + none);
    crate::text_laws::lemma_stands_deeper(part, replay, attach, none);
}

/// The command of a window is typed into that window: somewhere in what the connection
/// runs stands a `send-keys` whose target the shell reads as the session, a colon and
/// the window's number, followed by that very command.
pub proof fn law_command_goes_to_its_window(
    session: Seq<char>,
    windows: Seq<WindowModel>,
    i: nat,
    lines: u32,
    local_echo: bool,
)
    requires
        i < windows.len(),
        windows[i as int].command is Some,
    ensures
        ({
            let whole = crate::tmux::remote_command(session, Some(windows), false, lines, local_echo);
            exists|from: int, to: int|
                0 <= from <= to <= whole.len() && reads(
                    #[trigger] whole.subrange(from, to),
                    seq![
                        Part::Text("tmux send-keys -t "@),
                        Part::Word(session + ":"@ + crate::text::decimal(i)),
                        Part::Text(" "@),
                        Part::Word(windows[i as int].command->0),
                        Part::Text(" C-m; "@),
                    ],
                )
        }),
        forall|j: nat|
            j != i ==> session + ":"@ + #[trigger] crate::text::decimal(j) != session + ":"@
                + crate::text::decimal(i),
{
    let whole = crate::tmux::remote_command(session, Some(windows), false, lines, local_echo);
    let c = windows[i as int].command->0;
    let text = typing(session, i, c);
    lemma_typing_reads(session, i, c);
    lemma_typing_in_layout(session, windows, i);
    lemma_layout_in_command(text, session, windows, lines, local_echo);
    let at = choose|at: int|
        0 <= at && at + text.len() <= whole.len() && #[trigger] whole.subrange(at, at + text.len())
            == text;
    assert(whole.subrange(at, at + text.len()) == text);
    assert forall|j: nat| j != i implies session + ":"@ + #[trigger] crate::text::decimal(j)
        != session + ":"@ + crate::text::decimal(i) by {
        crate::text_laws::law_decimals_differ(i, j);
        let n = (session + ":"@).len() as int;
        assert((session + ":"@ + crate::text::decimal(j)).skip(n) =~= crate::text::decimal(j));
        assert((session + ":"@ + crate::text::decimal(i)).skip(n) =~= crate::text::decimal(i));
    }
}

/// The pieces of a watched command, grouped from the end.
proof fn lemma_watched_grouping(
    t1: Seq<char>,
    s: Seq<char>,
    sp: Seq<char>,
    att: Seq<char>,
    a: Seq<char>,
    alt: Seq<char>,
    b: Seq<char>,
    c: Seq<char>,
    command: Seq<char>,
    d: Seq<char>,
)
    ensures
        t1 + s + sp + att + a + s + sp + alt + b + s + sp + att + c + command + d == t1 + (s + (sp + (
        att + (a + (s + (sp + (alt + (b + (s + (sp + (att + (c + command + d)))))))))))),
{
    let l1 = t1 + s;
    let l2 = l1 + sp;
    let l3 = l2 + att;
    let l4 = l3 + a;
    let l5 = l4 + s;
    let l6 = l5 + sp;
    let l7 = l6 + alt;
    let l8 = l7 + b;
    let l9 = l8 + s;
    let l10 = l9 + sp;
    let l11 = l10 + att;
    let r12 = c + command + d;
    lemma_grouping(l11, c, command);
    lemma_grouping(l11, c + command, d);
    lemma_grouping(l10, att, r12);
    let r11 = att + r12;
    lemma_grouping(l9, sp, r11);
    let r10 = sp + r11;
    lemma_grouping(l8, s, r10);
    let r9 = s + r10;
    lemma_grouping(l7, b, r9);
    let r8 = b + r9;
    lemma_grouping(l6, alt, r8);
    let r7 = alt + r8;
    lemma_grouping(l5, sp, r7);
    let r6 = sp + r7;
    lemma_grouping(l4, s, r6);
    let r5 = s + r6;
    lemma_grouping(l3, a, r5);
    let r4 = a + r5;
    lemma_grouping(l2, att, r4);
    let r3 = att + r4;
    lemma_grouping(l1, sp, r3);
    lemma_grouping(t1, s, sp + r3);
}

/// The watcher asks for the session that is attached to, runs the command as it is,
/// and hands its status on.
pub proof fn law_watcher(session: Seq<char>, command: Seq<char>)
    ensures
        reads(
            crate::tmux::watched_command(session, command),
            seq![
                Part::Text("attached=$(tmux display-message -p -t "@),
                Part::Word(session),
                Part::Text(" "@),
                Part::Word("#{session_attached}"@),
                Part::Text(
                    " 2>/dev/null || printf 0); (if ! sleep 0.05 2>/dev/null; then printf '\\033P+ssht;alt=1\\033\\\\'; exit; fi; armed=0; while :; do state=$(tmux display-message -p -t "@,
                ),
                Part::Word(session),
                Part::Text(" "@),
                Part::Word("#{alternate_on}"@),
                Part::Text(
                    " 2>/dev/null) || { sleep 0.05; continue; }; clients=$(tmux display-message -p -t "@,
                ),
                Part::Word(session),
                Part::Text(" "@),
                Part::Word("#{session_attached}"@),
                Part::Text(
                    " 2>/dev/null || printf 0); if [ \"$armed\" = 0 ] && [ \"$clients\" -gt \"$attached\" ] 2>/dev/null; then sleep 0.2; printf '\\033P+ssht;arm\\033\\\\\\033P+ssht;arm\\033\\\\'; armed=1; fi; printf '\\033P+ssht;alt=%s\\033\\\\\\033P+ssht;alt=%s\\033\\\\' \"$state\" \"$state\"; sleep 0.05; done) & watcher=$!; "@
                        + command
                        + "; status=$?; kill \"$watcher\" 2>/dev/null; wait \"$watcher\" 2>/dev/null; exit $status"@,
                ),
            ],
        ),
{
    let a = " 2>/dev/null || printf 0); (if ! sleep 0.05 2>/dev/null; then printf '\\033P+ssht;alt=1\\033\\\\'; exit; fi; armed=0; while :; do state=$(tmux display-message -p -t "@;
    let b = " 2>/dev/null) || { sleep 0.05; continue; }; clients=$(tmux display-message -p -t "@;
    let c = " 2>/dev/null || printf 0); if [ \"$armed\" = 0 ] && [ \"$clients\" -gt \"$attached\" ] 2>/dev/null; then sleep 0.2; printf '\\033P+ssht;arm\\033\\\\\\033P+ssht;arm\\033\\\\'; armed=1; fi; printf '\\033P+ssht;alt=%s\\033\\\\\\033P+ssht;alt=%s\\033\\\\' \"$state\" \"$state\"; sleep 0.05; done) & watcher=$!; "@;
    let d = "; status=$?; kill \"$watcher\" 2>/dev/null; wait \"$watcher\" 2>/dev/null; exit $status"@;
    let s = crate::tmux::quoted(session);
    let alt = "#{alternate_on}"@;
    let att = "#{session_attached}"@;
    let t1 = "attached=$(tmux display-message -p -t "@;
    let t2 = " "@;
    let t7 = c + command + d;
    assert(t2.len() > 0 && t2[0] == ' ' && a.len() > 0 && a[0] == ' ' && b.len() > 0 && b[0] == ' ' && t7.len() > 0 && t7[0] == ' ') by {
        reveal_strlit(" ");
        reveal_strlit(
            " 2>/dev/null || printf 0); (if ! sleep 0.05 2>/dev/null; then printf '\\033P+ssht;alt=1\\033\\\\'; exit; fi; armed=0; while :; do state=$(tmux display-message -p -t ",
        );
        reveal_strlit(
            " 2>/dev/null) || { sleep 0.05; continue; }; clients=$(tmux display-message -p -t ",
        );
        reveal_strlit(
            " 2>/dev/null || printf 0); if [ \"$armed\" = 0 ] && [ \"$clients\" -gt \"$attached\" ] 2>/dev/null; then sleep 0.2; printf '\\033P+ssht;arm\\033\\\\\\033P+ssht;arm\\033\\\\'; armed=1; fi; printf '\\033P+ssht;alt=%s\\033\\\\\\033P+ssht;alt=%s\\033\\\\' \"$state\" \"$state\"; sleep 0.05; done) & watcher=$!; ",
        );
    }
    let qalt = crate::tmux::quoted(alt);
    let qatt = crate::tmux::quoted(att);
    lemma_only_text(t7);
    let p7 = seq![Part::Text(t7)];
    lemma_text_word(t2, att, t7, p7);
    let r6 = t2 + (qatt + t7);
    let p6 = seq![Part::Text(t2), Part::Word(att)] + p7;
    lemma_text_word(b, session, r6, p6);
    let r5 = b + (s + r6);
    let p5 = seq![Part::Text(b), Part::Word(session)] + p6;
    lemma_text_word(t2, alt, r5, p5);
    let r4 = t2 + (qalt + r5);
    let p4 = seq![Part::Text(t2), Part::Word(alt)] + p5;
    lemma_text_word(a, session, r4, p4);
    let r3 = a + (s + r4);
    let p3 = seq![Part::Text(a), Part::Word(session)] + p4;
    lemma_text_word(t2, att, r3, p3);
    let r2 = t2 + (qatt + r3);
    let p2 = seq![Part::Text(t2), Part::Word(att)] + p3;
    lemma_text_word(t1, session, r2, p2);
    lemma_watched_grouping(t1, s, t2, qatt, a, qalt, b, c, command, d);
    assert(crate::tmux::watched_command(session, command) == t1 + (s + r2));
    assert(seq![Part::Text(t1), Part::Word(session)] + p2 =~= seq![
        Part::Text(t1),
        Part::Word(session),
        Part::Text(t2),
        Part::Word(att),
        Part::Text(a),
        Part::Word(session),
        Part::Text(t2),
        Part::Word(alt),
        Part::Text(b),
        Part::Word(session),
        Part::Text(t2),
        Part::Word(att),
        Part::Text(t7),
    ]);
}

/// A probe that printed something found sessions; one that could not connect, or was
/// killed, found out nothing; any other found none.
pub proof fn law_probe(code: i32)
    ensures
        crate::tmux::probe_says(Some(code), true) == Some(true),
        crate::tmux::probe_says(None, true) == Some(true),
        crate::tmux::probe_says(None, false) is None,
        crate::tmux::probe_says(Some(255), false) is None,
        code != 255 ==> crate::tmux::probe_says(Some(code), false) == Some(false),
{
}


/// A probe asks nothing, waits no longer than four seconds, takes new host keys, and
/// lists the sessions of the host that it is for.
pub proof fn law_probe_arguments(alias: Seq<char>)
    ensures
        ({
            let words = crate::tmux::probe_words(alias);
            &&& words.len() == 8
            &&& words[0] == "-o"@ && words[1] == "BatchMode=yes"@
            &&& words[2] == "-o"@ && words[3] == "ConnectTimeout=4"@
            &&& words[4] == "-o"@ && words[5] == "StrictHostKeyChecking=accept-new"@
            &&& words[6] == alias
            &&& words[7] == "tmux ls 2>/dev/null"@
        }),
{
}

} // verus!
