//! What the picker shows: texts and what they are, without colours or a terminal.

use vstd::prelude::*;

use crate::model::Host;
use crate::model::HostModel;
use crate::model::HostSource;
use crate::picker::App;
use crate::picker::AppModel;
use crate::picker::Mode;
use crate::picker::ScreenModel;
use crate::picker::SettingsData;
use crate::picker::VaultUnlockData;
use crate::picker::VaultUnlockAction;
use crate::picker::ActionModel;
use crate::text::chars_of;
use crate::text::decimal_text;

verus! {

/// What a piece of text is, which decides how it looks.
#[derive(Debug, Clone, Copy, PartialEq, Eq, Structural)]
pub enum Role {
    Plain,
    /// A name in a list.
    Name,
    /// Something that belongs to the program.
    Accent,
    /// A heading.
    Heading,
    /// Something of less weight.
    Faint,
    /// A remark.
    Remark,
    /// Something that is running.
    Running,
    /// Something that failed.
    Failure,
    /// A value.
    Value,
    /// A value that is being edited.
    Edited,
    /// Whatever has the colour of the mode.
    ModeColour,
    /// The name of the mode.
    Badge,
}

/// A piece of text.
#[derive(Debug)]
pub struct Piece {
    pub text: String,
    pub role: Role,
}

impl View for Piece {
    type V = (Seq<char>, Role);

    open spec fn view(&self) -> (Seq<char>, Role) {
        (self.text@, self.role)
    }
}

/// The pieces of a line.
pub open spec fn pieces(v: Seq<Piece>) -> Seq<(Seq<char>, Role)> {
    Seq::new(v.len(), |i: int| v[i]@)
}

/// A text filled up with spaces to a width.
pub open spec fn padded(s: Seq<char>, width: nat) -> Seq<char> {
    if s.len() >= width {
        s
    } else {
        s + Seq::new((width - s.len()) as nat, |i: int| ' ')
    }
}

/// Fills a text up with spaces to a width.
pub fn pad_right(s: &str, width: usize) -> (r: String)
    ensures
        r@ == padded(s@, width as nat),
{
    let have: usize = chars_of(s).len();
    let mut out = s.to_string();
    let mut n: usize = have;
    assert(out@ =~= s@ + Seq::new(0, |i: int| ' '));
    while n < width
        invariant
            have == s@.len(),
            have <= n,
            n == have || n <= width,
            out@ == s@ + Seq::new((n - have) as nat, |i: int| ' '),
        decreases width - n,
    {
        out.push(' ');
        n = n + 1;
        assert(out@ =~= s@ + Seq::new((n - have) as nat, |i: int| ' '));
    }
    assert(out@ =~= padded(s@, width as nat));
    out
}

/// What is shown of a host's tmux: a mark, what it is, and a word. Nothing was heard
/// yet, a session is running, none is, or the host could not be asked.
pub open spec fn status_marks(status: Option<Option<bool>>) -> (Seq<char>, Role, Seq<char>) {
    match status {
        None => ("•"@, Role::Faint, ""@),
        Some(Some(true)) => ("●"@, Role::Running, "tmux"@),
        Some(Some(false)) => ("○"@, Role::Faint, ""@),
        Some(None) => ("⨯"@, Role::Failure, ""@),
    }
}

/// What is shown of a host's tmux.
pub fn status_visual(status: Option<Option<bool>>) -> (r: (&'static str, Role, &'static str))
    ensures
        (r.0@, r.1, r.2@) == status_marks(status),
{
    match status {
        None => ("•", Role::Faint, ""),
        Some(Some(true)) => ("●", Role::Running, "tmux"),
        Some(Some(false)) => ("○", Role::Faint, ""),
        Some(None) => ("⨯", Role::Failure, ""),
    }
}

/// The line of a host: the mark of its tmux, alias, endpoint, when it was last
/// connected to, how often, whether tmux is running, where it is known from if not
/// from the ssh configuration, and notes.
pub open spec fn row_pieces(
    h: HostModel,
    status: Option<Option<bool>>,
    alias_w: nat,
    when: Seq<char>,
) -> Seq<(Seq<char>, Role)> {
    let (dot, dot_role, tag) = status_marks(status);
    let notes = crate::picker::either(h.meta.notes, h.state.notes);
    let base = seq![
        (dot + " "@, dot_role),
        (padded(h.alias, alias_w), Role::Name),
        ("  "@, Role::Plain),
        (h.endpoint(), Role::Accent),
        ("  "@, Role::Plain),
        (when, Role::Faint),
    ];
    let count: Seq<(Seq<char>, Role)> = if h.state.connection_count > 0 {
        seq![("  ×"@ + crate::text::decimal(h.state.connection_count as nat), Role::Faint)]
    } else {
        seq![]
    };
    let running: Seq<(Seq<char>, Role)> = if status == Some(Some(true)) {
        seq![("  "@ + tag, Role::Running)]
    } else {
        seq![]
    };
    let origin: Seq<(Seq<char>, Role)> = if h.source == HostSource::KnownHosts {
        seq![("  ("@ + "known_hosts"@ + ")"@, Role::Faint)]
    } else {
        seq![]
    };
    let remark: Seq<(Seq<char>, Role)> = match notes {
        Some(n) => seq![("  — "@ + n, Role::Remark)],
        None => seq![],
    };
    base + count + running + origin + remark
}

/// A piece made of two texts.
fn piece(a: &str, b: &str, role: Role) -> (r: Piece)
    ensures
        r@ == (a@ + b@, role),
{
    let mut text = a.to_string();
    text.append(b);
    Piece { text, role }
}

/// A piece made of one text.
fn plain(a: &str, role: Role) -> (r: Piece)
    ensures
        r@ == (a@, role),
{
    Piece { text: a.to_string(), role }
}

/// The line of a host.
pub fn row(host: &Host, status: Option<Option<bool>>, alias_w: usize, when: &str) -> (r: Vec<Piece>)
    ensures
        pieces(r@) == row_pieces(host@, status, alias_w as nat, when@),
{
    let (dot, dot_role, tag) = status_visual(status);
    let mut out: Vec<Piece> = Vec::new();
    out.push(piece(dot, " ", dot_role));
    out.push(Piece { text: pad_right(host.alias.as_str(), alias_w), role: Role::Name });
    out.push(plain("  ", Role::Plain));
    out.push(Piece { text: host.endpoint(), role: Role::Accent });
    out.push(plain("  ", Role::Plain));
    out.push(plain(when, Role::Faint));
    if host.state.connection_count > 0 {
        let n = decimal_text(host.state.connection_count as u64);
        out.push(piece("  ×", n.as_str(), Role::Faint));
    }
    if let Some(Some(true)) = status {
        out.push(piece("  ", tag, Role::Running));
    }
    if host.source == HostSource::KnownHosts {
        let mut text = "  (".to_string();
        text.append(host.source.label());
        text.append(")");
        out.push(Piece { text, role: Role::Faint });
    }
    match &host.meta.notes {
        Some(n) => {
            out.push(piece("  — ", n.as_str(), Role::Remark));
        },
        None => {
            if let Some(n) = &host.state.notes {
                out.push(piece("  — ", n.as_str(), Role::Remark));
            }
        },
    }
    assert(pieces(out@) =~= row_pieces(host@, status, alias_w as nat, when@));
    out
}

/// The length of the longest alias.
pub open spec fn longest_alias(hosts: Seq<HostModel>) -> nat
    decreases hosts.len(),
{
    if hosts.len() == 0 {
        0
    } else {
        let rest = longest_alias(hosts.drop_last());
        if hosts.last().alias.len() > rest {
            hosts.last().alias.len()
        } else {
            rest
        }
    }
}

/// How wide a column is for its longest text: not below 8 nor above 28.
pub open spec fn column_width(longest: nat) -> nat {
    if longest < 8 {
        8
    } else if longest > 28 {
        28
    } else {
        longest
    }
}

/// How wide aliases are shown: as wide as the longest, but not below 8 nor above 28.
pub fn alias_width(hosts: &Vec<Host>) -> (r: usize)
    ensures
        r == column_width(longest_alias(crate::model::host_models(hosts@))),
{
    let ghost all = crate::model::host_models(hosts@);
    let mut n: usize = 0;
    for i in 0..hosts.len()
        invariant
            all == crate::model::host_models(hosts@),
            n == longest_alias(all.take(i as int)),
    {
        assert(all.take(i + 1).drop_last() =~= all.take(i as int));
        assert(all.take(i + 1).last() == hosts@[i as int]@);
        let len: usize = chars_of(hosts[i].alias.as_str()).len();
        if len > n {
            n = len;
        }
    }
    assert(all.take(hosts@.len() as int) =~= all);
    if n < 8 {
        8
    } else if n > 28 {
        28
    } else {
        n
    }
}

/// The heading of the list.
pub open spec fn title_pieces() -> Seq<(Seq<char>, Role)> {
    seq![(" "@, Role::Plain), ("ssht"@, Role::Heading), ("  SSH + tmux "@, Role::Faint)]
}

/// The heading of the list.
pub fn list_title() -> (r: Vec<Piece>)
    ensures
        pieces(r@) == title_pieces(),
{
    let mut out: Vec<Piece> = Vec::new();
    out.push(plain(" ", Role::Plain));
    out.push(plain("ssht", Role::Heading));
    out.push(plain("  SSH + tmux ", Role::Faint));
    assert(pieces(out@) =~= title_pieces());
    out
}

/// The count over the list.
pub open spec fn count_text(listed: nat, all: nat) -> Seq<char> {
    " "@ + crate::text::decimal(listed) + "/"@ + crate::text::decimal(all) + " hosts "@
}

/// The count over the list: how many hosts are listed, and how many there are.
pub fn list_count(app: &App) -> (r: String)
    ensures
        r@ == count_text(app@.filtered.len(), app@.hosts.len()),
{
    let mut out = " ".to_string();
    out.append(decimal_text(app.filtered.len() as u64).as_str());
    out.append("/");
    out.append(decimal_text(app.hosts.len() as u64).as_str());
    out.append(" hosts ");
    out
}

/// A stretch in the middle of another, of which it takes so many per cent and no more
/// than all: where it begins and how long it is.
pub open spec fn centered(size: int, pct: int) -> (int, int) {
    let part = size * pct / 100;
    if part < size {
        ((size - part) / 2, part)
    } else {
        (0, size)
    }
}

/// A place in the middle of an area, of which it takes so many per cent: where it
/// begins and how large it is.
pub fn centered_rect(width: u16, height: u16, pct_x: u16, pct_y: u16) -> (r: (u16, u16, u16, u16))
    requires
        width * pct_x <= 0xffff,
        height * pct_y <= 0xffff,
    ensures
        (r.0 as int, r.2 as int) == centered(width as int, pct_x as int),
        (r.1 as int, r.3 as int) == centered(height as int, pct_y as int),
{
    let w: u16 = width * pct_x / 100;
    let h: u16 = height * pct_y / 100;
    let x: u16 = if w < width {
        (width - w) / 2
    } else {
        0
    };
    let y: u16 = if h < height {
        (height - h) / 2
    } else {
        0
    };
    let rw: u16 = if w < width {
        w
    } else {
        width
    };
    let rh: u16 = if h < height {
        h
    } else {
        height
    };
    (x, y, rw, rh)
}

/// The heading of the question for the passphrase, by what it is asked for.
pub open spec fn unlock_heading(action: ActionModel) -> Seq<char> {
    match action {
        ActionModel::Save(a, s) => " Vault passphrase (save) "@,
        ActionModel::Connect(a) => " Vault passphrase (connect) "@,
        ActionModel::ReenterSettings => " Vault passphrase "@,
    }
}

/// The heading of the question for the passphrase, by what it is asked for.
pub fn unlock_title(data: &VaultUnlockData) -> (r: &'static str)
    ensures
        r@ == unlock_heading(data@.action),
{
    match &data.action {
        VaultUnlockAction::Save(a, s) => " Vault passphrase (save) ",
        VaultUnlockAction::Connect(a) => " Vault passphrase (connect) ",
        VaultUnlockAction::ReenterSettings => " Vault passphrase ",
    }
}

/// What is shown of a passphrase: one star for each character, and a cursor behind
/// them where there are any.
pub open spec fn masked(passphrase: Seq<char>) -> Seq<char> {
    let stars = Seq::new(passphrase.len(), |i: int| '*');
    if passphrase.len() == 0 {
        stars
    } else {
        stars + "█"@
    }
}

/// The line in which the passphrase is typed.
pub open spec fn unlock_pieces(d: crate::picker::UnlockModel) -> Seq<(Seq<char>, Role)> {
    seq![("  Passphrase: "@, Role::Accent), (masked(d.passphrase), Role::Value)]
}

/// The line that says why the last passphrase was refused.
pub open spec fn fault_piece(d: crate::picker::UnlockModel) -> Option<(Seq<char>, Role)> {
    match d.error {
        Some(e) => Some(("  "@ + e, Role::Failure)),
        None => None,
    }
}

/// The line in which the passphrase is typed.
pub fn unlock_line(data: &VaultUnlockData) -> (r: Vec<Piece>)
    ensures
        pieces(r@) == unlock_pieces(data@),
{
    let len: usize = chars_of(data.passphrase.as_str()).len();
    let mut stars = String::new();
    assert(stars@ =~= Seq::new(0, |i: int| '*'));
    for i in 0..len
        invariant
            stars@ == Seq::new(i as nat, |j: int| '*'),
    {
        stars.push('*');
        assert(stars@ =~= Seq::new((i + 1) as nat, |j: int| '*'));
    }
    if len > 0 {
        stars.append("█");
    }
    let mut out: Vec<Piece> = Vec::new();
    out.push(plain("  Passphrase: ", Role::Accent));
    out.push(Piece { text: stars, role: Role::Value });
    assert(pieces(out@) =~= unlock_pieces(data@));
    out
}

/// The line that says why the last passphrase was refused.
pub fn unlock_error(data: &VaultUnlockData) -> (r: Option<Piece>)
    ensures
        match r {
            Some(p) => fault_piece(data@) == Some(p@),
            None => fault_piece(data@) is None,
        },
{
    match &data.error {
        Some(e) => Some(piece("  ", e.as_str(), Role::Failure)),
        None => None,
    }
}

/// The name of a line of the settings.
pub open spec fn label_of(i: int) -> Seq<char> {
    if i == 0 {
        "Name"@
    } else if i == 1 {
        "Address"@
    } else if i == 2 {
        "Username"@
    } else {
        "Password"@
    }
}

/// A line of the settings: its name and its value. A password is hidden unless it is
/// being edited; an empty one says, where it is selected, how to unlock it.
pub open spec fn field_pieces(s: ScreenModel, i: int) -> Seq<(Seq<char>, Role)> {
    let selected = i == s.selected;
    let editing = selected && s.editing;
    let value = s.fields[i].value;
    let shown = if i == 3 && !editing {
        "********"@
    } else {
        value
    };
    let cursor = if editing {
        "█"@
    } else {
        ""@
    };
    let hint = if selected && i == 3 && value.len() == 0 {
        " (↵ to unlock)"@
    } else {
        ""@
    };
    seq![
        (
            "  "@ + padded(label_of(i), 9) + " "@,
            if selected {
                Role::Heading
            } else {
                Role::Faint
            },
        ),
        (
            shown + cursor + hint,
            if editing {
                Role::Edited
            } else {
                Role::Value
            },
        ),
    ]
}

/// A line of the settings.
pub fn field_line(s: &SettingsData, i: usize) -> (r: Vec<Piece>)
    requires
        crate::picker::screen_wf(s@),
        i < 4,
    ensures
        pieces(r@) == field_pieces(s@, i as int),
{
    assert(s.fields@.len() == s@.fields.len());
    assert(s@.fields[i as int] == s.fields@[i as int]@);
    let selected = i == s.selected;
    let editing = selected && s.editing;
    let label = if i == 0 {
        "Name"
    } else if i == 1 {
        "Address"
    } else if i == 2 {
        "Username"
    } else {
        "Password"
    };
    let mut head = "  ".to_string();
    head.append(pad_right(label, 9).as_str());
    head.append(" ");
    let mut text = if i == 3 && !editing {
        "********".to_string()
    } else {
        s.fields[i].value.clone()
    };
    if editing {
        text.append("█");
    } else {
        text.append("");
    }
    if selected && i == 3 && s.fields[i].value.as_str().is_empty() {
        text.append(" (↵ to unlock)");
    } else {
        text.append("");
    }
    let head_role = if selected {
        Role::Heading
    } else {
        Role::Faint
    };
    let role = if editing {
        Role::Edited
    } else {
        Role::Value
    };
    let mut out: Vec<Piece> = Vec::new();
    out.push(Piece { text: head, role: head_role });
    out.push(Piece { text, role });
    assert(pieces(out@) =~= field_pieces(s@, i as int));
    out
}

/// What can be done in the settings.
pub open spec fn settings_keys(editing: bool) -> Seq<char> {
    if editing {
        "  ↵ save  esc cancel"@
    } else {
        "  j/k move  ↵ edit  esc save & back"@
    }
}

/// What can be done in the settings.
pub fn settings_hint(editing: bool) -> (r: &'static str)
    ensures
        r@ == settings_keys(editing),
{
    if editing {
        "  ↵ save  esc cancel"
    } else {
        "  j/k move  ↵ edit  esc save & back"
    }
}

/// The name of a mode, and what can be done in it.
pub open spec fn badge_of(mode: Mode) -> (Seq<char>, Seq<char>) {
    match mode {
        Mode::Normal => (
            " NORMAL "@,
            "j/k move · g/G top/bottom · / search · e settings · ⏎ connect · q quit"@,
        ),
        Mode::Search => (" SEARCH "@, "type to filter · esc normal · ↑/↓ move · ⏎ connect"@),
        Mode::VaultUnlock => (" VAULT "@, "↵ unlock · esc cancel"@),
        Mode::Settings => (" SETTINGS "@, "j/k move · ↵ edit · esc save & back"@),
    }
}

/// The name of the mode, and what can be done in it.
pub fn mode_badge(mode: Mode) -> (r: (&'static str, &'static str))
    ensures
        (r.0@, r.1@) == badge_of(mode),
{
    match mode {
        Mode::Normal => (
            " NORMAL ",
            "j/k move · g/G top/bottom · / search · e settings · ⏎ connect · q quit",
        ),
        Mode::Search => (" SEARCH ", "type to filter · esc normal · ↑/↓ move · ⏎ connect"),
        Mode::VaultUnlock => (" VAULT ", "↵ unlock · esc cancel"),
        Mode::Settings => (" SETTINGS ", "j/k move · ↵ edit · esc save & back"),
    }
}

/// What stands in the line at the bottom, behind its prompt.
pub open spec fn input_pieces(s: AppModel) -> Seq<(Seq<char>, Role)> {
    let prompt = seq![("❯ "@, Role::ModeColour)];
    match s.mode {
        Mode::VaultUnlock => prompt.push(("enter vault passphrase"@, Role::Value)),
        Mode::Settings => prompt.push(
            ("editing "@ + crate::picker::or_empty(s.selected_name()), Role::Value),
        ),
        Mode::Normal => if s.query.len() == 0 {
            prompt.push(("press / to search…"@, Role::Remark))
        } else {
            prompt.push((s.query, Role::Plain))
        },
        Mode::Search => prompt.push((s.query, Role::Plain)).push(("█"@, Role::ModeColour)),
    }
}

/// What stands in the line at the bottom.
pub fn input_line(app: &App) -> (r: Vec<Piece>)
    requires
        app@.wf(),
    ensures
        pieces(r@) == input_pieces(app@),
{
    let mut out: Vec<Piece> = Vec::new();
    out.push(plain("❯ ", Role::ModeColour));
    match app.mode {
        Mode::VaultUnlock => {
            out.push(plain("enter vault passphrase", Role::Value));
        },
        Mode::Settings => {
            let alias = match app.selected_alias() {
                Some(a) => a,
                None => {
                    let empty = String::new();
                    assert(empty@ =~= Seq::<char>::empty());
                    empty
                },
            };
            out.push(piece("editing ", alias.as_str(), Role::Value));
        },
        Mode::Normal => {
            if app.query.as_str().is_empty() {
                out.push(plain("press / to search…", Role::Remark));
            } else {
                out.push(plain(app.query.as_str(), Role::Plain));
            }
        },
        Mode::Search => {
            out.push(plain(app.query.as_str(), Role::Plain));
            out.push(plain("█", Role::ModeColour));
        },
    }
    assert(pieces(out@) =~= input_pieces(app@));
    out
}

/// A passphrase is never shown: what is shown depends on its length alone.
pub proof fn law_passphrase_is_hidden(a: Seq<char>, b: Seq<char>)
    requires
        a.len() == b.len(),
    ensures
        masked(a) == masked(b),
{
    assert(Seq::new(a.len(), |i: int| '*') =~= Seq::new(b.len(), |i: int| '*'));
}

/// A password that is not being edited is never shown: its line is the same for every
/// password, but for an empty one.
pub proof fn law_password_is_hidden(s: ScreenModel, a: Seq<char>, b: Seq<char>)
    requires
        crate::picker::screen_wf(s),
        !(s.selected == 3 && s.editing),
        a.len() > 0,
        b.len() > 0,
    ensures
        ({
            let f = s.fields[3];
            let x = ScreenModel {
                fields: s.fields.update(3, crate::picker::FieldModel { value: a, ..f }),
                ..s
            };
            let y = ScreenModel {
                fields: s.fields.update(3, crate::picker::FieldModel { value: b, ..f }),
                ..s
            };
            field_pieces(x, 3) == field_pieces(y, 3)
        }),
{
}

} // verus!
