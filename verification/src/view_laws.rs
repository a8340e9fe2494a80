//! What holds of everything that is shown.

use vstd::prelude::*;

use crate::model::HostModel;
use crate::model::HostSource;
use crate::picker::AppModel;
use crate::picker::Mode;
use crate::picker::ScreenModel;
use crate::view::Role;

verus! {

/// A text is filled up with spaces behind it, to the width and not beyond; one that is
/// too long is left as it is.
pub proof fn law_padding(s: Seq<char>, width: nat)
    ensures
        s.len() >= width ==> crate::view::padded(s, width) == s,
        s.len() < width ==> crate::view::padded(s, width).len() == width,
        crate::view::padded(s, width).take(s.len() as int) == s,
        forall|i: int|
            s.len() <= i < crate::view::padded(s, width).len() ==> #[trigger] crate::view::padded(
                s,
                width,
            )[i] == ' ',
{
    assert(crate::view::padded(s, width).take(s.len() as int) =~= s);
}

/// A running session, a host without one, a host that could not be asked and one that
/// was not asked yet look different, and only a running session has a word.
pub proof fn law_status_marks()
    ensures
        crate::view::status_marks(Some(Some(true))) == ("●"@, Role::Running, "tmux"@),
        crate::view::status_marks(Some(Some(false))) == ("○"@, Role::Faint, ""@),
        crate::view::status_marks(Some(None)) == ("⨯"@, Role::Failure, ""@),
        crate::view::status_marks(None) == ("•"@, Role::Faint, ""@),
{
}

/// The line of a host begins with the mark of its tmux, its alias, where a connection
/// goes, and when the last one was made.
pub proof fn law_row_begins(h: HostModel, status: Option<Option<bool>>, width: nat, when: Seq<char>)
    ensures
        ({
            let row = crate::view::row_pieces(h, status, width, when);
            &&& row.len() >= 6
            &&& row[0] == (
                crate::view::status_marks(status).0 + " "@,
                crate::view::status_marks(status).1,
            )
            &&& row[1] == (crate::view::padded(h.alias, width), Role::Name)
            &&& row[3] == (h.endpoint(), Role::Accent)
            &&& row[5] == (when, Role::Faint)
        }),
{
}

/// What else the line of a host says: how often it was connected to, where that is at
/// all; that tmux is running, where it is; that the host is a known host, where the ssh
/// configuration does not name it; and its notes, where it has some. Each is said
/// whether or not the others are.
pub proof fn law_row_goes_on(h: HostModel, status: Option<Option<bool>>, width: nat, when: Seq<char>)
    ensures
        ({
            let row = crate::view::row_pieces(h, status, width, when);
            let n = 6 + (if h.state.connection_count > 0 {
                1int
            } else {
                0int
            });
            let m = n + (if status == Some(Some(true)) {
                1int
            } else {
                0int
            });
            let k = m + (if h.source == HostSource::KnownHosts {
                1int
            } else {
                0int
            });
            let noted = h.meta.notes is Some || h.state.notes is Some;
            &&& row.len() == k + (if noted {
                1int
            } else {
                0int
            })
            &&& h.state.connection_count > 0 ==> row[6] == (
                "  ×"@ + crate::text::decimal(h.state.connection_count as nat),
                Role::Faint,
            )
            &&& status == Some(Some(true)) ==> row[n] == ("  "@ + "tmux"@, Role::Running)
            &&& h.source == HostSource::KnownHosts ==> row[m] == (
                "  ("@ + "known_hosts"@ + ")"@,
                Role::Faint,
            )
            &&& h.meta.notes is Some ==> row[k] == ("  — "@ + h.meta.notes->0, Role::Remark)
            &&& h.meta.notes is None && h.state.notes is Some ==> row[k] == (
                "  — "@ + h.state.notes->0,
                Role::Remark,
            )
        }),
{
}

/// No alias is longer than the longest, and one is as long.
pub proof fn law_longest_alias(hosts: Seq<HostModel>)
    ensures
        forall|i: int|
            0 <= i < hosts.len() ==> (#[trigger] hosts[i]).alias.len() <= crate::view::longest_alias(
                hosts,
            ),
        hosts.len() > 0 ==> exists|i: int|
            0 <= i < hosts.len() && (#[trigger] hosts[i]).alias.len() == crate::view::longest_alias(
                hosts,
            ),
    decreases hosts.len(),
{
    if hosts.len() > 0 {
        let front = hosts.drop_last();
        law_longest_alias(front);
        assert forall|i: int| 0 <= i < hosts.len() implies (#[trigger] hosts[i]).alias.len()
            <= crate::view::longest_alias(hosts) by {
            if i < front.len() {
                assert(front[i] == hosts[i]);
            }
        }
        let last = hosts[hosts.len() - 1];
        if last.alias.len() <= crate::view::longest_alias(front) && front.len() > 0 {
            let i = choose|i: int|
                0 <= i < front.len() && (#[trigger] front[i]).alias.len()
                    == crate::view::longest_alias(front);
            assert(hosts[i] == front[i]);
        } else {
            assert(hosts[hosts.len() - 1].alias.len() == crate::view::longest_alias(hosts));
        }
    }
}

/// The column of aliases is as wide as the longest of them, between 8 and 28.
pub proof fn law_column_width(longest: nat)
    ensures
        8 <= longest <= 28 ==> crate::view::column_width(longest) == longest,
        longest < 8 ==> crate::view::column_width(longest) == 8,
        longest > 28 ==> crate::view::column_width(longest) == 28,
{
}

/// The count says first how many hosts are listed, and then how many there are.
pub proof fn law_count(listed: nat, all: nat)
    ensures
        crate::view::count_text(listed, all) == " "@ + crate::text::decimal(listed) + "/"@
            + crate::text::decimal(all) + " hosts "@,
{
}

/// A place in the middle takes its share of an area, never more than all of it, and
/// leaves as much before it as behind it, but for an odd cell.
pub proof fn law_centered(size: int, pct: int)
    requires
        0 <= size,
        0 <= pct,
        0 <= size * pct,
    ensures
        ({
            let (start, len) = crate::view::centered(size, pct);
            let behind = size - start - len;
            &&& 0 <= start && 0 <= len && start + len <= size
            &&& size * pct / 100 <= size ==> len == size * pct / 100
            &&& size * pct / 100 > size ==> len == size
            &&& start <= behind <= start + 1
        }),
{
}

/// A passphrase is shown as one star for each of its characters, and a cursor.
pub proof fn law_mask(passphrase: Seq<char>)
    ensures
        passphrase.len() == 0 ==> crate::view::masked(passphrase) == Seq::<char>::empty(),
        passphrase.len() > 0 ==> crate::view::masked(passphrase) == Seq::new(
            passphrase.len(),
            |i: int| '*',
        ) + "█"@,
{
    if passphrase.len() == 0 {
        assert(crate::view::masked(passphrase) =~= Seq::<char>::empty());
    }
}

/// The lines of the settings are the name, the address, the username and the password.
/// A line shows its value, with a cursor while it is edited; a password is hidden
/// unless it is edited.
pub proof fn law_settings_lines(s: ScreenModel, i: int)
    requires
        crate::picker::screen_wf(s),
        0 <= i < 4,
    ensures
        ({
            let line = crate::view::field_pieces(s, i);
            let value = s.fields[i].value;
            let label = seq!["Name"@, "Address"@, "Username"@, "Password"@][i];
            let selected = s.selected == i;
            &&& line.len() == 2
            &&& line[0].0 == "  "@ + crate::view::padded(label, 9) + " "@
            &&& selected ==> line[0].1 == Role::Heading
            &&& !selected ==> line[0].1 == Role::Faint
            &&& i < 3 && !(selected && s.editing) ==> line[1] == (value, Role::Value)
            &&& i < 3 && selected && s.editing ==> line[1] == (value + "█"@, Role::Edited)
            &&& i == 3 && !selected ==> line[1] == ("********"@, Role::Value)
            &&& i == 3 && selected && !s.editing && value.len() > 0 ==> line[1] == (
                "********"@,
                Role::Value,
            )
            &&& i == 3 && selected && !s.editing && value.len() == 0 ==> line[1] == (
                "********"@ + " (↵ to unlock)"@,
                Role::Value,
            )
            &&& i == 3 && selected && s.editing && value.len() > 0 ==> line[1] == (
                value + "█"@,
                Role::Edited,
            )
            &&& i == 3 && selected && s.editing && value.len() == 0 ==> line[1] == (
                "█"@ + " (↵ to unlock)"@,
                Role::Edited,
            )
        }),
{
    reveal_strlit("");
    let line = crate::view::field_pieces(s, i);
    let value = s.fields[i].value;
    let none = ""@;
    assert(none =~= Seq::<char>::empty());
    assert(value + none + none =~= value);
    assert(value + "█"@ + none =~= value + "█"@);
    if value.len() == 0 {
        assert(value + "█"@ + " (↵ to unlock)"@ =~= "█"@ + " (↵ to unlock)"@);
    }
    assert("********"@ + none + none =~= "********"@);
    assert("********"@ + none + " (↵ to unlock)"@ =~= "********"@ + " (↵ to unlock)"@);
}

/// The line at the bottom shows the search while one is typed, with a cursor, and
/// keeps showing it afterwards; else it says what is being done.
pub proof fn law_bottom_line(s: AppModel)
    ensures
        ({
            let line = crate::view::input_pieces(s);
            &&& line.len() >= 2 && line[0] == ("❯ "@, Role::ModeColour)
            &&& s.mode == Mode::Search ==> line.len() == 3 && line[1] == (s.query, Role::Plain)
                && line[2] == ("█"@, Role::ModeColour)
            &&& s.mode == Mode::Normal && s.query.len() > 0 ==> line.len() == 2 && line[1] == (
                s.query,
                Role::Plain,
            )
            &&& s.mode == Mode::Normal && s.query.len() == 0 ==> line[1] == (
                "press / to search…"@,
                Role::Remark,
            )
            &&& s.mode == Mode::VaultUnlock ==> line[1] == ("enter vault passphrase"@, Role::Value)
            &&& s.mode == Mode::Settings && s.selected < s.filtered.len() ==> line[1] == (
                "editing "@ + s.hosts[s.filtered[s.selected] as int].alias,
                Role::Value,
            )
        }),
{
}


/// The question for the passphrase says what it is asked for, and is answered unseen; an
/// error is shown below it, and only where there is one.
pub proof fn law_unlock_screen(d: crate::picker::UnlockModel)
    ensures
        d.action is Save ==> crate::view::unlock_heading(d.action) == " Vault passphrase (save) "@,
        d.action is Connect ==> crate::view::unlock_heading(d.action)
            == " Vault passphrase (connect) "@,
        d.action is ReenterSettings ==> crate::view::unlock_heading(d.action)
            == " Vault passphrase "@,
        crate::view::unlock_pieces(d) == seq![
            ("  Passphrase: "@, Role::Accent),
            (crate::view::masked(d.passphrase), Role::Value),
        ],
        d.error is Some ==> crate::view::fault_piece(d) == Some(
            ("  "@ + d.error->0, Role::Failure),
        ),
        d.error is None ==> crate::view::fault_piece(d) is None,
{
}

/// Each mode has its name on the screen, and the keys that it takes.
pub proof fn law_badges()
    ensures
        crate::view::badge_of(Mode::Normal) == (
            " NORMAL "@,
            "j/k move · g/G top/bottom · / search · e settings · ⏎ connect · q quit"@,
        ),
        crate::view::badge_of(Mode::Search) == (
            " SEARCH "@,
            "type to filter · esc normal · ↑/↓ move · ⏎ connect"@,
        ),
        crate::view::badge_of(Mode::VaultUnlock) == (" VAULT "@, "↵ unlock · esc cancel"@),
        crate::view::badge_of(Mode::Settings) == (
            " SETTINGS "@,
            "j/k move · ↵ edit · esc save & back"@,
        ),
        crate::view::settings_keys(true) == "  ↵ save  esc cancel"@,
        crate::view::settings_keys(false) == "  j/k move  ↵ edit  esc save & back"@,
{
}


/// The heading of the list names the program, and a host's source goes by the name of
/// its file.
pub proof fn law_headings()
    ensures
        crate::view::title_pieces() == seq![
            (" "@, Role::Plain),
            ("ssht"@, Role::Heading),
            ("  SSH + tmux "@, Role::Faint),
        ],
        HostSource::SshConfig.name() == "ssh_config"@,
        HostSource::KnownHosts.name() == "known_hosts"@,
{
}

} // verus!
