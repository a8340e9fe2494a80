//! What each key of the picker does.

use vstd::prelude::*;

use crate::model::HostModel;
use crate::picker::ActionModel;
use crate::picker::AppModel;
use crate::picker::FieldModel;
use crate::picker::Key;
use crate::picker::Mode;
use crate::picker::RequestModel;
use crate::picker::ScreenModel;
use crate::picker::UnlockModel;
use crate::picker::VaultOnDisk;
use crate::vault::SettingsModel;
use crate::vault::VaultModel;

verus! {

/// Whether the list is being looked through.
pub open spec fn in_list(s: AppModel) -> bool {
    s.mode == Mode::Normal || s.mode == Mode::Search
}

/// Whether a key moves the selection by so many lines and does nothing else: the
/// selection stops at the ends of the list.
pub open spec fn moves_by(s: AppModel, key: Key, ctrl: bool, disk: VaultOnDisk, n: int) -> bool {
    let (next, exit, request) = crate::picker::any_key(s, key, ctrl, disk);
    let last = s.filtered.len() - 1;
    &&& exit is None && request is None
    &&& next == (AppModel { selected: next.selected, ..s })
    &&& s.filtered.len() == 0 ==> next.selected == s.selected
    &&& s.filtered.len() > 0 && 0 <= s.selected + n <= last ==> next.selected == s.selected + n
    &&& s.filtered.len() > 0 && s.selected + n < 0 ==> next.selected == 0
    &&& s.filtered.len() > 0 && s.selected + n > last ==> next.selected == last
}

/// The arrows move by a line and the page keys by what is shown, whether or not a
/// search is typed; so do Ctrl-n and Ctrl-p by a line, and Ctrl-d by half of what is
/// shown.
pub proof fn law_moving(s: AppModel, ctrl: bool, disk: VaultOnDisk)
    requires
        in_list(s),
    ensures
        moves_by(s, Key::Down, ctrl, disk, 1),
        moves_by(s, Key::Up, ctrl, disk, -1),
        moves_by(s, Key::PageDown, ctrl, disk, s.viewport),
        moves_by(s, Key::PageUp, ctrl, disk, -s.viewport),
        moves_by(s, Key::Char('n'), true, disk, 1),
        moves_by(s, Key::Char('p'), true, disk, -1),
        s.viewport >= 4 ==> moves_by(s, Key::Char('d'), true, disk, s.viewport / 2),
        0 <= s.viewport < 4 ==> moves_by(s, Key::Char('d'), true, disk, 1),
{
}

/// While no search is typed, letters move too: `j` and `k` by a line, `g` and `G` to the
/// ends, and Ctrl-u up by half of what is shown.
pub proof fn law_moving_by_letters(s: AppModel, disk: VaultOnDisk)
    requires
        s.mode == Mode::Normal,
        s.wf(),
    ensures
        moves_by(s, Key::Char('j'), false, disk, 1),
        moves_by(s, Key::Char('k'), false, disk, -1),
        s.viewport >= 4 ==> moves_by(s, Key::Char('u'), true, disk, -(s.viewport / 2)),
        s.viewport < 4 ==> moves_by(s, Key::Char('u'), true, disk, -1),
        moves_by(s, Key::Char('g'), false, disk, -s.selected),
        s.filtered.len() > 0 ==> moves_by(
            s,
            Key::Char('G'),
            false,
            disk,
            s.filtered.len() - 1 - s.selected,
        ),
{
}

/// Keys that end the picker without a host: Ctrl-c and Ctrl-g wherever the list is
/// looked through, and `q` and Esc while no search is typed. Nothing changes.
pub proof fn law_quitting(s: AppModel, ctrl: bool, disk: VaultOnDisk)
    requires
        in_list(s),
    ensures
        crate::picker::any_key(s, Key::Char('c'), true, disk) == (
            s,
            Some(None::<Seq<char>>),
            None::<RequestModel>,
        ),
        crate::picker::any_key(s, Key::Char('g'), true, disk) == (
            s,
            Some(None::<Seq<char>>),
            None::<RequestModel>,
        ),
        s.mode == Mode::Normal ==> crate::picker::any_key(s, Key::Char('q'), ctrl, disk) == (
            s,
            Some(None::<Seq<char>>),
            None::<RequestModel>,
        ),
        s.mode == Mode::Normal ==> crate::picker::any_key(s, Key::Esc, ctrl, disk) == (
            s,
            Some(None::<Seq<char>>),
            None::<RequestModel>,
        ),
        s.mode == Mode::Search ==> crate::picker::any_key(s, Key::Esc, ctrl, disk) == (
            AppModel { mode: Mode::Normal, ..s },
            None::<Option<Seq<char>>>,
            None::<RequestModel>,
        ),
{
}

/// Enter connects to the selected host, and so does `l` while no search is typed: the
/// picker ends with its alias, unless the vault is locked and may have settings for it,
/// which are asked for first. Without a selection the picker ends without a host.
pub proof fn law_connecting(s: AppModel, ctrl: bool, disk: VaultOnDisk)
    requires
        in_list(s),
        s.wf(),
    ensures
        ({
            let (next, exit, request) = crate::picker::any_key(s, Key::Enter, ctrl, disk);
            let host = s.filtered[s.selected] as int;
            let alias = s.hosts[host].alias;
            let picked = s.selected < s.filtered.len();
            let locked = s.vault is None && disk.index.may_hold(alias);
            &&& request is None
            &&& !picked ==> next == s && exit == Some(None::<Seq<char>>)
            &&& picked && !locked ==> next == s && exit == Some(Some(alias))
            &&& picked && locked ==> exit is None && next == (AppModel {
                mode: Mode::VaultUnlock,
                unlock: Some(
                    UnlockModel {
                        passphrase: Seq::empty(),
                        error: None,
                        host_idx: host,
                        action: ActionModel::Connect(alias),
                    },
                ),
                ..s
            })
        }),
        s.mode == Mode::Normal ==> crate::picker::any_key(s, Key::Char('l'), false, disk)
            == crate::picker::any_key(s, Key::Enter, ctrl, disk),
{
}

/// A search is begun with a slash, `s` or `i`; nothing else changes then.
pub proof fn law_search_begins(s: AppModel, disk: VaultOnDisk, c: char)
    requires
        s.mode == Mode::Normal,
        c == '/' || c == 's' || c == 'i',
    ensures
        crate::picker::any_key(s, Key::Char(c), false, disk) == (
            AppModel { mode: Mode::Search, ..s },
            None::<Option<Seq<char>>>,
            None::<RequestModel>,
        ),
{
}

/// Whether a key makes a search out of another: the list is that of the new search, and
/// the selection stays where it is as long as the list is long enough.
pub open spec fn searches(
    s: AppModel,
    key: Key,
    ctrl: bool,
    disk: VaultOnDisk,
    query: Seq<char>,
) -> bool {
    let (next, exit, request) = crate::picker::any_key(s, key, ctrl, disk);
    let list = crate::listing::listing(s.hosts, query);
    &&& exit is None && request is None
    &&& next == (AppModel { query, filtered: list, selected: next.selected, ..s })
    &&& s.selected < list.len() ==> next.selected == s.selected
    &&& s.selected >= list.len() && list.len() > 0 ==> next.selected == list.len() - 1
    &&& s.selected >= list.len() && list.len() == 0 ==> next.selected == 0
}

/// While a search is typed every character goes into it, letters that move elsewhere
/// too; Backspace takes one off, and Ctrl-u all of them.
pub proof fn law_searching(s: AppModel, c: char, disk: VaultOnDisk)
    requires
        s.mode == Mode::Search,
    ensures
        searches(s, Key::Char(c), false, disk, s.query.push(c)),
        s.query.len() > 0 ==> searches(s, Key::Backspace, false, disk, s.query.drop_last()),
        s.query.len() == 0 ==> searches(s, Key::Backspace, false, disk, s.query),
        searches(s, Key::Char('u'), true, disk, Seq::empty()),
{
}

/// Ctrl-w takes the last word off a search, with the white space behind it, and leaves
/// what stands before it.
pub proof fn law_word_is_erased(
    s: AppModel,
    head: Seq<char>,
    word: Seq<char>,
    blank: Seq<char>,
    disk: VaultOnDisk,
)
    requires
        s.mode == Mode::Search,
        s.query == head + word + blank,
        head.len() == 0 || crate::text::is_space(head.last()),
        word.len() > 0,
        crate::text_laws::is_solid(word),
        crate::text_laws::is_blank(blank),
    ensures
        searches(s, Key::Char('w'), true, disk, head),
{
    let text = head + word;
    assert(text.last() == word[word.len() - 1]);
    lemma_trim_end(text, blank);
    assert(s.query =~= text + blank);
    lemma_run(head, word);
}

proof fn lemma_trim_end(s: Seq<char>, blank: Seq<char>)
    requires
        s.len() > 0,
        !crate::text::is_space(s.last()),
        crate::text_laws::is_blank(blank),
    ensures
        crate::text::trim_end(s + blank) == s,
    decreases blank.len(),
{
    if blank.len() == 0 {
        assert(s + blank =~= s);
    } else {
        assert(crate::text::is_space(blank[blank.len() - 1]));
        let less = blank.drop_last();
        assert forall|i: int| 0 <= i < less.len() implies crate::text::is_space(#[trigger] less[i]) by {
            assert(less[i] == blank[i]);
        }
        assert((s + blank).drop_last() =~= s + less);
        lemma_trim_end(s, less);
    }
}

proof fn lemma_run(head: Seq<char>, word: Seq<char>)
    requires
        head.len() == 0 || crate::text::is_space(head.last()),
        crate::text_laws::is_solid(word),
    ensures
        crate::picker::without_run(head + word) == head,
    decreases word.len(),
{
    if word.len() == 0 {
        assert(head + word =~= head);
    } else {
        let less = word.drop_last();
        assert(!crate::text::is_space(word[word.len() - 1]));
        assert forall|i: int| 0 <= i < less.len() implies !crate::text::is_space(#[trigger] less[i]) by {
            assert(less[i] == word[i]);
        }
        assert((head + word).drop_last() =~= head + less);
        lemma_run(head, less);
    }
}

/// `e` opens the settings of the selected host. Each line holds what the vault has for
/// it; where it has nothing, the name is the alias, the address the host name and the
/// username the user that the configuration says, and the password is empty.
pub proof fn law_settings_are_opened(s: AppModel, disk: VaultOnDisk)
    requires
        s.mode == Mode::Normal,
        s.wf(),
        s.selected < s.filtered.len(),
    ensures
        ({
            let (next, exit, request) = crate::picker::any_key(s, Key::Char('e'), false, disk);
            let h = s.hosts[s.filtered[s.selected] as int];
            let kept = crate::vault::settings_in(s.vault, h.alias);
            let screen = next.settings->0;
            let name = screen.fields[0].value;
            let address = screen.fields[1].value;
            let user = screen.fields[2].value;
            let password = screen.fields[3].value;
            &&& exit is None && request is None
            &&& next.mode == Mode::Settings && next.settings is Some
            &&& next == (AppModel { mode: next.mode, settings: next.settings, ..s })
            &&& screen.selected == 0 && !screen.editing && screen.fields.len() == 4
            &&& screen.originals == seq![name, address, user, password]
            &&& kept is Some && kept->0.name is Some ==> name == kept->0.name->0
            &&& kept is Some && kept->0.address is Some ==> address == kept->0.address->0
            &&& kept is Some && kept->0.username is Some ==> user == kept->0.username->0
            &&& kept is Some && kept->0.password is Some ==> password == kept->0.password->0
            &&& kept is None || kept->0.name is None ==> name == h.alias
            &&& (kept is None || kept->0.address is None) && h.hostname is Some ==> address
                == h.hostname->0
            &&& (kept is None || kept->0.address is None) && h.hostname is None ==> address
                == Seq::<char>::empty()
            &&& (kept is None || kept->0.username is None) && h.user is Some ==> user == h.user->0
            &&& (kept is None || kept->0.username is None) && h.user is None ==> user == Seq::<
                char,
            >::empty()
            &&& kept is None || kept->0.password is None ==> password == Seq::<char>::empty()
        }),
{
    let next = crate::picker::any_key(s, Key::Char('e'), false, disk).0;
    let screen = next.settings->0;
    assert(screen.originals =~= seq![
        screen.fields[0].value,
        screen.fields[1].value,
        screen.fields[2].value,
        screen.fields[3].value,
    ]);
}

/// In the settings `j` and the arrow go down a line and `k` and the other arrow up one,
/// between the name and the password.
pub proof fn law_moving_in_settings(s: AppModel, screen: ScreenModel, ctrl: bool, disk: VaultOnDisk)
    requires
        s.mode == Mode::Settings,
        s.settings == Some(screen),
        !screen.editing,
        crate::picker::screen_wf(screen),
    ensures
        ({
            let down = crate::picker::any_key(s, Key::Down, ctrl, disk);
            let up = crate::picker::any_key(s, Key::Up, ctrl, disk);
            &&& down == crate::picker::any_key(s, Key::Char('j'), ctrl, disk)
            &&& up == crate::picker::any_key(s, Key::Char('k'), ctrl, disk)
            &&& down.1 is None && down.2 is None && up.1 is None && up.2 is None
            &&& screen.selected < 3 ==> down.0.settings == Some(
                ScreenModel { selected: screen.selected + 1, ..screen },
            )
            &&& screen.selected == 3 ==> down.0.settings == Some(screen)
            &&& screen.selected > 0 ==> up.0.settings == Some(
                ScreenModel { selected: screen.selected - 1, ..screen },
            )
            &&& screen.selected == 0 ==> up.0.settings == Some(screen)
            &&& down.0.mode == Mode::Settings && up.0.mode == Mode::Settings
        }),
{
}

/// Enter begins to edit the selected line. The password of a vault that is locked is
/// asked for first; only the password is.
pub proof fn law_editing_begins(s: AppModel, screen: ScreenModel, ctrl: bool, disk: VaultOnDisk)
    requires
        s.mode == Mode::Settings,
        s.wf(),
        s.settings == Some(screen),
        !screen.editing,
    ensures
        ({
            let (next, exit, request) = crate::picker::any_key(s, Key::Enter, ctrl, disk);
            let asks = screen.selected == 3 && disk.exists && s.vault is None;
            let f = screen.fields[screen.selected];
            &&& exit is None && request is None
            &&& asks ==> next.mode == Mode::VaultUnlock && next.settings == s.settings
                && next.unlock is Some && next.unlock->0.action is ReenterSettings
                && next.unlock->0.passphrase == Seq::<char>::empty()
            &&& asks && s.selected < s.filtered.len() ==> next.unlock->0.host_idx
                == s.filtered[s.selected]
            &&& !asks ==> next == (AppModel { settings: next.settings, ..s })
                && next.settings is Some && next.settings->0.editing && next.settings->0.selected
                == screen.selected && next.settings->0.originals == screen.originals
            &&& !asks ==> next.settings->0.fields == screen.fields.update(
                screen.selected,
                FieldModel { value: f.value, saved: f.value },
            )
        }),
{
}

/// While a line is edited characters go into it and Backspace takes one off; Enter
/// keeps what was typed. No other line changes.
pub proof fn law_editing(
    s: AppModel,
    screen: ScreenModel,
    c: char,
    ctrl: bool,
    disk: VaultOnDisk,
)
    requires
        s.mode == Mode::Settings,
        s.settings == Some(screen),
        screen.editing,
        crate::picker::screen_wf(screen),
    ensures
        ({
            let f = screen.fields[screen.selected];
            let at = screen.selected;
            let typed = crate::picker::any_key(s, Key::Char(c), ctrl, disk);
            let erased = crate::picker::any_key(s, Key::Backspace, ctrl, disk);
            let kept = crate::picker::any_key(s, Key::Enter, ctrl, disk);
            &&& typed.0 == (AppModel {
                settings: Some(
                    ScreenModel {
                        fields: screen.fields.update(
                            at,
                            FieldModel { value: f.value.push(c), saved: f.saved },
                        ),
                        ..screen
                    },
                ),
                ..s
            })
            &&& f.value.len() > 0 ==> erased.0 == (AppModel {
                settings: Some(
                    ScreenModel {
                        fields: screen.fields.update(
                            at,
                            FieldModel { value: f.value.drop_last(), saved: f.saved },
                        ),
                        ..screen
                    },
                ),
                ..s
            })
            &&& kept.0 == (AppModel {
                settings: Some(
                    ScreenModel {
                        fields: screen.fields.update(
                            at,
                            FieldModel { value: f.value, saved: f.value },
                        ),
                        editing: false,
                        ..screen
                    },
                ),
                ..s
            })
            &&& typed.1 is None && erased.1 is None && kept.1 is None
            &&& typed.2 is None && erased.2 is None && kept.2 is None
        }),
{
}

/// What is stored of a settings screen: each line under its own name, where it is not
/// empty.
pub proof fn law_screens_are_stored(screen: ScreenModel)
    requires
        crate::picker::screen_wf(screen),
    ensures
        ({
            let s = crate::picker::screen_settings(screen);
            let v = screen.fields;
            &&& v[0].value.len() > 0 ==> s.name == Some(v[0].value)
            &&& v[1].value.len() > 0 ==> s.address == Some(v[1].value)
            &&& v[2].value.len() > 0 ==> s.username == Some(v[2].value)
            &&& v[3].value.len() > 0 ==> s.password == Some(v[3].value)
            &&& v[0].value.len() == 0 ==> s.name is None
            &&& v[1].value.len() == 0 ==> s.address is None
            &&& v[2].value.len() == 0 ==> s.username is None
            &&& v[3].value.len() == 0 ==> s.password is None
        }),
{
}

/// Settings have changed where one of their lines has, whichever it is.
pub proof fn law_changes_count(screen: ScreenModel, i: int)
    requires
        crate::picker::screen_wf(screen),
        0 <= i < 4,
    ensures
        screen.fields[i].value != screen.originals[i] ==> crate::picker::is_changed(screen),
        screen.fields[0].value == screen.originals[0] && screen.fields[1].value
            == screen.originals[1] && screen.fields[2].value == screen.originals[2]
            && screen.fields[3].value == screen.originals[3] ==> !crate::picker::is_changed(screen),
{
}

/// Esc leaves the settings. Without a vault a changed password has one created; other
/// changes alone do not.
pub proof fn law_leaving_without_a_vault(
    s: AppModel,
    screen: ScreenModel,
    ctrl: bool,
    disk: VaultOnDisk,
)
    requires
        s.mode == Mode::Settings,
        s.wf(),
        s.settings == Some(screen),
        !screen.editing,
        s.selected < s.filtered.len(),
        s.vault is None,
        !disk.exists,
        crate::picker::is_changed(screen),
    ensures
        ({
            let (next, exit, request) = crate::picker::any_key(s, Key::Esc, ctrl, disk);
            let alias = s.hosts[s.filtered[s.selected] as int].alias;
            &&& exit is None
            &&& next == (AppModel { settings: None, mode: Mode::Normal, ..s })
            &&& screen.fields[3].value.len() > 0 ==> request == Some(
                RequestModel::Create(alias, crate::picker::screen_settings(screen)),
            )
            &&& screen.fields[3].value.len() == 0 ==> request is None
        }),
{
}

/// Esc with an unlocked vault stores changed settings under the alias of the selected
/// host, leaves those of every other host alone, and asks for the vault to be written.
pub proof fn law_leaving_with_a_vault(
    s: AppModel,
    screen: ScreenModel,
    v: VaultModel,
    ctrl: bool,
    disk: VaultOnDisk,
    other: Seq<char>,
)
    requires
        s.mode == Mode::Settings,
        s.wf(),
        s.settings == Some(screen),
        !screen.editing,
        s.selected < s.filtered.len(),
        s.vault == Some(v),
        crate::picker::is_changed(screen),
    ensures
        ({
            let (next, exit, request) = crate::picker::any_key(s, Key::Esc, ctrl, disk);
            let host = s.filtered[s.selected] as int;
            let alias = s.hosts[host].alias;
            &&& exit is None && request == Some(RequestModel::Save)
            &&& next.mode == Mode::Normal && next.settings is None
            &&& next.vault is Some && next.vault->0.passphrase == v.passphrase
            &&& crate::vault::settings_in(next.vault, alias) == Some(
                crate::picker::screen_settings(screen),
            )
            &&& other != alias ==> crate::vault::settings_in(next.vault, other)
                == crate::vault::settings_in(s.vault, other)
            &&& next.unsaved is Some && next.unsaved->0.settings == Some(screen)
                && next.unsaved->0.host_idx == host
        }),
{
}

/// Typing a passphrase: characters go into it, Backspace takes one off, and Enter asks
/// for the vault to be opened with it. Typing takes an error off the screen.
pub proof fn law_passphrase_is_typed(s: AppModel, d: UnlockModel, c: char, ctrl: bool, disk: VaultOnDisk)
    requires
        s.mode == Mode::VaultUnlock,
        s.unlock == Some(d),
    ensures
        crate::picker::any_key(s, Key::Char(c), ctrl, disk) == (
            AppModel {
                unlock: Some(UnlockModel { passphrase: d.passphrase.push(c), error: None, ..d }),
                ..s
            },
            None::<Option<Seq<char>>>,
            None::<RequestModel>,
        ),
        d.passphrase.len() > 0 ==> crate::picker::any_key(s, Key::Backspace, ctrl, disk) == (
            AppModel {
                unlock: Some(
                    UnlockModel { passphrase: d.passphrase.drop_last(), error: None, ..d },
                ),
                ..s
            },
            None::<Option<Seq<char>>>,
            None::<RequestModel>,
        ),
        crate::picker::any_key(s, Key::Enter, ctrl, disk) == (
            s,
            None::<Option<Seq<char>>>,
            Some(RequestModel::Open(d.passphrase)),
        ),
{
}

/// A passphrase that was asked for to see a password brings the settings back with that
/// password, which is then being edited.
pub proof fn law_password_is_shown(s: AppModel, d: UnlockModel, v: VaultModel)
    requires
        s.wf(),
        s.unlock == Some(d),
        d.action is ReenterSettings,
    ensures
        ({
            let (next, request) = crate::picker::unlocked(s, v);
            let alias = s.hosts[d.host_idx].alias;
            let screen = next.settings->0;
            &&& request is None
            &&& next.mode == Mode::Settings && next.unlock is None && next.vault == Some(v)
            &&& next.settings is Some && screen.selected == 3 && screen.editing
            &&& v.entries.dom().contains(alias) && v.entries[alias].password is Some
                ==> screen.fields[3].value == v.entries[alias].password->0
        }),
{
}

/// A passphrase that is refused is wiped and asked for again, for the same purpose, and
/// the reason is shown.
pub proof fn law_refused_passphrase(s: AppModel, d: UnlockModel, message: Seq<char>)
    requires
        s.unlock == Some(d),
    ensures
        crate::picker::refused(s, message) == (AppModel {
            unlock: Some(
                UnlockModel {
                    passphrase: Seq::empty(),
                    error: Some(message),
                    host_idx: d.host_idx,
                    action: d.action,
                },
            ),
            ..s
        }),
{
}

/// Settings that could not be written are on the screen again, with the reason: what was
/// typed is not lost.
pub proof fn law_failed_writes_lose_nothing(
    s: AppModel,
    screen: ScreenModel,
    v: VaultModel,
    disk: VaultOnDisk,
    message: Seq<char>,
)
    requires
        s.mode == Mode::Settings,
        s.wf(),
        s.settings == Some(screen),
        !screen.editing,
        s.selected < s.filtered.len(),
        s.vault == Some(v),
        crate::picker::is_changed(screen),
    ensures
        ({
            let left = crate::picker::any_key(s, Key::Esc, false, disk).0;
            let back = crate::picker::not_saved(left, message);
            &&& back.settings == Some(screen)
            &&& back.unsaved is None
            &&& back.mode == Mode::VaultUnlock
            &&& back.unlock is Some && back.unlock->0.error == Some(message)
            &&& crate::picker::any_key(back, Key::Esc, false, disk).0.mode == Mode::Settings
            &&& crate::picker::any_key(back, Key::Esc, false, disk).0.settings == Some(screen)
        }),
{
}

/// A vault that was created for a host's settings holds them, and the picker goes on as
/// it was.
pub proof fn law_created_vault(
    s: AppModel,
    v: VaultModel,
    alias: Seq<char>,
    settings: SettingsModel,
)
    ensures
        ({
            let next = crate::picker::created(s, v, alias, settings);
            &&& crate::vault::settings_in(next.vault, alias) == Some(settings)
            &&& next == (AppModel { vault: next.vault, ..s })
        }),
{
}

/// The picker opens with the list of all hosts, the first of them selected, and nothing
/// asked.
pub proof fn law_picker_opens(hosts: Seq<HostModel>, vault: Option<VaultModel>)
    ensures
        ({
            let s = crate::picker::fresh_app(hosts, vault);
            &&& s.hosts == hosts && s.vault == vault
            &&& s.mode == Mode::Normal && s.selected == 0
            &&& s.query == Seq::<char>::empty()
            &&& s.filtered == crate::listing::listing(hosts, Seq::<char>::empty())
            &&& s.settings is None && s.unlock is None && s.unsaved is None
            &&& s.connect_target is None
        }),
{
}


/// What a probe found of a host is known of it from then on, and nothing else changes.
pub proof fn law_probes_are_kept(
    s: AppModel,
    alias: Seq<char>,
    other: Seq<char>,
    active: Option<bool>,
)
    ensures
        ({
            let next = s.heard(alias, active);
            &&& next.statuses.dom().contains(alias) && next.statuses[alias] == active
            &&& other != alias ==> next.statuses.dom().contains(other)
                == s.statuses.dom().contains(other) && next.statuses[other] == s.statuses[other]
            &&& next == (AppModel { statuses: next.statuses, ..s })
        }),
{
}

/// Settings that waited for the passphrase are stored for the host that they are of, and
/// the vault is to be written; if that fails, it is that host's settings that are asked
/// for again.
pub proof fn law_waiting_settings(
    s: AppModel,
    d: UnlockModel,
    v: VaultModel,
    alias: Seq<char>,
    settings: SettingsModel,
    message: Seq<char>,
)
    requires
        s.unlock == Some(d),
        d.action == ActionModel::Save(alias, settings),
    ensures
        ({
            let (next, request) = crate::picker::unlocked(s, v);
            let back = crate::picker::not_saved(next, message);
            &&& request == Some(RequestModel::Save)
            &&& next.mode == Mode::Normal && next.unlock is None
            &&& crate::vault::settings_in(next.vault, alias) == Some(settings)
            &&& next.vault is Some && next.vault->0.passphrase == v.passphrase
            &&& back.unlock is Some && back.unlock->0.host_idx == d.host_idx
            &&& back.unlock->0.error == Some(message)
            &&& back.unlock->0.action is ReenterSettings
        }),
{
}


/// A key that says nothing in the list changes nothing; so does `e` where no host is
/// selected.
pub proof fn law_other_keys_in_the_list(s: AppModel, c: char, ctrl: bool, disk: VaultOnDisk)
    requires
        in_list(s),
    ensures
        ({
            let nothing = (s, None::<Option<Seq<char>>>, None::<RequestModel>);
            let says = c == 'q' || c == 'j' || c == 'k' || c == 'g' || c == 'G' || c == 'l' || c
                == '/' || c == 's' || c == 'i' || c == 'e';
            &&& crate::picker::any_key(s, Key::Other, ctrl, disk) == nothing
            &&& s.mode == Mode::Normal ==> crate::picker::any_key(s, Key::Backspace, ctrl, disk)
                == nothing
            &&& s.mode == Mode::Normal && !says ==> crate::picker::any_key(
                s,
                Key::Char(c),
                false,
                disk,
            ) == nothing
            &&& s.mode == Mode::Normal && s.selected >= s.filtered.len() ==> crate::picker::any_key(
                s,
                Key::Char('e'),
                false,
                disk,
            ) == nothing
        }),
{
}

/// A key that says nothing in the settings changes nothing: keys that move while a line
/// is edited, letters while none is, and Backspace in an empty line.
pub proof fn law_other_keys_in_settings(
    s: AppModel,
    screen: ScreenModel,
    c: char,
    ctrl: bool,
    disk: VaultOnDisk,
)
    requires
        s.mode == Mode::Settings,
        s.settings == Some(screen),
        crate::picker::screen_wf(screen),
    ensures
        ({
            let nothing = (s, None::<Option<Seq<char>>>, None::<RequestModel>);
            &&& crate::picker::any_key(s, Key::Other, ctrl, disk) == nothing
            &&& crate::picker::any_key(s, Key::PageUp, ctrl, disk) == nothing
            &&& crate::picker::any_key(s, Key::PageDown, ctrl, disk) == nothing
            &&& screen.editing ==> crate::picker::any_key(s, Key::Up, ctrl, disk) == nothing
            &&& screen.editing ==> crate::picker::any_key(s, Key::Down, ctrl, disk) == nothing
            &&& screen.editing && screen.fields[screen.selected].value.len() == 0
                ==> crate::picker::any_key(s, Key::Backspace, ctrl, disk) == nothing
            &&& !screen.editing ==> crate::picker::any_key(s, Key::Backspace, ctrl, disk) == nothing
            &&& !screen.editing && c != 'j' && c != 'k' ==> crate::picker::any_key(
                s,
                Key::Char(c),
                ctrl,
                disk,
            ) == nothing
        }),
{
    if screen.editing && screen.fields[screen.selected].value.len() == 0 {
        let f = screen.fields[screen.selected];
        let same = crate::picker::with_value(screen, f.value);
        assert(same.fields =~= screen.fields);
    }
}

/// While the passphrase is asked for, keys that type nothing change nothing, and
/// Backspace in an empty one only takes the error away.
pub proof fn law_other_keys_while_asked(s: AppModel, d: UnlockModel, ctrl: bool, disk: VaultOnDisk)
    requires
        s.mode == Mode::VaultUnlock,
        s.unlock == Some(d),
    ensures
        ({
            let nothing = (s, None::<Option<Seq<char>>>, None::<RequestModel>);
            &&& crate::picker::any_key(s, Key::Other, ctrl, disk) == nothing
            &&& crate::picker::any_key(s, Key::Up, ctrl, disk) == nothing
            &&& crate::picker::any_key(s, Key::Down, ctrl, disk) == nothing
            &&& crate::picker::any_key(s, Key::PageUp, ctrl, disk) == nothing
            &&& crate::picker::any_key(s, Key::PageDown, ctrl, disk) == nothing
            &&& d.passphrase.len() == 0 ==> crate::picker::any_key(s, Key::Backspace, ctrl, disk)
                == (
                AppModel { unlock: Some(UnlockModel { error: None, ..d }), ..s },
                None::<Option<Seq<char>>>,
                None::<RequestModel>,
            )
        }),
{
}

/// What came too late changes nothing: an unlocked vault, a refused passphrase or a
/// failed write that nobody waits for. Settings that are left without being there leave
/// the list.
pub proof fn law_late_answers(
    s: AppModel,
    v: VaultModel,
    message: Seq<char>,
    disk: VaultOnDisk,
)
    ensures
        s.unlock is None ==> crate::picker::unlocked(s, v) == (s, None::<RequestModel>),
        s.unlock is None ==> crate::picker::refused(s, message) == s,
        s.unsaved is None ==> crate::picker::not_saved(s, message) == s,
        s.settings is None ==> crate::picker::leaving(s, disk) == (
            AppModel { mode: Mode::Normal, ..s },
            None::<RequestModel>,
        ),
{
}

/// Every key can be taken but a character that would make a search impossible.
pub proof fn law_keys_that_fit(s: AppModel, key: Key, ctrl: bool)
    ensures
        s.mode != Mode::Search ==> crate::picker::key_fits(s, key, ctrl),
        key !is Char ==> crate::picker::key_fits(s, key, ctrl),
        s.mode == Mode::Search && !ctrl && key is Char ==> crate::picker::key_fits(s, key, ctrl)
            == crate::listing::searchable(s.hosts, s.query.push(key->Char_0)),
        ctrl && (key == Key::Char('u') || key == Key::Char('w') || key == Key::Char('c') || key
            == Key::Char('n') || key == Key::Char('p') || key == Key::Char('d') || key == Key::Char(
            'g',
        )) ==> crate::picker::key_fits(s, key, ctrl),
{
}

} // verus!
