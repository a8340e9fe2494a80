//! What holds of the picker over several keys.

use vstd::prelude::*;

use crate::model::HostModel;
use crate::picker::AppModel;
use crate::picker::Key;
use crate::picker::Mode;
use crate::picker::RequestModel;
use crate::picker::ScreenModel;
use crate::picker::VaultOnDisk;
use crate::vault::SettingsModel;
use crate::vault::VaultModel;

verus! {

/// A settings screen after some keys, one behind the other, while a line is edited.
pub open spec fn edited(s: ScreenModel, keys: Seq<Key>) -> ScreenModel
    decreases keys.len(),
{
    if keys.len() == 0 {
        s
    } else {
        crate::picker::edit_key(edited(s, keys.drop_last()), keys.last())
    }
}

/// Whether a key types or erases.
pub open spec fn is_typing(key: Key) -> bool {
    key is Char || key == Key::Backspace
}

/// Typing changes the value of the selected line and nothing else.
proof fn lemma_typing(s: ScreenModel, keys: Seq<Key>)
    requires
        crate::picker::screen_wf(s),
        s.editing,
        forall|i: int| 0 <= i < keys.len() ==> is_typing(#[trigger] keys[i]),
    ensures
        ({
            let e = edited(s, keys);
            &&& crate::picker::screen_wf(e)
            &&& e.editing
            &&& e.selected == s.selected
            &&& e.originals == s.originals
            &&& e.fields[s.selected].saved == s.fields[s.selected].saved
            &&& forall|i: int| 0 <= i < 4 && i != s.selected ==> #[trigger] e.fields[i] == s.fields[i]
        }),
    decreases keys.len(),
{
    if keys.len() > 0 {
        let front = keys.drop_last();
        assert forall|i: int| 0 <= i < front.len() implies is_typing(#[trigger] front[i]) by {
            assert(front[i] == keys[i]);
        }
        lemma_typing(s, front);
        assert(is_typing(keys[keys.len() - 1]));
    }
}

/// Esc takes back whatever was typed since the edit began: the screen is as it was
/// before.
pub proof fn law_esc_takes_the_edit_back(s: ScreenModel, keys: Seq<Key>)
    requires
        crate::picker::screen_wf(s),
        s.editing,
        s.fields[s.selected].saved == s.fields[s.selected].value,
        forall|i: int| 0 <= i < keys.len() ==> is_typing(#[trigger] keys[i]),
    ensures
        crate::picker::edit_key(edited(s, keys), Key::Esc) == (ScreenModel { editing: false, ..s }),
{
    lemma_typing(s, keys);
    let e = edited(s, keys);
    let back = crate::picker::edit_key(e, Key::Esc);
    assert(back.fields =~= s.fields);
}

/// A character that is typed and erased again leaves no trace.
pub proof fn law_typed_and_erased_is_nothing(s: ScreenModel, c: char)
    requires
        crate::picker::screen_wf(s),
    ensures
        crate::picker::edit_key(crate::picker::edit_key(s, Key::Char(c)), Key::Backspace) == s,
{
    let f = s.fields[s.selected];
    let once = crate::picker::edit_key(s, Key::Char(c));
    let twice = crate::picker::edit_key(once, Key::Backspace);
    assert(f.value.push(c).drop_last() =~= f.value);
    assert(twice.fields =~= s.fields);
}

/// Settings that were only looked at do not count as changed.
pub proof fn law_fresh_settings_are_unchanged(h: HostModel, stored: SettingsModel)
    ensures
        !crate::picker::is_changed(crate::picker::fresh_screen(h, stored)),
        crate::picker::screen_wf(crate::picker::fresh_screen(h, stored)),
{
}

/// Settings that did not change are never stored, whatever the vault.
pub proof fn law_unchanged_settings_are_not_stored(
    s: AppModel,
    screen: ScreenModel,
    disk: VaultOnDisk,
)
    requires
        s.settings == Some(screen),
        !crate::picker::is_changed(screen),
    ensures
        crate::picker::leaving(s, disk) == (
            AppModel { settings: None, mode: Mode::Normal, ..s },
            None::<RequestModel>,
        ),
{
}

/// Changed settings that are left with an unlocked vault are in it, and it is to be
/// written.
pub proof fn law_changed_settings_are_stored(s: AppModel, screen: ScreenModel, disk: VaultOnDisk)
    requires
        s.wf(),
        s.settings == Some(screen),
        s.selected_name() is Some,
        s.vault is Some,
        crate::picker::is_changed(screen),
    ensures
        ({
            let (next, request) = crate::picker::leaving(s, disk);
            &&& request == Some(RequestModel::Save)
            &&& crate::vault::settings_in(next.vault, s.selected_name()->0) == Some(
                crate::picker::screen_settings(screen),
            )
        }),
{
}

/// A host that the locked vault may have settings for is not connected to before the
/// passphrase was given; once it was, it is connected to.
pub proof fn law_unlocking_comes_before_connecting(s: AppModel, disk: VaultOnDisk, v: VaultModel)
    requires
        s.selected_name() is Some,
        s.vault is None,
        disk.index.may_hold(s.selected_name()->0),
    ensures
        ({
            let (asked, exit) = crate::picker::connecting(s, disk);
            let (open, request) = crate::picker::unlocked(asked, v);
            &&& exit is None
            &&& asked.mode == Mode::VaultUnlock
            &&& open.connect_target == s.selected_name()
            &&& open.mode == Mode::Normal
            &&& open.vault == Some(v)
            &&& request is None
        }),
{
}

/// Settings that were left while the vault was locked are in it once it is unlocked.
pub proof fn law_settings_wait_for_the_vault(
    s: AppModel,
    screen: ScreenModel,
    disk: VaultOnDisk,
    v: VaultModel,
)
    requires
        s.wf(),
        s.settings == Some(screen),
        s.selected_name() is Some,
        s.vault is None,
        disk.exists,
        crate::picker::is_changed(screen),
    ensures
        ({
            let (asked, none) = crate::picker::leaving(s, disk);
            let (open, request) = crate::picker::unlocked(asked, v);
            &&& none is None
            &&& asked.mode == Mode::VaultUnlock
            &&& request == Some(RequestModel::Save)
            &&& crate::vault::settings_in(open.vault, s.selected_name()->0) == Some(
                crate::picker::screen_settings(screen),
            )
        }),
{
}

/// Going to search and back changes neither the search nor the list.
pub proof fn law_search_is_kept(s: AppModel, disk: VaultOnDisk, ctrl: bool)
    requires
        s.mode == Mode::Normal,
    ensures
        ({
            let (searching, a) = crate::picker::mode_key(s, Key::Char('/'), ctrl, disk);
            let (back, b) = crate::picker::mode_key(searching, Key::Esc, ctrl, disk);
            searching.mode == Mode::Search && back == s && a is None && b is None
        }),
{
}

/// Moving down and up again comes back to the same line, unless the list ends there.
pub proof fn law_down_and_up(s: AppModel, n: int)
    requires
        s.wf(),
        n >= 0,
        s.selected + n < s.filtered.len(),
    ensures
        s.moved(n).moved(-n) == s,
{
}

/// Cancelling the passphrase leaves nothing of it, and goes back to the settings it
/// was asked from.
pub proof fn law_cancelled_unlock_is_forgotten(s: AppModel)
    requires
        s.unlock is Some,
    ensures
        ({
            let (next, request) = crate::picker::unlock_key(s, Key::Esc);
            &&& request is None
            &&& next.unlock is None
            &&& next.vault == s.vault
            &&& next.settings == s.settings
            &&& next.mode == if s.settings is Some {
                Mode::Settings
            } else {
                Mode::Normal
            }
        }),
{
}

} // verus!
