//! The state of the picker and what each key does to it.
//!
//! The picker reads no keys, draws nothing and touches no file. A key gives a new
//! state and, where something has to be done outside, a request; what came of that
//! is handed back by another call.

use vstd::prelude::*;

use crate::listing::can_search;
use crate::listing::list_hosts;
use crate::listing::new_matcher;
use crate::model::Host;
use crate::model::HostModel;
use crate::table::Table;
use crate::text::char_is_space;
use crate::text::chars_of;
use crate::text::same_text;
use crate::text::text_of;
use crate::vault::settings_from_fields;
use crate::vault::AliasIndex;
use crate::vault::HostSettings;
use crate::vault::LazyVault;
use crate::vault::SettingsModel;
use crate::vault::Vault;
use crate::vault::VaultModel;

verus! {

/// What the picker is doing.
#[derive(Debug, Clone, Copy, PartialEq, Eq, Structural)]
pub enum Mode {
    /// Moving through the list.
    Normal,
    /// Typing a search.
    Search,
    /// Asking for the vault's passphrase.
    VaultUnlock,
    /// Editing the settings of a host.
    Settings,
}

/// A key.
#[derive(Debug, Clone, Copy, PartialEq, Eq, Structural)]
pub enum Key {
    Enter,
    Esc,
    Backspace,
    Up,
    Down,
    PageUp,
    PageDown,
    Char(char),
    /// Any other key.
    Other,
}

/// One line of the settings.
#[derive(Debug)]
pub struct SettingsField {
    /// What is shown and edited.
    pub value: String,
    /// What an abandoned edit goes back to.
    pub saved: String,
}

/// The settings of a host while they are edited: name, address, username and
/// password.
#[derive(Debug)]
pub struct SettingsData {
    pub fields: Vec<SettingsField>,
    /// The values when the screen was opened.
    pub originals: Vec<String>,
    pub selected: usize,
    pub editing: bool,
}

/// What to do once the vault is unlocked.
#[derive(Debug)]
pub enum VaultUnlockAction {
    /// Open the settings again, at the password.
    ReenterSettings,
    /// Store these settings for this alias.
    Save(String, HostSettings),
    /// Connect to this alias.
    Connect(String),
}

/// The question for the vault's passphrase.
#[derive(Debug)]
pub struct VaultUnlockData {
    pub passphrase: String,
    pub error: Option<String>,
    pub host_idx: usize,
    pub action: VaultUnlockAction,
}

/// Settings that were stored and are not written to disk yet.
#[derive(Debug)]
pub struct Unsaved {
    /// The screen to go back to if writing fails.
    pub settings: Option<SettingsData>,
    pub host_idx: usize,
}

/// What the disk says about the vault.
#[derive(Debug)]
pub struct VaultOnDisk {
    pub exists: bool,
    pub index: AliasIndex,
}

/// The picker.
pub struct App {
    pub hosts: Vec<Host>,
    /// What is known of the hosts' tmux sessions.
    pub statuses: Table<Option<bool>>,
    pub query: String,
    pub mode: Mode,
    /// The hosts that are listed, by index.
    pub filtered: Vec<usize>,
    /// The line that is selected.
    pub selected: usize,
    /// How many lines are shown.
    pub viewport: usize,
    pub settings: Option<SettingsData>,
    pub vault_unlock: Option<VaultUnlockData>,
    /// The alias to connect to once the vault was unlocked for it.
    pub connect_target: Option<String>,
    pub vault: LazyVault,
    pub unsaved: Option<Unsaved>,
    /// The matcher that searches the list.
    pub matcher: nucleo_matcher::Matcher,
}

/// How a key ends the picker: with an alias to connect to, or without.
#[derive(Debug, PartialEq, Eq)]
pub enum KeyOutcome {
    Exit(Option<String>),
}

/// What has to be done with the vault outside.
#[derive(Debug)]
pub enum VaultRequest {
    /// Open it with this passphrase.
    Open(String),
    /// Write it.
    Save,
    /// Create it, and store these settings for this alias.
    Create(String, HostSettings),
}

/// What a key asks for.
#[derive(Debug)]
pub enum Step {
    /// Nothing.
    Stay,
    /// The end of the picker.
    Exit(Option<String>),
    /// Something with the vault.
    Vault(VaultRequest),
}

/// A line of the settings.
#[verifier::ext_equal]
pub struct FieldModel {
    pub value: Seq<char>,
    pub saved: Seq<char>,
}

/// The settings while they are edited.
#[verifier::ext_equal]
pub struct ScreenModel {
    pub fields: Seq<FieldModel>,
    pub originals: Seq<Seq<char>>,
    pub selected: int,
    pub editing: bool,
}

/// What to do once the vault is unlocked.
pub enum ActionModel {
    ReenterSettings,
    Save(Seq<char>, SettingsModel),
    Connect(Seq<char>),
}

/// The question for the vault's passphrase.
#[verifier::ext_equal]
pub struct UnlockModel {
    pub passphrase: Seq<char>,
    pub error: Option<Seq<char>>,
    pub host_idx: int,
    pub action: ActionModel,
}

/// Settings that are not written yet.
#[verifier::ext_equal]
pub struct UnsavedModel {
    pub settings: Option<ScreenModel>,
    pub host_idx: int,
}

/// What has to be done with the vault outside.
pub enum RequestModel {
    Open(Seq<char>),
    Save,
    Create(Seq<char>, SettingsModel),
}

/// The state of the picker.
#[verifier::ext_equal]
pub struct AppModel {
    pub hosts: Seq<HostModel>,
    pub statuses: Map<Seq<char>, Option<bool>>,
    pub query: Seq<char>,
    pub mode: Mode,
    pub filtered: Seq<usize>,
    pub selected: int,
    pub viewport: int,
    pub settings: Option<ScreenModel>,
    pub unlock: Option<UnlockModel>,
    pub connect_target: Option<Seq<char>>,
    pub vault: Option<VaultModel>,
    pub unsaved: Option<UnsavedModel>,
}

impl View for SettingsField {
    type V = FieldModel;

    open spec fn view(&self) -> FieldModel {
        FieldModel { value: self.value@, saved: self.saved@ }
    }
}

impl View for SettingsData {
    type V = ScreenModel;

    open spec fn view(&self) -> ScreenModel {
        ScreenModel {
            fields: Seq::new(self.fields@.len(), |i: int| self.fields@[i]@),
            originals: crate::text::texts(self.originals@),
            selected: self.selected as int,
            editing: self.editing,
        }
    }
}

impl View for VaultUnlockAction {
    type V = ActionModel;

    open spec fn view(&self) -> ActionModel {
        match self {
            VaultUnlockAction::ReenterSettings => ActionModel::ReenterSettings,
            VaultUnlockAction::Save(a, s) => ActionModel::Save(a@, s@),
            VaultUnlockAction::Connect(a) => ActionModel::Connect(a@),
        }
    }
}

impl View for VaultUnlockData {
    type V = UnlockModel;

    open spec fn view(&self) -> UnlockModel {
        UnlockModel {
            passphrase: self.passphrase@,
            error: crate::text::opt_text(self.error),
            host_idx: self.host_idx as int,
            action: self.action@,
        }
    }
}

/// The settings of an optional screen.
pub open spec fn opt_screen(o: Option<SettingsData>) -> Option<ScreenModel> {
    match o {
        Some(s) => Some(s@),
        None => None,
    }
}

impl View for Unsaved {
    type V = UnsavedModel;

    open spec fn view(&self) -> UnsavedModel {
        UnsavedModel { settings: opt_screen(self.settings), host_idx: self.host_idx as int }
    }
}

impl View for VaultRequest {
    type V = RequestModel;

    open spec fn view(&self) -> RequestModel {
        match self {
            VaultRequest::Open(p) => RequestModel::Open(p@),
            VaultRequest::Save => RequestModel::Save,
            VaultRequest::Create(a, s) => RequestModel::Create(a@, s@),
        }
    }
}

impl View for App {
    type V = AppModel;

    open spec fn view(&self) -> AppModel {
        AppModel {
            hosts: crate::model::host_models(self.hosts@),
            statuses: self.statuses@,
            query: self.query@,
            mode: self.mode,
            filtered: self.filtered@,
            selected: self.selected as int,
            viewport: self.viewport as int,
            settings: opt_screen(self.settings),
            unlock: match self.vault_unlock {
                Some(d) => Some(d@),
                None => None,
            },
            connect_target: crate::text::opt_text(self.connect_target),
            vault: self.vault@,
            unsaved: match self.unsaved {
                Some(u) => Some(u@),
                None => None,
            },
        }
    }
}

/// What a key asks for, in terms of the model.
pub open spec fn request_model(r: Option<VaultRequest>) -> Option<RequestModel> {
    match r {
        Some(q) => Some(q@),
        None => None,
    }
}

/// How a key ends the picker, in terms of the model.
pub open spec fn outcome_model(r: Option<KeyOutcome>) -> Option<Option<Seq<char>>> {
    match r {
        Some(KeyOutcome::Exit(a)) => Some(crate::text::opt_text(a)),
        None => None,
    }
}

/// Whether a settings screen has its four lines, one of them selected.
pub open spec fn screen_wf(s: ScreenModel) -> bool {
    s.fields.len() == 4 && s.originals.len() == 4 && 0 <= s.selected < 4
}

impl AppModel {
    /// Whether the state is one that the picker can be in.
    pub open spec fn wf(self) -> bool {
        &&& crate::listing::searchable(self.hosts, self.query)
        &&& 0 <= self.viewport <= 0xffff
        &&& forall|k: int| 0 <= k < self.filtered.len() ==> #[trigger] self.filtered[k] < self.hosts.len()
        &&& 0 <= self.selected
        &&& self.selected < self.filtered.len() || self.selected == 0
        &&& self.settings matches Some(s) ==> screen_wf(s) && self.hosts.len() > 0
        &&& self.unlock matches Some(d) ==> 0 <= d.host_idx < self.hosts.len()
        &&& self.unsaved matches Some(u) ==> 0 <= u.host_idx < self.hosts.len() && (u.settings matches
            Some(s) ==> screen_wf(s))
    }

    /// The host that is selected, by index.
    pub open spec fn selected_host(self) -> Option<int> {
        if self.selected < self.filtered.len() {
            Some(self.filtered[self.selected] as int)
        } else {
            None
        }
    }

    /// The alias that is selected.
    pub open spec fn selected_name(self) -> Option<Seq<char>> {
        match self.selected_host() {
            Some(i) => Some(self.hosts[i].alias),
            None => None,
        }
    }

    /// The state after a probe of a host came back.
    pub open spec fn heard(self, alias: Seq<char>, active: Option<bool>) -> AppModel {
        AppModel { statuses: self.statuses.insert(alias, active), ..self }
    }

    /// The state after moving the selection, which stays in the list.
    pub open spec fn moved(self, delta: int) -> AppModel {
        if self.filtered.len() == 0 {
            self
        } else {
            let next = self.selected + delta;
            AppModel {
                selected: if next < 0 {
                    0
                } else if next >= self.filtered.len() {
                    self.filtered.len() - 1
                } else {
                    next
                },
                ..self
            }
        }
    }

    /// The state after the search was changed: the list is made anew, and the
    /// selection stays in it.
    pub open spec fn searched(self, query: Seq<char>) -> AppModel {
        let list = crate::listing::listing(self.hosts, query);
        AppModel {
            query,
            filtered: list,
            selected: if self.selected < list.len() {
                self.selected
            } else if list.len() > 0 {
                list.len() - 1
            } else {
                0
            },
            ..self
        }
    }
}

/// The text of an optional value, empty where there is none.
pub open spec fn or_empty(o: Option<Seq<char>>) -> Seq<char> {
    match o {
        Some(s) => s,
        None => Seq::empty(),
    }
}

/// The first of two optional texts that is there.
pub open spec fn either(a: Option<Seq<char>>, b: Option<Seq<char>>) -> Option<Seq<char>> {
    if a is Some {
        a
    } else {
        b
    }
}

/// What the lines of the settings hold when the screen is opened: what the vault has,
/// and else what is known of the host.
pub open spec fn initial_values(h: HostModel, stored: SettingsModel) -> Seq<Seq<char>> {
    seq![
        or_empty(either(stored.name, Some(h.alias))),
        or_empty(either(stored.address, h.hostname)),
        or_empty(either(stored.username, h.user)),
        or_empty(stored.password),
    ]
}

/// The settings screen of a host when it is opened.
pub open spec fn fresh_screen(h: HostModel, stored: SettingsModel) -> ScreenModel {
    let values = initial_values(h, stored);
    ScreenModel {
        fields: Seq::new(4, |i: int| FieldModel { value: values[i], saved: values[i] }),
        originals: values,
        selected: 0,
        editing: false,
    }
}

/// The settings that a vault has for a host, empty where it has none or is locked.
pub open spec fn stored_settings(v: Option<VaultModel>, alias: Seq<char>) -> SettingsModel {
    match crate::vault::settings_in(v, alias) {
        Some(s) => s,
        None => crate::vault::no_settings(),
    }
}

/// The state after the settings of a host were opened.
pub open spec fn settings_opened(s: AppModel, host: int) -> AppModel {
    AppModel {
        settings: Some(fresh_screen(s.hosts[host], stored_settings(s.vault, s.hosts[host].alias))),
        mode: Mode::Settings,
        ..s
    }
}

/// The state in which the passphrase is asked for.
pub open spec fn asking(s: AppModel, host: int, error: Option<Seq<char>>, action: ActionModel) -> AppModel {
    AppModel {
        unlock: Some(
            UnlockModel { passphrase: Seq::empty(), error, host_idx: host, action },
        ),
        mode: Mode::VaultUnlock,
        ..s
    }
}

/// What connecting to the selected host does: without a selection the picker ends;
/// where the vault is locked and may have settings for the host, the passphrase is
/// asked for; else the picker ends with the alias.
pub open spec fn connecting(s: AppModel, disk: VaultOnDisk) -> (AppModel, Option<Option<Seq<char>>>) {
    match s.selected_host() {
        None => (s, Some(None)),
        Some(i) => {
            let alias = s.hosts[i].alias;
            if s.vault is None && disk.index.may_hold(alias) {
                (asking(s, i, None, ActionModel::Connect(alias)), None)
            } else {
                (s, Some(Some(alias)))
            }
        },
    }
}

/// Whether any line of the settings differs from what it held at first.
pub open spec fn is_changed(s: ScreenModel) -> bool {
    exists|i: int| 0 <= i < 4 && #[trigger] s.fields[i].value != s.originals[i]
}

/// The settings that a screen stands for.
pub open spec fn screen_settings(s: ScreenModel) -> SettingsModel {
    SettingsModel {
        name: crate::vault::filled(s.fields[0].value),
        address: crate::vault::filled(s.fields[1].value),
        username: crate::vault::filled(s.fields[2].value),
        password: crate::vault::filled(s.fields[3].value),
    }
}

/// A vault with settings stored in it.
pub open spec fn stored_in(v: VaultModel, alias: Seq<char>, settings: SettingsModel) -> VaultModel {
    crate::vault::stored(v, alias, settings)
}

/// What leaving the settings does. Settings that did not change are not stored. An
/// unlocked vault takes them at once, a locked one once it is unlocked; where there is
/// no vault, one is created for a password and for nothing else.
pub open spec fn leaving(s: AppModel, disk: VaultOnDisk) -> (AppModel, Option<RequestModel>) {
    match s.settings {
        None => (AppModel { mode: Mode::Normal, ..s }, None),
        Some(screen) => {
            let closed = AppModel { settings: None, mode: Mode::Normal, ..s };
            match s.selected_host() {
                None => (closed, None),
                Some(i) => {
                    let alias = s.hosts[i].alias;
                    let settings = screen_settings(screen);
                    if !is_changed(screen) {
                        (closed, None)
                    } else if s.vault is Some {
                        (
                            AppModel {
                                vault: Some(stored_in(s.vault->0, alias, settings)),
                                unsaved: Some(UnsavedModel { settings: Some(screen), host_idx: i }),
                                ..closed
                            },
                            Some(RequestModel::Save),
                        )
                    } else if disk.exists {
                        (asking(closed, i, None, ActionModel::Save(alias, settings)), None)
                    } else if settings.password is None {
                        (closed, None)
                    } else {
                        (closed, Some(RequestModel::Create(alias, settings)))
                    }
                },
            }
        },
    }
}

/// A text without its last word and the white space behind it.
pub open spec fn without_last_word(s: Seq<char>) -> Seq<char> {
    without_run(crate::text::trim_end(s))
}

/// A text without the run of other characters behind its last white space.
pub open spec fn without_run(s: Seq<char>) -> Seq<char>
    decreases s.len(),
{
    if s.len() > 0 && !crate::text::is_space(s.last()) {
        without_run(s.drop_last())
    } else {
        s
    }
}

/// Half of what is shown, and at least one line.
pub open spec fn half_page(s: AppModel) -> int {
    if s.viewport / 2 > 1 {
        s.viewport / 2
    } else {
        1
    }
}

/// A search after a key: Backspace erases a character, Ctrl-w a word and Ctrl-u all of
/// it, and any other character is typed.
pub open spec fn edited_query(query: Seq<char>, key: Key, ctrl: bool) -> Seq<char> {
    match key {
        Key::Backspace => if query.len() > 0 {
            query.drop_last()
        } else {
            query
        },
        Key::Char(c) => if ctrl && c == 'u' {
            Seq::empty()
        } else if ctrl && c == 'w' {
            without_last_word(query)
        } else {
            query.push(c)
        },
        _ => query,
    }
}

/// What a key does in the list, by the mode.
pub open spec fn mode_key(s: AppModel, key: Key, ctrl: bool, disk: VaultOnDisk) -> (
    AppModel,
    Option<Option<Seq<char>>>,
) {
    match s.mode {
        Mode::Normal => match key {
            Key::Esc => (s, Some(None)),
            Key::Char('q') => (s, Some(None)),
            Key::Char('j') => (s.moved(1), None),
            Key::Char('k') => (s.moved(-1), None),
            Key::Char('g') => (AppModel { selected: 0, ..s }, None),
            Key::Char('G') => (
                AppModel {
                    selected: if s.filtered.len() > 0 {
                        s.filtered.len() - 1
                    } else {
                        0
                    },
                    ..s
                },
                None,
            ),
            Key::Char('l') => connecting(s, disk),
            Key::Char('/') => (AppModel { mode: Mode::Search, ..s }, None),
            Key::Char('s') => (AppModel { mode: Mode::Search, ..s }, None),
            Key::Char('i') => (AppModel { mode: Mode::Search, ..s }, None),
            Key::Char('e') => match s.selected_host() {
                Some(i) => (settings_opened(s, i), None),
                None => (s, None),
            },
            _ => (s, None),
        },
        Mode::Search => match key {
            Key::Esc => (AppModel { mode: Mode::Normal, ..s }, None),
            Key::Backspace => (s.searched(edited_query(s.query, key, ctrl)), None),
            Key::Char(c) => (s.searched(edited_query(s.query, key, ctrl)), None),
            _ => (s, None),
        },
        _ => (s, None),
    }
}

/// What a key does in the list: moving by lines and pages is the same in every mode.
pub open spec fn list_key(s: AppModel, key: Key, ctrl: bool, disk: VaultOnDisk) -> (
    AppModel,
    Option<Option<Seq<char>>>,
) {
    if key == Key::Up || (ctrl && key == Key::Char('p')) {
        (s.moved(-1), None)
    } else if key == Key::Down || (ctrl && key == Key::Char('n')) {
        (s.moved(1), None)
    } else if key == Key::PageUp {
        (s.moved(-s.viewport), None)
    } else if key == Key::PageDown {
        (s.moved(s.viewport), None)
    } else if ctrl && key == Key::Char('d') {
        (s.moved(half_page(s)), None)
    } else if ctrl && key == Key::Char('u') && s.mode == Mode::Normal {
        (s.moved(-half_page(s)), None)
    } else {
        mode_key(s, key, ctrl, disk)
    }
}

/// What a key does while the passphrase is asked for.
pub open spec fn unlock_key(s: AppModel, key: Key) -> (AppModel, Option<RequestModel>) {
    match s.unlock {
        None => (s, None),
        Some(d) => match key {
            Key::Enter => (s, Some(RequestModel::Open(d.passphrase))),
            Key::Esc => (
                AppModel {
                    unlock: None,
                    mode: if s.settings is Some {
                        Mode::Settings
                    } else {
                        Mode::Normal
                    },
                    ..s
                },
                None,
            ),
            Key::Backspace => (
                AppModel {
                    unlock: Some(
                        UnlockModel {
                            passphrase: if d.passphrase.len() > 0 {
                                d.passphrase.drop_last()
                            } else {
                                d.passphrase
                            },
                            error: None,
                            ..d
                        },
                    ),
                    ..s
                },
                None,
            ),
            Key::Char(c) => (
                AppModel {
                    unlock: Some(
                        UnlockModel { passphrase: d.passphrase.push(c), error: None, ..d },
                    ),
                    ..s
                },
                None,
            ),
            _ => (s, None),
        },
    }
}

/// A settings screen with another value in its selected line.
pub open spec fn with_value(s: ScreenModel, value: Seq<char>) -> ScreenModel {
    let f = s.fields[s.selected];
    ScreenModel { fields: s.fields.update(s.selected, FieldModel { value, ..f }), ..s }
}

/// What a key does to a line that is being edited: Enter keeps the edit, Esc takes it
/// back.
pub open spec fn edit_key(s: ScreenModel, key: Key) -> ScreenModel {
    let f = s.fields[s.selected];
    match key {
        Key::Enter => ScreenModel {
            fields: s.fields.update(s.selected, FieldModel { saved: f.value, ..f }),
            editing: false,
            ..s
        },
        Key::Esc => ScreenModel { editing: false, ..with_value(s, f.saved) },
        Key::Char(c) => with_value(s, f.value.push(c)),
        Key::Backspace => with_value(
            s,
            if f.value.len() > 0 {
                f.value.drop_last()
            } else {
                f.value
            },
        ),
        _ => s,
    }
}

/// What a key does while settings are shown.
pub open spec fn settings_key(s: AppModel, key: Key, disk: VaultOnDisk) -> (
    AppModel,
    Option<RequestModel>,
) {
    match s.settings {
        None => (s, None),
        Some(screen) => if screen.editing {
            (AppModel { settings: Some(edit_key(screen, key)), ..s }, None)
        } else if key == Key::Esc {
            leaving(s, disk)
        } else if key == Key::Down || key == Key::Char('j') {
            (
                AppModel {
                    settings: Some(
                        ScreenModel {
                            selected: if screen.selected < 3 {
                                screen.selected + 1
                            } else {
                                3
                            },
                            ..screen
                        },
                    ),
                    ..s
                },
                None,
            )
        } else if key == Key::Up || key == Key::Char('k') {
            (
                AppModel {
                    settings: Some(
                        ScreenModel {
                            selected: if screen.selected > 0 {
                                screen.selected - 1
                            } else {
                                0
                            },
                            ..screen
                        },
                    ),
                    ..s
                },
                None,
            )
        } else if key == Key::Enter {
            if screen.selected == 3 && disk.exists && s.vault is None {
                let host = match s.selected_host() {
                    Some(i) => i,
                    None => 0,
                };
                (asking(s, host, None, ActionModel::ReenterSettings), None)
            } else {
                let f = screen.fields[screen.selected];
                (
                    AppModel {
                        settings: Some(
                            ScreenModel {
                                fields: screen.fields.update(
                                    screen.selected,
                                    FieldModel { saved: f.value, ..f },
                                ),
                                editing: true,
                                ..screen
                            },
                        ),
                        ..s
                    },
                    None,
                )
            }
        } else {
            (s, None)
        },
    }
}

/// What follows when the vault was unlocked: the settings are stored, the host is
/// connected to, or the settings are shown again with the password being edited.
pub open spec fn unlocked(s: AppModel, v: VaultModel) -> (AppModel, Option<RequestModel>) {
    match s.unlock {
        None => (s, None),
        Some(d) => {
            let open = AppModel { vault: Some(v), unlock: None, ..s };
            match d.action {
                ActionModel::Save(alias, settings) => (
                    AppModel {
                        vault: Some(stored_in(v, alias, settings)),
                        mode: Mode::Normal,
                        unsaved: Some(UnsavedModel { settings: None, host_idx: d.host_idx }),
                        ..open
                    },
                    Some(RequestModel::Save),
                ),
                ActionModel::Connect(alias) => (
                    AppModel { mode: Mode::Normal, connect_target: Some(alias), ..open },
                    None,
                ),
                ActionModel::ReenterSettings => {
                    let shown = settings_opened(open, d.host_idx);
                    (
                        AppModel {
                            settings: Some(
                                ScreenModel { selected: 3, editing: true, ..shown.settings->0 },
                            ),
                            ..shown
                        },
                        None,
                    )
                },
            }
        },
    }
}

/// The state after a passphrase was refused: it is asked for again, and why is shown.
pub open spec fn refused(s: AppModel, message: Seq<char>) -> AppModel {
    AppModel {
        unlock: match s.unlock {
            Some(d) => Some(
                UnlockModel { passphrase: Seq::empty(), error: Some(message), ..d },
            ),
            None => None,
        },
        ..s
    }
}

/// The state after the vault could not be written: the settings that were being left
/// are back, and why is shown over them.
pub open spec fn not_saved(s: AppModel, message: Seq<char>) -> AppModel {
    match s.unsaved {
        Some(u) => asking(
            AppModel { settings: u.settings, unsaved: None, ..s },
            u.host_idx,
            Some(message),
            ActionModel::ReenterSettings,
        ),
        None => s,
    }
}

/// The state after a vault was created for the settings of a host.
pub open spec fn created(
    s: AppModel,
    v: VaultModel,
    alias: Seq<char>,
    settings: SettingsModel,
) -> AppModel {
    AppModel { vault: Some(stored_in(v, alias, settings)), ..s }
}

/// The picker when it is opened.
pub open spec fn fresh_app(hosts: Seq<HostModel>, vault: Option<VaultModel>) -> AppModel {
    AppModel {
        hosts,
        statuses: Map::empty(),
        query: Seq::empty(),
        mode: Mode::Normal,
        filtered: crate::listing::listing(hosts, Seq::empty()),
        selected: 0,
        viewport: 10,
        settings: None,
        unlock: None,
        connect_target: None,
        vault,
        unsaved: None,
    }
}

/// The request to ask for a passphrase.
fn question(host_idx: usize, error: Option<String>, action: VaultUnlockAction) -> (r: VaultUnlockData)
    ensures
        r@ == (UnlockModel {
            passphrase: Seq::empty(),
            error: crate::text::opt_text(error),
            host_idx: host_idx as int,
            action: action@,
        }),
{
    let passphrase = String::new();
    assert(passphrase@ =~= Seq::<char>::empty());
    VaultUnlockData { passphrase, error, host_idx, action }
}

/// The first of two optional texts that is there, or an empty one.
fn first_of(a: &Option<String>, b: &Option<String>) -> (r: String)
    ensures
        r@ == or_empty(either(crate::text::opt_text(*a), crate::text::opt_text(*b))),
{
    match a {
        Some(s) => s.clone(),
        None => match b {
            Some(s) => s.clone(),
            None => {
                let r = String::new();
                assert(r@ =~= Seq::<char>::empty());
                r
            },
        },
    }
}

/// A line of the settings that holds a value.
fn field(value: &String) -> (r: SettingsField)
    ensures
        r@ == (FieldModel { value: value@, saved: value@ }),
{
    SettingsField { value: value.clone(), saved: value.clone() }
}

/// The settings screen of a host.
fn screen_for(host: &Host, stored: &HostSettings) -> (r: SettingsData)
    ensures
        r@ == fresh_screen(host@, stored@),
{
    let alias = Some(host.alias.clone());
    let none: Option<String> = None;
    let name = first_of(&stored.name, &alias);
    let address = first_of(&stored.address, &host.hostname);
    let username = first_of(&stored.username, &host.user);
    let password = first_of(&stored.password, &none);
    let mut fields: Vec<SettingsField> = Vec::new();
    fields.push(field(&name));
    fields.push(field(&address));
    fields.push(field(&username));
    fields.push(field(&password));
    let ghost values = initial_values(host@, stored@);
    assert(values =~= seq![name@, address@, username@, password@]);
    let mut originals: Vec<String> = Vec::new();
    originals.push(name);
    originals.push(address);
    originals.push(username);
    originals.push(password);
    let r = SettingsData { fields, originals, selected: 0, editing: false };
    assert(r@.originals =~= values);
    assert(r@.fields =~= fresh_screen(host@, stored@).fields);
    r
}

impl SettingsData {
    /// Whether any line differs from what it held when the screen was opened.
    pub fn changed(&self) -> (r: bool)
        requires
            screen_wf(self@),
        ensures
            r == is_changed(self@),
    {
        for i in 0..4usize
            invariant
                screen_wf(self@),
                self.fields@.len() == 4,
                self.originals@.len() == 4,
                forall|j: int| 0 <= j < i ==> #[trigger] self@.fields[j].value == self@.originals[j],
        {
            assert(self@.fields[i as int].value == self.fields@[i as int].value@);
            assert(self@.originals[i as int] == self.originals@[i as int]@);
            if !same_text(self.fields[i].value.as_str(), self.originals[i].as_str()) {
                return true;
            }
        }
        false
    }

    /// The settings that the screen stands for.
    pub fn to_settings(&self) -> (r: HostSettings)
        requires
            screen_wf(self@),
        ensures
            r@ == screen_settings(self@),
    {
        assert(self.fields@.len() == self@.fields.len());
        settings_from_fields(
            self.fields[0].value.clone(),
            self.fields[1].value.clone(),
            self.fields[2].value.clone(),
            self.fields[3].value.clone(),
        )
    }

    /// Puts another line in the place of the selected one.
    fn replace_selected(&mut self, value: String, saved: String)
        requires
            screen_wf(old(self)@),
        ensures
            final(self)@ == (ScreenModel {
                fields: old(self)@.fields.update(
                    old(self)@.selected,
                    FieldModel { value: value@, saved: saved@ },
                ),
                ..old(self)@
            }),
    {
        let ghost before = self@.fields;
        let ghost model = FieldModel { value: value@, saved: saved@ };
        assert(self.fields@.len() == before.len());
        let at: usize = self.selected;
        self.fields.set(at, SettingsField { value, saved });
        assert(self@.fields =~= before.update(at as int, model));
    }

    /// Takes a key while the selected line is being edited.
    fn on_edit_key(&mut self, key: Key)
        requires
            screen_wf(old(self)@),
        ensures
            final(self)@ == edit_key(old(self)@, key),
            screen_wf(final(self)@),
    {
        assert(self.fields@.len() == self@.fields.len());
        let at: usize = self.selected;
        let value = self.fields[at].value.clone();
        let saved = self.fields[at].saved.clone();
        let ghost f = self@.fields[at as int];
        assert(f == self.fields@[at as int]@);
        match key {
            Key::Enter => {
                let kept = value.clone();
                self.replace_selected(value, kept);
                self.editing = false;
            },
            Key::Esc => {
                let back = saved.clone();
                self.replace_selected(back, saved);
                self.editing = false;
            },
            Key::Char(c) => {
                let mut value = value;
                value.push(c);
                self.replace_selected(value, saved);
            },
            Key::Backspace => {
                let mut value = value;
                let last = value.pop();
                self.replace_selected(value, saved);
            },
            _ => {},
        }
    }
}

impl App {
    /// The picker, with nothing searched for.
    pub fn new(hosts: Vec<Host>, vault: LazyVault) -> (r: App)
        ensures
            r@.wf(),
            r@ == fresh_app(crate::model::host_models(hosts@), vault@),
    {
        let query = String::new();
        assert(query@ =~= Seq::<char>::empty());
        let mut app = App {
            hosts,
            statuses: Table::new(),
            query,
            mode: Mode::Normal,
            filtered: Vec::new(),
            selected: 0,
            viewport: 10,
            settings: None,
            vault_unlock: None,
            connect_target: None,
            vault,
            unsaved: None,
            matcher: new_matcher(),
        };
        app.recompute();
        app
    }

    /// Makes the list anew.
    pub fn recompute(&mut self)
        requires
            old(self)@.wf(),
        ensures
            final(self)@ == old(self)@.searched(old(self)@.query),
            final(self)@.wf(),
    {
        let ghost before = self@;
        self.filtered = list_hosts(&self.hosts, self.query.as_str(), &mut self.matcher);
        if self.selected >= self.filtered.len() {
            self.selected = if self.filtered.len() > 0 {
                self.filtered.len() - 1
            } else {
                0
            };
        }
        assert(self@ =~= before.searched(before.query));
    }

    /// Takes another search.
    fn set_query(&mut self, query: String)
        requires
            old(self)@.wf(),
            crate::listing::searchable(old(self)@.hosts, query@),
        ensures
            final(self)@ == old(self)@.searched(query@),
            final(self)@.wf(),
    {
        let ghost before = self@;
        self.query = query;
        self.recompute();
        assert(self@ =~= before.searched(query@));
    }

    /// Moves the selection, which stays in the list.
    pub fn move_by(&mut self, delta: isize)
        requires
            old(self)@.wf(),
        ensures
            final(self)@ == old(self)@.moved(delta as int),
            final(self)@.wf(),
    {
        if self.filtered.is_empty() {
            return;
        }
        let max: usize = self.filtered.len() - 1;
        let next: i128 = self.selected as i128 + delta as i128;
        self.selected = if next < 0 {
            0
        } else if next > max as i128 {
            max
        } else {
            next as usize
        };
    }

    /// Selects the first line.
    pub fn to_top(&mut self)
        requires
            old(self)@.wf(),
        ensures
            final(self)@ == (AppModel { selected: 0, ..old(self)@ }),
            final(self)@.wf(),
    {
        self.selected = 0;
    }

    /// Selects the last line.
    pub fn to_bottom(&mut self)
        requires
            old(self)@.wf(),
        ensures
            final(self)@ == (AppModel {
                selected: if old(self)@.filtered.len() > 0 {
                    old(self)@.filtered.len() - 1
                } else {
                    0
                },
                ..old(self)@
            }),
            final(self)@.wf(),
    {
        self.selected = if self.filtered.len() > 0 {
            self.filtered.len() - 1
        } else {
            0
        };
    }

    /// The host that is selected, by index.
    fn selected_index(&self) -> (r: Option<usize>)
        requires
            self@.wf(),
        ensures
            match r {
                Some(i) => self@.selected_host() == Some(i as int) && i < self@.hosts.len(),
                None => self@.selected_host() is None,
            },
    {
        if self.selected < self.filtered.len() {
            assert(self@.filtered[self.selected as int] < self@.hosts.len());
            Some(self.filtered[self.selected])
        } else {
            None
        }
    }

    /// The alias that is selected.
    pub fn selected_alias(&self) -> (r: Option<String>)
        requires
            self@.wf(),
        ensures
            crate::text::opt_text(r) == self@.selected_name(),
    {
        match self.selected_index() {
            Some(i) => {
                assert(self@.hosts[i as int] == self.hosts@[i as int]@);
                Some(self.hosts[i].alias.clone())
            },
            None => None,
        }
    }

    /// Takes what a probe found.
    pub fn set_status(&mut self, alias: String, active: Option<bool>)
        requires
            old(self)@.wf(),
        ensures
            final(self)@ == old(self)@.heard(alias@, active),
            final(self)@.wf(),
    {
        self.statuses.insert(alias, active);
    }

    /// Takes the height of the list.
    pub fn set_viewport(&mut self, lines: u16)
        requires
            old(self)@.wf(),
        ensures
            final(self)@ == (AppModel { viewport: lines as int, ..old(self)@ }),
            final(self)@.wf(),
    {
        self.viewport = lines as usize;
    }

    /// Opens the settings of a host. The password is shown only if the vault is
    /// unlocked already: nothing is asked for here.
    pub fn enter_settings_for(&mut self, host_idx: usize)
        requires
            old(self)@.wf(),
            host_idx < old(self)@.hosts.len(),
        ensures
            final(self)@ == settings_opened(old(self)@, host_idx as int),
            final(self)@.wf(),
    {
        assert(self@.hosts[host_idx as int] == self.hosts@[host_idx as int]@);
        let stored = match self.vault.get_settings(self.hosts[host_idx].alias.as_str()) {
            Some(s) => s,
            None => HostSettings::default(),
        };
        let screen = screen_for(&self.hosts[host_idx], &stored);
        self.settings = Some(screen);
        self.mode = Mode::Settings;
    }

    /// Connects to the selected host, or asks for the passphrase first.
    pub fn try_connect(&mut self, disk: &VaultOnDisk) -> (r: Option<KeyOutcome>)
        requires
            old(self)@.wf(),
        ensures
            (final(self)@, outcome_model(r)) == connecting(old(self)@, *disk),
            final(self)@.wf(),
    {
        let i = match self.selected_index() {
            Some(i) => i,
            None => return Some(KeyOutcome::Exit(None)),
        };
        assert(self@.hosts[i as int] == self.hosts@[i as int]@);
        let alias = self.hosts[i].alias.clone();
        if !self.vault.is_unlocked() && Vault::alias_hint_exists(alias.as_str(), &disk.index) {
            self.vault_unlock = Some(question(i, None, VaultUnlockAction::Connect(alias)));
            self.mode = Mode::VaultUnlock;
            None
        } else {
            Some(KeyOutcome::Exit(Some(alias)))
        }
    }

    /// Takes the vault that the passphrase opened, and goes on with what it was asked
    /// for.
    pub fn unlocked(&mut self, vault: Vault) -> (r: Option<VaultRequest>)
        requires
            old(self)@.wf(),
        ensures
            (final(self)@, request_model(r)) == unlocked(old(self)@, vault@),
            final(self)@.wf(),
    {
        let ghost before = self@;
        let ghost model = vault@;
        match self.vault_unlock.take() {
            None => None,
            Some(d) => {
                self.vault.inject(vault);
                match d.action {
                    VaultUnlockAction::Save(alias, settings) => {
                        let stored = self.vault.set_settings_data(alias.as_str(), settings);
                        self.mode = Mode::Normal;
                        self.unsaved = Some(Unsaved { settings: None, host_idx: d.host_idx });
                        Some(VaultRequest::Save)
                    },
                    VaultUnlockAction::Connect(alias) => {
                        self.mode = Mode::Normal;
                        self.connect_target = Some(alias);
                        None
                    },
                    VaultUnlockAction::ReenterSettings => {
                        self.enter_settings_for(d.host_idx);
                        if let Some(s) = self.settings.take() {
                            let mut screen = s;
                            screen.selected = 3;
                            screen.editing = true;
                            self.settings = Some(screen);
                        }
                        None
                    },
                }
            },
        }
    }

    /// Takes the error of a passphrase that opened nothing.
    pub fn unlock_failed(&mut self, message: String)
        requires
            old(self)@.wf(),
        ensures
            final(self)@ == refused(old(self)@, message@),
            final(self)@.wf(),
    {
        if let Some(d) = self.vault_unlock.take() {
            self.vault_unlock = Some(question(d.host_idx, Some(message), d.action));
        }
    }

    /// Takes note that the vault was written.
    pub fn saved(&mut self)
        requires
            old(self)@.wf(),
        ensures
            final(self)@ == (AppModel { unsaved: None, ..old(self)@ }),
            final(self)@.wf(),
    {
        self.unsaved = None;
    }

    /// Takes the error of a vault that could not be written, and shows it over the
    /// settings that were being left.
    pub fn save_failed(&mut self, message: String)
        requires
            old(self)@.wf(),
        ensures
            final(self)@ == not_saved(old(self)@, message@),
            final(self)@.wf(),
    {
        if let Some(u) = self.unsaved.take() {
            self.settings = u.settings;
            self.vault_unlock = Some(
                question(u.host_idx, Some(message), VaultUnlockAction::ReenterSettings),
            );
            self.mode = Mode::VaultUnlock;
        }
    }

    /// Takes a vault that was created for the settings of a host.
    pub fn vault_created(&mut self, vault: Vault, alias: &str, settings: HostSettings)
        requires
            old(self)@.wf(),
        ensures
            final(self)@ == created(old(self)@, vault@, alias@, settings@),
            final(self)@.wf(),
    {
        self.vault.inject(vault);
        let stored = self.vault.set_settings_data(alias, settings);
    }

    /// Leaves the settings.
    pub fn leave_settings(&mut self, disk: &VaultOnDisk) -> (r: Option<VaultRequest>)
        requires
            old(self)@.wf(),
        ensures
            (final(self)@, request_model(r)) == leaving(old(self)@, *disk),
            final(self)@.wf(),
    {
        self.mode = Mode::Normal;
        let screen = match self.settings.take() {
            Some(s) => s,
            None => return None,
        };
        let i = match self.selected_index() {
            Some(i) => i,
            None => return None,
        };
        if !screen.changed() {
            return None;
        }
        assert(self@.hosts[i as int] == self.hosts@[i as int]@);
        let alias = self.hosts[i].alias.clone();
        let settings = screen.to_settings();
        if self.vault.is_unlocked() {
            let stored = self.vault.set_settings_data(alias.as_str(), settings);
            self.unsaved = Some(Unsaved { settings: Some(screen), host_idx: i });
            return Some(VaultRequest::Save);
        }
        if disk.exists {
            self.vault_unlock = Some(question(i, None, VaultUnlockAction::Save(alias, settings)));
            self.mode = Mode::VaultUnlock;
            return None;
        }
        if settings.password.is_none() {
            return None;
        }
        Some(VaultRequest::Create(alias, settings))
    }
}

/// Whether a search can take what a key types.
pub open spec fn has_room(s: AppModel, key: Key, ctrl: bool) -> bool {
    s.mode == Mode::Search && key is Char && !is_ctrl(key, ctrl, set!['u', 'w'])
        ==> crate::listing::searchable(s.hosts, edited_query(s.query, key, ctrl))
}

/// What erases a part of a search leaves one that is possible.
proof fn lemma_erased_search(s: AppModel, key: Key, ctrl: bool)
    requires
        s.wf(),
        has_room(s, key, ctrl),
        s.mode == Mode::Search,
    ensures
        crate::listing::searchable(s.hosts, edited_query(s.query, key, ctrl)),
{
    let query = s.query;
    if key is Backspace && query.len() > 0 {
        crate::listing::lemma_shorter_search(s.hosts, query, query.len() - 1);
        assert(query.take(query.len() - 1) =~= query.drop_last());
    }
    if is_ctrl(key, ctrl, set!['w']) {
        let rest = without_last_word(query);
        lemma_trim_end(query);
        lemma_without_run(crate::text::trim_end(query));
        crate::listing::lemma_shorter_search(s.hosts, query, rest.len() as int);
        assert(query.take(rest.len() as int) =~= rest);
    }
}

/// What is left without trailing white space is a beginning.
proof fn lemma_trim_end(s: Seq<char>)
    ensures
        crate::text::trim_end(s).len() <= s.len(),
        crate::text::trim_end(s) == s.take(crate::text::trim_end(s).len() as int),
    decreases s.len(),
{
    let rest = crate::text::trim_end(s);
    if s.len() > 0 && crate::text::is_space(s.last()) {
        lemma_trim_end(s.drop_last());
        assert(s.drop_last().take(rest.len() as int) =~= s.take(rest.len() as int));
    } else {
        assert(s.take(s.len() as int) =~= s);
    }
}

/// What is left without the last run is a beginning.
proof fn lemma_without_run(s: Seq<char>)
    ensures
        without_run(s).len() <= s.len(),
        without_run(s) == s.take(without_run(s).len() as int),
    decreases s.len(),
{
    if s.len() > 0 && !crate::text::is_space(s.last()) {
        lemma_without_run(s.drop_last());
        assert(s.drop_last().take(without_run(s).len() as int) =~= s.take(
            without_run(s).len() as int,
        ));
    } else {
        assert(s.take(s.len() as int) =~= s);
    }
}

/// Whether a key is one of these characters together with Ctrl.
pub open spec fn is_ctrl(key: Key, ctrl: bool, chars: Set<char>) -> bool {
    ctrl && (key matches Key::Char(c) && chars.contains(c))
}

/// Removes the last word of a search and the white space behind it.
pub fn trim_last_word(query: &mut String)
    ensures
        final(query)@ == without_last_word(old(query)@),
{
    let v = chars_of(query.as_str());
    let ghost whole = query@;
    let mut end: usize = v.len();
    assert(whole.take(end as int) =~= whole);
    while end > 0 && char_is_space(v[end - 1])
        invariant
            v@ == whole,
            end <= whole.len(),
            crate::text::trim_end(whole) == crate::text::trim_end(whole.take(end as int)),
        decreases end,
    {
        assert(whole.take(end as int).drop_last() =~= whole.take(end - 1));
        end = end - 1;
    }
    let ghost bare = crate::text::trim_end(whole);
    assert(bare == whole.take(end as int));
    while end > 0 && !char_is_space(v[end - 1])
        invariant
            v@ == whole,
            end <= whole.len(),
            without_run(bare) == without_run(whole.take(end as int)),
        decreases end,
    {
        assert(whole.take(end as int).drop_last() =~= whole.take(end - 1));
        end = end - 1;
    }
    *query = text_of(&v, 0, end);
    assert(query@ =~= whole.take(end as int));
}

/// Takes a key in the list: moving by lines and pages.
pub fn handle_key(app: &mut App, key: Key, ctrl: bool, disk: &VaultOnDisk) -> (r: Option<KeyOutcome>)
    requires
        old(app)@.wf(),
        is_ctrl(key, ctrl, set!['p', 'n', 'd']) || has_room(old(app)@, key, ctrl),
    ensures
        (final(app)@, outcome_model(r)) == list_key(old(app)@, key, ctrl, *disk),
        final(app)@.wf(),
{
    let page: isize = app.viewport as isize;
    let half: isize = if page / 2 > 1 {
        page / 2
    } else {
        1
    };
    match key {
        Key::Up => {
            app.move_by(-1);
            None
        },
        Key::Down => {
            app.move_by(1);
            None
        },
        Key::PageUp => {
            app.move_by(-page);
            None
        },
        Key::PageDown => {
            app.move_by(page);
            None
        },
        Key::Char(c) => {
            if ctrl && c == 'p' {
                app.move_by(-1);
                None
            } else if ctrl && c == 'n' {
                app.move_by(1);
                None
            } else if ctrl && c == 'd' {
                app.move_by(half);
                None
            } else if ctrl && c == 'u' && app.mode == Mode::Normal {
                app.move_by(-half);
                None
            } else {
                handle_mode_key(app, key, ctrl, disk)
            }
        },
        _ => handle_mode_key(app, key, ctrl, disk),
    }
}

/// Takes a key in the list that means something else in each mode.
pub fn handle_mode_key(app: &mut App, key: Key, ctrl: bool, disk: &VaultOnDisk) -> (r: Option<KeyOutcome>)
    requires
        old(app)@.wf(),
        has_room(old(app)@, key, ctrl),
    ensures
        (final(app)@, outcome_model(r)) == mode_key(old(app)@, key, ctrl, *disk),
        final(app)@.wf(),
{
    match app.mode {
        Mode::Normal => match key {
            Key::Esc => Some(KeyOutcome::Exit(None)),
            Key::Char(c) => normal_char(app, c, ctrl, disk),
            _ => None,
        },
        Mode::Search => {
            proof {
                lemma_erased_search(app@, key, ctrl);
            }
            match key {
                Key::Esc => {
                    app.mode = Mode::Normal;
                },
                Key::Backspace => {
                    let mut query = app.query.clone();
                    let last = query.pop();
                    app.set_query(query);
                },
                Key::Char(c) => {
                    let mut query = app.query.clone();
                    if ctrl && c == 'u' {
                        query = String::new();
                        assert(query@ =~= Seq::<char>::empty());
                    } else if ctrl && c == 'w' {
                        trim_last_word(&mut query);
                    } else {
                        query.push(c);
                    }
                    app.set_query(query);
                },
                _ => {},
            }
            None
        },
        _ => None,
    }
}

/// Takes a character while moving through the list.
fn normal_char(app: &mut App, c: char, ctrl: bool, disk: &VaultOnDisk) -> (r: Option<KeyOutcome>)
    requires
        old(app)@.wf(),
        old(app)@.mode == Mode::Normal,
    ensures
        (final(app)@, outcome_model(r)) == mode_key(old(app)@, Key::Char(c), ctrl, *disk),
        final(app)@.wf(),
{
    match c {
        'q' => {
            return Some(KeyOutcome::Exit(None));
        },
        'j' => {
            app.move_by(1);
        },
        'k' => {
            app.move_by(-1);
        },
        'g' => {
            app.to_top();
        },
        'G' => {
            app.to_bottom();
        },
        'l' => {
            return app.try_connect(disk);
        },
        '/' | 's' | 'i' => {
            app.mode = Mode::Search;
        },
        'e' => {
            if let Some(i) = app.selected_index() {
                app.enter_settings_for(i);
            }
        },
        _ => {},
    }
    None
}

/// Takes a key while the passphrase is asked for.
pub fn handle_vault_unlock_key(app: &mut App, key: Key) -> (r: Option<VaultRequest>)
    requires
        old(app)@.wf(),
    ensures
        (final(app)@, request_model(r)) == unlock_key(old(app)@, key),
        final(app)@.wf(),
{
    let data = match app.vault_unlock.take() {
        Some(d) => d,
        None => return None,
    };
    match key {
        Key::Enter => {
            let passphrase = data.passphrase.clone();
            app.vault_unlock = Some(data);
            Some(VaultRequest::Open(passphrase))
        },
        Key::Esc => {
            app.mode = if app.settings.is_some() {
                Mode::Settings
            } else {
                Mode::Normal
            };
            None
        },
        Key::Backspace => {
            let mut data = data;
            let last = data.passphrase.pop();
            data.error = None;
            app.vault_unlock = Some(data);
            None
        },
        Key::Char(c) => {
            let mut data = data;
            data.passphrase.push(c);
            data.error = None;
            app.vault_unlock = Some(data);
            None
        },
        _ => {
            app.vault_unlock = Some(data);
            None
        },
    }
}

/// Takes a key while settings are shown.
pub fn handle_settings_key(app: &mut App, key: Key, disk: &VaultOnDisk) -> (r: Option<VaultRequest>)
    requires
        old(app)@.wf(),
    ensures
        (final(app)@, request_model(r)) == settings_key(old(app)@, key, *disk),
        final(app)@.wf(),
{
    let ghost before = app@;
    let screen = match app.settings.take() {
        Some(s) => s,
        None => return None,
    };
    let mut screen = screen;
    if screen.editing {
        screen.on_edit_key(key);
        app.settings = Some(screen);
        return None;
    }
    match key {
        Key::Esc => {
            app.settings = Some(screen);
            assert(app@ == before);
            return app.leave_settings(disk);
        },
        Key::Down | Key::Char('j') => {
            if screen.selected < 3 {
                screen.selected = screen.selected + 1;
            }
        },
        Key::Up | Key::Char('k') => {
            if screen.selected > 0 {
                screen.selected = screen.selected - 1;
            }
        },
        Key::Enter => {
            if screen.selected == 3 && app.vault.is_locked(disk.exists) {
                let host: usize = match app.selected_index() {
                    Some(i) => i,
                    None => 0,
                };
                app.settings = Some(screen);
                app.vault_unlock = Some(question(host, None, VaultUnlockAction::ReenterSettings));
                app.mode = Mode::VaultUnlock;
                return None;
            }
            assert(screen.fields@.len() == screen@.fields.len());
            let value = screen.fields[screen.selected].value.clone();
            let kept = value.clone();
            assert(screen@.fields[screen@.selected] == screen.fields@[screen.selected as int]@);
            screen.replace_selected(value, kept);
            screen.editing = true;
        },
        _ => {},
    }
    app.settings = Some(screen);
    None
}

/// What a key does, whatever the picker is doing. Enter connects, and Ctrl-c and
/// Ctrl-g end the picker, unless a passphrase or settings are being typed.
pub open spec fn any_key(s: AppModel, key: Key, ctrl: bool, disk: VaultOnDisk) -> (
    AppModel,
    Option<Option<Seq<char>>>,
    Option<RequestModel>,
) {
    if s.mode == Mode::VaultUnlock {
        (unlock_key(s, key).0, None, unlock_key(s, key).1)
    } else if s.mode == Mode::Settings {
        (settings_key(s, key, disk).0, None, settings_key(s, key, disk).1)
    } else if key == Key::Enter {
        (connecting(s, disk).0, connecting(s, disk).1, None)
    } else if ctrl && (key == Key::Char('c') || key == Key::Char('g')) {
        (s, Some(None), None)
    } else {
        (list_key(s, key, ctrl, disk).0, list_key(s, key, ctrl, disk).1, None)
    }
}

/// A step in terms of the model.
pub open spec fn step_model(step: Step) -> (Option<Option<Seq<char>>>, Option<RequestModel>) {
    match step {
        Step::Stay => (None, None),
        Step::Exit(a) => (Some(crate::text::opt_text(a)), None),
        Step::Vault(r) => (None, Some(r@)),
    }
}

/// A step that ends the picker, or none.
fn exit_step(outcome: Option<KeyOutcome>) -> (r: Step)
    ensures
        step_model(r) == (outcome_model(outcome), None::<RequestModel>),
{
    match outcome {
        Some(KeyOutcome::Exit(alias)) => Step::Exit(alias),
        None => Step::Stay,
    }
}

/// A step that asks for something with the vault, or none.
fn vault_step(request: Option<VaultRequest>) -> (r: Step)
    ensures
        step_model(r) == (None::<Option<Seq<char>>>, request_model(request)),
{
    match request {
        Some(q) => Step::Vault(q),
        None => Step::Stay,
    }
}

/// Whether a key can be taken: it types nothing, or the search has room for it.
pub open spec fn key_fits(s: AppModel, key: Key, ctrl: bool) -> bool {
    is_ctrl(key, ctrl, set!['p', 'n', 'd', 'c', 'g']) || has_room(s, key, ctrl)
}

impl App {
    /// Whether a key can be taken: where it types into a search, the search stays
    /// possible.
    pub fn key_fits(&self, key: Key, ctrl: bool) -> (r: bool)
        ensures
            r == key_fits(self@, key, ctrl),
    {
        match key {
            Key::Char(c) => {
                if self.mode != Mode::Search || (ctrl && (c == 'u' || c == 'w' || c == 'p' || c == 'n' || c
                    == 'd' || c == 'c' || c == 'g')) {
                    return true;
                }
                let mut query = self.query.clone();
                query.push(c);
                can_search(&self.hosts, query.as_str())
            },
            _ => true,
        }
    }
}

/// Takes a key.
pub fn on_key(app: &mut App, key: Key, ctrl: bool, disk: &VaultOnDisk) -> (r: Step)
    requires
        old(app)@.wf(),
        key_fits(old(app)@, key, ctrl),
    ensures
        ({
            let (next, exit, request) = any_key(old(app)@, key, ctrl, *disk);
            final(app)@ == next && step_model(r) == (exit, request)
        }),
        final(app)@.wf(),
{
    match app.mode {
        Mode::VaultUnlock => vault_step(handle_vault_unlock_key(app, key)),
        Mode::Settings => vault_step(handle_settings_key(app, key, disk)),
        _ => {
            match key {
                Key::Enter => exit_step(app.try_connect(disk)),
                Key::Char(c) => {
                    if ctrl && (c == 'c' || c == 'g') {
                        Step::Exit(None)
                    } else {
                        exit_step(handle_key(app, key, ctrl, disk))
                    }
                },
                _ => exit_step(handle_key(app, key, ctrl, disk)),
            }
        },
    }
}

} // verus!
