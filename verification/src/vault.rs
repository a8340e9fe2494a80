//! The encrypted vault of host settings.
//!
//! Entries live in memory here. Reading and writing the vault's file, and turning
//! its text into entries and back, is up to the caller.

use vstd::prelude::*;

use crate::order::sorted;
use crate::order::SortKey;
use crate::paths::location;
use crate::paths::Location;
use crate::paths::NoHome;
use crate::paths::Root;
use crate::table::Table;
use crate::text::clone_opt;
use crate::text::decimal_text;
use crate::text::from_utf8;
use crate::text::holds_text;
use crate::text::same_text;
use crate::text::trim;

verus! {

/// The version that a vault is written with.
pub const VAULT_VERSION: i32 = 2;

/// How often a passphrase may be tried.
pub const MAX_ATTEMPTS: u32 = 3;

/// What the vault keeps about one host.
#[derive(Debug)]
pub struct HostSettings {
    pub name: Option<String>,
    pub address: Option<String>,
    pub username: Option<String>,
    pub password: Option<String>,
}

/// What host settings hold.
pub struct SettingsModel {
    pub name: Option<Seq<char>>,
    pub address: Option<Seq<char>>,
    pub username: Option<Seq<char>>,
    pub password: Option<Seq<char>>,
}

impl View for HostSettings {
    type V = SettingsModel;

    open spec fn view(&self) -> SettingsModel {
        SettingsModel {
            name: crate::text::opt_text(self.name),
            address: crate::text::opt_text(self.address),
            username: crate::text::opt_text(self.username),
            password: crate::text::opt_text(self.password),
        }
    }
}

/// Settings that say nothing.
pub open spec fn no_settings() -> SettingsModel {
    SettingsModel { name: None, address: None, username: None, password: None }
}

impl Default for HostSettings {
    fn default() -> (r: HostSettings)
        ensures
            r@ == no_settings(),
    {
        HostSettings { name: None, address: None, username: None, password: None }
    }
}

impl Clone for HostSettings {
    fn clone(&self) -> (r: HostSettings)
        ensures
            r@ == self@,
    {
        HostSettings {
            name: clone_opt(&self.name),
            address: clone_opt(&self.address),
            username: clone_opt(&self.username),
            password: clone_opt(&self.password),
        }
    }
}

/// The settings of an optional value.
pub open spec fn opt_settings(o: Option<HostSettings>) -> Option<SettingsModel> {
    match o {
        Some(s) => Some(s@),
        None => None,
    }
}

/// Why something cannot be done with the vault.
#[derive(Debug)]
pub enum VaultError {
    /// There is a vault already.
    AlreadyExists,
    /// The passphrase and its repetition differ.
    Mismatch,
    /// The passphrase is empty.
    EmptyPassphrase,
    /// The vault is locked, or there is none.
    Locked,
    /// The vault could not be encrypted.
    Encrypt(String),
    /// The vault could not be decrypted.
    Decrypt(String),
    /// The decrypted vault is no text.
    NotUtf8(String),
    /// Every attempt to open the vault failed.
    WrongPassphrase,
}

impl VaultError {
    /// The error in words.
    pub open spec fn text(&self) -> Seq<char> {
        match self {
            VaultError::AlreadyExists => "vault already exists"@,
            VaultError::Mismatch => "passphrases do not match"@,
            VaultError::EmptyPassphrase => "passphrase cannot be empty"@,
            VaultError::Locked => "vault is not unlocked"@,
            VaultError::Encrypt(detail) => "encrypting vault: age encryption failed: "@ + detail@,
            VaultError::Decrypt(detail) =>
                "decrypting vault (wrong passphrase?): age decryption failed: "@ + detail@,
            VaultError::NotUtf8(detail) => "vault content is not valid UTF-8: "@ + detail@,
            VaultError::WrongPassphrase => "wrong vault passphrase after 3 attempts"@,
        }
    }

    /// What to tell the user.
    pub fn message(&self) -> (r: String)
        ensures
            r@ == self.text(),
    {
        match self {
            VaultError::AlreadyExists => "vault already exists".to_string(),
            VaultError::Mismatch => "passphrases do not match".to_string(),
            VaultError::EmptyPassphrase => "passphrase cannot be empty".to_string(),
            VaultError::Locked => "vault is not unlocked".to_string(),
            VaultError::Encrypt(detail) => {
                let mut out = "encrypting vault: age encryption failed: ".to_string();
                out.append(detail.as_str());
                out
            },
            VaultError::Decrypt(detail) => {
                let mut out =
                    "decrypting vault (wrong passphrase?): age decryption failed: ".to_string();
                out.append(detail.as_str());
                out
            },
            VaultError::NotUtf8(detail) => {
                let mut out = "vault content is not valid UTF-8: ".to_string();
                out.append(detail.as_str());
                out
            },
            VaultError::WrongPassphrase => "wrong vault passphrase after 3 attempts".to_string(),
        }
    }
}

/// The error of age's encryption.
#[verifier::external_type_specification]
#[verifier::external_body]
pub struct ExEncryptError(age::EncryptError);

/// The error of age's decryption.
#[verifier::external_type_specification]
#[verifier::external_body]
pub struct ExDecryptError(age::DecryptError);

/// What a passphrase opens in an age file: the plaintext, or nothing where the
/// bytes are no age file for that passphrase.
pub uninterp spec fn age_plaintext(passphrase: Seq<char>, data: Seq<u8>) -> Option<Seq<u8>>;

/// `age::encrypt` for an `age::scrypt::Recipient` of the passphrase: the result is
/// an age file that this passphrase opens, with `data` inside. The bytes differ
/// from call to call, and whether there are any rests with the system's random
/// numbers, so no more is said of them.
#[verifier::external_body]
fn age_encrypt(passphrase: &str, data: &[u8]) -> (r: Result<Vec<u8>, age::EncryptError>)
    ensures
        r matches Ok(c) ==> age_plaintext(passphrase@, c@) == Some(data@),
{
    let secret = age::secrecy::SecretString::from(passphrase.to_owned());
    let recipient = age::scrypt::Recipient::new(secret);
    age::encrypt(&recipient, data)
}

/// `age::decrypt` for an `age::scrypt::Identity` of the passphrase: what it gives
/// back is what the passphrase opens. It may also refuse a file that takes more work
/// than this machine is willing to do, so success is not promised.
#[verifier::external_body]
fn age_decrypt(passphrase: &str, data: &[u8]) -> (r: Result<Vec<u8>, age::DecryptError>)
    ensures
        r matches Ok(p) ==> age_plaintext(passphrase@, data@) == Some(p@),
{
    let secret = age::secrecy::SecretString::from(passphrase.to_owned());
    let identity = age::scrypt::Identity::new(secret);
    age::decrypt(&identity, data)
}

/// What an encryption error says of itself (its `to_string`), in words that depend
/// on the user's language.
#[verifier::external_body]
fn encrypt_detail(e: &age::EncryptError) -> (r: String) {
    e.to_string()
}

/// What a decryption error says of itself (its `to_string`), in words that depend
/// on the user's language.
#[verifier::external_body]
fn decrypt_detail(e: &age::DecryptError) -> (r: String) {
    e.to_string()
}

/// What an encryption that was tried comes to: the file, or the error with what age
/// says of it.
pub fn encrypted(tried: Result<Vec<u8>, age::EncryptError>) -> (r: Result<Vec<u8>, VaultError>)
    ensures
        match tried {
            Ok(c) => r == Ok::<Vec<u8>, VaultError>(c),
            Err(_) => r matches Err(e) && e is Encrypt,
        },
{
    match tried {
        Ok(c) => Ok(c),
        Err(e) => Err(VaultError::Encrypt(encrypt_detail(&e))),
    }
}

/// What a decryption that was tried comes to: the plaintext, or the error with what
/// age says of it.
pub fn decrypted(tried: Result<Vec<u8>, age::DecryptError>) -> (r: Result<Vec<u8>, VaultError>)
    ensures
        match tried {
            Ok(p) => r == Ok::<Vec<u8>, VaultError>(p),
            Err(_) => r matches Err(e) && e is Decrypt,
        },
{
    match tried {
        Ok(p) => Ok(p),
        Err(e) => Err(VaultError::Decrypt(decrypt_detail(&e))),
    }
}

/// What a plaintext comes to: the text that its bytes encode, where they are UTF-8,
/// and else the error with what std says of them.
pub fn plain_text(plain: Vec<u8>) -> (r: Result<String, VaultError>)
    ensures
        match r {
            Ok(t) => plain@ == vstd::utf8::encode_utf8(t@),
            Err(e) => !vstd::utf8::valid_utf8(plain@) && (e matches VaultError::NotUtf8(detail)
                && detail@ == crate::text::utf8_fault(plain@)),
        },
        vstd::utf8::valid_utf8(plain@) ==> r is Ok,
{
    let ghost bytes = plain@;
    match from_utf8(plain) {
        Ok(t) => {
            proof {
                vstd::utf8::decode_utf8_encode_utf8(bytes);
            }
            Ok(t)
        },
        Err(detail) => Err(VaultError::NotUtf8(detail)),
    }
}

/// An unlocked vault.
pub struct Vault {
    passphrase: String,
    entries: Table<HostSettings>,
}

/// What a vault holds.
pub struct VaultModel {
    pub passphrase: Seq<char>,
    pub entries: Map<Seq<char>, SettingsModel>,
}

/// The settings of a table.
pub open spec fn settings_map(m: Map<Seq<char>, HostSettings>) -> Map<Seq<char>, SettingsModel> {
    m.map_values(|s: HostSettings| s@)
}

impl View for Vault {
    type V = VaultModel;

    closed spec fn view(&self) -> VaultModel {
        VaultModel { passphrase: self.passphrase@, entries: settings_map(self.entries@) }
    }
}

/// The entries of a vault's text, in either of its formats.
pub enum VaultContent {
    /// Whole settings.
    Current(Table<HostSettings>),
    /// The oldest format: passwords alone.
    PasswordsOnly(Table<String>),
}

/// The settings that an entry of the oldest format stands for.
pub open spec fn password_only(password: Seq<char>) -> SettingsModel {
    SettingsModel { password: Some(password), ..no_settings() }
}

impl VaultContent {
    /// The entries.
    pub open spec fn entries(self) -> Map<Seq<char>, SettingsModel> {
        match self {
            VaultContent::Current(t) => settings_map(t@),
            VaultContent::PasswordsOnly(t) => t@.map_values(|p: String| password_only(p@)),
        }
    }
}

/// Whether `list` holds the texts of `keys`, each once, in dictionary order.
pub open spec fn lists_in_order(list: Seq<Seq<char>>, keys: Set<Seq<char>>) -> bool {
    &&& list.to_set() == keys
    &&& forall|i: int, j: int|
        0 <= i < j < list.len() ==> crate::order::text_lt(#[trigger] list[i], #[trigger] list[j])
}

/// What is known about the aliases in a vault without opening it.
#[derive(Debug)]
pub enum AliasIndex {
    /// There is no vault.
    NoVault,
    /// There is a vault, and no index that can be read.
    Unreadable,
    /// The aliases with settings.
    Aliases(Vec<String>),
}

impl AliasIndex {
    /// Whether an alias may have settings.
    pub open spec fn may_hold(self, alias: Seq<char>) -> bool {
        match self {
            AliasIndex::NoVault => false,
            AliasIndex::Unreadable => true,
            AliasIndex::Aliases(v) => crate::text::texts(v@).contains(alias),
        }
    }
}

/// Where the vault lies; nowhere without a home directory.
pub open spec fn vault_place(override_set: bool, xdg_config_set: bool, home_known: bool) -> Option<
    (Root, Seq<Seq<char>>),
> {
    if override_set {
        Some((Root::Override, Seq::empty()))
    } else if xdg_config_set {
        Some((Root::XdgConfig, seq!["ssht"@, "vault.age"@]))
    } else if home_known {
        Some((Root::Home, seq![".config"@, "ssht"@, "vault.age"@]))
    } else {
        None
    }
}

/// A new vault, where there is none yet.
pub open spec fn new_vault(passphrase: Seq<char>, exists: bool) -> Option<VaultModel> {
    if exists {
        None
    } else {
        Some(VaultModel { passphrase, entries: Map::empty() })
    }
}

/// A vault with the settings of a host stored in it, in place of those it had.
pub open spec fn stored(v: VaultModel, alias: Seq<char>, settings: SettingsModel) -> VaultModel {
    VaultModel { entries: v.entries.insert(alias, settings), ..v }
}

/// A vault that is written with another passphrase.
pub open spec fn rekeyed(v: VaultModel, passphrase: Seq<char>) -> VaultModel {
    VaultModel { passphrase, ..v }
}

/// A vault without the settings of a host.
pub open spec fn forgotten(v: VaultModel, alias: Seq<char>) -> VaultModel {
    VaultModel { entries: v.entries.remove(alias), ..v }
}

impl Vault {
    /// Where the vault lies: the file that the environment names, or
    /// `ssht/vault.age` under `XDG_CONFIG_HOME`, or under `~/.config` where that is
    /// unset or empty.
    pub fn vault_path(override_set: bool, xdg_config_set: bool, home_known: bool) -> (r: Result<
        Location,
        NoHome,
    >)
        ensures
            match r {
                Ok(l) => vault_place(override_set, xdg_config_set, home_known) == Some(l@),
                Err(_) => vault_place(override_set, xdg_config_set, home_known) is None,
            },
    {
        if override_set {
            let l = location(Root::Override, &[]);
            assert(l@.1 =~= Seq::<Seq<char>>::empty());
            Ok(l)
        } else if xdg_config_set {
            let l = location(Root::XdgConfig, &["ssht", "vault.age"]);
            assert(l@.1 =~= seq!["ssht"@, "vault.age"@]);
            Ok(l)
        } else if home_known {
            let l = location(Root::Home, &[".config", "ssht", "vault.age"]);
            assert(l@.1 =~= seq![".config"@, "ssht"@, "vault.age"@]);
            Ok(l)
        } else {
            Err(NoHome)
        }
    }

    /// Whether an alias may have settings, as far as can be told without the
    /// passphrase. Where nothing can be told it may, so that no stored password is
    /// passed over.
    pub fn alias_hint_exists(alias: &str, index: &AliasIndex) -> (r: bool)
        ensures
            r == index.may_hold(alias@),
    {
        match index {
            AliasIndex::NoVault => false,
            AliasIndex::Unreadable => true,
            AliasIndex::Aliases(v) => holds_text(v, alias),
        }
    }

    /// A new vault without entries, where there is none yet.
    pub fn init(passphrase: &str, exists: bool) -> (r: Result<Vault, VaultError>)
        ensures
            match r {
                Ok(v) => new_vault(passphrase@, exists) == Some(v@),
                Err(e) => new_vault(passphrase@, exists) is None && e is AlreadyExists,
            },
    {
        if exists {
            return Err(VaultError::AlreadyExists);
        }
        let v = Vault { passphrase: passphrase.to_string(), entries: Table::new() };
        assert(v@.entries =~= Map::<Seq<char>, SettingsModel>::empty());
        Ok(v)
    }

    /// The vault of some content.
    pub fn open(passphrase: &str, content: VaultContent) -> (r: Vault)
        ensures
            r@.passphrase == passphrase@,
            r@.entries == content.entries(),
    {
        let entries = match content {
            VaultContent::Current(t) => t,
            VaultContent::PasswordsOnly(t) => upgraded(&t),
        };
        Vault { passphrase: passphrase.to_string(), entries }
    }

    /// Changes the passphrase that the vault is written with.
    pub fn change_passphrase(&mut self, new_passphrase: &str)
        ensures
            final(self)@ == rekeyed(old(self)@, new_passphrase@),
    {
        self.passphrase = new_passphrase.to_string();
    }

    /// The settings of a host.
    pub fn get_settings(&self, alias: &str) -> (r: Option<&HostSettings>)
        ensures
            match r {
                Some(s) => settings_in(Some(self@), alias@) == Some(s@),
                None => settings_in(Some(self@), alias@) is None,
            },
    {
        self.entries.get(alias)
    }

    /// Stores the settings of a host, in place of those it had.
    pub fn set_settings(&mut self, alias: &str, settings: HostSettings)
        ensures
            final(self)@ == stored(old(self)@, alias@, settings@),
    {
        let ghost before = self@.entries;
        self.entries.insert(alias.to_string(), settings);
        assert(self@.entries =~= before.insert(alias@, settings@));
    }

    /// Forgets the settings of a host.
    pub fn remove(&mut self, alias: &str)
        ensures
            final(self)@ == forgotten(old(self)@, alias@),
    {
        let ghost before = self@.entries;
        let had = self.entries.remove(alias);
        assert(self@.entries =~= before.remove(alias@));
    }

    /// The aliases with settings, in order.
    pub fn list(&self) -> (r: Vec<String>)
        ensures
            lists_in_order(crate::text::texts(r@), self@.entries.dom()),
    {
        let names = self.entries.keys();
        let ghost all = crate::text::texts(names@);
        let mut keys: Vec<SortKey> = Vec::new();
        for i in 0..names.len()
            invariant
                all == crate::text::texts(names@),
                keys@.len() == i,
                forall|j: int| 0 <= j < i ==> #[trigger] keys@[j]@ == (0int, all[j]),
        {
            keys.push(SortKey::new(0, names[i].as_str()));
        }
        let perm = sorted(&keys);
        let ghost ks = crate::order::keys_of(keys@);
        let mut out: Vec<String> = Vec::new();
        for i in 0..perm.len()
            invariant
                all == crate::text::texts(names@),
                crate::order::in_order(ks, perm@),
                ks.len() == names@.len(),
                out@.len() == i,
                forall|j: int| 0 <= j < i ==> (#[trigger] out@[j])@ == all[perm@[j] as int],
        {
            assert(perm@[i as int] < ks.len());
            out.push(names[perm[i]].clone());
        }
        proof {
            let o = crate::text::texts(out@);
            assert forall|k: int| 0 <= k < o.len() implies #[trigger] o[k] == all[perm@[k] as int] by {
                assert(out@[k]@ == all[perm@[k] as int]);
            }
            assert forall|k: int| 0 <= k < ks.len() implies #[trigger] ks[k] == (0int, all[k]) by {
                assert(keys@[k]@ == ks[k]);
            }
            lemma_sorted_lists(o, all, ks, perm@);
            assert(all.to_set() == self.entries@.dom());
            assert(self@.entries.dom() =~= self.entries@.dom());
        }
        out
    }

    /// How many hosts have settings.
    pub fn len(&self) -> (r: usize)
        ensures
            self@.entries.dom().finite(),
            r == self@.entries.len(),
    {
        let n: usize = self.entries.len();
        assert(self@.entries.dom() =~= self.entries@.dom());
        n
    }

    /// Whether no host has settings.
    pub fn is_empty(&self) -> (r: bool)
        ensures
            r == (self@.entries == Map::<Seq<char>, SettingsModel>::empty()),
    {
        proof {
            if self.entries@ == Map::<Seq<char>, HostSettings>::empty() {
                assert(self@.entries =~= Map::<Seq<char>, SettingsModel>::empty());
            }
            if self@.entries == Map::<Seq<char>, SettingsModel>::empty() {
                assert(self.entries@.dom() =~= self@.entries.dom());
                assert(self.entries@ =~= Map::<Seq<char>, HostSettings>::empty());
            }
        }
        self.entries.is_empty()
    }

    /// Encrypts bytes under a passphrase.
    pub fn encrypt(passphrase: &str, data: &[u8]) -> (r: Result<Vec<u8>, VaultError>)
        ensures
            match r {
                Ok(c) => age_plaintext(passphrase@, c@) == Some(data@),
                Err(e) => e is Encrypt,
            },
    {
        encrypted(age_encrypt(passphrase, data))
    }

    /// Decrypts bytes with a passphrase.
    pub fn decrypt(passphrase: &str, data: &[u8]) -> (r: Result<Vec<u8>, VaultError>)
        ensures
            match r {
                Ok(p) => age_plaintext(passphrase@, data@) == Some(p@),
                Err(e) => e is Decrypt,
            },
    {
        decrypted(age_decrypt(passphrase, data))
    }

    /// The file of the vault, from its text: what the vault's passphrase opens is
    /// that text.
    pub fn seal(&self, text: &str) -> (r: Result<Vec<u8>, VaultError>)
        ensures
            match r {
                Ok(c) => age_plaintext(self@.passphrase, c@) == Some(vstd::utf8::encode_utf8(text@)),
                Err(e) => e is Encrypt,
            },
    {
        Vault::encrypt(self.passphrase.as_str(), text.as_bytes())
    }

    /// The text of a vault's file.
    pub fn unseal(passphrase: &str, data: &[u8]) -> (r: Result<String, VaultError>)
        ensures
            match r {
                Ok(t) => age_plaintext(passphrase@, data@) == Some(vstd::utf8::encode_utf8(t@)),
                Err(VaultError::NotUtf8(detail)) => age_plaintext(passphrase@, data@) matches Some(p)
                    && !vstd::utf8::valid_utf8(p) && detail@ == crate::text::utf8_fault(p),
                Err(e) => e is Decrypt,
            },
    {
        match Vault::decrypt(passphrase, data) {
            Ok(p) => plain_text(p),
            Err(e) => Err(e),
        }
    }
}

/// The settings that the entries of the oldest format stand for.
fn upgraded(old_entries: &Table<String>) -> (r: Table<HostSettings>)
    ensures
        settings_map(r@) == old_entries@.map_values(|p: String| password_only(p@)),
{
    let names = old_entries.keys();
    let ghost all = crate::text::texts(names@);
    let mut out: Table<HostSettings> = Table::new();
    for i in 0..names.len()
        invariant
            all == crate::text::texts(names@),
            all.to_set() == old_entries@.dom(),
            out@.dom() == all.take(i as int).to_set(),
            forall|k: Seq<char>|
                #[trigger] out@.dom().contains(k) ==> out@[k]@ == password_only(old_entries@[k]@),
    {
        let ghost before = out@;
        assert(all.contains(all[i as int]));
        match old_entries.get(names[i].as_str()) {
            Some(p) => {
                let settings = HostSettings {
                    name: None,
                    address: None,
                    username: None,
                    password: Some(p.clone()),
                };
                out.insert(names[i].clone(), settings);
                proof {
                    let more = all.take(i + 1);
                    let less = all.take(i as int);
                    assert(more =~= less.push(all[i as int]));
                    assert forall|k: Seq<char>| more.contains(k) == (less.contains(k) || k == all[i as int]) by {
                        if less.contains(k) {
                            let j = choose|j: int| 0 <= j < less.len() && less[j] == k;
                            assert(more[j] == k);
                        }
                        if k == all[i as int] {
                            assert(more[i as int] == k);
                        }
                        if more.contains(k) {
                            let j = choose|j: int| 0 <= j < more.len() && more[j] == k;
                            if j < i {
                                assert(less[j] == k);
                            }
                        }
                    }
                    assert(out@.dom() =~= more.to_set());
                }
            },
            None => {
                assert(false);
            },
        }
    }
    proof {
        assert(all.take(names@.len() as int) =~= all);
        assert(settings_map(out@) =~= old_entries@.map_values(|p: String| password_only(p@)));
    }
    out
}

/// Distinct texts in order of their keys are listed in order.
proof fn lemma_sorted_lists(
    o: Seq<Seq<char>>,
    all: Seq<Seq<char>>,
    ks: Seq<(int, Seq<char>)>,
    perm: Seq<usize>,
)
    requires
        all.no_duplicates(),
        all.len() <= usize::MAX,
        ks.len() == all.len(),
        o.len() == perm.len(),
        crate::order::in_order(ks, perm),
        forall|k: int| 0 <= k < o.len() ==> #[trigger] o[k] == all[perm[k] as int],
        forall|k: int| 0 <= k < ks.len() ==> #[trigger] ks[k] == (0int, all[k]),
    ensures
        lists_in_order(o, all.to_set()),
{
    assert forall|i: int, j: int| 0 <= i < j < o.len() implies crate::order::text_lt(
        #[trigger] o[i],
        #[trigger] o[j],
    ) by {
        let p = perm[i] as int;
        let q = perm[j] as int;
        assert(crate::order::entry_lt(ks, p, q));
        assert(ks[p] == (0int, all[p]) && ks[q] == (0int, all[q]));
        if p == q {
            crate::order::lemma_text_lt_irreflexive(all[p]);
        }
    }
    assert forall|k: Seq<char>| o.contains(k) == all.contains(k) by {
        if o.contains(k) {
            let i = choose|i: int| 0 <= i < o.len() && o[i] == k;
            assert(perm[i] < ks.len());
            assert(all[perm[i] as int] == k);
        }
        if all.contains(k) {
            let j = choose|j: int| 0 <= j < all.len() && all[j] == k;
            crate::order::lemma_in_order_holds_all(ks, perm, j as usize);
            let i = choose|i: int| 0 <= i < perm.len() && perm[i] == j as usize;
            assert(o[i] == k);
        }
    }
    assert(o.to_set() =~= all.to_set());
}

/// A vault that is unlocked when it is first needed.
pub struct LazyVault {
    vault: Option<Vault>,
}

impl View for LazyVault {
    type V = Option<VaultModel>;

    closed spec fn view(&self) -> Option<VaultModel> {
        match self.vault {
            Some(v) => Some(v@),
            None => None,
        }
    }
}

/// The settings of a host in a vault that may be locked.
pub open spec fn settings_in(v: Option<VaultModel>, alias: Seq<char>) -> Option<SettingsModel> {
    match v {
        Some(m) => if m.entries.dom().contains(alias) {
            Some(m.entries[alias])
        } else {
            None
        },
        None => None,
    }
}

/// Whether the passphrase has to be asked for before settings can be read.
pub open spec fn is_shut(v: Option<VaultModel>, vault_exists: bool) -> bool {
    vault_exists && v is None
}

/// Whether a host may have settings in a vault that may be locked.
pub open spec fn may_have(v: Option<VaultModel>, index: AliasIndex, alias: Seq<char>) -> bool {
    match v {
        Some(m) => m.entries.dom().contains(alias),
        None => index.may_hold(alias),
    }
}

/// The password of a host in a vault that may be locked.
pub open spec fn password_in(v: Option<VaultModel>, alias: Seq<char>) -> Option<Seq<char>> {
    match settings_in(v, alias) {
        Some(s) => s.password,
        None => None,
    }
}

impl LazyVault {
    /// A locked vault.
    pub fn new() -> (r: LazyVault)
        ensures
            r@ is None,
    {
        LazyVault { vault: None }
    }

    /// Whether the passphrase has to be asked for before settings can be read:
    /// there is a vault, and it is locked.
    pub fn ensure_unlocked(&self, vault_exists: bool) -> (r: bool)
        ensures
            r == is_shut(self@, vault_exists),
    {
        vault_exists && self.vault.is_none()
    }

    /// Takes an unlocked vault, in place of the one that was there.
    pub fn inject(&mut self, vault: Vault)
        ensures
            final(self)@ == Some(vault@),
    {
        self.vault = Some(vault);
    }

    /// Whether the vault is unlocked.
    pub fn is_unlocked(&self) -> (r: bool)
        ensures
            r == self@ is Some,
    {
        self.vault.is_some()
    }

    /// Whether there is a vault that is not unlocked yet.
    pub fn needs_unlock_or_init(&self, vault_exists: bool) -> (r: bool)
        ensures
            r == is_shut(self@, vault_exists),
    {
        vault_exists && self.vault.is_none()
    }

    /// Stores the settings of a host. The vault has to be unlocked.
    pub fn set_settings_data(&mut self, alias: &str, settings: HostSettings) -> (r: Result<
        (),
        VaultError,
    >)
        ensures
            match old(self)@ {
                Some(m) => r is Ok && final(self)@ == Some(stored(m, alias@, settings@)),
                None => r == Err::<(), VaultError>(VaultError::Locked) && final(self)@ is None,
            },
    {
        match self.vault.take() {
            Some(v) => {
                let mut vault = v;
                vault.set_settings(alias, settings);
                self.vault = Some(vault);
                Ok(())
            },
            None => Err(VaultError::Locked),
        }
    }

    /// The settings of a host, where the vault is unlocked and has some.
    pub fn get_settings(&self, alias: &str) -> (r: Option<HostSettings>)
        ensures
            opt_settings(r) == settings_in(self@, alias@),
    {
        match &self.vault {
            Some(v) => match v.get_settings(alias) {
                Some(s) => Some(s.clone()),
                None => None,
            },
            None => None,
        }
    }

    /// Whether a host may have settings. Of an unlocked vault this is exact; else
    /// the index decides.
    pub fn might_have_settings(&self, alias: &str, index: &AliasIndex) -> (r: bool)
        ensures
            r == may_have(self@, *index, alias@),
    {
        match &self.vault {
            Some(v) => v.get_settings(alias).is_some(),
            None => Vault::alias_hint_exists(alias, index),
        }
    }

    /// Whether there is a vault that is not unlocked yet.
    pub fn is_locked(&self, vault_exists: bool) -> (r: bool)
        ensures
            r == is_shut(self@, vault_exists),
    {
        vault_exists && self.vault.is_none()
    }

    /// The password of a host.
    pub fn get_password(&self, alias: &str) -> (r: Option<String>)
        ensures
            crate::text::opt_text(r) == password_in(self@, alias@),
    {
        match self.get_settings(alias) {
            Some(s) => s.password,
            None => None,
        }
    }

    /// The unlocked vault.
    pub fn unlocked(&self) -> (r: Option<&Vault>)
        ensures
            match r {
                Some(v) => self@ == Some(v@),
                None => self@ is None,
            },
    {
        match &self.vault {
            Some(v) => Some(v),
            None => None,
        }
    }
}

/// Whether an answer is the right one to a new passphrase and its repetition.
pub open spec fn is_checked(
    passphrase: Seq<char>,
    confirm: Seq<char>,
    answer: Result<(), VaultError>,
) -> bool {
    match answer {
        Ok(_) => passphrase == confirm && passphrase.len() > 0,
        Err(e) => if passphrase != confirm {
            e is Mismatch
        } else {
            e is EmptyPassphrase && passphrase.len() == 0
        },
    }
}

/// Checks a new passphrase and its repetition.
pub fn check_passphrase(passphrase: &str, confirm: &str) -> (r: Result<(), VaultError>)
    ensures
        is_checked(passphrase@, confirm@, r),
{
    if !same_text(passphrase, confirm) {
        Err(VaultError::Mismatch)
    } else if passphrase.is_empty() {
        Err(VaultError::EmptyPassphrase)
    } else {
        Ok(())
    }
}

/// A field that was left empty says nothing.
pub open spec fn filled(value: Seq<char>) -> Option<Seq<char>> {
    if value.len() == 0 {
        None
    } else {
        Some(value)
    }
}

/// A field that was left empty says nothing.
fn non_empty(value: String) -> (r: Option<String>)
    ensures
        crate::text::opt_text(r) == filled(value@),
{
    if value.as_str().is_empty() {
        None
    } else {
        Some(value)
    }
}

/// The settings that filled-in fields make.
pub open spec fn settings_of(
    name: Seq<char>,
    address: Seq<char>,
    username: Seq<char>,
    password: Seq<char>,
) -> SettingsModel {
    SettingsModel {
        name: filled(name),
        address: filled(address),
        username: filled(username),
        password: filled(password),
    }
}

/// The settings that filled-in fields make.
pub fn settings_from_fields(name: String, address: String, username: String, password: String) -> (r:
    HostSettings)
    ensures
        r@ == settings_of(name@, address@, username@, password@),
{
    HostSettings {
        name: non_empty(name),
        address: non_empty(address),
        username: non_empty(username),
        password: non_empty(password),
    }
}

/// What a field holds before it is filled in.
pub open spec fn field_default(current: Option<Seq<char>>) -> Seq<char> {
    match current {
        Some(c) => c,
        None => Seq::empty(),
    }
}

/// The question for a field: its label, and in brackets what it holds.
pub open spec fn field_question(label: Seq<char>, current: Option<Seq<char>>) -> Seq<char> {
    if field_default(current).len() == 0 {
        label + ": "@
    } else {
        label + " ["@ + field_default(current) + "]: "@
    }
}

/// What a field holds after its question was answered.
pub open spec fn field_answered(answer: Seq<char>, current: Option<Seq<char>>) -> Seq<char> {
    if crate::text::trimmed(answer).len() == 0 {
        field_default(current)
    } else {
        crate::text::trimmed(answer)
    }
}

/// The question for a password.
pub open spec fn password_question(label: Seq<char>, has_current: bool) -> Seq<char> {
    if has_current {
        label + " (leave blank to keep current): "@
    } else {
        label + ": "@
    }
}

/// The password after its question was answered.
pub open spec fn password_answered(answer: Seq<char>, current: Option<Seq<char>>) -> Seq<char> {
    if answer.len() == 0 {
        field_default(current)
    } else {
        answer
    }
}

/// The question for a field: its label, and in brackets what it holds.
pub fn field_prompt(label: &str, current: Option<&str>) -> (r: String)
    ensures
        r@ == field_question(label@, crate::text::opt_str(current)),
{
    let mut out = label.to_string();
    if let Some(c) = current {
        if !c.is_empty() {
            out.append(" [");
            out.append(c);
            out.append("]: ");
            return out;
        }
    }
    out.append(": ");
    out
}

/// What a field holds after its question was answered: the answer without white
/// space around it, or what it held where that is empty.
pub fn field_value(answer: &str, current: Option<&str>) -> (r: String)
    ensures
        r@ == field_answered(answer@, crate::text::opt_str(current)),
{
    let value = trim(answer);
    if value.as_str().is_empty() {
        if let Some(c) = current {
            return c.to_string();
        }
        assert(value@ =~= Seq::<char>::empty());
    }
    value
}

/// The question for a password.
pub fn password_prompt(label: &str, has_current: bool) -> (r: String)
    ensures
        r@ == password_question(label@, has_current),
{
    let mut out = label.to_string();
    if has_current {
        out.append(" (leave blank to keep current): ");
    } else {
        out.append(": ");
    }
    out
}

/// The password after its question was answered: the answer, or the one it was
/// where that is empty.
pub fn password_value(answer: String, current: Option<&str>) -> (r: String)
    ensures
        r@ == password_answered(answer@, crate::text::opt_str(current)),
{
    if answer.as_str().is_empty() {
        if let Some(c) = current {
            return c.to_string();
        }
        assert(answer@ =~= Seq::<char>::empty());
    }
    answer
}

/// The attempts at a passphrase.
#[derive(Debug, Clone, Copy, PartialEq, Eq, Structural)]
pub struct Attempts {
    /// The attempt that is being made, from one.
    pub number: u32,
}

/// The attempt behind one that failed; none behind the last.
pub open spec fn attempt_behind(number: u32) -> Option<u32> {
    if number < MAX_ATTEMPTS {
        Some((number + 1) as u32)
    } else {
        None
    }
}

/// The question for an attempt.
pub open spec fn attempt_question(number: nat) -> Seq<char> {
    "Vault passphrase (attempt "@ + crate::text::decimal(number) + "/3): "@
}

impl Attempts {
    /// Whether the attempt may be made.
    pub open spec fn wf(self) -> bool {
        1 <= self.number <= MAX_ATTEMPTS
    }

    /// The first attempt.
    pub fn first() -> (r: Attempts)
        ensures
            r.wf(),
            r.number == 1,
    {
        Attempts { number: 1 }
    }

    /// The question for this attempt.
    pub fn prompt(&self) -> (r: String)
        ensures
            r@ == attempt_question(self.number as nat),
    {
        let mut out = "Vault passphrase (attempt ".to_string();
        out.append(decimal_text(self.number as u64).as_str());
        out.append("/3): ");
        out
    }

    /// The attempt after this one failed, or the error where it was the last.
    pub fn failed(self) -> (r: Result<Attempts, VaultError>)
        requires
            self.wf(),
        ensures
            match r {
                Ok(next) => next.wf() && attempt_behind(self.number) == Some(next.number),
                Err(e) => attempt_behind(self.number) is None && e is WrongPassphrase,
            },
    {
        if self.number < MAX_ATTEMPTS {
            Ok(Attempts { number: self.number + 1 })
        } else {
            Err(VaultError::WrongPassphrase)
        }
    }
}

/// The script that answers ssh's question for a password with the contents of a
/// file.
pub open spec fn askpass_text(password_file: Seq<char>) -> Seq<char> {
    "#!/bin/sh\ncat \""@ + password_file + "\"\n"@
}

/// The script that answers ssh's question for a password with the contents of a
/// file.
pub fn askpass_script(password_file: &str) -> (r: String)
    ensures
        r@ == askpass_text(password_file@),
{
    let mut out = "#!/bin/sh\ncat \"".to_string();
    out.append(password_file);
    out.append("\"\n");
    out
}

/// What was sealed is what is opened: the text that the vault's passphrase opens in
/// a sealed file is the text that was sealed, and no other.
pub proof fn law_opened_is_sealed(
    passphrase: Seq<char>,
    data: Seq<u8>,
    sealed: Seq<char>,
    opened: Seq<char>,
)
    requires
        age_plaintext(passphrase, data) == Some(vstd::utf8::encode_utf8(sealed)),
        age_plaintext(passphrase, data) == Some(vstd::utf8::encode_utf8(opened)),
    ensures
        opened == sealed,
{
    vstd::utf8::encode_utf8_decode_utf8(sealed);
    vstd::utf8::encode_utf8_decode_utf8(opened);
}

/// A sealed file that opens is a text: it is never refused for its encoding.
pub proof fn law_sealed_is_text(passphrase: Seq<char>, data: Seq<u8>, sealed: Seq<char>)
    requires
        age_plaintext(passphrase, data) == Some(vstd::utf8::encode_utf8(sealed)),
    ensures
        age_plaintext(passphrase, data) matches Some(p) && vstd::utf8::valid_utf8(p),
{
    vstd::utf8::encode_utf8_valid_utf8(sealed);
}

/// A host whose settings were stored is found by the index that is written then,
/// and a host without is not: the passphrase is asked for exactly where it is
/// needed.
pub proof fn law_index_is_exact(v: VaultModel, index: AliasIndex, alias: Seq<char>)
    requires
        index matches AliasIndex::Aliases(list) && lists_in_order(
            crate::text::texts(list@),
            v.entries.dom(),
        ),
    ensures
        index.may_hold(alias) == v.entries.dom().contains(alias),
{
    let list = index->Aliases_0;
    assert(crate::text::texts(list@).to_set().contains(alias) == v.entries.dom().contains(alias));
}

/// What is stored for a host is what is found for it, and nothing else changes; a host
/// that had settings counts once.
pub proof fn law_stored_is_found(
    v: VaultModel,
    alias: Seq<char>,
    settings: SettingsModel,
    other: Seq<char>,
)
    requires
        other != alias,
        v.entries.dom().finite(),
    ensures
        ({
            let more = stored(v, alias, settings);
            let removed = forgotten(v, alias);
            &&& more.passphrase == v.passphrase && removed.passphrase == v.passphrase
            &&& settings_in(Some(more), alias) == Some(settings)
            &&& settings_in(Some(more), other) == settings_in(Some(v), other)
            &&& settings_in(Some(removed), alias) is None
            &&& settings_in(Some(removed), other) == settings_in(Some(v), other)
            &&& more.entries.len() == v.entries.len() + if v.entries.dom().contains(alias) {
                0int
            } else {
                1int
            }
            &&& removed.entries.len() == v.entries.len() - if v.entries.dom().contains(alias) {
                1int
            } else {
                0int
            }
        }),
{
    assert(v.entries.insert(alias, settings).dom() =~= v.entries.dom().insert(alias));
    assert(v.entries.remove(alias).dom() =~= v.entries.dom().remove(alias));
}

/// Reopening a vault gives back what was stored. `read` says which entries a text of
/// the vault stands for: where the text that is sealed stands for the vault's entries,
/// the vault of what its passphrase opens in the file is the same vault.
pub proof fn law_reopened_is_stored(
    v: VaultModel,
    read: spec_fn(Seq<char>) -> Map<Seq<char>, SettingsModel>,
    sealed: Seq<char>,
    data: Seq<u8>,
    opened: Seq<char>,
    reopened: VaultModel,
)
    requires
        read(sealed) == v.entries,
        age_plaintext(v.passphrase, data) == Some(vstd::utf8::encode_utf8(sealed)),
        age_plaintext(v.passphrase, data) == Some(vstd::utf8::encode_utf8(opened)),
        reopened == (VaultModel { passphrase: v.passphrase, entries: read(opened) }),
    ensures
        reopened == v,
        forall|alias: Seq<char>| #[trigger]
            settings_in(Some(reopened), alias) == settings_in(Some(v), alias),
{
    law_opened_is_sealed(v.passphrase, data, sealed, opened);
}

} // verus!
