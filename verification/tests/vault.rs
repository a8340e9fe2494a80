use ssht::table::Table;
use ssht::vault::{
    askpass_script, check_passphrase, decrypted, encrypted, field_prompt, field_value,
    password_prompt, password_value, plain_text, settings_from_fields, AliasIndex, Attempts,
    HostSettings, LazyVault, Vault, VaultContent, VaultError,
};
use ssht::paths::Root;

#[test]
fn test_encrypt_decrypt_roundtrip() {
    let data = b"hello world";
    let passphrase = "test-passphrase";
    let encrypted = Vault::encrypt(passphrase, data).unwrap();
    assert_ne!(encrypted, data);
    assert!(encrypted.len() > data.len());
    let decrypted = Vault::decrypt(passphrase, &encrypted).unwrap();
    assert_eq!(decrypted, data);
}

#[test]
fn test_wrong_passphrase_fails() {
    let data = b"secret data";
    let encrypted = Vault::encrypt("correct-horse", data).unwrap();
    let result = Vault::decrypt("wrong-passphrase", &encrypted);
    assert!(result.is_err());
    let err = result.unwrap_err();
    assert!(matches!(err, VaultError::Decrypt(_)));
    assert!(err.message().starts_with("decrypting vault (wrong passphrase?)"));
}

#[test]
fn test_vault_init_and_reopen() {
    let vault = Vault::init("mypass", false).unwrap();
    assert_eq!(vault.len(), 0);
    assert!(vault.is_empty());
    let sealed = vault.seal("version = 2\n").unwrap();

    let text = Vault::unseal("mypass", &sealed).unwrap();
    assert_eq!(text, "version = 2\n");
    let reopened = Vault::open("mypass", VaultContent::Current(Table::new()));
    assert_eq!(reopened.len(), 0);

    let result = Vault::unseal("wrongpass", &sealed);
    assert!(result.is_err());
}

fn pw(settings: &HostSettings) -> Option<&str> {
    settings.password.as_deref()
}

#[test]
fn test_vault_crud() {
    let mut vault = Vault::init("mypass", false).unwrap();
    let s = HostSettings { password: Some("s3cret!".into()), ..Default::default() };
    vault.set_settings("prod-web", s);
    assert_eq!(vault.len(), 1);
    assert!(!vault.is_empty());
    assert_eq!(pw(vault.get_settings("prod-web").unwrap()), Some("s3cret!"));

    let s = HostSettings { password: Some("p@ss".into()), ..Default::default() };
    vault.set_settings("db-primary", s);
    assert_eq!(vault.len(), 2);

    let list = vault.list();
    assert_eq!(list, vec!["db-primary", "prod-web"]);

    assert!(vault.get_settings("nonexistent").is_none());

    vault.remove("prod-web");
    assert_eq!(vault.len(), 1);
    assert!(vault.get_settings("prod-web").is_none());

    let mut stored = Table::new();
    for alias in vault.list() {
        stored.insert(alias.clone(), vault.get_settings(&alias).unwrap().clone());
    }
    let reopened = Vault::open("mypass", VaultContent::Current(stored));
    assert_eq!(reopened.len(), 1);
    assert_eq!(pw(reopened.get_settings("db-primary").unwrap()), Some("p@ss"));
}

#[test]
fn test_alias_hint_avoids_unnecessary_unlock() {
    // No vault at all: no hint, no unlock needed.
    assert!(!Vault::alias_hint_exists("prod-web", &AliasIndex::NoVault));

    let mut vault = Vault::init("mypass", false).unwrap();
    let s = HostSettings { password: Some("s3cret!".into()), ..Default::default() };
    vault.set_settings("prod-web", s);
    let index = AliasIndex::Aliases(vault.list());

    // Vault exists and has an index: only the stored alias hints true.
    assert!(Vault::alias_hint_exists("prod-web", &index));
    assert!(!Vault::alias_hint_exists("no-such-host", &index));

    let lazy = LazyVault::new();
    assert!(lazy.might_have_settings("prod-web", &index));
    assert!(!lazy.might_have_settings("no-such-host", &index));
    // An index that cannot be read hides nothing.
    assert!(lazy.might_have_settings("no-such-host", &AliasIndex::Unreadable));
}

#[test]
fn test_change_passphrase() {
    let mut vault = Vault::init("old-pass", false).unwrap();
    let s = HostSettings { password: Some("secret123".into()), ..Default::default() };
    vault.set_settings("server1", s);

    vault.change_passphrase("new-pass");
    let sealed = vault.seal("content").unwrap();

    assert!(Vault::unseal("old-pass", &sealed).is_err());

    assert_eq!(Vault::unseal("new-pass", &sealed).unwrap(), "content");
    assert_eq!(pw(vault.get_settings("server1").unwrap()), Some("secret123"));
}

#[test]
fn bytes_that_are_no_text_are_refused() {
    let sealed = Vault::encrypt("p", &[0xff, 0xfe]).unwrap();
    let err = Vault::unseal("p", &sealed).unwrap_err();
    assert!(matches!(err, VaultError::NotUtf8(_)));
    let detail = String::from_utf8(vec![0xff, 0xfe]).unwrap_err().to_string();
    assert_eq!(err.message(), format!("vault content is not valid UTF-8: {detail}"));
}

#[test]
fn bytes_that_are_no_vault_are_refused() {
    let err = Vault::unseal("p", b"not an age file").unwrap_err();
    assert!(matches!(err, VaultError::Decrypt(_)));
}

#[test]
fn outcomes_of_age_are_told_apart() {
    assert_eq!(encrypted(Ok(vec![1, 2])).unwrap(), [1, 2]);
    let err = encrypted(Err(age::EncryptError::MissingRecipients)).unwrap_err();
    assert!(matches!(err, VaultError::Encrypt(_)));
    assert_eq!(decrypted(Ok(vec![3])).unwrap(), [3]);
    let err = decrypted(Err(age::DecryptError::NoMatchingKeys)).unwrap_err();
    let detail = age::DecryptError::NoMatchingKeys.to_string();
    assert!(matches!(err, VaultError::Decrypt(d) if d == detail));
    assert_eq!(plain_text("é".as_bytes().to_vec()).unwrap(), "é");
    let detail = String::from_utf8(vec![0xc3]).unwrap_err().to_string();
    assert!(matches!(plain_text(vec![0xc3]), Err(VaultError::NotUtf8(d)) if d == detail));
}

#[test]
fn a_second_vault_is_not_created() {
    let err = Vault::init("p", true).err().unwrap();
    assert!(matches!(err, VaultError::AlreadyExists));
    assert_eq!(err.message(), "vault already exists");
}

#[test]
fn oldest_format_becomes_passwords() {
    let mut old = Table::new();
    old.insert("web".to_string(), "pw1".to_string());
    old.insert("db".to_string(), "pw2".to_string());
    let vault = Vault::open("p", VaultContent::PasswordsOnly(old));
    assert_eq!(vault.len(), 2);
    let web = vault.get_settings("web").unwrap();
    assert_eq!(pw(web), Some("pw1"));
    assert!(web.name.is_none() && web.address.is_none() && web.username.is_none());
}

#[test]
fn lazy_vault_stays_locked_until_injected() {
    let mut lazy = LazyVault::new();
    assert!(!lazy.is_unlocked());
    assert!(lazy.is_locked(true) && !lazy.is_locked(false));
    assert!(lazy.ensure_unlocked(true) && !lazy.ensure_unlocked(false));
    assert!(lazy.needs_unlock_or_init(true) && !lazy.needs_unlock_or_init(false));
    assert!(lazy.get_settings("web").is_none());
    let err = lazy.set_settings_data("web", HostSettings::default()).unwrap_err();
    assert!(matches!(err, VaultError::Locked));
    assert_eq!(err.message(), "vault is not unlocked");
    assert!(lazy.unlocked().is_none());

    lazy.inject(Vault::init("p", false).unwrap());
    assert!(lazy.is_unlocked() && !lazy.is_locked(true) && !lazy.ensure_unlocked(true));
    let s = HostSettings { password: Some("pw".into()), ..Default::default() };
    lazy.set_settings_data("web", s).unwrap();
    assert_eq!(lazy.get_password("web").as_deref(), Some("pw"));
    assert_eq!(lazy.get_password("db"), None);
    // Unlocked, the answer is exact whatever the index says.
    assert!(lazy.might_have_settings("web", &AliasIndex::NoVault));
    assert!(!lazy.might_have_settings("db", &AliasIndex::Unreadable));
    assert_eq!(lazy.unlocked().unwrap().len(), 1);
}

#[test]
fn passphrases_are_checked() {
    assert!(check_passphrase("a", "a").is_ok());
    let err = check_passphrase("a", "").unwrap_err();
    assert!(matches!(err, VaultError::Mismatch));
    assert_eq!(err.message(), "passphrases do not match");
    let err = check_passphrase("", "").unwrap_err();
    assert!(matches!(err, VaultError::EmptyPassphrase));
    assert_eq!(err.message(), "passphrase cannot be empty");
    assert_eq!(
        VaultError::Encrypt("x".into()).message(),
        "encrypting vault: age encryption failed: x"
    );
}

#[test]
fn three_attempts_and_no_more() {
    let one = Attempts::first();
    assert_eq!(one.prompt(), "Vault passphrase (attempt 1/3): ");
    let two = one.failed().unwrap();
    let three = two.failed().unwrap();
    assert_eq!(three.prompt(), "Vault passphrase (attempt 3/3): ");
    let err = three.failed().unwrap_err();
    assert!(matches!(err, VaultError::WrongPassphrase));
    assert_eq!(err.message(), "wrong vault passphrase after 3 attempts");
}

#[test]
fn fields_keep_what_they_held() {
    assert_eq!(field_prompt("Name", Some("web")), "Name [web]: ");
    assert_eq!(field_prompt("Name", Some("")), "Name: ");
    assert_eq!(field_prompt("Name", None), "Name: ");
    assert_eq!(field_value(" x \n", Some("web")), "x");
    assert_eq!(field_value("\n", Some("web")), "web");
    assert_eq!(field_value("\n", None), "");
    assert_eq!(password_prompt("Password", true), "Password (leave blank to keep current): ");
    assert_eq!(password_prompt("Password", false), "Password: ");
    assert_eq!(password_value("".into(), Some("old")), "old");
    assert_eq!(password_value(" ".into(), Some("old")), " ");
    let s = settings_from_fields("web".into(), "".into(), "u".into(), "".into());
    assert_eq!(s.name.as_deref(), Some("web"));
    assert_eq!(s.address, None);
    assert_eq!(s.username.as_deref(), Some("u"));
    assert_eq!(s.password, None);
}

#[test]
fn vault_file_can_be_named() {
    let l = Vault::vault_path(true, true, true).unwrap();
    assert_eq!((l.root, l.parts.len()), (Root::Override, 0));
    let l = Vault::vault_path(false, true, false).unwrap();
    assert_eq!((l.root, l.parts), (Root::XdgConfig, vec!["ssht".to_string(), "vault.age".into()]));
    let l = Vault::vault_path(false, false, true).unwrap();
    assert_eq!(l.parts, vec![".config", "ssht", "vault.age"]);
    assert!(Vault::vault_path(false, false, false).is_err());
}

#[test]
fn askpass_prints_the_file() {
    assert_eq!(askpass_script("/tmp/x/password"), "#!/bin/sh\ncat \"/tmp/x/password\"\n");
}

#[test]
fn reopening_gives_back_what_was_stored() {
    // A line for each entry: its alias and its password.
    fn written(vault: &Vault) -> String {
        let line = |a: &String| format!("{a} {}\n", pw(vault.get_settings(a).unwrap()).unwrap());
        vault.list().iter().map(line).collect()
    }
    fn read(text: &str) -> VaultContent {
        let mut entries = Table::new();
        for line in text.lines() {
            let (alias, password) = line.split_once(' ').unwrap();
            let s = HostSettings { password: Some(password.into()), ..Default::default() };
            entries.insert(alias.to_string(), s);
        }
        VaultContent::Current(entries)
    }
    let mut vault = Vault::init("mypass", false).unwrap();
    for (alias, password) in [("db", "p@ss"), ("web", "s3cret!")] {
        let s = HostSettings { password: Some(password.into()), ..Default::default() };
        vault.set_settings(alias, s);
    }
    let sealed = vault.seal(&written(&vault)).unwrap();
    let reopened = Vault::open("mypass", read(&Vault::unseal("mypass", &sealed).unwrap()));
    assert_eq!(reopened.list(), vault.list());
    assert_eq!(pw(reopened.get_settings("db").unwrap()), Some("p@ss"));
    assert_eq!(pw(reopened.get_settings("web").unwrap()), Some("s3cret!"));
}
