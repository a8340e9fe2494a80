//! What the user is told.

use vstd::prelude::*;

use crate::cli::CliError;
use crate::config::ForwardError;
use crate::connect::ConnectError;
use crate::mux::CopyError;
use crate::registry::RegistryError;
use crate::terminfo::TermError;
use crate::vault::VaultError;

verus! {

/// A connection that is given up names the host, and how often it was tried; a layout
/// that is missing is named.
pub proof fn law_connection_messages(alias: String, attempts: u32, forward: ForwardError)
    ensures
        (ConnectError::LayoutNotFound(alias)).text() == "layout "@ + crate::text::debug_quoted(
            alias@,
        ) + " not found in config"@,
        (ConnectError::Forward(forward)).text() == forward.text(),
        (ConnectError::Failed { alias }).text() == "ssh connection to "@ + alias@ + " failed"@,
        (ConnectError::GaveUp { alias, attempts }).text() == "ssh connection to "@ + alias@
            + " failed after "@ + crate::text::decimal(attempts as nat) + " reconnect attempts"@,
{
}

/// A forward that is refused is named with its flag.
pub proof fn law_forward_messages(flag: String, spec_text: String)
    ensures
        (ForwardError::Empty { flag }).text() == "empty "@ + flag@ + " port forward in config"@,
        (ForwardError::Whitespace { flag, spec: spec_text }).text() == flag@ + " port forward "@
            + crate::text::debug_quoted(spec_text@)
            + " contains whitespace; write it as a single spec such as \"8080:localhost:80\""@,
{
}

/// Before each attempt the user is told how long the wait is and which attempt it is.
pub proof fn law_reconnect_message(alias: Seq<char>, attempt: nat, delay: nat, max: nat)
    ensures
        crate::connect::reconnect_text(alias, attempt, delay, max) == "Connection to "@ + alias
            + " lost — reconnecting in "@ + crate::text::decimal(delay) + "s (attempt "@
            + crate::text::decimal(attempt) + "/"@ + crate::text::decimal(max) + ")…"@,
{
}

/// Why a copy is refused, and which copy failed.
pub proof fn law_copy_messages(source: Seq<char>, dest: Seq<char>)
    ensures
        CopyError::BothRemote.text()
            == "both paths are remote; ssht cp copies between local and one host"@,
        CopyError::BothLocal.text() == "neither path names a host; use cp for local copies"@,
        crate::mux::copy_failure(source, dest) == "scp failed copying "@ + source + " to "@ + dest,
{
}

/// Why a command line is refused, and whether settings were forgotten.
pub proof fn law_command_messages(host: Seq<char>)
    ensures
        CliError::MoshWithLocalEcho.text()
            == "the argument '--mosh' cannot be used with '--local-echo'"@,
        CliError::ArgumentsWithCommand.text()
            == "a command cannot be used with arguments for connecting"@,
        CliError::NoPreviousHost.text() == "no previous connection recorded yet"@,
        crate::cli::removed_text(true, host) == "Settings removed for "@ + host,
        crate::cli::removed_text(false, host) == "No settings stored for "@ + host,
{
}

/// A request that failed on a host names the host and the session, and says what the
/// host said.
pub proof fn law_registry_messages(alias: String, session: String, detail: String)
    ensures
        (RegistryError::Connection { alias, detail }).text() == "ssh connection to "@ + alias@
            + " failed: "@ + detail@,
        (RegistryError::Kill { alias, session, detail }).text() == "killing session "@
            + crate::text::debug_quoted(session@) + " on "@ + alias@ + ": "@ + detail@,
        (RegistryError::Rename { alias, session, detail }).text() == "renaming session "@
            + crate::text::debug_quoted(session@) + " on "@ + alias@ + ": "@ + detail@,
{
}

/// Why the terminal could not be set up, and what is done instead.
pub proof fn law_terminal_messages(target: String, term: Seq<char>)
    ensures
        TermError::NoFallback.text()
            == "local terminfo for fallback xterm-256color is unavailable"@,
        (TermError::Connection { target }).text() == "SSH failed while checking terminfo on "@
            + target@,
        TermError::NotSent.text() == "sending local terminfo to the remote host"@,
        crate::terminfo::unavailable_text(term) == "ssht: local terminfo for "@ + term
            + " is unavailable; using xterm-256color remotely"@,
{
}

/// What is wrong with the vault.
pub proof fn law_vault_messages(detail: String)
    ensures
        VaultError::AlreadyExists.text() == "vault already exists"@,
        VaultError::Mismatch.text() == "passphrases do not match"@,
        VaultError::EmptyPassphrase.text() == "passphrase cannot be empty"@,
        VaultError::Locked.text() == "vault is not unlocked"@,
        (VaultError::Encrypt(detail)).text() == "encrypting vault: age encryption failed: "@
            + detail@,
        (VaultError::Decrypt(detail)).text()
            == "decrypting vault (wrong passphrase?): age decryption failed: "@ + detail@,
        (VaultError::NotUtf8(detail)).text() == "vault content is not valid UTF-8: "@ + detail@,
        VaultError::WrongPassphrase.text() == "wrong vault passphrase after 3 attempts"@,
{
}

} // verus!
