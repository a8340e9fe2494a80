//! What holds of the vault and of the questions for what it keeps.

use vstd::prelude::*;

use crate::vault::AliasIndex;
use crate::vault::VaultError;
use crate::vault::VaultModel;

verus! {

/// A new passphrase is taken where it is repeated alike and is not empty; else what
/// was wrong is said, and that the two differ comes first.
pub proof fn law_new_passphrases(p: Seq<char>, again: Seq<char>, answer: Result<(), VaultError>)
    requires
        crate::vault::is_checked(p, again, answer),
    ensures
        answer is Ok <==> p == again && p.len() > 0,
        p != again ==> (answer matches Err(e) && e is Mismatch),
        p == again && p.len() == 0 ==> (answer matches Err(e) && e is EmptyPassphrase),
{
}

/// A field that is filled in is stored as it was typed, in its own place, and an empty
/// one is not stored at all.
pub proof fn law_fields_are_stored(
    name: Seq<char>,
    address: Seq<char>,
    user: Seq<char>,
    password: Seq<char>,
)
    ensures
        ({
            let s = crate::vault::settings_of(name, address, user, password);
            &&& name.len() > 0 ==> s.name == Some(name)
            &&& name.len() == 0 ==> s.name is None
            &&& address.len() > 0 ==> s.address == Some(address)
            &&& address.len() == 0 ==> s.address is None
            &&& user.len() > 0 ==> s.username == Some(user)
            &&& user.len() == 0 ==> s.username is None
            &&& password.len() > 0 ==> s.password == Some(password)
            &&& password.len() == 0 ==> s.password is None
        }),
{
}

/// A question shows in brackets what its field holds, where it holds something.
pub proof fn law_questions(label: Seq<char>, current: Seq<char>)
    ensures
        crate::vault::field_question(label, None) == label + ": "@,
        crate::vault::field_question(label, Some(Seq::<char>::empty())) == label + ": "@,
        current.len() > 0 ==> crate::vault::field_question(label, Some(current)) == label + " ["@
            + current + "]: "@,
        crate::vault::password_question(label, true) == label
            + " (leave blank to keep current): "@,
        crate::vault::password_question(label, false) == label + ": "@,
{
}

/// An answer replaces what a field held, without the white space around it; a blank
/// one keeps it.
pub proof fn law_answers(
    before: Seq<char>,
    answer: Seq<char>,
    after: Seq<char>,
    current: Option<Seq<char>>,
)
    requires
        crate::text_laws::is_blank(before),
        crate::text_laws::is_blank(after),
        answer.len() > 0,
        !crate::text::is_space(answer[0]),
        !crate::text::is_space(answer.last()),
    ensures
        crate::vault::field_answered(before + answer + after, current) == answer,
        current is Some ==> crate::vault::field_answered(before, current) == current->0,
        current is None ==> crate::vault::field_answered(before, current) == Seq::<char>::empty(),
{
    crate::text_laws::law_trimming(before, answer, after);
    let none = Seq::<char>::empty();
    crate::text_laws::law_trimming(before, none, none);
    assert(before + none + none =~= before);
}

/// A password is taken as it was typed, white space and all; an empty answer keeps the
/// one that was there.
pub proof fn law_password_answers(answer: Seq<char>, current: Option<Seq<char>>)
    ensures
        answer.len() > 0 ==> crate::vault::password_answered(answer, current) == answer,
        answer.len() == 0 && current is Some ==> crate::vault::password_answered(answer, current)
            == current->0,
        answer.len() == 0 && current is None ==> crate::vault::password_answered(answer, current)
            == Seq::<char>::empty(),
{
}

/// Three attempts at the passphrase may be made, and no more.
pub proof fn law_three_attempts()
    ensures
        crate::vault::attempt_behind(1) == Some(2u32),
        crate::vault::attempt_behind(2) == Some(3u32),
        crate::vault::attempt_behind(3) is None,
{
}

/// An entry of the oldest format is a password and nothing else.
pub proof fn law_oldest_format(password: Seq<char>)
    ensures
        ({
            let s = crate::vault::password_only(password);
            s.password == Some(password) && s.name is None && s.address is None && s.username is None
        }),
{
}

/// The passphrase is needed exactly where there is a vault and it was not opened yet.
pub proof fn law_shut_vaults(v: VaultModel, exists: bool)
    ensures
        crate::vault::is_shut(None, true),
        !crate::vault::is_shut(None, false),
        !crate::vault::is_shut(Some(v), exists),
{
}

/// An unlocked vault knows whether a host has settings. Of a locked one the index
/// says; where the index cannot be read a host may have some, and where there is no
/// vault it has none.
pub proof fn law_hosts_with_settings(v: VaultModel, index: AliasIndex, alias: Seq<char>)
    ensures
        crate::vault::may_have(Some(v), index, alias) == v.entries.dom().contains(alias),
        index is NoVault ==> !crate::vault::may_have(None, index, alias),
        index is Unreadable ==> crate::vault::may_have(None, index, alias),
        index is Aliases ==> crate::vault::may_have(None, index, alias) == (exists|i: int|
            0 <= i < index->Aliases_0@.len() && (#[trigger] index->Aliases_0@[i])@ == alias),
{
    if index is Aliases {
        let list = index->Aliases_0@;
        let all = crate::text::texts(list);
        if all.contains(alias) {
            let i = choose|i: int| 0 <= i < all.len() && all[i] == alias;
            assert(list[i]@ == alias);
        }
        if exists|i: int| 0 <= i < list.len() && (#[trigger] list[i])@ == alias {
            let i = choose|i: int| 0 <= i < list.len() && (#[trigger] list[i])@ == alias;
            assert(all[i] == alias);
        }
    }
}

/// A host has the settings and the password that are stored for it, and none while the
/// vault is locked.
pub proof fn law_lookup(v: VaultModel, alias: Seq<char>)
    ensures
        v.entries.dom().contains(alias) ==> crate::vault::settings_in(Some(v), alias) == Some(
            v.entries[alias],
        ) && crate::vault::password_in(Some(v), alias) == v.entries[alias].password,
        !v.entries.dom().contains(alias) ==> crate::vault::settings_in(Some(v), alias) is None
            && crate::vault::password_in(Some(v), alias) is None,
        crate::vault::settings_in(None, alias) is None,
        crate::vault::password_in(None, alias) is None,
{
}


/// The question for the passphrase counts the attempts.
pub proof fn law_attempts_are_shown(number: nat)
    ensures
        crate::vault::attempt_question(number) == "Vault passphrase (attempt "@
            + crate::text::decimal(number) + "/3): "@,
{
}

/// The script that answers for a password prints the file that the password is in, and
/// does nothing else.
pub proof fn law_askpass(file: Seq<char>)
    requires
        !file.contains('\n'),
    ensures
        crate::text::lines(crate::vault::askpass_text(file)) == seq![
            "#!/bin/sh"@,
            "cat \""@ + file + "\""@,
        ],
{
    let text = crate::vault::askpass_text(file);
    let first = "#!/bin/sh"@;
    let second = "cat \""@ + file + "\""@;
    reveal_strlit("#!/bin/sh");
    reveal_strlit("cat \"");
    reveal_strlit("\"");
    reveal_strlit("#!/bin/sh\ncat \"");
    reveal_strlit("\"\n");
    assert(!first.contains('\n'));
    assert(!second.contains('\n')) by {
        if second.contains('\n') {
            let i = choose|i: int| 0 <= i < second.len() && second[i] == '\n';
            if 5 <= i < 5 + file.len() {
                assert(file[i - 5] == '\n');
                assert(file.contains('\n'));
            }
        }
    }
    let none = Seq::<char>::empty();
    assert("#!/bin/sh\ncat \""@ =~= first + seq!['\n'] + "cat \""@);
    assert("\"\n"@ =~= "\""@ + seq!['\n']);
    assert(text =~= first + seq!['\n'] + (second + seq!['\n'] + none));
    assert(first.last() == 'h');
    assert(second.last() == '"');
    crate::text_laws::law_lines(first, second + seq!['\n'] + none);
    crate::text_laws::law_lines(second, none);
    assert(seq![first] + (seq![second] + Seq::<Seq<char>>::empty()) =~= seq![first, second]);
}


/// A vault is created only where there is none, under the passphrase that was given and
/// without entries.
pub proof fn law_new_vaults(passphrase: Seq<char>, alias: Seq<char>)
    ensures
        crate::vault::new_vault(passphrase, true) is None,
        crate::vault::new_vault(passphrase, false) is Some,
        crate::vault::new_vault(passphrase, false)->0.passphrase == passphrase,
        crate::vault::settings_in(crate::vault::new_vault(passphrase, false), alias) is None,
{
}

/// A vault that is opened has the settings of its text; of the oldest format, which
/// keeps passwords alone, the passwords.
pub proof fn law_vault_formats(content: crate::vault::VaultContent, alias: Seq<char>)
    ensures
        content matches crate::vault::VaultContent::Current(t) ==> {
            &&& content.entries().dom() == t@.dom()
            &&& t@.dom().contains(alias) ==> content.entries()[alias] == t@[alias]@
        },
        content matches crate::vault::VaultContent::PasswordsOnly(t) ==> {
            &&& content.entries().dom() == t@.dom()
            &&& t@.dom().contains(alias) ==> content.entries()[alias].password == Some(t@[alias]@)
                && content.entries()[alias].address is None
        },
{
    match content {
        crate::vault::VaultContent::Current(t) => {
            assert(content.entries().dom() =~= t@.dom());
        },
        crate::vault::VaultContent::PasswordsOnly(t) => {
            assert(content.entries().dom() =~= t@.dom());
        },
    }
}

/// The listing of a vault has every host with settings, once and in order, and no other.
pub proof fn law_vault_is_listed(list: Seq<Seq<char>>, keys: Set<Seq<char>>, alias: Seq<char>)
    requires
        crate::vault::lists_in_order(list, keys),
    ensures
        list.contains(alias) <==> keys.contains(alias),
        forall|i: int, j: int|
            0 <= i < j < list.len() ==> #[trigger] list[i] != #[trigger] list[j]
                && crate::order::text_lt(list[i], list[j]),
{
    assert(list.to_set().contains(alias) == keys.contains(alias));
    assert forall|i: int, j: int| 0 <= i < j < list.len() implies #[trigger] list[i]
        != #[trigger] list[j] && crate::order::text_lt(list[i], list[j]) by {
        crate::order::lemma_text_lt_irreflexive(list[i]);
    }
}


/// A change of the passphrase loses nothing: every host has the settings that it had.
pub proof fn law_changed_passphrase(v: VaultModel, passphrase: Seq<char>, alias: Seq<char>)
    ensures
        crate::vault::rekeyed(v, passphrase).passphrase == passphrase,
        crate::vault::settings_in(Some(crate::vault::rekeyed(v, passphrase)), alias)
            == crate::vault::settings_in(Some(v), alias),
{
}

} // verus!
