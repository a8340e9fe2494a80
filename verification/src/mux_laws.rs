//! What holds of shared connections and of copies over them.

use vstd::prelude::*;

use crate::mux::CopyError;
use crate::mux::EndpointModel;
use crate::paths::Root;
use crate::vault::SettingsModel;

verus! {

/// A name that can stand for a host in front of a path.
pub open spec fn is_host_name(host: Seq<char>) -> bool {
    host.len() > 0 && !host.contains(':') && !host.contains('/')
}

/// A host and a path that are joined by a colon are read back, whatever the path.
pub proof fn law_remote_side_is_read(host: Seq<char>, path: Seq<char>)
    requires
        is_host_name(host),
    ensures
        crate::mux::endpoint_of(host + seq![':'] + path) == (EndpointModel::Remote { host, path }),
{
    let text = host + seq![':'] + path;
    let n = host.len() as int;
    assert forall|j: int| 0 <= j < n implies text[j] != ':' by {
        assert(host.contains(host[j]));
    }
    crate::text::lemma_find_is(text, ':', n);
    assert(text.take(n) =~= host);
    assert(text.skip(n + 1) =~= path);
}

/// A path without a colon, one that begins with a colon, and one with a slash before
/// its colon are local paths.
pub proof fn law_local_side_is_read(text: Seq<char>, rest: Seq<char>)
    ensures
        !text.contains(':') ==> crate::mux::endpoint_of(text) == EndpointModel::Local(text),
        crate::mux::endpoint_of(seq![':'] + rest) == EndpointModel::Local(seq![':'] + rest),
        !text.contains(':') && text.contains('/') ==> crate::mux::endpoint_of(
            text + seq![':'] + rest,
        ) == EndpointModel::Local(text + seq![':'] + rest),
{
    crate::text::lemma_find(text, ':');
    crate::text::lemma_find_is(seq![':'] + rest, ':', 0);
    if !text.contains(':') {
        let whole = text + seq![':'] + rest;
        let n = text.len() as int;
        assert forall|j: int| 0 <= j < n implies whole[j] != ':' by {
            assert(text.contains(text[j]));
        }
        crate::text::lemma_find_is(whole, ':', n);
        assert(whole.take(n) =~= text);
    }
}

/// A copy goes between this machine and one host, in either direction.
pub proof fn law_one_side_names_the_host(host: Seq<char>, path: Seq<char>, local: Seq<char>)
    ensures
        crate::mux::copy_host(
            EndpointModel::Remote { host, path },
            EndpointModel::Local(local),
        ) == Ok::<Seq<char>, CopyError>(host),
        crate::mux::copy_host(
            EndpointModel::Local(local),
            EndpointModel::Remote { host, path },
        ) == Ok::<Seq<char>, CopyError>(host),
{
}

/// A copy between two hosts, or between none, is refused, and which it was is said.
pub proof fn law_other_copies_are_refused(a: EndpointModel, b: EndpointModel)
    ensures
        a is Remote && b is Remote ==> crate::mux::copy_host(a, b) == Err::<Seq<char>, CopyError>(
            CopyError::BothRemote,
        ),
        a is Local && b is Local ==> crate::mux::copy_host(a, b) == Err::<Seq<char>, CopyError>(
            CopyError::BothLocal,
        ),
{
}

/// What scp is handed for the remote side of a copy: the user and the address that
/// the vault has for the host, each where it has one. It is the same for an upload and
/// for a download, and the local side is handed on as it was written.
pub proof fn law_copies_reach_the_host(
    host: Seq<char>,
    path: Seq<char>,
    local: Seq<char>,
    recursive: bool,
    mux: Seq<Seq<char>>,
    settings: SettingsModel,
)
    requires
        is_host_name(host),
        !local.contains(':'),
    ensures
        ({
            let there = host + seq![':'] + path;
            let up = crate::mux::copy_words(local, there, recursive, mux, host, Some(settings));
            let down = crate::mux::copy_words(there, local, recursive, mux, host, Some(settings));
            let word = up.last();
            let n = up.len() as int;
            &&& n >= 2 && down.len() == n
            &&& down[n - 2] == word
            &&& up[n - 2] == local && down[n - 1] == local
            &&& up.take(n - 2) == down.take(n - 2)
            &&& settings.username is Some && settings.address is Some ==> word
                == settings.username->0 + seq!['@'] + settings.address->0 + seq![':'] + path
            &&& settings.username is Some && settings.address is None ==> word
                == settings.username->0 + seq!['@'] + host + seq![':'] + path
            &&& settings.username is None && settings.address is Some ==> word
                == settings.address->0 + seq![':'] + path
            &&& settings.username is None && settings.address is None ==> word == there
        }),
{
    law_remote_side_is_read(host, path);
    law_local_side_is_read(local, Seq::empty());
    reveal_strlit("@");
    reveal_strlit(":");
    assert("@"@ =~= seq!['@']);
    assert(":"@ =~= seq![':']);
    let there = host + seq![':'] + path;
    let up = crate::mux::copy_words(local, there, recursive, mux, host, Some(settings));
    let down = crate::mux::copy_words(there, local, recursive, mux, host, Some(settings));
    let n = up.len() as int;
    assert(up.take(n - 2) =~= down.take(n - 2));
}

/// The two sides stand at the end of the arguments. In front of them stand those of
/// the shared connection and then, for a directory alone, the flag for one. Without
/// settings in the vault both sides are as they were written.
pub proof fn law_copy_flags(
    source: Seq<char>,
    dest: Seq<char>,
    mux: Seq<Seq<char>>,
    alias: Seq<char>,
    settings: Option<SettingsModel>,
)
    ensures
        ({
            let one = crate::mux::copy_words(source, dest, false, mux, alias, settings);
            let all = crate::mux::copy_words(source, dest, true, mux, alias, settings);
            let n = mux.len() as int;
            &&& one.len() == n + 2 && one.take(n) == mux
            &&& all.len() == n + 3 && all.take(n) == mux && all[n] == "-r"@
            &&& all.skip(n + 1) == one.skip(n)
        }),
        crate::mux::copy_words(source, dest, false, mux, alias, None) == mux + seq![source, dest],
{
    let one = crate::mux::copy_words(source, dest, false, mux, alias, settings);
    let all = crate::mux::copy_words(source, dest, true, mux, alias, settings);
    let n = mux.len() as int;
    assert(one.take(n) =~= mux);
    assert(all.take(n) =~= mux);
    assert(all.skip(n + 1) =~= one.skip(n));
    crate::mux::law_endpoint_is_kept(source, alias);
    crate::mux::law_endpoint_is_kept(dest, alias);
    assert(crate::mux::copy_words(source, dest, false, mux, alias, None) =~= mux + seq![
        source,
        dest,
    ]);
}

/// A side that names another host than the copy is for keeps its host.
pub proof fn law_other_hosts_keep_their_name(
    host: Seq<char>,
    path: Seq<char>,
    alias: Seq<char>,
    user: Option<Seq<char>>,
    address: Option<Seq<char>>,
)
    requires
        host != alias,
    ensures
        crate::mux::endpoint_word(EndpointModel::Remote { host, path }, alias, user, address)
            == crate::mux::endpoint_word(EndpointModel::Remote { host, path }, alias, user, None),
        crate::mux::endpoint_word(EndpointModel::Remote { host, path }, alias, None, address)
            == host + seq![':'] + path,
        user is Some ==> crate::mux::endpoint_word(
            EndpointModel::Remote { host, path },
            alias,
            user,
            address,
        ) == user->0 + seq!['@'] + host + seq![':'] + path,
{
    reveal_strlit(":");
    reveal_strlit("@");
    assert(":"@ =~= seq![':']);
    assert("@"@ =~= seq!['@']);
}

/// A connection is shared only where that is wanted and there is a place for the
/// socket; then the socket lies at that place and stays for as long as was asked.
pub proof fn law_sharing(path: Seq<char>, secs: u64)
    ensures
        crate::mux::mux_words(false, Some(path), secs) == Seq::<Seq<char>>::empty(),
        crate::mux::mux_words(false, None, secs) == Seq::<Seq<char>>::empty(),
        crate::mux::mux_words(true, None, secs) == Seq::<Seq<char>>::empty(),
        crate::mux::mux_words(true, Some(path), secs) == seq![
            "-o"@,
            "ControlMaster=auto"@,
            "-o"@,
            "ControlPath="@ + path,
            "-o"@,
            "ControlPersist="@ + crate::text::decimal(secs as nat) + "s"@,
        ],
{
}

/// Sockets fit into a directory whose path has at most 42 bytes, and into no other:
/// behind it come a slash, `cm-`, forty characters of a hash and seventeen more while
/// the socket is made, and all of it has at most 103 bytes.
pub proof fn law_socket_budget(dir_len: int)
    ensures
        crate::mux::fits(dir_len) <==> dir_len + 1 + "cm-"@.len() + 40 + 17 <= 103,
        crate::mux::fits(dir_len) <==> dir_len <= 42,
        crate::mux::control_prefix() == "cm-"@,
{
    reveal_strlit("cm-");
}

/// Control sockets lie with the program's data where that has a place, else in the
/// runtime directory or in a short directory at home; each place is offered only where
/// it is known, and in this order.
pub proof fn law_control_places(data: bool, runtime: bool, home: bool)
    ensures
        ({
            let all = crate::mux::candidates(data, runtime, home);
            let first = (if data || home { 1int } else { 0int });
            let second = first + (if runtime { 1int } else { 0int });
            &&& all.len() == second + (if home { 1int } else { 0int })
            &&& data ==> all[0] == (Root::XdgData, seq!["ssht"@, "control"@])
            &&& !data && home ==> all[0] == (
                Root::Home,
                seq![".local"@, "share"@, "ssht"@, "control"@],
            )
            &&& runtime ==> all[first] == (Root::XdgRuntime, seq!["ssht"@])
            &&& home ==> all[second] == (Root::Home, seq![".ssht"@])
        }),
{
}


/// Control sockets are told apart by what they connect to: ssh fills in their names.
pub proof fn law_socket_names()
    ensures
        crate::mux::socket_name() == "cm-%C"@,
{
    reveal_strlit("cm-");
    reveal_strlit("%C");
    reveal_strlit("cm-%C");
    assert(crate::mux::socket_name() =~= "cm-%C"@);
}

/// Directories are tried in their order: the next one is the first from there on whose
/// path has at most 42 bytes, and there is none only where no path is so short.
pub proof fn law_next_directory(lens: Seq<usize>, from: int, answer: Option<usize>)
    requires
        crate::mux::is_next_dir(lens, from, answer),
        0 <= from <= lens.len(),
    ensures
        answer is None ==> forall|j: int| from <= j < lens.len() ==> #[trigger] lens[j] > 42,
        answer is Some ==> from <= answer->0 < lens.len() && lens[answer->0 as int] <= 42
            && forall|j: int| from <= j < answer->0 ==> #[trigger] lens[j] > 42,
{
    if answer is None {
        assert forall|j: int| from <= j < lens.len() implies #[trigger] lens[j] > 42 by {
            assert(!crate::mux::fits(lens[j] as int));
        }
    } else {
        assert forall|j: int| from <= j < answer->0 implies #[trigger] lens[j] > 42 by {
            assert(!crate::mux::fits(lens[j] as int));
        }
    }
}

} // verus!
