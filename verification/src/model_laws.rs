//! What holds of every host and of every merge.

use vstd::prelude::*;

use crate::config::HostMeta;
use crate::config::MetaModel;
use crate::model::HostModel;
use crate::model::HostSource;
use crate::state::HostState;

verus! {

/// A search looks through the alias, through the host name of every host that has
/// one, and through the notes of every host that has some, each whether or not the
/// others are there.
pub proof fn law_search_sees(h: HostModel)
    ensures
        crate::text_laws::stands_in(h.alias, h.haystack()),
        h.hostname is Some ==> crate::text_laws::stands_in(h.hostname->0, h.haystack()),
        h.meta.notes is Some ==> crate::text_laws::stands_in(h.meta.notes->0, h.haystack()),
        h.haystack().take(h.alias.len() as int) == h.alias,
{
    let none = Seq::<char>::empty();
    let bare = HostModel { meta: MetaModel { notes: None, ..h.meta }, ..h };
    let named = bare.haystack();
    let rest = h.haystack().skip(named.len() as int);
    assert(h.haystack() =~= none + named + rest);
    let tail = named.skip(h.alias.len() as int);
    assert(named =~= none + h.alias + tail);
    crate::text_laws::lemma_stands_in(none, h.alias, tail);
    crate::text_laws::lemma_stands_deeper(h.alias, none, named, rest);
    if h.hostname is Some {
        let name = h.hostname->0;
        if name != h.alias {
            crate::text_laws::lemma_stands_in(h.alias + " "@, name, none);
            assert(named =~= h.alias + " "@ + name + none);
        }
        crate::text_laws::lemma_stands_deeper(name, none, named, rest);
    }
    if h.meta.notes is Some {
        let n = h.meta.notes->0;
        crate::text_laws::lemma_stands_in(named + " "@, n, none);
        assert(h.haystack() =~= named + " "@ + n + none);
    }
    assert(h.haystack().take(h.alias.len() as int) =~= h.alias);
}

/// Nothing but the alias, the host name and the notes is searched. Notes come behind a
/// space at the end, a host name behind a space after the alias, and one that is the
/// alias itself adds nothing.
pub proof fn law_search_sees_no_more(h: HostModel, other: HostModel)
    ensures
        other.alias == h.alias && other.hostname == h.hostname && other.meta.notes == h.meta.notes
            ==> other.haystack() == h.haystack(),
        h.hostname is None && h.meta.notes is None ==> h.haystack() == h.alias,
        h.hostname == Some(h.alias) && h.meta.notes is None ==> h.haystack() == h.alias,
        h.hostname is Some && h.hostname->0 != h.alias && h.meta.notes is None ==> h.haystack()
            == h.alias + seq![' '] + h.hostname->0,
        h.meta.notes is Some && other.alias == h.alias && other.hostname == h.hostname
            && other.meta.notes is None ==> h.haystack() == other.haystack() + seq![' ']
            + h.meta.notes->0,
{
    reveal_strlit(" ");
    assert(" "@ =~= seq![' ']);
}

/// Where a connection goes: the host name, or else the alias; a user in front of it,
/// with an at sign between; a port behind it, with a colon between.
pub proof fn law_endpoint_parts(h: HostModel, bare: HostModel)
    ensures
        h.user is None && h.port is None && h.hostname is Some ==> h.endpoint() == h.hostname->0,
        h.user is None && h.port is None && h.hostname is None ==> h.endpoint() == h.alias,
        bare == (HostModel { port: None, ..h }) && h.port is Some ==> h.endpoint()
            == bare.endpoint() + seq![':'] + crate::text::decimal(h.port->0 as nat),
        bare == (HostModel { user: None, ..h }) && h.user is Some ==> h.endpoint() == h.user->0
            + seq!['@'] + bare.endpoint(),
        bare == (HostModel { source: bare.source, meta: bare.meta, state: bare.state, ..h })
            ==> bare.endpoint() == h.endpoint(),
{
    reveal_strlit("@");
    reveal_strlit(":");
    assert("@"@ =~= seq!['@']);
    assert(":"@ =~= seq![':']);
    if bare == (HostModel { user: None, ..h }) && h.user is Some {
        assert(h.endpoint() =~= h.user->0 + seq!['@'] + bare.endpoint());
    }
}

/// Some host of a list is kept for every alias in it.
proof fn lemma_kept(hosts: Seq<HostModel>, i: int) -> (k: int)
    requires
        0 <= i < hosts.len(),
    ensures
        crate::model::is_kept(hosts, k),
        hosts[k].alias == hosts[i].alias,
{
    if exists|j: int|
        0 <= j < hosts.len() && #[trigger] hosts[j].alias == hosts[i].alias && hosts[j].source
            == HostSource::SshConfig {
        let j = choose|j: int|
            0 <= j < hosts.len() && #[trigger] hosts[j].alias == hosts[i].alias && hosts[j].source
                == HostSource::SshConfig;
        lemma_first(hosts, j)
    } else {
        lemma_last(hosts, i)
    }
}

/// The first host of the ssh configuration with an alias.
proof fn lemma_first(hosts: Seq<HostModel>, j: int) -> (k: int)
    requires
        0 <= j < hosts.len(),
        hosts[j].source == HostSource::SshConfig,
    ensures
        0 <= k <= j,
        crate::model::is_kept(hosts, k),
        hosts[k].alias == hosts[j].alias,
        hosts[k].source == HostSource::SshConfig,
    decreases j,
{
    if crate::model::is_kept(hosts, j) {
        j
    } else {
        let i = choose|i: int|
            0 <= i < j && #[trigger] hosts[i].alias == hosts[j].alias && hosts[i].source
                == HostSource::SshConfig;
        lemma_first(hosts, i)
    }
}

/// The last host with an alias, where the ssh configuration has none.
proof fn lemma_last(hosts: Seq<HostModel>, j: int) -> (k: int)
    requires
        0 <= j < hosts.len(),
        forall|i: int|
            0 <= i < hosts.len() && #[trigger] hosts[i].alias == hosts[j].alias ==> hosts[i].source
                != HostSource::SshConfig,
    ensures
        j <= k < hosts.len(),
        crate::model::is_kept(hosts, k),
        hosts[k].alias == hosts[j].alias,
    decreases hosts.len() - j,
{
    if crate::model::is_kept(hosts, j) {
        j
    } else {
        let i = choose|i: int|
            j < i < hosts.len() && #[trigger] hosts[i].alias == hosts[j].alias;
        lemma_last(hosts, i)
    }
}

/// Merging loses no alias, invents none and repeats none.
pub proof fn law_merge_keeps_every_alias(
    out: Seq<HostModel>,
    hosts: Seq<HostModel>,
    metas: Map<Seq<char>, HostMeta>,
    states: Map<Seq<char>, HostState>,
)
    requires
        crate::model::is_merged(out, hosts, metas, states),
    ensures
        forall|i: int|
            0 <= i < hosts.len() ==> exists|k: int|
                0 <= k < out.len() && out[k].alias == (#[trigger] hosts[i]).alias,
        forall|k: int|
            0 <= k < out.len() ==> exists|i: int|
                0 <= i < hosts.len() && hosts[i].alias == (#[trigger] out[k]).alias,
        forall|a: int, b: int|
            0 <= a < b < out.len() ==> #[trigger] out[a].alias != #[trigger] out[b].alias,
{
    assert forall|i: int| 0 <= i < hosts.len() implies exists|k: int|
        0 <= k < out.len() && out[k].alias == (#[trigger] hosts[i]).alias by {
        let kept = lemma_kept(hosts, i);
        let whole = crate::model::completed(hosts[kept], metas, states);
        assert(out.contains(whole));
        let k = choose|k: int| 0 <= k < out.len() && out[k] == whole;
        assert(out[k].alias == hosts[i].alias);
    }
    assert forall|k: int| 0 <= k < out.len() implies exists|i: int|
        0 <= i < hosts.len() && hosts[i].alias == (#[trigger] out[k]).alias by {
        assert(crate::model::is_one_of(out[k], hosts, metas, states));
        let i = choose|i: int| #[trigger]
            crate::model::is_kept(hosts, i) && out[k] == crate::model::completed(
                hosts[i],
                metas,
                states,
            );
        assert(hosts[i].alias == out[k].alias);
    }
}

/// A host that the ssh configuration defines is merged as it is first defined there,
/// whatever else names it.
pub proof fn law_ssh_config_wins(
    out: Seq<HostModel>,
    hosts: Seq<HostModel>,
    metas: Map<Seq<char>, HostMeta>,
    states: Map<Seq<char>, HostState>,
    i: int,
    k: int,
)
    requires
        crate::model::is_merged(out, hosts, metas, states),
        0 <= i < hosts.len(),
        0 <= k < out.len(),
        hosts[i].alias == out[k].alias,
        hosts[i].source == HostSource::SshConfig,
        forall|j: int|
            0 <= j < i && #[trigger] hosts[j].alias == hosts[i].alias ==> hosts[j].source
                == HostSource::KnownHosts,
    ensures
        out[k].source == HostSource::SshConfig,
        out[k].hostname == hosts[i].hostname,
        out[k].user == hosts[i].user,
        out[k].port == hosts[i].port,
{
    assert(crate::model::is_one_of(out[k], hosts, metas, states));
    let j = choose|j: int| #[trigger]
        crate::model::is_kept(hosts, j) && out[k] == crate::model::completed(
            hosts[j],
            metas,
            states,
        );
    assert(hosts[j].alias == hosts[i].alias);
    assert(hosts[i].source == HostSource::SshConfig);
    if j < i {
        assert(hosts[j].source == HostSource::KnownHosts);
    }
}

/// A merged host has the metadata and the state that are known under its alias.
pub proof fn law_merge_adds_what_is_known(
    out: Seq<HostModel>,
    hosts: Seq<HostModel>,
    metas: Map<Seq<char>, HostMeta>,
    states: Map<Seq<char>, HostState>,
    k: int,
)
    requires
        crate::model::is_merged(out, hosts, metas, states),
        0 <= k < out.len(),
    ensures
        metas.dom().contains(out[k].alias) ==> out[k].meta == metas[out[k].alias]@,
        states.dom().contains(out[k].alias) ==> out[k].state == states[out[k].alias]@,
        !metas.dom().contains(out[k].alias) ==> exists|i: int|
            0 <= i < hosts.len() && #[trigger] hosts[i].alias == out[k].alias && hosts[i].meta
                == out[k].meta,
        !states.dom().contains(out[k].alias) ==> exists|i: int|
            0 <= i < hosts.len() && #[trigger] hosts[i].alias == out[k].alias && hosts[i].state
                == out[k].state,
{
    assert(crate::model::is_one_of(out[k], hosts, metas, states));
    let i = choose|i: int| #[trigger]
        crate::model::is_kept(hosts, i) && out[k] == crate::model::completed(
            hosts[i],
            metas,
            states,
        );
    assert(hosts[i].alias == out[k].alias);
}

/// A merged list is in the order of its lower-case aliases.
pub proof fn law_merge_is_sorted(
    out: Seq<HostModel>,
    hosts: Seq<HostModel>,
    metas: Map<Seq<char>, HostMeta>,
    states: Map<Seq<char>, HostState>,
    a: int,
    b: int,
)
    requires
        crate::model::is_merged(out, hosts, metas, states),
        0 <= a < out.len(),
        0 <= b < out.len(),
        crate::order::text_lt(
            crate::text::lowercase(out[a].alias),
            crate::text::lowercase(out[b].alias),
        ),
    ensures
        a < b,
{
    if a == b {
        crate::order::lemma_text_lt_irreflexive(crate::text::lowercase(out[a].alias));
    }
}


/// A host that the ssh configuration does not define is merged as it was found last.
pub proof fn law_last_known_host_counts(
    out: Seq<HostModel>,
    hosts: Seq<HostModel>,
    metas: Map<Seq<char>, HostMeta>,
    states: Map<Seq<char>, HostState>,
    i: int,
    k: int,
)
    requires
        crate::model::is_merged(out, hosts, metas, states),
        0 <= i < hosts.len(),
        0 <= k < out.len(),
        hosts[i].alias == out[k].alias,
        forall|j: int|
            0 <= j < hosts.len() && #[trigger] hosts[j].alias == hosts[i].alias ==> hosts[j].source
                == HostSource::KnownHosts && j <= i,
    ensures
        out[k].source == HostSource::KnownHosts,
        out[k].hostname == hosts[i].hostname,
        out[k].user == hosts[i].user,
        out[k].port == hosts[i].port,
{
    assert(crate::model::is_one_of(out[k], hosts, metas, states));
    let j = choose|j: int| #[trigger]
        crate::model::is_kept(hosts, j) && out[k] == crate::model::completed(
            hosts[j],
            metas,
            states,
        );
    assert(hosts[j].alias == hosts[i].alias);
    assert(hosts[j].source == HostSource::KnownHosts && j <= i);
    assert(hosts[i].alias == hosts[j].alias);
}

} // verus!
