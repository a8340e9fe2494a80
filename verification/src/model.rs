//! A host as the picker and the connector see it, merged from every source.

use vstd::prelude::*;

use crate::config::HostMeta;
use crate::config::MetaModel;
use crate::order::sorted;
use crate::order::SortKey;
use crate::state::HostState;
use crate::state::StateModel;
use crate::table::Table;
use crate::text::clone_opt;
use crate::text::decimal_text;
use crate::text::same_text;
use crate::text::to_lowercase;

verus! {

/// Where a host is defined.
#[derive(Debug, Clone, Copy, PartialEq, Eq, Structural)]
pub enum HostSource {
    /// In a `Host` block of the ssh configuration.
    SshConfig,
    /// In the file of known hosts.
    KnownHosts,
}

impl HostSource {
    /// The name of the source.
    pub open spec fn name(self) -> Seq<char> {
        match self {
            HostSource::SshConfig => "ssh_config"@,
            HostSource::KnownHosts => "known_hosts"@,
        }
    }

    /// The name of the source.
    pub fn label(self) -> (r: &'static str)
        ensures
            r@ == self.name(),
    {
        match self {
            HostSource::SshConfig => "ssh_config",
            HostSource::KnownHosts => "known_hosts",
        }
    }
}

/// A host that can be connected to.
#[derive(Debug)]
pub struct Host {
    /// The name that ssh is given.
    pub alias: String,
    /// The resolved host name, where one is known.
    pub hostname: Option<String>,
    pub user: Option<String>,
    pub port: Option<u16>,
    pub source: HostSource,
    /// Metadata from the configuration.
    pub meta: HostMeta,
    /// State from earlier connections.
    pub state: HostState,
}

/// What a host holds.
#[verifier::ext_equal]
pub struct HostModel {
    pub alias: Seq<char>,
    pub hostname: Option<Seq<char>>,
    pub user: Option<Seq<char>>,
    pub port: Option<u16>,
    pub source: HostSource,
    pub meta: MetaModel,
    pub state: StateModel,
}

impl View for Host {
    type V = HostModel;

    open spec fn view(&self) -> HostModel {
        HostModel {
            alias: self.alias@,
            hostname: crate::text::opt_text(self.hostname),
            user: crate::text::opt_text(self.user),
            port: self.port,
            source: self.source,
            meta: self.meta@,
            state: self.state@,
        }
    }
}

impl Clone for Host {
    fn clone(&self) -> (r: Host)
        ensures
            r@ == self@,
    {
        Host {
            alias: self.alias.clone(),
            hostname: clone_opt(&self.hostname),
            user: clone_opt(&self.user),
            port: self.port,
            source: self.source,
            meta: self.meta.clone(),
            state: self.state.clone(),
        }
    }
}

/// The hosts of a list.
pub open spec fn host_models(v: Seq<Host>) -> Seq<HostModel> {
    Seq::new(v.len(), |i: int| v[i]@)
}

impl HostModel {
    /// Where a connection to the host goes: `user@host:port`, without the parts
    /// that are not known.
    pub open spec fn endpoint(self) -> Seq<char> {
        let host = match self.hostname {
            Some(h) => h,
            None => self.alias,
        };
        let front = match self.user {
            Some(u) => u + "@"@ + host,
            None => host,
        };
        match self.port {
            Some(p) => front + ":"@ + crate::text::decimal(p as nat),
            None => front,
        }
    }

    /// What a search looks through: the alias, the host name where it is another
    /// one, and the notes, with a space between.
    pub open spec fn haystack(self) -> Seq<char> {
        let named = match self.hostname {
            Some(h) => if h != self.alias {
                self.alias + " "@ + h
            } else {
                self.alias
            },
            None => self.alias,
        };
        match self.meta.notes {
            Some(n) => named + " "@ + n,
            None => named,
        }
    }
}

impl Host {
    /// Where a connection to the host goes.
    pub fn endpoint(&self) -> (r: String)
        ensures
            r@ == self@.endpoint(),
    {
        let mut out = String::new();
        if let Some(user) = &self.user {
            out.append(user.as_str());
            out.append("@");
        }
        let ghost front = out@;
        match &self.hostname {
            Some(h) => out.append(h.as_str()),
            None => out.append(self.alias.as_str()),
        }
        proof {
            let host = match self@.hostname {
                Some(h) => h,
                None => self@.alias,
            };
            if self@.user is None {
                assert(out@ =~= host);
            } else {
                assert(out@ =~= self@.user->0 + "@"@ + host);
            }
        }
        if let Some(port) = self.port {
            out.append(":");
            out.append(decimal_text(port as u64).as_str());
        }
        out
    }

    /// What a search looks through.
    pub fn haystack(&self) -> (r: String)
        ensures
            r@ == self@.haystack(),
    {
        let mut out = self.alias.clone();
        if let Some(h) = &self.hostname {
            if !same_text(h.as_str(), self.alias.as_str()) {
                out.append(" ");
                out.append(h.as_str());
            }
        }
        if let Some(n) = &self.meta.notes {
            out.append(" ");
            out.append(n.as_str());
        }
        out
    }
}

/// Whether the `i`th host is the one that is kept of those with its alias: the
/// first that the ssh configuration defines, or the last where it defines none.
pub open spec fn is_kept(hosts: Seq<HostModel>, i: int) -> bool {
    &&& 0 <= i < hosts.len()
    &&& if hosts[i].source == HostSource::SshConfig {
        forall|j: int|
            0 <= j < i && #[trigger] hosts[j].alias == hosts[i].alias ==> hosts[j].source
                != HostSource::SshConfig
    } else {
        forall|j: int|
            0 <= j < hosts.len() && #[trigger] hosts[j].alias == hosts[i].alias ==> hosts[j].source
                != HostSource::SshConfig && j <= i
    }
}

/// A host with the metadata and the state that are known under its alias.
pub open spec fn completed(
    h: HostModel,
    metas: Map<Seq<char>, HostMeta>,
    states: Map<Seq<char>, HostState>,
) -> HostModel {
    HostModel {
        meta: if metas.dom().contains(h.alias) {
            metas[h.alias]@
        } else {
            h.meta
        },
        state: if states.dom().contains(h.alias) {
            states[h.alias]@
        } else {
            h.state
        },
        ..h
    }
}

/// Whether `h` is a kept host of `hosts`, completed.
pub open spec fn is_one_of(
    h: HostModel,
    hosts: Seq<HostModel>,
    metas: Map<Seq<char>, HostMeta>,
    states: Map<Seq<char>, HostState>,
) -> bool {
    exists|i: int| #[trigger] is_kept(hosts, i) && h == completed(hosts[i], metas, states)
}

/// Whether `out` is what merging gives: each alias once, by its kept host and
/// completed, in dictionary order of the lower-case aliases. Aliases that differ
/// in case alone may stand in either order.
pub open spec fn is_merged(
    out: Seq<HostModel>,
    hosts: Seq<HostModel>,
    metas: Map<Seq<char>, HostMeta>,
    states: Map<Seq<char>, HostState>,
) -> bool {
    &&& forall|k: int| 0 <= k < out.len() ==> is_one_of(#[trigger] out[k], hosts, metas, states)
    &&& forall|i: int|
        #[trigger] is_kept(hosts, i) ==> out.contains(completed(hosts[i], metas, states))
    &&& forall|a: int, b: int|
        0 <= a < b < out.len() ==> #[trigger] out[a].alias != #[trigger] out[b].alias
    &&& forall|a: int, b: int|
        0 <= a < b < out.len() ==> !crate::order::text_lt(
            crate::text::lowercase(#[trigger] out[b].alias),
            crate::text::lowercase(#[trigger] out[a].alias),
        )
}

/// Where an alias stands in a list of hosts.
fn position_of(hosts: &Vec<Host>, alias: &str) -> (r: Option<usize>)
    ensures
        match r {
            Some(i) => i < hosts@.len() && hosts@[i as int]@.alias == alias@,
            None => forall|j: int| 0 <= j < hosts@.len() ==> (#[trigger] hosts@[j])@.alias != alias@,
        },
{
    for i in 0..hosts.len()
        invariant
            forall|j: int| 0 <= j < i ==> (#[trigger] hosts@[j])@.alias != alias@,
    {
        if same_text(hosts[i].alias.as_str(), alias) {
            return Some(i);
        }
    }
    None
}

/// Whether `kept` holds, for each alias of `hosts`, its kept host, once; `from`
/// says where each stood.
spec fn is_dedup(kept: Seq<HostModel>, from: Seq<int>, hosts: Seq<HostModel>) -> bool {
    &&& from.len() == kept.len()
    &&& forall|k: int|
        0 <= k < kept.len() ==> is_kept(hosts, #[trigger] from[k]) && kept[k] == hosts[from[k]]
    &&& forall|a: int, b: int|
        0 <= a < kept.len() && 0 <= b < kept.len() && a != b ==> #[trigger] kept[a].alias
            != #[trigger] kept[b].alias
    &&& forall|i: int|
        0 <= i < hosts.len() ==> exists|k: int|
            0 <= k < kept.len() && #[trigger] kept[k].alias == (#[trigger] hosts[i]).alias
}

/// One more host that an ssh configuration entry outranks.
proof fn lemma_dedup_skip(
    kept: Seq<HostModel>,
    from: Seq<int>,
    hosts: Seq<HostModel>,
    h: HostModel,
    at: int,
)
    requires
        is_dedup(kept, from, hosts),
        0 <= at < kept.len(),
        kept[at].alias == h.alias,
        kept[at].source == HostSource::SshConfig,
    ensures
        is_dedup(kept, from, hosts.push(h)),
{
    let more = hosts.push(h);
    assert forall|k: int| 0 <= k < kept.len() implies is_kept(more, #[trigger] from[k]) && kept[k]
        == more[from[k]] by {
        let i = from[k];
        assert(is_kept(hosts, i));
        if more[i].source != HostSource::SshConfig {
            if k != at {
                assert(kept[k].alias != kept[at].alias);
            }
            assert forall|j: int|
                0 <= j < more.len() && #[trigger] more[j].alias == more[i].alias implies more[j].source
                != HostSource::SshConfig && j <= i by {
                if j < hosts.len() {
                    assert(hosts[j].alias == hosts[i].alias);
                }
            }
        } else {
            assert forall|j: int|
                0 <= j < i && #[trigger] more[j].alias == more[i].alias implies more[j].source
                != HostSource::SshConfig by {
                assert(hosts[j].alias == hosts[i].alias);
            }
        }
    }
    assert forall|i: int| 0 <= i < more.len() implies exists|k: int|
        0 <= k < kept.len() && #[trigger] kept[k].alias == (#[trigger] more[i]).alias by {
        if i < hosts.len() {
            assert(more[i] == hosts[i]);
        } else {
            assert(kept[at].alias == more[i].alias);
        }
    }
}

/// One more host that takes the place of an outranked one, or is new.
proof fn lemma_dedup_put(
    kept: Seq<HostModel>,
    from: Seq<int>,
    hosts: Seq<HostModel>,
    h: HostModel,
    at: int,
)
    requires
        is_dedup(kept, from, hosts),
        0 <= at <= kept.len(),
        at < kept.len() ==> kept[at].alias == h.alias && kept[at].source != HostSource::SshConfig,
        at == kept.len() ==> forall|k: int| 0 <= k < kept.len() ==> #[trigger] kept[k].alias != h.alias,
    ensures
        at < kept.len() ==> is_dedup(
            kept.update(at, h),
            from.update(at, hosts.len() as int),
            hosts.push(h),
        ),
        at == kept.len() ==> is_dedup(kept.push(h), from.push(hosts.len() as int), hosts.push(h)),
{
    let more = hosts.push(h);
    let n = hosts.len() as int;
    let out = if at < kept.len() {
        kept.update(at, h)
    } else {
        kept.push(h)
    };
    let at_from = if at < kept.len() {
        from.update(at, n)
    } else {
        from.push(n)
    };
    // No earlier host of this alias is from the ssh configuration.
    assert forall|j: int| 0 <= j < n && #[trigger] hosts[j].alias == h.alias implies hosts[j].source
        != HostSource::SshConfig by {
        let k = choose|k: int| 0 <= k < kept.len() && #[trigger] kept[k].alias == hosts[j].alias;
        assert(k == at);
        assert(is_kept(hosts, from[at]));
        assert(hosts[from[at]] == kept[at]);
    }
    assert(is_kept(more, n)) by {
        assert forall|j: int| 0 <= j < more.len() && #[trigger] more[j].alias == more[n].alias
            && j != n implies more[j].source != HostSource::SshConfig by {
            assert(hosts[j].alias == h.alias);
        }
    }
    assert forall|k: int| 0 <= k < out.len() implies is_kept(more, #[trigger] at_from[k]) && out[k]
        == more[at_from[k]] by {
        if k != at {
            let i = from[k];
            assert(is_kept(hosts, i) && kept[k] == hosts[i]);
            assert(kept[k].alias != h.alias);
            if more[i].source != HostSource::SshConfig {
                assert forall|j: int|
                    0 <= j < more.len() && #[trigger] more[j].alias == more[i].alias implies
                    more[j].source != HostSource::SshConfig && j <= i by {
                    assert(j < n);
                    assert(hosts[j].alias == hosts[i].alias);
                }
            } else {
                assert forall|j: int|
                    0 <= j < i && #[trigger] more[j].alias == more[i].alias implies more[j].source
                    != HostSource::SshConfig by {
                    assert(hosts[j].alias == hosts[i].alias);
                }
            }
        }
    }
    assert forall|a: int, b: int|
        0 <= a < out.len() && 0 <= b < out.len() && a != b implies #[trigger] out[a].alias
        != #[trigger] out[b].alias by {
        if a != at && b != at {
            assert(kept[a].alias != kept[b].alias);
        } else if at < kept.len() {
            assert(kept[a].alias != kept[b].alias);
        }
    }
    assert forall|i: int| 0 <= i < more.len() implies exists|k: int|
        0 <= k < out.len() && #[trigger] out[k].alias == (#[trigger] more[i]).alias by {
        if i < n {
            let k = choose|k: int| 0 <= k < kept.len() && #[trigger] kept[k].alias == hosts[i].alias;
            assert(out[k].alias == more[i].alias);
        } else {
            assert(out[at].alias == more[i].alias);
        }
    }
}

/// Keeps one host for each alias.
fn dedup(discovered: &Vec<Host>) -> (r: (Vec<Host>, Ghost<Seq<int>>))
    ensures
        is_dedup(host_models(r.0@), r.1@, host_models(discovered@)),
{
    let mut kept: Vec<Host> = Vec::new();
    let ghost mut from: Seq<int> = Seq::empty();
    let ghost all = host_models(discovered@);
    for n in 0..discovered.len()
        invariant
            all == host_models(discovered@),
            is_dedup(host_models(kept@), from, all.take(n as int)),
    {
        let host = discovered[n].clone();
        let ghost before = host_models(kept@);
        assert(all.take(n + 1) =~= all.take(n as int).push(host@));
        match position_of(&kept, host.alias.as_str()) {
            Some(i) => {
                assert(before[i as int].alias == host@.alias);
                if kept[i].source == HostSource::SshConfig {
                    proof {
                        lemma_dedup_skip(before, from, all.take(n as int), host@, i as int);
                    }
                } else {
                    proof {
                        lemma_dedup_put(before, from, all.take(n as int), host@, i as int);
                        from = from.update(i as int, n as int);
                    }
                    let ghost model = host@;
                    kept.set(i, host);
                    assert(host_models(kept@) =~= before.update(i as int, model));
                }
            },
            None => {
                proof {
                    assert forall|k: int| 0 <= k < before.len() implies #[trigger] before[k].alias
                        != host@.alias by {
                        assert(kept@[k]@.alias != host@.alias);
                    }
                    lemma_dedup_put(before, from, all.take(n as int), host@, before.len() as int);
                    from = from.push(n as int);
                }
                let ghost model = host@;
                kept.push(host);
                assert(host_models(kept@) =~= before.push(model));
            },
        }
    }
    assert(all.take(discovered@.len() as int) =~= all);
    (kept, Ghost(from))
}

/// Putting the completed hosts in order of their keys merges them.
proof fn lemma_merged(
    o: Seq<HostModel>,
    done: Seq<HostModel>,
    bare: Seq<HostModel>,
    from: Seq<int>,
    all: Seq<HostModel>,
    ks: Seq<(int, Seq<char>)>,
    perm: Seq<usize>,
    metas: Map<Seq<char>, HostMeta>,
    states: Map<Seq<char>, HostState>,
)
    requires
        is_dedup(bare, from, all),
        done.len() == bare.len(),
        ks.len() == bare.len(),
        bare.len() <= usize::MAX,
        crate::order::in_order(ks, perm),
        o.len() == perm.len(),
        forall|k: int| 0 <= k < o.len() ==> #[trigger] o[k] == done[perm[k] as int],
        forall|k: int| 0 <= k < done.len() ==> #[trigger] done[k] == completed(bare[k], metas, states),
        forall|k: int|
            0 <= k < ks.len() ==> #[trigger] ks[k] == (0int, crate::text::lowercase(bare[k].alias)),
    ensures
        is_merged(o, all, metas, states),
{
    assert forall|k: int| 0 <= k < o.len() implies is_one_of(#[trigger] o[k], all, metas, states) by {
        let p = perm[k] as int;
        assert(done[p] == completed(bare[p], metas, states));
        assert(is_kept(all, from[p]));
    }
    assert forall|i: int| #[trigger] is_kept(all, i) implies o.contains(
        completed(all[i], metas, states),
    ) by {
        let b = choose|b: int| 0 <= b < bare.len() && #[trigger] bare[b].alias == all[i].alias;
        assert(is_kept(all, from[b]) && bare[b] == all[from[b]]);
        assert(all[from[b]].alias == all[i].alias);
        assert(from[b] == i);
        crate::order::lemma_in_order_holds_all(ks, perm, b as usize);
        let k = choose|k: int| 0 <= k < perm.len() && perm[k] == b as usize;
        assert(o[k] == done[b]);
    }
    assert forall|a: int, b: int| 0 <= a < b < o.len() implies #[trigger] o[a].alias
        != #[trigger] o[b].alias && !crate::order::text_lt(
        crate::text::lowercase(o[b].alias),
        crate::text::lowercase(o[a].alias),
    ) by {
        let p = perm[a] as int;
        let q = perm[b] as int;
        assert(done[p] == completed(bare[p], metas, states));
        assert(done[q] == completed(bare[q], metas, states));
        assert(crate::order::entry_lt(ks, p, q));
        let x = ks[p].1;
        let y = ks[q].1;
        crate::order::lemma_text_lt_irreflexive(x);
        if crate::order::text_lt(x, y) && crate::order::text_lt(y, x) {
            crate::order::lemma_text_lt_transitive(x, y, x);
        }
        assert(p != q);
        assert(bare[p].alias != bare[q].alias);
    }
}

/// Merges discovered hosts with what is configured and remembered of them.
pub fn merge_hosts(
    discovered: Vec<Host>,
    metas: &Table<HostMeta>,
    states: &Table<HostState>,
) -> (r: Vec<Host>)
    ensures
        is_merged(host_models(r@), host_models(discovered@), metas@, states@),
{
    let ghost all = host_models(discovered@);
    let (kept, Ghost(from)) = dedup(&discovered);
    let ghost bare = host_models(kept@);
    let mut full: Vec<Host> = Vec::new();
    let mut keys: Vec<SortKey> = Vec::new();
    for i in 0..kept.len()
        invariant
            bare == host_models(kept@),
            full@.len() == i,
            keys@.len() == i,
            forall|j: int|
                0 <= j < i ==> #[trigger] full@[j]@ == completed(bare[j], metas@, states@),
            forall|j: int|
                0 <= j < i ==> #[trigger] keys@[j]@ == (0int, crate::text::lowercase(bare[j].alias)),
    {
        let mut host = kept[i].clone();
        if let Some(m) = metas.get(kept[i].alias.as_str()) {
            host.meta = m.clone();
        }
        if let Some(s) = states.get(kept[i].alias.as_str()) {
            host.state = s.clone();
        }
        assert(host@ =~= completed(bare[i as int], metas@, states@));
        let key = to_lowercase(host.alias.as_str());
        keys.push(SortKey::new(0, key.as_str()));
        full.push(host);
    }
    let perm = sorted(&keys);
    let ghost ks = crate::order::keys_of(keys@);
    let mut out: Vec<Host> = Vec::new();
    for i in 0..perm.len()
        invariant
            crate::order::in_order(ks, perm@),
            ks.len() == full@.len(),
            out@.len() == i,
            forall|j: int| 0 <= j < i ==> #[trigger] out@[j]@ == full@[perm@[j] as int]@,
    {
        assert(perm@[i as int] < ks.len());
        out.push(full[perm[i]].clone());
    }
    proof {
        let done = host_models(full@);
        let o = host_models(out@);
        assert forall|k: int| 0 <= k < o.len() implies #[trigger] o[k] == done[perm@[k] as int] by {
            assert(out@[k]@ == full@[perm@[k] as int]@);
        }
        assert forall|k: int| 0 <= k < done.len() implies #[trigger] done[k] == completed(
            bare[k],
            metas@,
            states@,
        ) by {
            assert(full@[k]@ == completed(bare[k], metas@, states@));
        }
        assert forall|k: int| 0 <= k < ks.len() implies #[trigger] ks[k] == (
            0int,
            crate::text::lowercase(bare[k].alias),
        ) by {
            assert(keys@[k]@ == ks[k]);
        }
        lemma_merged(o, done, bare, from, all, ks, perm@, metas@, states@);
    }
    out
}

} // verus!
