//! Listing hosts for the picker: all of them, the most recent first, or those that
//! match a search, the best first.

use vstd::prelude::*;

use crate::model::Host;
use crate::model::HostModel;
use crate::order::sorted;
use crate::order::SortKey;
use crate::text::chars_of;

verus! {

/// The longest search, in characters that are looked for. The matcher adds up to 36
/// for the first of them and up to 26 for each further one in a counter of 16 bits.
pub const MAX_QUERY: usize = 2520;

/// The longest text that can be searched, in bytes.
pub const MAX_HAYSTACK: usize = 0xffff_ffff;

/// The rank of a host that was never connected to: behind all others.
pub const NEVER: i128 = 0x1_0000_0000_0000_0000;

/// The matcher of `nucleo_matcher`, which keeps its working memory between searches.
#[verifier::external_type_specification]
#[verifier::external_body]
pub struct ExMatcher(nucleo_matcher::Matcher);

/// How well a text matches a search, a larger number being better; none where it does
/// not match.
pub uninterp spec fn fuzzy_score(query: Seq<char>, hay: Seq<char>) -> Option<u32>;

/// A matcher with `nucleo_matcher`'s default configuration.
#[verifier::external_body]
pub(crate) fn new_matcher() -> (r: nucleo_matcher::Matcher) {
    nucleo_matcher::Matcher::new(nucleo_matcher::Config::DEFAULT)
}

/// Whether a character stands in one of the ranges in which the matcher takes accents
/// off: a word of a search that holds one for which it does so is matched with accents.
pub open spec fn may_lose_accent(c: char) -> bool {
    '\u{c0}' <= c <= '\u{36f}' || '\u{1d00}' <= c <= '\u{1ef1}' || '\u{2071}' <= c
        <= '\u{2184}'
}

/// Whether a lower-case character has another one that it is the same as where case
/// does not matter, such as the final sigma.
pub open spec fn has_other_lower(c: char) -> bool {
    ||| c == '\u{b5}' || c == '\u{17f}' || c == '\u{345}' || c == '\u{3c2}'
    ||| c == '\u{3d0}' || c == '\u{3d1}' || c == '\u{3d5}' || c == '\u{3d6}'
    ||| c == '\u{3f0}' || c == '\u{3f1}' || c == '\u{3f5}'
    ||| '\u{13f8}' <= c <= '\u{13fd}' || '\u{1c80}' <= c <= '\u{1c88}'
    ||| c == '\u{1e9b}' || c == '\u{1fbe}' || '\u{ab70}' <= c <= '\u{abbf}'
}

/// How many backslashes a text holds.
pub open spec fn backslashes(s: Seq<char>) -> nat
    decreases s.len(),
{
    if s.len() == 0 {
        0
    } else {
        backslashes(s.drop_last()) + if s.last() == '\\' {
            1nat
        } else {
            0nat
        }
    }
}

/// How many characters the matcher looks for at most: those of the search, where every
/// backslash of a search that is not in ASCII may count twice.
pub open spec fn needle_len(query: Seq<char>) -> nat {
    if crate::text::all_ascii(query) {
        query.len()
    } else {
        query.len() + backslashes(query)
    }
}

/// Whether the matcher takes a text for a search.
pub open spec fn scorable(query: Seq<char>, hay: Seq<char>) -> bool {
    &&& needle_len(query) <= MAX_QUERY
    &&& vstd::utf8::encode_utf8(hay).len() <= MAX_HAYSTACK
    &&& vstd::utf8::encode_utf8(hay).len() <= usize::MAX / MAX_QUERY
    &&& !(exists|i: int| 0 <= i < query.len() && may_lose_accent(#[trigger] query[i])) || !(exists|
        i: int,
    | 0 <= i < hay.len() && has_other_lower(#[trigger] hay[i]))
}

/// `Pattern::parse` of the search, with smart case and smart normalization, and
/// `Pattern::score` of the text, under the default configuration. The rules of the
/// score are `nucleo_matcher`'s own and are not described here; it depends on the
/// search and the text alone. What it may answer with a panic, in some build or on
/// some machine, is left out: a text of more than `MAX_HAYSTACK` bytes; a search of
/// more than `MAX_QUERY` characters, whose score may overflow; a text so long that its
/// length times that of the search overflows; and, of a search that is matched with
/// accents, a text with a lower-case character that has another one, which the
/// matcher takes for the other in one place and not in the next.
#[verifier::external_body]
pub(crate) fn match_score(matcher: &mut nucleo_matcher::Matcher, query: &str, hay: &str) -> (r: Option<
    u32,
>)
    requires
        scorable(query@, hay@),
    ensures
        r == fuzzy_score(query@, hay@),
{
    let pattern = nucleo_matcher::pattern::Pattern::parse(
        query,
        nucleo_matcher::pattern::CaseMatching::Smart,
        nucleo_matcher::pattern::Normalization::Smart,
    );
    let mut buf = Vec::new();
    matcher.config = nucleo_matcher::Config::DEFAULT;
    pattern.score(nucleo_matcher::Utf32Str::new(hay, &mut buf), matcher)
}

/// The rank of a host in a listing, the smallest first; none where it is not listed.
/// Without a search every host is listed, the last connected first and those never
/// connected last.
pub open spec fn rank(h: HostModel, query: Seq<char>) -> Option<int> {
    if query.len() == 0 {
        match h.state.last_connected {
            Some(t) => Some(-(t as int)),
            None => Some(NEVER as int),
        }
    } else {
        match fuzzy_score(query, h.haystack()) {
            Some(s) => Some(-(s as int)),
            None => None,
        }
    }
}

/// The ranks of all hosts.
pub open spec fn ranks(hosts: Seq<HostModel>, query: Seq<char>) -> Seq<Option<int>> {
    Seq::new(hosts.len(), |i: int| rank(hosts[i], query))
}

/// Whether host `i` stands before host `j`: by rank, then by alias, then as given.
pub open spec fn stands_before(
    hosts: Seq<HostModel>,
    ranks: Seq<Option<int>>,
    i: int,
    j: int,
) -> bool {
    let a = ranks[i]->0;
    let b = ranks[j]->0;
    a < b || (a == b && (crate::order::text_lt(hosts[i].alias, hosts[j].alias) || (hosts[i].alias
        == hosts[j].alias && i < j)))
}

/// Whether `list` holds exactly the hosts that have a rank, in order.
pub open spec fn is_ranking(
    hosts: Seq<HostModel>,
    ranks: Seq<Option<int>>,
    list: Seq<usize>,
) -> bool {
    &&& forall|k: int|
        0 <= k < list.len() ==> #[trigger] list[k] < hosts.len() && ranks[list[k] as int] is Some
    &&& forall|i: usize|
        i < hosts.len() && (#[trigger] ranks[i as int]) is Some ==> list.contains(i)
    &&& forall|a: int, b: int|
        0 <= a < b < list.len() ==> stands_before(
            hosts,
            ranks,
            #[trigger] list[a] as int,
            #[trigger] list[b] as int,
        )
}

/// The listing of hosts for a search.
pub open spec fn listing(hosts: Seq<HostModel>, query: Seq<char>) -> Seq<usize> {
    choose|list: Seq<usize>| is_ranking(hosts, ranks(hosts, query), list)
}

/// No two hosts stand before each other, and none before itself.
proof fn lemma_stands_before_asymmetric(
    hosts: Seq<HostModel>,
    ranks: Seq<Option<int>>,
    i: int,
    j: int,
)
    requires
        stands_before(hosts, ranks, i, j),
    ensures
        !stands_before(hosts, ranks, j, i),
        i != j,
{
    let a = hosts[i].alias;
    let b = hosts[j].alias;
    crate::order::lemma_text_lt_irreflexive(a);
    if crate::order::text_lt(a, b) && crate::order::text_lt(b, a) {
        crate::order::lemma_text_lt_transitive(a, b, a);
    }
}

/// Two rankings of the same hosts agree as far as both go.
proof fn lemma_rankings_agree(
    hosts: Seq<HostModel>,
    ranks: Seq<Option<int>>,
    f: Seq<usize>,
    g: Seq<usize>,
    n: int,
)
    requires
        is_ranking(hosts, ranks, f),
        is_ranking(hosts, ranks, g),
        0 <= n <= f.len(),
    ensures
        n <= g.len(),
        f.take(n) == g.take(n),
    decreases n,
{
    if n > 0 {
        lemma_rankings_agree(hosts, ranks, f, g, n - 1);
        let k = n - 1;
        let x = f[k];
        assert(x < hosts.len() && ranks[x as int] is Some);
        assert(g.contains(x));
        let q = choose|q: int| 0 <= q < g.len() && g[q] == x;
        if q < k {
            assert(f.take(k)[q] == g.take(k)[q]);
            assert(f[q] == x);
            lemma_stands_before_asymmetric(hosts, ranks, f[q] as int, f[k] as int);
        }
        if q > k {
            let y = g[k];
            assert(y < hosts.len() && ranks[y as int] is Some);
            assert(f.contains(y));
            let p = choose|p: int| 0 <= p < f.len() && f[p] == y;
            lemma_stands_before_asymmetric(hosts, ranks, g[k] as int, g[q] as int);
            if p < k {
                assert(f.take(k)[p] == g.take(k)[p]);
                assert(g[p] == y);
                lemma_stands_before_asymmetric(hosts, ranks, g[p] as int, g[k] as int);
            }
            if p > k {
                lemma_stands_before_asymmetric(hosts, ranks, f[k] as int, f[p] as int);
            }
        }
        assert(f.take(n) =~= f.take(k).push(x));
        assert(g.take(n) =~= g.take(k).push(x));
    } else {
        assert(f.take(0) =~= g.take(0));
    }
}

/// There is one ranking.
pub proof fn lemma_ranking_is_unique(
    hosts: Seq<HostModel>,
    ranks: Seq<Option<int>>,
    f: Seq<usize>,
    g: Seq<usize>,
)
    requires
        is_ranking(hosts, ranks, f),
        is_ranking(hosts, ranks, g),
    ensures
        f == g,
{
    lemma_rankings_agree(hosts, ranks, f, g, f.len() as int);
    lemma_rankings_agree(hosts, ranks, g, f, g.len() as int);
    assert(f.take(f.len() as int) =~= f);
    assert(g.take(g.len() as int) =~= g);
}

/// A ranking is the listing.
pub proof fn lemma_listing(hosts: Seq<HostModel>, query: Seq<char>, list: Seq<usize>)
    requires
        is_ranking(hosts, ranks(hosts, query), list),
    ensures
        listing(hosts, query) == list,
{
    let l = listing(hosts, query);
    assert(is_ranking(hosts, ranks(hosts, query), l));
    lemma_ranking_is_unique(hosts, ranks(hosts, query), l, list);
}

/// The order of hosts is transitive.
proof fn lemma_stands_before_transitive(
    hosts: Seq<HostModel>,
    ranks: Seq<Option<int>>,
    i: int,
    j: int,
    k: int,
)
    requires
        stands_before(hosts, ranks, i, j),
        stands_before(hosts, ranks, j, k),
    ensures
        stands_before(hosts, ranks, i, k),
{
    let a = hosts[i].alias;
    let b = hosts[j].alias;
    let c = hosts[k].alias;
    if crate::order::text_lt(a, b) && crate::order::text_lt(b, c) {
        crate::order::lemma_text_lt_transitive(a, b, c);
    }
}

/// Where a host belongs in an ordered list: behind the last that stands before it.
spec fn place(hosts: Seq<HostModel>, ranks: Seq<Option<int>>, list: Seq<usize>, i: int) -> int
    decreases list.len(),
{
    if list.len() == 0 || stands_before(hosts, ranks, list.last() as int, i) {
        list.len() as int
    } else {
        place(hosts, ranks, list.drop_last(), i)
    }
}

/// The ranking of the first `n` hosts, each put in its place.
spec fn ranking_of(hosts: Seq<HostModel>, ranks: Seq<Option<int>>, n: nat) -> Seq<usize>
    decreases n,
{
    if n == 0 {
        Seq::empty()
    } else {
        let i = n - 1;
        let before = ranking_of(hosts, ranks, i as nat);
        if ranks[i] is Some {
            before.insert(place(hosts, ranks, before, i), i as usize)
        } else {
            before
        }
    }
}

/// What stands in front of a host's place stands before it, and it before the rest.
proof fn lemma_place(hosts: Seq<HostModel>, ranks: Seq<Option<int>>, list: Seq<usize>, i: int)
    requires
        forall|k: int| 0 <= k < list.len() ==> #[trigger] list[k] < i,
        forall|a: int, b: int|
            0 <= a < b < list.len() ==> stands_before(
                hosts,
                ranks,
                #[trigger] list[a] as int,
                #[trigger] list[b] as int,
            ),
    ensures
        ({
            let at = place(hosts, ranks, list, i);
            &&& 0 <= at <= list.len()
            &&& forall|k: int|
                0 <= k < at ==> stands_before(hosts, ranks, #[trigger] list[k] as int, i)
            &&& forall|k: int|
                at <= k < list.len() ==> stands_before(hosts, ranks, i, #[trigger] list[k] as int)
        }),
    decreases list.len(),
{
    if list.len() > 0 {
        let last = list.len() - 1;
        let x = list[last] as int;
        if stands_before(hosts, ranks, x, i) {
            assert forall|k: int| 0 <= k < list.len() implies stands_before(
                hosts,
                ranks,
                #[trigger] list[k] as int,
                i,
            ) by {
                if k < last {
                    lemma_stands_before_transitive(hosts, ranks, list[k] as int, x, i);
                }
            }
        } else {
            let front = list.drop_last();
            assert forall|k: int| 0 <= k < front.len() implies #[trigger] front[k] < i by {
                assert(front[k] == list[k]);
            }
            lemma_place(hosts, ranks, front, i);
            crate::order::lemma_text_lt_total(hosts[x].alias, hosts[i].alias);
            let at = place(hosts, ranks, list, i);
            assert forall|k: int| 0 <= k < at implies stands_before(
                hosts,
                ranks,
                #[trigger] list[k] as int,
                i,
            ) by {
                assert(front[k] == list[k]);
            }
            assert forall|k: int| at <= k < list.len() implies stands_before(
                hosts,
                ranks,
                i,
                #[trigger] list[k] as int,
            ) by {
                if k < last {
                    assert(front[k] == list[k]);
                }
            }
        }
    }
}

/// A list with an entry put in holds that entry and what it held.
proof fn lemma_placed(list: Seq<usize>, at: int, i: usize)
    requires
        0 <= at <= list.len(),
    ensures
        forall|k: int|
            0 <= k < list.len() + 1 ==> #[trigger] list.insert(at, i)[k] == i || list.contains(
                list.insert(at, i)[k],
            ),
        forall|j: usize| list.contains(j) || j == i ==> #[trigger] list.insert(at, i).contains(j),
{
    let more = list.insert(at, i);
    assert forall|k: int| 0 <= k < list.len() + 1 implies #[trigger] more[k] == i || list.contains(
        more[k],
    ) by {
        if k < at {
            assert(list[k] == more[k]);
        } else if k > at {
            assert(list[k - 1] == more[k]);
        }
    }
    assert forall|j: usize| list.contains(j) || j == i implies #[trigger] more.contains(j) by {
        if j == i {
            assert(more[at] == j);
        } else {
            let k = choose|k: int| 0 <= k < list.len() && list[k] == j;
            assert(more[if k < at { k } else { k + 1 }] == j);
        }
    }
}

/// A host put in its place leaves the list ordered.
proof fn lemma_placed_in_order(
    hosts: Seq<HostModel>,
    ranks: Seq<Option<int>>,
    list: Seq<usize>,
    at: int,
    i: usize,
)
    requires
        0 <= at <= list.len(),
        forall|a: int, b: int|
            0 <= a < b < list.len() ==> stands_before(
                hosts,
                ranks,
                #[trigger] list[a] as int,
                #[trigger] list[b] as int,
            ),
        forall|k: int|
            0 <= k < at ==> stands_before(hosts, ranks, #[trigger] list[k] as int, i as int),
        forall|k: int|
            at <= k < list.len() ==> stands_before(
                hosts,
                ranks,
                i as int,
                #[trigger] list[k] as int,
            ),
    ensures
        forall|a: int, b: int|
            0 <= a < b < list.len() + 1 ==> stands_before(
                hosts,
                ranks,
                #[trigger] list.insert(at, i)[a] as int,
                #[trigger] list.insert(at, i)[b] as int,
            ),
{
    let more = list.insert(at, i);
    assert forall|a: int, b: int| 0 <= a < b < list.len() + 1 implies stands_before(
        hosts,
        ranks,
        #[trigger] more[a] as int,
        #[trigger] more[b] as int,
    ) by {
        let x = if a < at { a } else { a - 1 };
        let y = if b < at { b } else { b - 1 };
        if a == at {
            assert(more[b] == list[y]);
        } else if b == at {
            assert(more[a] == list[x]);
        } else {
            assert(more[a] == list[x] && more[b] == list[y]);
        }
    }
}

/// Putting each host in its place ranks them.
proof fn lemma_ranking_of(hosts: Seq<HostModel>, ranks: Seq<Option<int>>, n: nat)
    requires
        n <= usize::MAX,
    ensures
        ({
            let list = ranking_of(hosts, ranks, n);
            &&& forall|k: int|
                0 <= k < list.len() ==> #[trigger] list[k] < n && ranks[list[k] as int] is Some
            &&& forall|i: usize| i < n && (#[trigger] ranks[i as int]) is Some ==> list.contains(i)
            &&& forall|a: int, b: int|
                0 <= a < b < list.len() ==> stands_before(
                    hosts,
                    ranks,
                    #[trigger] list[a] as int,
                    #[trigger] list[b] as int,
                )
        }),
    decreases n,
{
    if n > 0 {
        let i = n - 1;
        let before = ranking_of(hosts, ranks, i as nat);
        lemma_ranking_of(hosts, ranks, i as nat);
        if ranks[i] is Some {
            lemma_place(hosts, ranks, before, i);
            let at = place(hosts, ranks, before, i);
            lemma_placed_in_order(hosts, ranks, before, at, i as usize);
            lemma_placed(before, at, i as usize);
        }
    }
}

/// There is a listing for every search: it holds exactly the hosts that have a rank, in
/// order.
pub proof fn law_listing_is_ranked(hosts: Seq<HostModel>, query: Seq<char>)
    requires
        hosts.len() <= usize::MAX,
    ensures
        is_ranking(hosts, ranks(hosts, query), listing(hosts, query)),
{
    lemma_ranking_of(hosts, ranks(hosts, query), hosts.len());
    assert(is_ranking(
        hosts,
        ranks(hosts, query),
        ranking_of(hosts, ranks(hosts, query), hosts.len()),
    ));
}

/// The ranks of a vector.
pub open spec fn rank_models(v: Seq<Option<i128>>) -> Seq<Option<int>> {
    Seq::new(
        v.len(),
        |i: int|
            match v[i] {
                Some(n) => Some(n as int),
                None => None,
            },
    )
}

/// Puts the hosts that have a rank in order.
pub fn rank_hosts(hosts: &Vec<Host>, given: &Vec<Option<i128>>) -> (r: Vec<usize>)
    requires
        given@.len() == hosts@.len(),
    ensures
        is_ranking(crate::model::host_models(hosts@), rank_models(given@), r@),
{
    let ghost hs = crate::model::host_models(hosts@);
    let ghost rs = rank_models(given@);
    let mut keys: Vec<SortKey> = Vec::new();
    let mut at: Vec<usize> = Vec::new();
    for i in 0..hosts.len()
        invariant
            given@.len() == hosts@.len(),
            hs == crate::model::host_models(hosts@),
            rs == rank_models(given@),
            keys@.len() == at@.len(),
            forall|k: int|
                0 <= k < at@.len() ==> #[trigger] at@[k] < i && rs[at@[k] as int] is Some && keys@[k]@
                    == (rs[at@[k] as int]->0, hs[at@[k] as int].alias),
            forall|a: int, b: int| 0 <= a < b < at@.len() ==> #[trigger] at@[a] < #[trigger] at@[b],
            forall|j: int|
                0 <= j < i && (#[trigger] rs[j]) is Some ==> exists|k: int|
                    0 <= k < at@.len() && #[trigger] at@[k] == j,
    {
        let ghost had = at@;
        if let Some(n) = given[i] {
            keys.push(SortKey::new(n, hosts[i].alias.as_str()));
            at.push(i);
            proof {
                assert(at@[had.len() as int] == i);
                assert forall|j: int| 0 <= j < i + 1 && (#[trigger] rs[j]) is Some implies exists|k: int|
                    0 <= k < at@.len() && #[trigger] at@[k] == j by {
                    if j < i {
                        let k = choose|k: int| 0 <= k < had.len() && #[trigger] had[k] == j;
                        assert(at@[k] == j);
                    }
                }
            }
        }
    }
    let perm = sorted(&keys);
    let ghost ks = crate::order::keys_of(keys@);
    let mut out: Vec<usize> = Vec::new();
    for k in 0..perm.len()
        invariant
            crate::order::in_order(ks, perm@),
            ks.len() == at@.len(),
            out@.len() == k,
            forall|j: int| 0 <= j < k ==> #[trigger] out@[j] == at@[perm@[j] as int],
    {
        assert(perm@[k as int] < ks.len());
        out.push(at[perm[k]]);
    }
    proof {
        assert forall|k: int| 0 <= k < out@.len() implies #[trigger] out@[k] < hs.len()
            && rs[out@[k] as int] is Some by {
            assert(perm@[k] < ks.len());
            assert(at@[perm@[k] as int] < hs.len());
        }
        assert forall|i: usize| i < hs.len() && (#[trigger] rs[i as int]) is Some implies out@.contains(
            i,
        ) by {
            let j = choose|j: int| 0 <= j < at@.len() && #[trigger] at@[j] == i;
            crate::order::lemma_in_order_holds_all(ks, perm@, j as usize);
            let k = choose|k: int| 0 <= k < perm@.len() && perm@[k] == j as usize;
            assert(out@[k] == i);
        }
        assert forall|a: int, b: int| 0 <= a < b < out@.len() implies stands_before(
            hs,
            rs,
            #[trigger] out@[a] as int,
            #[trigger] out@[b] as int,
        ) by {
            let p = perm@[a] as int;
            let q = perm@[b] as int;
            assert(p < ks.len() && q < ks.len());
            assert(crate::order::entry_lt(ks, p, q));
            assert(at@[p] < hs.len() && at@[q] < hs.len());
            assert(ks[p] == keys@[p]@ && ks[q] == keys@[q]@);
        }
    }
    out
}

/// Whether every host can be searched. Without a search there is nothing to match.
pub open spec fn searchable(hosts: Seq<HostModel>, query: Seq<char>) -> bool {
    query.len() == 0 || forall|i: int|
        0 <= i < hosts.len() ==> scorable(query, (#[trigger] hosts[i]).haystack())
}

/// What begins a search that is possible is one that is possible.
pub proof fn lemma_shorter_search(hosts: Seq<HostModel>, query: Seq<char>, n: int)
    requires
        searchable(hosts, query),
        0 <= n <= query.len(),
    ensures
        searchable(hosts, query.take(n)),
    decreases query.len() - n,
{
    if n == query.len() {
        assert(query.take(n) =~= query);
    } else {
        lemma_shorter_search(hosts, query, n + 1);
        let longer = query.take(n + 1);
        let shorter = query.take(n);
        assert(longer.drop_last() =~= shorter);
        assert(needle_len(shorter) <= needle_len(longer)) by {
            if crate::text::all_ascii(longer) {
                assert forall|i: int| 0 <= i < shorter.len() implies #[trigger] shorter[i]
                    < '\u{80}' by {
                    assert(shorter[i] == longer[i]);
                }
            }
        }
        assert forall|i: int| 0 <= i < hosts.len() && shorter.len() > 0 implies scorable(
            shorter,
            (#[trigger] hosts[i]).haystack(),
        ) by {
            assert(scorable(longer, hosts[i].haystack()));
            assert forall|j: int| 0 <= j < shorter.len() implies #[trigger] shorter[j]
                == longer[j] by {}
        }
    }
}

/// Whether a character may lose its accent.
fn loses_accent(c: char) -> (r: bool)
    ensures
        r == may_lose_accent(c),
{
    ('\u{c0}' <= c && c <= '\u{36f}') || ('\u{1d00}' <= c && c <= '\u{1ef1}') || ('\u{2071}' <= c
        && c <= '\u{2184}')
}

/// Whether a lower-case character has another one.
fn is_one_of_two(c: char) -> (r: bool)
    ensures
        r == has_other_lower(c),
{
    c == '\u{b5}' || c == '\u{17f}' || c == '\u{345}' || c == '\u{3c2}' || c == '\u{3d0}' || c
        == '\u{3d1}' || c == '\u{3d5}' || c == '\u{3d6}' || c == '\u{3f0}' || c == '\u{3f1}' || c
        == '\u{3f5}' || ('\u{13f8}' <= c && c <= '\u{13fd}') || ('\u{1c80}' <= c && c <= '\u{1c88}')
        || c == '\u{1e9b}' || c == '\u{1fbe}' || ('\u{ab70}' <= c && c <= '\u{abbf}')
}

/// Whether a text holds a character that may lose its accent.
fn has_accent(s: &str) -> (r: bool)
    ensures
        r == exists|i: int| 0 <= i < s@.len() && may_lose_accent(#[trigger] s@[i]),
{
    let v = chars_of(s);
    for i in 0..v.len()
        invariant
            v@ == s@,
            forall|j: int| 0 <= j < i ==> !may_lose_accent(#[trigger] s@[j]),
    {
        if loses_accent(v[i]) {
            assert(may_lose_accent(s@[i as int]));
            return true;
        }
    }
    false
}

/// Whether a text holds a lower-case character that has another one.
fn has_one_of_two(s: &str) -> (r: bool)
    ensures
        r == exists|i: int| 0 <= i < s@.len() && has_other_lower(#[trigger] s@[i]),
{
    let v = chars_of(s);
    for i in 0..v.len()
        invariant
            v@ == s@,
            forall|j: int| 0 <= j < i ==> !has_other_lower(#[trigger] s@[j]),
    {
        if is_one_of_two(v[i]) {
            assert(has_other_lower(s@[i as int]));
            return true;
        }
    }
    false
}

/// Whether a search is short enough.
fn needle_fits(query: &str) -> (r: bool)
    ensures
        r == (needle_len(query@) <= MAX_QUERY),
{
    let v = chars_of(query);
    if v.len() > MAX_QUERY {
        return false;
    }
    let mut slashes: usize = 0;
    let mut ascii = true;
    assert(query@.take(0) =~= Seq::<char>::empty());
    for i in 0..v.len()
        invariant
            v@ == query@,
            v@.len() <= MAX_QUERY,
            slashes == backslashes(query@.take(i as int)),
            slashes <= i,
            ascii == forall|j: int| 0 <= j < i ==> #[trigger] query@[j] < '\u{80}',
    {
        assert(query@.take(i + 1).drop_last() =~= query@.take(i as int));
        if v[i] == '\\' {
            slashes = slashes + 1;
        }
        if v[i] >= '\u{80}' {
            assert(!(query@[i as int] < '\u{80}'));
            ascii = false;
        }
    }
    assert(query@.take(v@.len() as int) =~= query@);
    ascii || v.len() + slashes <= MAX_QUERY
}

/// Whether every host can be searched.
pub fn can_search(hosts: &Vec<Host>, query: &str) -> (r: bool)
    ensures
        r == searchable(crate::model::host_models(hosts@), query@),
{
    if query.is_empty() {
        return true;
    }
    let ghost hs = crate::model::host_models(hosts@);
    let short = needle_fits(query);
    let accent = has_accent(query);
    for i in 0..hosts.len()
        invariant
            hs == crate::model::host_models(hosts@),
            query@.len() > 0,
            short == (needle_len(query@) <= MAX_QUERY),
            accent == exists|k: int| 0 <= k < query@.len() && may_lose_accent(#[trigger] query@[k]),
            forall|j: int| 0 <= j < i ==> scorable(query@, (#[trigger] hs[j]).haystack()),
    {
        let hay = hosts[i].haystack();
        let size: usize = hay.as_str().as_bytes().len();
        assert(hs[i as int].haystack() == hay@);
        if !short || size > MAX_HAYSTACK || size > usize::MAX / MAX_QUERY || (accent
            && has_one_of_two(hay.as_str())) {
            assert(!scorable(query@, hs[i as int].haystack()));
            return false;
        }
    }
    true
}

/// Lists the hosts for a search.
pub fn list_hosts(hosts: &Vec<Host>, query: &str, matcher: &mut nucleo_matcher::Matcher) -> (r: Vec<
    usize,
>)
    requires
        searchable(crate::model::host_models(hosts@), query@),
    ensures
        is_ranking(
            crate::model::host_models(hosts@),
            ranks(crate::model::host_models(hosts@), query@),
            r@,
        ),
        r@ == listing(crate::model::host_models(hosts@), query@),
{
    let ghost hs = crate::model::host_models(hosts@);
    let all = query.is_empty();
    let mut given: Vec<Option<i128>> = Vec::new();
    for i in 0..hosts.len()
        invariant
            hs == crate::model::host_models(hosts@),
            all == (query@.len() == 0),
            searchable(hs, query@),
            given@.len() == i,
            forall|j: int| 0 <= j < i ==> #[trigger] rank_models(given@)[j] == rank(hs[j], query@),
    {
        let ghost had = given@;
        let n: Option<i128> = if all {
            match hosts[i].state.last_connected {
                Some(t) => Some(-(t as i128)),
                None => Some(NEVER),
            }
        } else {
            let hay = hosts[i].haystack();
            assert(scorable(query@, hs[i as int].haystack()));
            match match_score(matcher, query, hay.as_str()) {
                Some(s) => Some(-(s as i128)),
                None => None,
            }
        };
        given.push(n);
        assert forall|j: int| 0 <= j < i + 1 implies #[trigger] rank_models(given@)[j] == rank(
            hs[j],
            query@,
        ) by {
            if j < i {
                assert(rank_models(had)[j] == rank(hs[j], query@));
            }
        }
    }
    assert(rank_models(given@) =~= ranks(hs, query@));
    let out = rank_hosts(hosts, &given);
    proof {
        lemma_listing(hs, query@, out@);
    }
    out
}

/// Without a search every host is listed, once.
pub proof fn law_no_search_lists_all(hosts: Seq<HostModel>, list: Seq<usize>)
    requires
        hosts.len() <= usize::MAX,
        is_ranking(hosts, ranks(hosts, Seq::empty()), list),
    ensures
        list.len() == hosts.len(),
        list.no_duplicates(),
        forall|i: usize| i < hosts.len() ==> #[trigger] list.contains(i),
{
    let rs = ranks(hosts, Seq::empty());
    assert forall|i: usize| i < hosts.len() implies #[trigger] list.contains(i) by {
        assert(rs[i as int] is Some);
    }
    lemma_ranking_distinct(hosts, rs, list);
    let all = Set::<usize>::new(|k: usize| k < hosts.len());
    assert(list.to_set() =~= all) by {
        assert forall|k: usize| list.to_set().contains(k) == all.contains(k) by {
            if list.contains(k) {
                let i = choose|i: int| 0 <= i < list.len() && list[i] == k;
                assert(list[i] < hosts.len());
            }
        }
    }
    list.unique_seq_to_set();
    crate::order::lemma_count_below(hosts.len());
}

/// No host is listed twice.
proof fn lemma_ranking_distinct(hosts: Seq<HostModel>, ranks: Seq<Option<int>>, list: Seq<usize>)
    requires
        is_ranking(hosts, ranks, list),
    ensures
        list.no_duplicates(),
{
    assert forall|i: int, j: int| 0 <= i < list.len() && 0 <= j < list.len() && i != j implies list[i]
        != list[j] by {
        if i < j {
            lemma_stands_before_asymmetric(hosts, ranks, list[i] as int, list[j] as int);
        } else {
            lemma_stands_before_asymmetric(hosts, ranks, list[j] as int, list[i] as int);
        }
    }
}

/// Without a search a host that was connected to later is listed earlier, and one
/// that never was, last.
pub proof fn law_recent_hosts_come_first(hosts: Seq<HostModel>, list: Seq<usize>, a: int, b: int)
    requires
        is_ranking(hosts, ranks(hosts, Seq::empty()), list),
        0 <= a < b < list.len(),
    ensures
        ({
            let x = hosts[list[a] as int].state.last_connected;
            let y = hosts[list[b] as int].state.last_connected;
            (x is None ==> y is None) && (x is Some && y is Some ==> x->0 >= y->0)
        }),
{
    assert(list[a] < hosts.len() && list[b] < hosts.len());
    assert(stands_before(hosts, ranks(hosts, Seq::empty()), list[a] as int, list[b] as int));
}

} // verus!
