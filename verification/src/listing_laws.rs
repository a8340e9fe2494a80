//! Which hosts are listed, and in which order.

use vstd::prelude::*;

use crate::model::HostModel;

verus! {

/// A search lists exactly the hosts that it matches: those whose text of alias, host
/// name and notes has a score.
pub proof fn law_search_lists_matches(hosts: Seq<HostModel>, query: Seq<char>, i: usize)
    requires
        hosts.len() <= usize::MAX,
        query.len() > 0,
    ensures
        crate::listing::listing(hosts, query).contains(i) <==> i < hosts.len()
            && crate::listing::fuzzy_score(query, hosts[i as int].haystack()) is Some,
{
    crate::listing::law_listing_is_ranked(hosts, query);
    let list = crate::listing::listing(hosts, query);
    let rs = crate::listing::ranks(hosts, query);
    if list.contains(i) {
        let k = choose|k: int| 0 <= k < list.len() && list[k] == i;
        assert(list[k] < hosts.len() && rs[list[k] as int] is Some);
    }
    if i < hosts.len() {
        assert(rs[i as int] == crate::listing::rank(hosts[i as int], query));
    }
}

/// In a search the better match comes first; of two that match alike, the one whose
/// alias comes first in the dictionary.
pub proof fn law_better_matches_come_first(
    hosts: Seq<HostModel>,
    query: Seq<char>,
    a: int,
    b: int,
)
    requires
        hosts.len() <= usize::MAX,
        query.len() > 0,
        0 <= a < b < crate::listing::listing(hosts, query).len(),
    ensures
        ({
            let list = crate::listing::listing(hosts, query);
            let x = hosts[list[a] as int];
            let y = hosts[list[b] as int];
            let p = crate::listing::fuzzy_score(query, x.haystack());
            let q = crate::listing::fuzzy_score(query, y.haystack());
            &&& p is Some && q is Some
            &&& p->0 >= q->0
            &&& p->0 == q->0 ==> x.alias == y.alias || crate::order::text_lt(x.alias, y.alias)
        }),
{
    crate::listing::law_listing_is_ranked(hosts, query);
    let list = crate::listing::listing(hosts, query);
    let rs = crate::listing::ranks(hosts, query);
    assert(list[a] < hosts.len() && rs[list[a] as int] is Some);
    assert(list[b] < hosts.len() && rs[list[b] as int] is Some);
    assert(crate::listing::stands_before(hosts, rs, list[a] as int, list[b] as int));
}

/// Without a search, of two hosts that were last connected to at the same time, or
/// never, the one whose alias comes first in the dictionary is listed first.
pub proof fn law_ties_go_by_alias(hosts: Seq<HostModel>, a: int, b: int)
    requires
        hosts.len() <= usize::MAX,
        0 <= a < b < crate::listing::listing(hosts, Seq::empty()).len(),
    ensures
        ({
            let list = crate::listing::listing(hosts, Seq::empty());
            let x = hosts[list[a] as int];
            let y = hosts[list[b] as int];
            &&& x.state.last_connected == y.state.last_connected ==> x.alias == y.alias
                || crate::order::text_lt(x.alias, y.alias)
            &&& x.state.last_connected is Some && y.state.last_connected is Some
                ==> x.state.last_connected->0 >= y.state.last_connected->0
            &&& x.state.last_connected is None ==> y.state.last_connected is None
        }),
{
    let none = Seq::<char>::empty();
    crate::listing::law_listing_is_ranked(hosts, none);
    let list = crate::listing::listing(hosts, none);
    let rs = crate::listing::ranks(hosts, none);
    assert(list[a] < hosts.len() && list[b] < hosts.len());
    assert(crate::listing::stands_before(hosts, rs, list[a] as int, list[b] as int));
}

/// Without a search every host is in the list, however long ago it was connected to.
pub proof fn law_all_hosts_are_listed(hosts: Seq<HostModel>, i: usize)
    requires
        hosts.len() <= usize::MAX,
        i < hosts.len(),
    ensures
        crate::listing::listing(hosts, Seq::empty()).contains(i),
        crate::listing::listing(hosts, Seq::empty()).len() == hosts.len(),
{
    crate::listing::law_listing_is_ranked(hosts, Seq::empty());
    crate::listing::law_no_search_lists_all(
        hosts,
        crate::listing::listing(hosts, Seq::empty()),
    );
}

/// In a dictionary the first difference decides, and a text stands before its own
/// continuations.
pub proof fn law_dictionary_order(
    front: Seq<char>,
    x: char,
    y: char,
    a: Seq<char>,
    b: Seq<char>,
)
    ensures
        x < y ==> crate::order::text_lt(front + seq![x] + a, front + seq![y] + b),
        crate::order::text_lt(front, front + seq![x] + a),
        x > y ==> !crate::order::text_lt(front + seq![x] + a, front + seq![y] + b),
        !crate::order::text_lt(front + seq![x] + a, front),
    decreases front.len(),
{
    let left = front + seq![x] + a;
    let right = front + seq![y] + b;
    if front.len() == 0 {
        assert(left[0] == x && right[0] == y);
    } else {
        let rest = front.skip(1);
        law_dictionary_order(rest, x, y, a, b);
        assert(left.skip(1) =~= rest + seq![x] + a);
        assert(right.skip(1) =~= rest + seq![y] + b);
        assert(left[0] == front[0] && right[0] == front[0]);
    }
}


/// A search in plain ASCII is possible wherever it is short enough, over every host
/// whose text is.
pub proof fn law_ordinary_searches(hosts: Seq<HostModel>, query: Seq<char>)
    requires
        crate::text::all_ascii(query),
        query.len() <= 2520,
        forall|i: int|
            0 <= i < hosts.len() ==> vstd::utf8::encode_utf8(
                (#[trigger] hosts[i]).haystack(),
            ).len() <= 1_000_000,
    ensures
        crate::listing::searchable(hosts, query),
        crate::listing::searchable(hosts, Seq::empty()),
{
    assert forall|i: int| 0 <= i < query.len() implies !crate::listing::may_lose_accent(
        #[trigger] query[i],
    ) by {
        assert(query[i] < '\u{80}');
    }
}

} // verus!
