//! Putting a list in order by a rank and a text.

use vstd::prelude::*;

use crate::text::chars_of;

verus! {

/// What an entry is ordered by: the rank first, the text where ranks are equal.
pub struct SortKey {
    pub rank: i128,
    pub text: Vec<char>,
}

impl View for SortKey {
    type V = (int, Seq<char>);

    open spec fn view(&self) -> (int, Seq<char>) {
        (self.rank as int, self.text@)
    }
}

/// The keys of a list.
pub open spec fn keys_of(v: Seq<SortKey>) -> Seq<(int, Seq<char>)> {
    Seq::new(v.len(), |i: int| v[i]@)
}

/// Dictionary order by code point: the first difference decides, and a text
/// stands before its own continuations.
pub open spec fn text_lt(a: Seq<char>, b: Seq<char>) -> bool
    decreases a.len(),
{
    if b.len() == 0 {
        false
    } else if a.len() == 0 {
        true
    } else if a[0] != b[0] {
        a[0] < b[0]
    } else {
        text_lt(a.skip(1), b.skip(1))
    }
}

/// Whether key `a` stands before key `b`.
pub open spec fn key_lt(a: (int, Seq<char>), b: (int, Seq<char>)) -> bool {
    a.0 < b.0 || (a.0 == b.0 && text_lt(a.1, b.1))
}

/// Whether entry `i` stands before entry `j`: by key, and in list order where
/// the keys are equal.
pub open spec fn entry_lt(keys: Seq<(int, Seq<char>)>, i: int, j: int) -> bool {
    key_lt(keys[i], keys[j]) || (keys[i] == keys[j] && i < j)
}

/// Whether `perm` lists every entry once, in order.
pub open spec fn in_order(keys: Seq<(int, Seq<char>)>, perm: Seq<usize>) -> bool {
    &&& perm.len() == keys.len()
    &&& forall|i: int| 0 <= i < perm.len() ==> 0 <= #[trigger] perm[i] < keys.len()
    &&& forall|i: int, j: int|
        0 <= i < j < perm.len() ==> entry_lt(keys, #[trigger] perm[i] as int, #[trigger] perm[j] as int)
}

/// No text stands before itself.
pub proof fn lemma_text_lt_irreflexive(a: Seq<char>)
    ensures
        !text_lt(a, a),
    decreases a.len(),
{
    if a.len() > 0 {
        lemma_text_lt_irreflexive(a.skip(1));
    }
}

/// Dictionary order is transitive.
pub proof fn lemma_text_lt_transitive(a: Seq<char>, b: Seq<char>, c: Seq<char>)
    requires
        text_lt(a, b),
        text_lt(b, c),
    ensures
        text_lt(a, c),
    decreases a.len(),
{
    if a.len() > 0 && b.len() > 0 && c.len() > 0 && a[0] == b[0] && b[0] == c[0] {
        lemma_text_lt_transitive(a.skip(1), b.skip(1), c.skip(1));
    }
}

/// Of two different texts one stands before the other.
pub proof fn lemma_text_lt_total(a: Seq<char>, b: Seq<char>)
    ensures
        text_lt(a, b) || text_lt(b, a) || a == b,
    decreases a.len(),
{
    if a.len() == 0 || b.len() == 0 {
        if a.len() == 0 && b.len() == 0 {
            assert(a =~= b);
        }
    } else if a[0] == b[0] {
        lemma_text_lt_total(a.skip(1), b.skip(1));
        if a.skip(1) == b.skip(1) {
            assert(a =~= seq![a[0]] + a.skip(1));
            assert(b =~= seq![b[0]] + b.skip(1));
        }
    }
}

/// The order of entries is transitive.
proof fn lemma_entry_lt_transitive(keys: Seq<(int, Seq<char>)>, i: int, j: int, k: int)
    requires
        entry_lt(keys, i, j),
        entry_lt(keys, j, k),
    ensures
        entry_lt(keys, i, k),
{
    if keys[i].0 == keys[j].0 && keys[j].0 == keys[k].0 {
        if text_lt(keys[i].1, keys[j].1) && text_lt(keys[j].1, keys[k].1) {
            lemma_text_lt_transitive(keys[i].1, keys[j].1, keys[k].1);
        }
    }
}

/// An ordered list holds every entry.
pub proof fn lemma_in_order_holds_all(keys: Seq<(int, Seq<char>)>, perm: Seq<usize>, i: usize)
    requires
        in_order(keys, perm),
        keys.len() <= usize::MAX,
        i < keys.len(),
    ensures
        perm.contains(i),
{
    lemma_in_order_distinct(keys, perm);
    let n = keys.len();
    let s = perm.to_set();
    let all = Set::<usize>::new(|k: usize| k < n);
    perm.unique_seq_to_set();
    lemma_count_below(n);
    assert(s.subset_of(all)) by {
        assert forall|k: usize| s.contains(k) implies all.contains(k) by {
            let j = choose|j: int| 0 <= j < perm.len() && perm[j] == k;
            assert(perm[j] < keys.len());
        }
    }
    vstd::set_lib::lemma_subset_equality(s, all);
    assert(all.contains(i));
    assert(s.contains(i));
}

/// No entry is listed twice.
pub proof fn lemma_in_order_distinct(keys: Seq<(int, Seq<char>)>, perm: Seq<usize>)
    requires
        in_order(keys, perm),
    ensures
        perm.no_duplicates(),
{
    assert forall|i: int, j: int| 0 <= i < perm.len() && 0 <= j < perm.len() && i != j implies perm[i]
        != perm[j] by {
        if i < j {
            assert(entry_lt(keys, perm[i] as int, perm[j] as int));
            lemma_text_lt_irreflexive(keys[perm[i] as int].1);
        } else {
            assert(entry_lt(keys, perm[j] as int, perm[i] as int));
            lemma_text_lt_irreflexive(keys[perm[j] as int].1);
        }
    }
}

/// There are `n` indices below `n`.
pub proof fn lemma_count_below(n: nat)
    requires
        n <= usize::MAX,
    ensures
        Set::<usize>::new(|k: usize| k < n).finite(),
        Set::<usize>::new(|k: usize| k < n).len() == n,
    decreases n,
{
    let all = Set::<usize>::new(|k: usize| k < n);
    if n == 0 {
        assert(all =~= Set::<usize>::empty());
    } else {
        let m = (n - 1) as nat;
        lemma_count_below(m);
        let less = Set::<usize>::new(|k: usize| k < m);
        assert(all =~= less.insert(m as usize));
    }
}

impl SortKey {
    /// The key of rank `rank` and text `text`.
    pub fn new(rank: i128, text: &str) -> (r: SortKey)
        ensures
            r@ == (rank as int, text@),
    {
        SortKey { rank, text: chars_of(text) }
    }

    /// Whether this key stands before the other.
    pub fn is_before(&self, other: &SortKey) -> (r: bool)
        ensures
            r == key_lt(self@, other@),
    {
        if self.rank != other.rank {
            return self.rank < other.rank;
        }
        let a = &self.text;
        let b = &other.text;
        let mut i: usize = 0;
        assert(a@.skip(0) =~= a@);
        assert(b@.skip(0) =~= b@);
        while i < a.len() && i < b.len()
            invariant
                a == &self.text,
                b == &other.text,
                self.rank == other.rank,
                i <= a@.len(),
                i <= b@.len(),
                text_lt(a@, b@) == text_lt(a@.skip(i as int), b@.skip(i as int)),
            decreases a@.len() - i,
        {
            if a[i] != b[i] {
                return a[i] < b[i];
            }
            assert(a@.skip(i as int).skip(1) =~= a@.skip(i + 1));
            assert(b@.skip(i as int).skip(1) =~= b@.skip(i + 1));
            i = i + 1;
        }
        i < b.len()
    }
}

/// The entries of `keys` in order, each by its index.
pub fn sorted(keys: &Vec<SortKey>) -> (r: Vec<usize>)
    ensures
        in_order(keys_of(keys@), r@),
{
    let mut out: Vec<usize> = Vec::new();
    let ghost ks = keys_of(keys@);
    for k in 0..keys.len()
        invariant
            ks == keys_of(keys@),
            out@.len() == k,
            forall|i: int| 0 <= i < out@.len() ==> 0 <= #[trigger] out@[i] < k,
            forall|i: int, j: int|
                0 <= i < j < out@.len() ==> entry_lt(
                    ks,
                    #[trigger] out@[i] as int,
                    #[trigger] out@[j] as int,
                ),
    {
        let mut pos: usize = out.len();
        while pos > 0 && keys[k].is_before(&keys[out[pos - 1]])
            invariant
                k < keys@.len(),
                ks == keys_of(keys@),
                pos <= out@.len(),
                out@.len() == k,
                forall|i: int| 0 <= i < out@.len() ==> 0 <= #[trigger] out@[i] < k,
                forall|i: int| pos <= i < out@.len() ==> entry_lt(ks, k as int, #[trigger] out@[i] as int),
            decreases pos,
        {
            pos = pos - 1;
        }
        let ghost before = out@;
        proof {
            if pos > 0 {
                let p = before[pos - 1] as int;
                assert(!key_lt(ks[k as int], ks[p]));
                lemma_text_lt_total(ks[k as int].1, ks[p].1);
                assert(entry_lt(ks, p, k as int));
                assert forall|i: int| 0 <= i < pos implies entry_lt(
                    ks,
                    #[trigger] before[i] as int,
                    k as int,
                ) by {
                    if i < pos - 1 {
                        lemma_entry_lt_transitive(ks, before[i] as int, p, k as int);
                    }
                }
            }
        }
        out.insert(pos, k);
        proof {
            assert(out@ == before.insert(pos as int, k));
            assert forall|i: int, j: int| 0 <= i < j < out@.len() implies entry_lt(
                ks,
                #[trigger] out@[i] as int,
                #[trigger] out@[j] as int,
            ) by {
                let oi = if i < pos { i } else { i - 1 };
                let oj = if j < pos { j } else { j - 1 };
                if i != pos && j != pos {
                    assert(out@[i] == before[oi] && out@[j] == before[oj]);
                } else if i == pos {
                    assert(out@[j] == before[oj]);
                } else {
                    assert(out@[i] == before[oi]);
                }
            }
            assert forall|i: int| 0 <= i < out@.len() implies 0 <= #[trigger] out@[i] < k + 1 by {
                if i != pos {
                    let oi = if i < pos { i } else { i - 1 };
                    assert(out@[i] == before[oi]);
                }
            }
        }
    }
    out
}

} // verus!
