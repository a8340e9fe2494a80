//! A map from texts to values.

use vstd::prelude::*;

use crate::text::same_text;

verus! {

/// A map whose keys are texts.
pub struct Table<V> {
    entries: Vec<(String, V)>,
}

/// Where the key `k` stands in a list of entries.
spec fn found<V>(entries: Seq<(String, V)>, k: Seq<char>, i: int) -> bool {
    0 <= i < entries.len() && entries[i].0@ == k
}

/// The map that a list of entries stands for.
spec fn map_of<V>(entries: Seq<(String, V)>) -> Map<Seq<char>, V> {
    Map::new(
        |k: Seq<char>| exists|i: int| #[trigger] found(entries, k, i),
        |k: Seq<char>| entries[choose|i: int| #[trigger] found(entries, k, i)].1,
    )
}

/// Whether no key occurs twice.
spec fn distinct<V>(entries: Seq<(String, V)>) -> bool {
    forall|i: int, j: int|
        0 <= i < entries.len() && 0 <= j < entries.len() && i != j ==> #[trigger] entries[i].0@
            != #[trigger] entries[j].0@
}

impl<V> View for Table<V> {
    type V = Map<Seq<char>, V>;

    closed spec fn view(&self) -> Map<Seq<char>, V> {
        map_of(self.entries@)
    }
}

/// The value of an entry is what its key maps to.
proof fn lemma_map_of<V>(entries: Seq<(String, V)>, i: int)
    requires
        distinct(entries),
        0 <= i < entries.len(),
    ensures
        map_of(entries).dom().contains(entries[i].0@),
        map_of(entries)[entries[i].0@] == entries[i].1,
{
    let k = entries[i].0@;
    assert(found(entries, k, i));
    let j = choose|j: int| #[trigger] found(entries, k, j);
    assert(found(entries, k, j));
}

/// A map made of one entry more.
proof fn lemma_push<V>(entries: Seq<(String, V)>, e: (String, V))
    requires
        distinct(entries),
        forall|i: int| 0 <= i < entries.len() ==> #[trigger] entries[i].0@ != e.0@,
    ensures
        distinct(entries.push(e)),
        map_of(entries.push(e)) == map_of(entries).insert(e.0@, e.1),
{
    let more = entries.push(e);
    let want = map_of(entries).insert(e.0@, e.1);
    assert(distinct(more));
    assert forall|k: Seq<char>| map_of(more).dom().contains(k) == want.dom().contains(k) by {
        if map_of(more).dom().contains(k) {
            let i = choose|i: int| #[trigger] found(more, k, i);
            if i < entries.len() {
                assert(found(entries, k, i));
            }
        }
        if map_of(entries).dom().contains(k) {
            let i = choose|i: int| #[trigger] found(entries, k, i);
            assert(found(more, k, i));
        }
        if k == e.0@ {
            assert(found(more, k, entries.len() as int));
        }
    }
    assert forall|k: Seq<char>| map_of(more).dom().contains(k) implies map_of(more)[k] == want[k] by {
        let i = choose|i: int| #[trigger] found(more, k, i);
        lemma_map_of(more, i);
        if i < entries.len() {
            lemma_map_of(entries, i);
        }
    }
    assert(map_of(more) =~= want);
}

/// A map with one entry less.
proof fn lemma_remove<V>(entries: Seq<(String, V)>, at: int)
    requires
        distinct(entries),
        0 <= at < entries.len(),
    ensures
        distinct(entries.remove(at)),
        map_of(entries.remove(at)) == map_of(entries).remove(entries[at].0@),
{
    let less = entries.remove(at);
    let want = map_of(entries).remove(entries[at].0@);
    assert forall|i: int| 0 <= i < less.len() implies less[i] == entries[if i < at {
        i
    } else {
        i + 1
    }] by {}
    assert(distinct(less)) by {
        assert forall|i: int, j: int|
            0 <= i < less.len() && 0 <= j < less.len() && i != j implies #[trigger] less[i].0@
            != #[trigger] less[j].0@ by {
            let a = if i < at {
                i
            } else {
                i + 1
            };
            let b = if j < at {
                j
            } else {
                j + 1
            };
            assert(entries[a].0@ != entries[b].0@);
        }
    }
    assert forall|k: Seq<char>| map_of(less).dom().contains(k) == want.dom().contains(k) by {
        if map_of(less).dom().contains(k) {
            let i = choose|i: int| #[trigger] found(less, k, i);
            let a = if i < at {
                i
            } else {
                i + 1
            };
            assert(found(entries, k, a));
            assert(entries[a].0@ != entries[at].0@);
        }
        if want.dom().contains(k) {
            let i = choose|i: int| #[trigger] found(entries, k, i);
            assert(i != at);
            let a = if i < at {
                i
            } else {
                i - 1
            };
            assert(found(less, k, a));
        }
    }
    assert forall|k: Seq<char>| map_of(less).dom().contains(k) implies map_of(less)[k] == want[k] by {
        let i = choose|i: int| #[trigger] found(less, k, i);
        lemma_map_of(less, i);
        let a = if i < at {
            i
        } else {
            i + 1
        };
        lemma_map_of(entries, a);
    }
    assert(map_of(less) =~= want);
}

/// A map has as many keys as its list has entries.
proof fn lemma_len<V>(entries: Seq<(String, V)>)
    requires
        distinct(entries),
    ensures
        map_of(entries).dom().finite(),
        map_of(entries).len() == entries.len(),
    decreases entries.len(),
{
    if entries.len() == 0 {
        assert(map_of(entries).dom() =~= Set::<Seq<char>>::empty());
    } else {
        let less = entries.drop_last();
        assert(distinct(less)) by {
            assert forall|i: int, j: int|
                0 <= i < less.len() && 0 <= j < less.len() && i != j implies #[trigger] less[i].0@
                != #[trigger] less[j].0@ by {
                assert(entries[i].0@ != entries[j].0@);
            }
        }
        lemma_len(less);
        assert forall|i: int| 0 <= i < less.len() implies #[trigger] less[i].0@ != entries.last().0@ by {
            assert(entries[i].0@ != entries[entries.len() - 1].0@);
        }
        lemma_push(less, entries.last());
        assert(less.push(entries.last()) =~= entries);
        assert(!map_of(less).dom().contains(entries.last().0@)) by {
            if map_of(less).dom().contains(entries.last().0@) {
                let i = choose|i: int| #[trigger] found(less, entries.last().0@, i);
                assert(less[i].0@ != entries.last().0@);
            }
        }
    }
}

impl<V> Table<V> {
    #[verifier::type_invariant]
    spec fn well_formed(self) -> bool {
        distinct(self.entries@)
    }

    /// A table without entries.
    pub fn new() -> (r: Table<V>)
        ensures
            r@ == Map::<Seq<char>, V>::empty(),
    {
        let r = Table { entries: Vec::new() };
        proof {
            assert forall|k: Seq<char>| !r@.dom().contains(k) by {
                if r@.dom().contains(k) {
                    let i = choose|i: int| #[trigger] found(r.entries@, k, i);
                }
            }
            assert(r@ =~= Map::<Seq<char>, V>::empty());
        }
        r
    }

    /// Where a key stands.
    fn position(&self, key: &str) -> (r: Option<usize>)
        ensures
            match r {
                Some(i) => found(self.entries@, key@, i as int) && self@.dom().contains(key@)
                    && self@[key@] == self.entries@[i as int].1,
                None => !self@.dom().contains(key@) && forall|i: int|
                    0 <= i < self.entries@.len() ==> #[trigger] self.entries@[i].0@ != key@,
            },
    {
        proof {
            use_type_invariant(self);
        }
        for i in 0..self.entries.len()
            invariant
                distinct(self.entries@),
                forall|j: int| 0 <= j < i ==> #[trigger] self.entries@[j].0@ != key@,
        {
            if same_text(self.entries[i].0.as_str(), key) {
                proof {
                    lemma_map_of(self.entries@, i as int);
                }
                return Some(i);
            }
        }
        proof {
            if self@.dom().contains(key@) {
                let i = choose|i: int| #[trigger] found(self.entries@, key@, i);
                assert(self.entries@[i].0@ != key@);
            }
        }
        None
    }

    /// The value of a key.
    pub fn get(&self, key: &str) -> (r: Option<&V>)
        ensures
            match r {
                Some(v) => self@.dom().contains(key@) && *v == self@[key@],
                None => !self@.dom().contains(key@),
            },
    {
        match self.position(key) {
            Some(i) => Some(&self.entries[i].1),
            None => None,
        }
    }

    /// Whether a key has a value.
    pub fn contains_key(&self, key: &str) -> (r: bool)
        ensures
            r == self@.dom().contains(key@),
    {
        self.position(key).is_some()
    }

    /// Gives a key a value, in place of the one it had.
    pub fn insert(&mut self, key: String, value: V)
        ensures
            final(self)@ == old(self)@.insert(key@, value),
    {
        let at = self.position(key.as_str());
        proof {
            use_type_invariant(&*self);
        }
        let ghost before = self.entries@;
        let mut entries: Vec<(String, V)> = Vec::new();
        std::mem::swap(&mut entries, &mut self.entries);
        match at {
            Some(i) => {
                let (k, v) = entries.remove(i);
                proof {
                    lemma_remove(before, i as int);
                }
            },
            None => {
                assert(map_of(before).remove(key@) =~= map_of(before));
            },
        }
        let ghost bare = entries@;
        assert(map_of(bare) == map_of(before).remove(key@));
        proof {
            assert forall|i: int| 0 <= i < bare.len() implies #[trigger] bare[i].0@ != key@ by {
                if bare[i].0@ == key@ {
                    lemma_map_of(bare, i);
                }
            }
            lemma_push(bare, (key, value));
            assert(map_of(before).remove(key@).insert(key@, value) =~= map_of(before).insert(key@, value));
        }
        entries.push((key, value));
        self.entries = entries;
    }

    /// Takes a key out. Answers the value that it had.
    pub fn remove(&mut self, key: &str) -> (r: Option<V>)
        ensures
            final(self)@ == old(self)@.remove(key@),
            match r {
                Some(v) => old(self)@.dom().contains(key@) && v == old(self)@[key@],
                None => !old(self)@.dom().contains(key@),
            },
    {
        match self.position(key) {
            Some(i) => {
                proof {
                    use_type_invariant(&*self);
                    lemma_remove(self.entries@, i as int);
                }
                let mut entries: Vec<(String, V)> = Vec::new();
                std::mem::swap(&mut entries, &mut self.entries);
                let (k, v) = entries.remove(i);
                self.entries = entries;
                Some(v)
            },
            None => {
                assert(self@.remove(key@) =~= self@);
                None
            },
        }
    }

    /// How many keys have a value.
    pub fn len(&self) -> (r: usize)
        ensures
            self@.dom().finite(),
            r == self@.len(),
    {
        proof {
            use_type_invariant(self);
            lemma_len(self.entries@);
        }
        self.entries.len()
    }

    /// Whether no key has a value.
    pub fn is_empty(&self) -> (r: bool)
        ensures
            r == (self@ == Map::<Seq<char>, V>::empty()),
    {
        proof {
            use_type_invariant(self);
            lemma_len(self.entries@);
            if self.entries@.len() == 0 {
                assert(self@ =~= Map::<Seq<char>, V>::empty());
            }
        }
        self.entries.is_empty()
    }

    /// All keys, each once.
    pub fn keys(&self) -> (r: Vec<String>)
        ensures
            crate::text::texts(r@).no_duplicates(),
            crate::text::texts(r@).to_set() == self@.dom(),
    {
        proof {
            use_type_invariant(self);
        }
        let mut out: Vec<String> = Vec::new();
        for i in 0..self.entries.len()
            invariant
                out@.len() == i,
                forall|j: int| 0 <= j < i ==> #[trigger] out@[j]@ == self.entries@[j].0@,
        {
            out.push(self.entries[i].0.clone());
        }
        proof {
            let t = crate::text::texts(out@);
            assert forall|i: int, j: int| 0 <= i < t.len() && 0 <= j < t.len() && i != j implies t[i]
                != t[j] by {
                assert(out@[i]@ == self.entries@[i].0@);
                assert(out@[j]@ == self.entries@[j].0@);
            }
            assert forall|k: Seq<char>| t.to_set().contains(k) == self@.dom().contains(k) by {
                if t.contains(k) {
                    let i = choose|i: int| 0 <= i < t.len() && t[i] == k;
                    assert(out@[i]@ == self.entries@[i].0@);
                    assert(found(self.entries@, k, i));
                }
                if self@.dom().contains(k) {
                    let i = choose|i: int| #[trigger] found(self.entries@, k, i);
                    assert(out@[i]@ == k);
                    assert(t[i] == k);
                }
            }
            assert(t.to_set() =~= self@.dom());
        }
        out
    }
}

} // verus!
