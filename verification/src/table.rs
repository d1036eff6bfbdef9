//! A byte-keyed associative table with a `Map` view.
//!
//! Both process-wide registries of the gateway — the token-keyed session
//! store and the handle-keyed prepared-statement registry — are instances
//! of this table.  Each operation's contract is stated over the table's
//! mathematical view; the keys held are always pairwise distinct.

use vstd::prelude::*;

verus! {

/// The map denoted by an association list; a later binding for the same
/// key wins.
pub open spec fn map_of<V>(items: Seq<(Vec<u8>, V)>) -> Map<Seq<u8>, V>
    decreases items.len(),
{
    if items.len() == 0 {
        Map::empty()
    } else {
        map_of(items.drop_last()).insert(items.last().0@, items.last().1)
    }
}

/// All keys of the association list are pairwise distinct.
pub open spec fn keys_distinct<V>(items: Seq<(Vec<u8>, V)>) -> bool {
    forall|i: int, j: int| 0 <= i < j < items.len() ==> items[i].0@ != items[j].0@
}

/// A key is in the map exactly when some entry holds it.
proof fn lemma_map_of_contains<V>(items: Seq<(Vec<u8>, V)>, k: Seq<u8>)
    ensures
        map_of(items).contains_key(k) <==> exists|i: int| 0 <= i < items.len() && items[i].0@ == k,
    decreases items.len(),
{
    if items.len() > 0 {
        lemma_map_of_contains(items.drop_last(), k);
        if map_of(items).contains_key(k) {
            if items.last().0@ != k {
                let i = choose|i: int| 0 <= i < items.drop_last().len() && items.drop_last()[i].0@
                    == k;
                assert(items[i].0@ == k);
            }
        }
        if exists|i: int| 0 <= i < items.len() && items[i].0@ == k {
            let i = choose|i: int| 0 <= i < items.len() && items[i].0@ == k;
            if i < items.len() - 1 {
                assert(items.drop_last()[i].0@ == k);
            }
        }
    }
}

/// With distinct keys, the entry holding a key gives the map's value.
proof fn lemma_map_of_get<V>(items: Seq<(Vec<u8>, V)>, i: int)
    requires
        keys_distinct(items),
        0 <= i < items.len(),
    ensures
        map_of(items).contains_key(items[i].0@),
        map_of(items)[items[i].0@] == items[i].1,
    decreases items.len(),
{
    if i == items.len() - 1 {
        lemma_map_of_contains(items, items[i].0@);
    } else {
        assert(keys_distinct(items.drop_last()));
        lemma_map_of_get(items.drop_last(), i);
        assert(items.drop_last()[i] == items[i]);
        assert(items.last().0@ != items[i].0@);
    }
}

/// Appending a binding inserts it into the map.
proof fn lemma_map_of_push<V>(items: Seq<(Vec<u8>, V)>, k: Vec<u8>, v: V)
    ensures
        map_of(items.push((k, v))) == map_of(items).insert(k@, v),
{
    assert(items.push((k, v)).drop_last() =~= items);
}

/// Removing the entry that holds a key removes the key from the map.
proof fn lemma_map_of_remove<V>(items: Seq<(Vec<u8>, V)>, i: int)
    requires
        keys_distinct(items),
        0 <= i < items.len(),
    ensures
        map_of(items.remove(i)) =~= map_of(items).remove(items[i].0@),
    decreases items.len(),
{
    let k = items[i].0@;
    if i == items.len() - 1 {
        assert(items.remove(i) =~= items.drop_last());
        lemma_map_of_contains(items.drop_last(), k);
        assert(!map_of(items.drop_last()).contains_key(k));
        assert(map_of(items.drop_last()) =~= map_of(items.drop_last()).insert(k, items[i].1).remove(
            k,
        ));
    } else {
        assert(keys_distinct(items.drop_last()));
        lemma_map_of_remove(items.drop_last(), i);
        assert(items.remove(i).drop_last() =~= items.drop_last().remove(i));
        assert(items.remove(i).last() == items.last());
        assert(map_of(items.remove(i)) == map_of(items.drop_last().remove(i)).insert(
            items.last().0@,
            items.last().1,
        ));
        assert(items.last().0@ != k);
    }
}

/// Byte-for-byte equality of two keys.
fn bytes_eq(a: &Vec<u8>, b: &Vec<u8>) -> (r: bool)
    ensures
        r <==> a@ == b@,
{
    if a.len() != b.len() {
        proof {
            assert(a@ != b@);
        }
        return false;
    }
    let mut i: usize = 0;
    while i < a.len()
        invariant
            a@.len() == b@.len(),
            i <= a@.len(),
            forall|t: int| 0 <= t < i as int ==> a@[t] == b@[t],
        decreases a@.len() - i,
    {
        if a[i] != b[i] {
            return false;
        }
        i += 1;
    }
    proof {
        assert(a@ =~= b@);
    }
    true
}

/// A table of values keyed by byte strings.
pub struct ByteTable<V> {
    items: Vec<(Vec<u8>, V)>,
}

impl<V> ByteTable<V> {
    #[verifier::type_invariant]
    spec fn inv(&self) -> bool {
        keys_distinct(self.items@)
    }

    /// The map this table denotes.
    pub closed spec fn view(&self) -> Map<Seq<u8>, V> {
        map_of(self.items@)
    }

    /// An empty table.
    pub fn new() -> (r: Self)
        ensures
            r@ == Map::<Seq<u8>, V>::empty(),
    {
        ByteTable { items: Vec::new() }
    }

    /// Index of the entry holding `k`, if any.
    fn find(&self, k: &Vec<u8>) -> (r: Option<usize>)
        ensures
            match r {
                Some(i) => i < self.items@.len() && self.items@[i as int].0@ == k@
                    && self@.contains_key(k@),
                None => !self@.contains_key(k@),
            },
    {
        proof {
            use_type_invariant(self);
            lemma_map_of_contains(self.items@, k@);
        }
        let mut i: usize = 0;
        while i < self.items.len()
            invariant
                i <= self.items@.len(),
                forall|t: int| 0 <= t < i as int ==> self.items@[t].0@ != k@,
            decreases self.items@.len() - i,
        {
            let entry = vstd::slice::slice_index_get(self.items.as_slice(), i);
            if bytes_eq(&entry.0, k) {
                proof {
                    lemma_map_of_contains(self.items@, k@);
                    assert(exists|t: int|
                        0 <= t < self.items@.len() && self.items@[t].0@ == k@) by {
                        assert(self.items@[i as int].0@ == k@);
                    }
                }
                return Some(i);
            }
            i += 1;
        }
        proof {
            lemma_map_of_contains(self.items@, k@);
        }
        None
    }

    /// Does the table hold a binding for `k`?
    pub fn contains(&self, k: &Vec<u8>) -> (r: bool)
        ensures
            r <==> self@.contains_key(k@),
    {
        self.find(k).is_some()
    }

    /// The value bound to `k`, if any.
    pub fn get(&self, k: &Vec<u8>) -> (r: Option<&V>)
        ensures
            match r {
                Some(v) => self@.contains_key(k@) && *v == self@[k@],
                None => !self@.contains_key(k@),
            },
    {
        proof {
            use_type_invariant(self);
        }
        match self.find(k) {
            Some(i) => {
                proof {
                    lemma_map_of_get(self.items@, i as int);
                }
                let entry = vstd::slice::slice_index_get(self.items.as_slice(), i);
                Some(&entry.1)
            },
            None => None,
        }
    }

    /// Bind `k` to `v`, replacing any earlier binding.
    pub fn insert(&mut self, k: Vec<u8>, v: V)
        ensures
            final(self)@ == old(self)@.insert(k@, v),
    {
        proof {
            use_type_invariant(&*self);
        }
        let ghost pre = self.items@;
        let idx = self.find(&k);
        let mut items: Vec<(Vec<u8>, V)> = Vec::new();
        std::mem::swap(&mut items, &mut self.items);
        if let Some(i) = idx {
            proof {
                lemma_map_of_remove(pre, i as int);
                lemma_remove_distinct(pre, i as int);
            }
            let _ = items.remove(i);
            proof {
                lemma_map_of_contains(items@, k@);
            }
        }
        proof {
            lemma_map_of_push(items@, k, v);
            assert(map_of(items@.push((k, v))) =~= map_of(pre).insert(k@, v));
            lemma_map_of_contains(items@, k@);
            assert(keys_distinct(items@.push((k, v))));
        }
        items.push((k, v));
        self.items = items;
    }

    /// Drop the binding for `k`; doing so when none is held changes
    /// nothing, so removal is idempotent.
    pub fn remove(&mut self, k: &Vec<u8>)
        ensures
            final(self)@ == old(self)@.remove(k@),
    {
        proof {
            use_type_invariant(&*self);
        }
        let ghost pre = self.items@;
        let idx = self.find(k);
        match idx {
            Some(i) => {
                let mut items: Vec<(Vec<u8>, V)> = Vec::new();
                std::mem::swap(&mut items, &mut self.items);
                proof {
                    lemma_map_of_remove(pre, i as int);
                    lemma_remove_distinct(pre, i as int);
                }
                let _ = items.remove(i);
                self.items = items;
            },
            None => {
                proof {
                    lemma_map_of_contains(pre, k@);
                    assert(map_of(pre) =~= map_of(pre).remove(k@));
                }
            },
        }
    }
}

/// Removing an entry keeps the remaining keys pairwise distinct, and a
/// key held by no other entry is gone afterwards.
proof fn lemma_remove_distinct<V>(items: Seq<(Vec<u8>, V)>, i: int)
    requires
        keys_distinct(items),
        0 <= i < items.len(),
    ensures
        keys_distinct(items.remove(i)),
        forall|t: int| 0 <= t < items.remove(i).len() ==> items.remove(i)[t].0@ != items[i].0@,
{
    items.remove_ensures(i);
    assert forall|a: int, b: int|
        0 <= a < b < items.remove(i).len() implies items.remove(i)[a].0@ != items.remove(
        i,
    )[b].0@ by {
        let a0 = if a < i {
            a
        } else {
            a + 1
        };
        let b0 = if b < i {
            b
        } else {
            b + 1
        };
        assert(items.remove(i)[a] == items[a0]);
        assert(items.remove(i)[b] == items[b0]);
    }
    assert forall|t: int| 0 <= t < items.remove(i).len() implies items.remove(i)[t].0@
        != items[i].0@ by {
        let t0 = if t < i {
            t
        } else {
            t + 1
        };
        assert(items.remove(i)[t] == items[t0]);
    }
}

} // verus!
