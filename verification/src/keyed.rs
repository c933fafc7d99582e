//! An ordered collection of items that each carry a string key, kept sorted
//! by key with no key twice. It is the registry shape the runtime uses for
//! entities, devices, scenes, automations and attribute maps.

use vstd::prelude::*;
use crate::text::{compare_str, seq_lt, lemma_seq_lt_irreflexive, lemma_seq_lt_transitive};

verus! {

/// An item that is filed under a string key.
pub trait Keyed: Sized {
    spec fn key(&self) -> Seq<char>;

    fn key_str(&self) -> (r: &str)
        ensures
            r@ == self.key(),
    ;

    /// A copy of the item, filed under the same key.
    fn copy_item(&self) -> (r: Self)
        ensures
            r.key() == self.key(),
    ;
}

/// The keys strictly increase along the sequence.
pub open spec fn keys_sorted<T: Keyed>(s: Seq<T>) -> bool {
    forall|i: int, j: int|
        0 <= i < j < s.len() ==> seq_lt(#[trigger] s[i].key(), #[trigger] s[j].key())
}

pub open spec fn has_key<T: Keyed>(s: Seq<T>, k: Seq<char>) -> bool {
    exists|i: int| 0 <= i < s.len() && #[trigger] s[i].key() == k
}

pub open spec fn key_index<T: Keyed>(s: Seq<T>, k: Seq<char>) -> int {
    choose|i: int| 0 <= i < s.len() && #[trigger] s[i].key() == k
}

/// The map from each key to the item filed under it.
pub open spec fn seq_to_map<T: Keyed>(s: Seq<T>) -> Map<Seq<char>, T> {
    Map::new(|k: Seq<char>| has_key(s, k), |k: Seq<char>| s[key_index(s, k)])
}

pub proof fn lemma_key_index_unique<T: Keyed>(s: Seq<T>, i: int)
    requires
        keys_sorted(s),
        0 <= i < s.len(),
    ensures
        has_key(s, s[i].key()),
        key_index(s, s[i].key()) == i,
        seq_to_map(s).contains_key(s[i].key()),
        seq_to_map(s)[s[i].key()] == s[i],
{
    let k = s[i].key();
    assert(has_key(s, k));
    let j = key_index(s, k);
    if j < i {
        assert(seq_lt(s[j].key(), s[i].key()));
        lemma_seq_lt_irreflexive(k);
    }
    if i < j {
        assert(seq_lt(s[i].key(), s[j].key()));
        lemma_seq_lt_irreflexive(k);
    }
}

proof fn lemma_map_after_insert<T: Keyed>(old: Seq<T>, new: Seq<T>, p: int, item: T)
    requires
        keys_sorted(old),
        keys_sorted(new),
        0 <= p <= old.len(),
        new == old.insert(p, item),
        !has_key(old, item.key()),
    ensures
        seq_to_map(new) == seq_to_map(old).insert(item.key(), item),
{
    let a = seq_to_map(old).insert(item.key(), item);
    let b = seq_to_map(new);
    assert forall|k: Seq<char>| #[trigger] b.contains_key(k) <==> a.contains_key(k) by {
        if has_key(new, k) {
            let i = choose|i: int| 0 <= i < new.len() && #[trigger] new[i].key() == k;
            if i < p {
                assert(old[i].key() == k);
            } else if i > p {
                assert(old[i - 1].key() == k);
            }
        }
        if has_key(old, k) {
            let i = choose|i: int| 0 <= i < old.len() && #[trigger] old[i].key() == k;
            if i < p {
                assert(new[i].key() == k);
            } else {
                assert(new[i + 1].key() == k);
            }
        }
        if k == item.key() {
            assert(new[p].key() == k);
        }
    }
    assert forall|k: Seq<char>| #[trigger] b.contains_key(k) implies b[k] == a[k] by {
        let i = choose|i: int| 0 <= i < new.len() && #[trigger] new[i].key() == k;
        lemma_key_index_unique(new, i);
        if i < p {
            assert(old[i] == new[i]);
            lemma_key_index_unique(old, i);
        } else if i > p {
            assert(old[i - 1] == new[i]);
            lemma_key_index_unique(old, i - 1);
        }
    }
    assert(b =~= a);
}

proof fn lemma_map_after_update<T: Keyed>(old: Seq<T>, p: int, item: T)
    requires
        keys_sorted(old),
        0 <= p < old.len(),
        old[p].key() == item.key(),
    ensures
        keys_sorted(old.update(p, item)),
        seq_to_map(old.update(p, item)) == seq_to_map(old).insert(item.key(), item),
{
    let new = old.update(p, item);
    assert(keys_sorted(new)) by {
        assert forall|i: int, j: int| 0 <= i < j < new.len() implies seq_lt(
            #[trigger] new[i].key(),
            #[trigger] new[j].key(),
        ) by {
            assert(seq_lt(old[i].key(), old[j].key()));
        }
    }
    let a = seq_to_map(old).insert(item.key(), item);
    let b = seq_to_map(new);
    assert forall|k: Seq<char>| #[trigger] b.contains_key(k) <==> a.contains_key(k) by {
        if has_key(new, k) {
            let i = choose|i: int| 0 <= i < new.len() && #[trigger] new[i].key() == k;
            assert(old[i].key() == k);
        }
        if has_key(old, k) {
            let i = choose|i: int| 0 <= i < old.len() && #[trigger] old[i].key() == k;
            assert(new[i].key() == k);
        }
        if k == item.key() {
            assert(new[p].key() == k);
        }
    }
    assert forall|k: Seq<char>| #[trigger] b.contains_key(k) implies b[k] == a[k] by {
        let i = choose|i: int| 0 <= i < new.len() && #[trigger] new[i].key() == k;
        lemma_key_index_unique(new, i);
        lemma_key_index_unique(new, p);
        if i != p {
            lemma_key_index_unique(old, i);
        }
    }
    assert(b =~= a);
}

proof fn lemma_map_after_remove<T: Keyed>(old: Seq<T>, p: int)
    requires
        keys_sorted(old),
        0 <= p < old.len(),
    ensures
        keys_sorted(old.remove(p)),
        seq_to_map(old.remove(p)) == seq_to_map(old).remove(old[p].key()),
{
    let new = old.remove(p);
    let key = old[p].key();
    assert(keys_sorted(new)) by {
        assert forall|i: int, j: int| 0 <= i < j < new.len() implies seq_lt(
            #[trigger] new[i].key(),
            #[trigger] new[j].key(),
        ) by {
            if j < p {
                assert(seq_lt(old[i].key(), old[j].key()));
            } else if i < p {
                assert(seq_lt(old[i].key(), old[j + 1].key()));
            } else {
                assert(seq_lt(old[i + 1].key(), old[j + 1].key()));
            }
        }
    }
    let a = seq_to_map(old).remove(key);
    let b = seq_to_map(new);
    assert forall|k: Seq<char>| #[trigger] b.contains_key(k) <==> a.contains_key(k) by {
        if has_key(new, k) {
            let i = choose|i: int| 0 <= i < new.len() && #[trigger] new[i].key() == k;
            if i < p {
                assert(old[i].key() == k);
                lemma_key_index_unique(old, i);
                if k == key {
                    lemma_key_index_unique(old, p);
                }
            } else {
                assert(old[i + 1].key() == k);
                lemma_key_index_unique(old, i + 1);
                if k == key {
                    lemma_key_index_unique(old, p);
                }
            }
        }
        if has_key(old, k) && k != key {
            let i = choose|i: int| 0 <= i < old.len() && #[trigger] old[i].key() == k;
            if i < p {
                assert(new[i].key() == k);
            } else if i > p {
                assert(new[i - 1].key() == k);
            }
        }
    }
    assert forall|k: Seq<char>| #[trigger] b.contains_key(k) implies b[k] == a[k] by {
        let i = choose|i: int| 0 <= i < new.len() && #[trigger] new[i].key() == k;
        lemma_key_index_unique(new, i);
        if i < p {
            lemma_key_index_unique(old, i);
        } else {
            lemma_key_index_unique(old, i + 1);
        }
    }
    assert(b =~= a);
}

/// A sorted list files as many items as it holds: its map has one key per item.
pub proof fn lemma_sorted_len<T: Keyed>(s: Seq<T>)
    requires
        keys_sorted(s),
    ensures
        seq_to_map(s).dom().finite(),
        seq_to_map(s).dom().len() == s.len(),
{
    let ks = s.map_values(|x: T| x.key());
    assert(ks.no_duplicates()) by {
        assert forall|i: int, j: int| 0 <= i < ks.len() && 0 <= j < ks.len() && i != j implies ks[i] != ks[j] by {
            if i < j {
                assert(seq_lt(s[i].key(), s[j].key()));
            } else {
                assert(seq_lt(s[j].key(), s[i].key()));
            }
            lemma_seq_lt_irreflexive(ks[i]);
        }
    }
    assert(seq_to_map(s).dom() =~= ks.to_set()) by {
        assert forall|k: Seq<char>| seq_to_map(s).dom().contains(k) <==> ks.to_set().contains(k) by {
            if has_key(s, k) {
                let i = choose|i: int| 0 <= i < s.len() && #[trigger] s[i].key() == k;
                assert(ks[i] == k);
            }
            if ks.contains(k) {
                let i = choose|i: int| 0 <= i < ks.len() && ks[i] == k;
                assert(s[i].key() == k);
            }
        }
    }
    ks.unique_seq_to_set();
}

/// A collection of keyed items, sorted by key with each key at most once.
#[derive(Debug)]
pub struct KeyedList<T: Keyed> {
    items: Vec<T>,
}

impl<T: Keyed> View for KeyedList<T> {
    type V = Map<Seq<char>, T>;

    open spec fn view(&self) -> Map<Seq<char>, T> {
        seq_to_map(self.seq())
    }
}

impl<T: Keyed> KeyedList<T> {
    #[verifier::type_invariant]
    spec fn inv(self) -> bool {
        keys_sorted(self.items@)
    }

    /// The items in key order.
    pub closed spec fn seq(&self) -> Seq<T> {
        self.items@
    }

    pub fn new() -> (r: Self)
        ensures
            r.seq() == Seq::<T>::empty(),
            r@ == Map::<Seq<char>, T>::empty(),
    {
        let r = KeyedList { items: Vec::new() };
        assert(r@ =~= Map::<Seq<char>, T>::empty());
        r
    }

    pub fn len(&self) -> (r: usize)
        ensures
            r == self.seq().len(),
    {
        self.items.len()
    }

    /// The items in key order, which strictly increase.
    pub fn as_slice(&self) -> (r: &[T])
        ensures
            r@ == self.seq(),
            keys_sorted(self.seq()),
    {
        proof {
            use_type_invariant(self);
        }
        self.items.as_slice()
    }

    /// Position of the item filed under `k`, if any.
    pub fn find(&self, k: &str) -> (r: Option<usize>)
        ensures
            keys_sorted(self.seq()),
            r is Some <==> self@.contains_key(k@),
            r matches Some(i) ==> i < self.seq().len() && self.seq()[i as int].key() == k@
                && self@[k@] == self.seq()[i as int],
    {
        proof {
            use_type_invariant(self);
        }
        let mut i: usize = 0;
        while i < self.items.len()
            invariant
                keys_sorted(self.items@),
                i <= self.items@.len(),
                forall|j: int| 0 <= j < i ==> #[trigger] self.items@[j].key() != k@,
            decreases self.items@.len() - i,
        {
            let c = compare_str(self.items[i].key_str(), k);
            if c == 0 {
                proof {
                    lemma_key_index_unique(self.items@, i as int);
                }
                return Some(i);
            }
            i = i + 1;
        }
        None
    }

    /// The item filed under `k`.
    pub fn get(&self, k: &str) -> (r: Option<&T>)
        ensures
            self@.contains_key(k@) ==> r == Some(&self@[k@]),
            !self@.contains_key(k@) ==> r is None,
            r matches Some(item) ==> item.key() == k@,
    {
        match self.find(k) {
            Some(i) => Some(&self.items[i]),
            None => None,
        }
    }

    pub fn contains(&self, k: &str) -> (r: bool)
        ensures
            r == self@.contains_key(k@),
    {
        self.find(k).is_some()
    }

    /// Files `item` under its key, replacing any item filed there before.
    pub fn upsert(&mut self, item: T)
        ensures
            final(self)@ == old(self)@.insert(item.key(), item),
            keys_sorted(old(self).seq()),
            keys_sorted(final(self).seq()),
            final(self).seq().len() == old(self).seq().len() + if old(self)@.contains_key(item.key()) {
                0int
            } else {
                1int
            },
    {
        proof {
            use_type_invariant(&*self);
        }
        let mut items: Vec<T> = Vec::new();
        std::mem::swap(&mut items, &mut self.items);
        let ghost old_items = items@;
        let ghost k = item.key();
        let mut p: usize = 0;
        while p < items.len() && compare_str(items[p].key_str(), item.key_str()) < 0
            invariant
                items@ == old_items,
                keys_sorted(old_items),
                k == item.key(),
                p <= items@.len(),
                forall|j: int| 0 <= j < p ==> seq_lt(#[trigger] old_items[j].key(), k),
            decreases items@.len() - p,
        {
            p = p + 1;
        }
        let found = p < items.len() && compare_str(items[p].key_str(), item.key_str()) == 0;
        assert(!found ==> (p < items@.len() ==> seq_lt(k, old_items[p as int].key())));
        if found {
            proof {
                lemma_map_after_update(old_items, p as int, item);
                lemma_key_index_unique(old_items, p as int);
            }
            items.set(p, item);
        } else {
            proof {
                assert(!has_key(old_items, k)) by {
                    if has_key(old_items, k) {
                        let i = choose|i: int| 0 <= i < old_items.len() && #[trigger] old_items[i].key() == k;
                        if i < p {
                            assert(seq_lt(old_items[i].key(), k));
                            lemma_seq_lt_irreflexive(k);
                        } else {
                            assert(seq_lt(k, old_items[p as int].key()));
                            if i > p {
                                assert(seq_lt(old_items[p as int].key(), old_items[i].key()));
                                lemma_seq_lt_transitive(k, old_items[p as int].key(), k);
                            }
                            lemma_seq_lt_irreflexive(k);
                        }
                    }
                }
            }
            let ghost pre = items@;
            items.insert(p, item);
            proof {
                let new = items@;
                assert(new == pre.insert(p as int, item));
                assert forall|i: int, j: int| 0 <= i < j < new.len() implies seq_lt(
                    #[trigger] new[i].key(),
                    #[trigger] new[j].key(),
                ) by {
                    if j < p {
                        assert(seq_lt(pre[i].key(), pre[j].key()));
                    } else if j == p {
                        assert(seq_lt(pre[i].key(), k));
                    } else if i < p {
                        assert(seq_lt(pre[i].key(), pre[j - 1].key()));
                    } else if i == p {
                        if j - 1 > p {
                            assert(seq_lt(pre[p as int].key(), pre[j - 1].key()));
                            lemma_seq_lt_transitive(k, pre[p as int].key(), pre[j - 1].key());
                        }
                    } else {
                        assert(seq_lt(pre[i - 1].key(), pre[j - 1].key()));
                    }
                }
                lemma_map_after_insert(pre, new, p as int, item);
            }
        }
        self.items = items;
        proof {
            use_type_invariant(&*self);
        }
    }

    /// Removes and returns the item filed under `k`.
    pub fn take(&mut self, k: &str) -> (r: Option<T>)
        ensures
            old(self)@.contains_key(k@) ==> r == Some(old(self)@[k@]),
            !old(self)@.contains_key(k@) ==> r is None,
            r matches Some(item) ==> item.key() == k@,
            final(self)@ == old(self)@.remove(k@),
            keys_sorted(old(self).seq()),
            keys_sorted(final(self).seq()),
    {
        proof {
            use_type_invariant(&*self);
        }
        match self.find(k) {
            None => {
                proof {
                    assert(self@ =~= self@.remove(k@));
                }
                None
            },
            Some(p) => {
                proof {
                    use_type_invariant(&*self);
                }
                let mut items: Vec<T> = Vec::new();
                std::mem::swap(&mut items, &mut self.items);
                let ghost pre = items@;
                proof {
                    lemma_map_after_remove(pre, p as int);
                }
                let item = items.remove(p);
                self.items = items;
                proof {
                    use_type_invariant(&*self);
                }
                Some(item)
            },
        }
    }

    /// Removes the item filed under `k`; says whether there was one.
    pub fn remove(&mut self, k: &str) -> (r: bool)
        ensures
            r == old(self)@.contains_key(k@),
            final(self)@ == old(self)@.remove(k@),
    {
        self.take(k).is_some()
    }

    /// The items in key order, as a vector.
    pub fn into_vec(self) -> (r: Vec<T>)
        ensures
            r@ == self.seq(),
            keys_sorted(r@),
    {
        proof {
            use_type_invariant(&self);
        }
        self.items
    }

    /// Files every item of `other`, each replacing what was filed under its key.
    pub fn extend(&mut self, other: KeyedList<T>)
        ensures
            final(self)@ == old(self)@.union_prefer_right(other@),
    {
        let ghost start = self@;
        let ghost om = other@;
        let mut v = other.into_vec();
        let ghost s = v@;
        let total = v.len();
        let mut i: usize = 0;
        proof {
            assert(s.take(0) =~= Seq::<T>::empty());
            assert(seq_to_map(s.take(0)) =~= Map::<Seq<char>, T>::empty());
            assert(start.union_prefer_right(seq_to_map(s.take(0))) =~= start);
        }
        while v.len() > 0
            invariant
                keys_sorted(s),
                s.len() == total,
                seq_to_map(s) == om,
                i <= s.len(),
                v@ == s.skip(i as int),
                self@ == start.union_prefer_right(seq_to_map(s.take(i as int))),
            decreases v@.len(),
        {
            let ghost before = self@;
            let item = v.remove(0);
            proof {
                assert(item == s[i as int]);
                lemma_take_insert(s, i as int);
            }
            self.upsert(item);
            proof {
                let m = seq_to_map(s.take(i as int));
                assert(start.union_prefer_right(m.insert(item.key(), item)) =~= start.union_prefer_right(m).insert(item.key(), item));
                assert(v@ =~= s.skip(i + 1));
            }
            i = i + 1;
        }
        proof {
            assert(s.take(i as int) =~= s);
        }
    }
}

pub proof fn lemma_take_insert<T: Keyed>(s: Seq<T>, i: int)
    requires
        keys_sorted(s),
        0 <= i < s.len(),
    ensures
        seq_to_map(s.take(i + 1)) == seq_to_map(s.take(i)).insert(s[i].key(), s[i]),
{
    let a = s.take(i);
    let b = s.take(i + 1);
    assert(b =~= a.insert(i, s[i]));
    assert(keys_sorted(a));
    assert(keys_sorted(b));
    assert(!has_key(a, s[i].key())) by {
        if has_key(a, s[i].key()) {
            let j = choose|j: int| 0 <= j < a.len() && #[trigger] a[j].key() == s[i].key();
            assert(seq_lt(s[j].key(), s[i].key()));
            lemma_seq_lt_irreflexive(s[i].key());
        }
    }
    lemma_map_after_insert(a, b, i, s[i]);
}

/// The keys of the items, in order.
pub open spec fn key_seq<T: Keyed>(s: Seq<T>) -> Seq<Seq<char>> {
    s.map_values(|x: T| x.key())
}

/// The keys strictly increase along the sequence.
pub open spec fn strictly_sorted(ks: Seq<Seq<char>>) -> bool {
    forall|i: int, j: int| 0 <= i < j < ks.len() ==> seq_lt(#[trigger] ks[i], #[trigger] ks[j])
}

/// The members of `d`, in increasing order.
pub open spec fn sorted_keys(d: Set<Seq<char>>) -> Seq<Seq<char>> {
    choose|ks: Seq<Seq<char>>|
        strictly_sorted(ks) && forall|k: Seq<char>| #[trigger] ks.contains(k) <==> d.contains(k)
}

/// Two strictly increasing sequences with the same members are the same sequence.
pub proof fn lemma_sorted_unique(a: Seq<Seq<char>>, b: Seq<Seq<char>>)
    requires
        strictly_sorted(a),
        strictly_sorted(b),
        forall|k: Seq<char>| #[trigger] a.contains(k) <==> b.contains(k),
    ensures
        a == b,
    decreases a.len(),
{
    if a.len() == 0 {
        if b.len() > 0 {
            assert(b.contains(b[0]));
            assert(a.contains(b[0]));
            assert(false);
        }
        assert(a =~= b);
    } else if b.len() == 0 {
        assert(a.contains(a[0]));
        assert(b.contains(a[0]));
        assert(false);
    } else {
        let x = a[0];
        let y = b[0];
        assert(a.contains(x));
        assert(b.contains(y));
        assert(b.contains(x));
        assert(a.contains(y));
        let j = choose|j: int| 0 <= j < b.len() && b[j] == x;
        let i = choose|i: int| 0 <= i < a.len() && a[i] == y;
        if x != y {
            assert(j > 0 && i > 0);
            assert(seq_lt(b[0], b[j]));
            assert(seq_lt(a[0], a[i]));
            lemma_seq_lt_transitive(x, y, x);
            lemma_seq_lt_irreflexive(x);
        }
        let a1 = a.drop_first();
        let b1 = b.drop_first();
        assert forall|k: Seq<char>| #[trigger] a1.contains(k) implies b1.contains(k) by {
            let p = choose|p: int| 0 <= p < a1.len() && a1[p] == k;
            assert(a[p + 1] == k);
            assert(a.contains(k));
            assert(b.contains(k));
            let q = choose|q: int| 0 <= q < b.len() && b[q] == k;
            if q == 0 {
                assert(seq_lt(a[0], a[p + 1]));
                lemma_seq_lt_irreflexive(k);
            }
            assert(b1[q - 1] == k);
        }
        assert forall|k: Seq<char>| #[trigger] b1.contains(k) implies a1.contains(k) by {
            let p = choose|p: int| 0 <= p < b1.len() && b1[p] == k;
            assert(b[p + 1] == k);
            assert(b.contains(k));
            assert(a.contains(k));
            let q = choose|q: int| 0 <= q < a.len() && a[q] == k;
            if q == 0 {
                assert(seq_lt(b[0], b[p + 1]));
                lemma_seq_lt_irreflexive(k);
            }
            assert(a1[q - 1] == k);
        }
        lemma_sorted_unique(a1, b1);
        assert(a =~= b) by {
            assert forall|t: int| 0 <= t < a.len() implies a[t] == b[t] by {
                if t > 0 {
                    assert(a[t] == a1[t - 1]);
                    assert(b[t] == b1[t - 1]);
                }
            }
        }
    }
}

/// The keys of a sorted item sequence are the sorted keys of its map.
pub proof fn lemma_key_seq_sorted<T: Keyed>(s: Seq<T>)
    requires
        keys_sorted(s),
    ensures
        sorted_keys(seq_to_map(s).dom()) == key_seq(s),
        key_seq(s).len() == s.len(),
{
    let ks = key_seq(s);
    assert(strictly_sorted(ks)) by {
        assert forall|i: int, j: int| 0 <= i < j < ks.len() implies seq_lt(
            #[trigger] ks[i],
            #[trigger] ks[j],
        ) by {
            assert(seq_lt(s[i].key(), s[j].key()));
        }
    }
    assert forall|k: Seq<char>| #[trigger] ks.contains(k) <==> seq_to_map(s).dom().contains(k) by {
        if ks.contains(k) {
            let i = choose|i: int| 0 <= i < ks.len() && ks[i] == k;
            assert(s[i].key() == k);
            assert(has_key(s, k));
        }
        if seq_to_map(s).dom().contains(k) {
            let i = choose|i: int| 0 <= i < s.len() && #[trigger] s[i].key() == k;
            assert(ks[i] == k);
        }
    }
    let c = sorted_keys(seq_to_map(s).dom());
    assert(strictly_sorted(c) && forall|k: Seq<char>| #[trigger] c.contains(k) <==> seq_to_map(
        s,
    ).dom().contains(k));
    lemma_sorted_unique(c, ks);
}

/// Two sorted item sequences with the same map are the same sequence.
pub proof fn lemma_same_map_same_seq<T: Keyed>(a: Seq<T>, b: Seq<T>)
    requires
        keys_sorted(a),
        keys_sorted(b),
        seq_to_map(a) == seq_to_map(b),
    ensures
        a == b,
{
    lemma_key_seq_sorted(a);
    lemma_key_seq_sorted(b);
    assert(key_seq(a) == key_seq(b));
    assert forall|i: int| 0 <= i < a.len() implies a[i] == b[i] by {
        lemma_key_index_unique(a, i);
        lemma_key_index_unique(b, i);
        assert(key_seq(a)[i] == key_seq(b)[i]);
    }
    assert(a =~= b);
}

impl<T: Keyed> Clone for KeyedList<T> {
    /// A copy holding a copy of each item, in the same order.
    fn clone(&self) -> (r: Self)
        ensures
            r.seq().len() == self.seq().len(),
            forall|i: int| 0 <= i < r.seq().len() ==> (#[trigger] r.seq()[i]).key() == self.seq()[i].key(),
    {
        proof {
            use_type_invariant(self);
        }
        let mut items: Vec<T> = Vec::new();
        let mut i: usize = 0;
        while i < self.items.len()
            invariant
                i <= self.items@.len(),
                keys_sorted(self.items@),
                items@.len() == i,
                forall|j: int| 0 <= j < i ==> (#[trigger] items@[j]).key() == self.items@[j].key(),
            decreases self.items@.len() - i,
        {
            items.push(self.items[i].copy_item());
            i = i + 1;
        }
        assert forall|a: int, b: int| 0 <= a < b < items@.len() implies seq_lt(
            #[trigger] items@[a].key(),
            #[trigger] items@[b].key(),
        ) by {
            assert(seq_lt(self.items@[a].key(), self.items@[b].key()));
        }
        KeyedList { items }
    }
}

} // verus!
