//! Keyed tables that keep their entries in the order in which the keys first
//! arrived, with no key held twice.

use vstd::prelude::*;

verus! {

/// A value that can be copied, view for view.
pub trait Record: View + Sized {
    fn duplicate(&self) -> (r: Self)
        ensures
            r@ == self@,
    ;
}

/// A record that can stand as a key: two keys can be compared by their views.
pub trait Key: Record {
    fn same(&self, other: &Self) -> (r: bool)
        ensures
            r == (self@ == other@),
    ;
}

impl Record for String {
    fn duplicate(&self) -> (r: String) {
        self.clone()
    }
}

impl Record for u128 {
    fn duplicate(&self) -> (r: u128) {
        *self
    }
}

impl Key for u128 {
    fn same(&self, other: &u128) -> (r: bool) {
        *self == *other
    }
}

/// The views of the items of `s`, in order.
pub open spec fn views<T: View>(s: Seq<T>) -> Seq<T::V> {
    s.map_values(|x: T| x@)
}

/// A copy of `v`, item by item.
pub fn duplicate_all<T: Record>(v: &Vec<T>) -> (r: Vec<T>)
    ensures
        views(r@) == views(v@),
{
    let mut r: Vec<T> = Vec::new();
    let mut i: usize = 0;
    while i < v.len()
        invariant
            i <= v.len(),
            r@.len() == i,
            forall|j: int| 0 <= j < i ==> (#[trigger] r@[j])@ == v@[j]@,
        decreases v.len() - i,
    {
        r.push(v[i].duplicate());
        i += 1;
    }
    assert(views(r@) =~= views(v@));
    r
}

/// A list of records. Its view is the sequence of the views of its items.
#[derive(Debug, PartialEq, Eq)]
pub struct List<T: Record> {
    pub items: Vec<T>,
}

impl<T: Record> View for List<T> {
    type V = Seq<T::V>;

    open spec fn view(&self) -> Seq<T::V> {
        views(self.items@)
    }
}

impl<T: Key> List<T> {
    /// Whether some item of the list has the view of `item`.
    pub fn contains(&self, item: &T) -> (r: bool)
        ensures
            r == self@.contains(item@),
    {
        let mut i: usize = 0;
        while i < self.items.len()
            invariant
                i <= self.items.len(),
                forall|j: int| 0 <= j < i ==> (#[trigger] self@[j]) != item@,
            decreases self.items.len() - i,
        {
            if self.items[i].same(item) {
                assert(self@[i as int] == item@);
                return true;
            }
            i += 1;
        }
        false
    }
}

impl<T: Record> Record for List<T> {
    fn duplicate(&self) -> (r: List<T>) {
        List { items: duplicate_all(&self.items) }
    }
}

/// Some entry of `s` has the key `k`.
pub open spec fn has_key<K, V>(s: Seq<(K, V)>, k: K) -> bool {
    exists|i: int| 0 <= i < s.len() && (#[trigger] s[i]).0 == k
}

/// No two entries of `s` share a key.
pub open spec fn keys_distinct<K, V>(s: Seq<(K, V)>) -> bool {
    forall|i: int, j: int| 0 <= i < j < s.len() ==> (#[trigger] s[i]).0 != (#[trigger] s[j]).0
}

/// The place of the entry with key `k`, where there is one.
pub open spec fn index_of<K, V>(s: Seq<(K, V)>, k: K) -> int {
    choose|i: int| 0 <= i < s.len() && (#[trigger] s[i]).0 == k
}

/// The value stored under `k`.
pub open spec fn get<K, V>(s: Seq<(K, V)>, k: K) -> Option<V> {
    if has_key(s, k) {
        Some(s[index_of(s, k)].1)
    } else {
        None
    }
}

/// `s` with `v` stored under `k`: in the place of the old value where the key
/// is present, at the end where it is new.
pub open spec fn put<K, V>(s: Seq<(K, V)>, k: K, v: V) -> Seq<(K, V)> {
    if has_key(s, k) {
        s.update(index_of(s, k), (k, v))
    } else {
        s.push((k, v))
    }
}

/// `s` without the entry of key `k`.
pub open spec fn del<K, V>(s: Seq<(K, V)>, k: K) -> Seq<(K, V)> {
    if has_key(s, k) {
        s.remove(index_of(s, k))
    } else {
        s
    }
}

/// `s` after the first `n` entries of `t` were put into it, one by one.
pub open spec fn merge_upto<K, V>(s: Seq<(K, V)>, t: Seq<(K, V)>, n: nat) -> Seq<(K, V)>
    decreases n,
{
    if n == 0 {
        s
    } else {
        put(merge_upto(s, t, (n - 1) as nat), t[n - 1].0, t[n - 1].1)
    }
}

/// `s` after every entry of `t` was put into it, in the order of `t`: a key
/// of both keeps its place in `s` and takes its value from `t`.
pub open spec fn merge<K, V>(s: Seq<(K, V)>, t: Seq<(K, V)>) -> Seq<(K, V)> {
    merge_upto(s, t, t.len())
}

/// The values of `s`, in order.
pub open spec fn values<K, V>(s: Seq<(K, V)>) -> Seq<V> {
    s.map_values(|e: (K, V)| e.1)
}

/// The largest key among the first `n` entries of `s`, zero where there is
/// none.
pub open spec fn largest_key_upto<V>(s: Seq<(u128, V)>, n: nat) -> u128
    decreases n,
{
    if n == 0 {
        0
    } else {
        let before = largest_key_upto(s, (n - 1) as nat);
        if s[n - 1].0 > before {
            s[n - 1].0
        } else {
            before
        }
    }
}

/// The largest key of `s`, zero where it is empty.
pub open spec fn largest_key<V>(s: Seq<(u128, V)>) -> u128 {
    largest_key_upto(s, s.len())
}

/// No key among the first `n` entries of `s` is above the largest of them.
pub proof fn lemma_largest_key_upto<V>(s: Seq<(u128, V)>, n: nat)
    requires
        n <= s.len(),
    ensures
        forall|i: int| 0 <= i < n ==> (#[trigger] s[i]).0 <= largest_key_upto(s, n),
    decreases n,
{
    if n > 0 {
        lemma_largest_key_upto(s, (n - 1) as nat);
    }
}

/// A key above the largest one is new.
pub proof fn lemma_above_largest_is_new<V>(s: Seq<(u128, V)>, k: u128)
    requires
        k > largest_key(s),
    ensures
        !has_key(s, k),
{
    lemma_largest_key_upto(s, s.len());
}

/// With distinct keys, the entry at `i` is the one that `index_of` finds.
pub proof fn lemma_index_of<K, V>(s: Seq<(K, V)>, k: K, i: int)
    requires
        keys_distinct(s),
        0 <= i < s.len(),
        s[i].0 == k,
    ensures
        has_key(s, k),
        index_of(s, k) == i,
        get(s, k) == Some(s[i].1),
{
    let j = index_of(s, k);
    assert(0 <= j < s.len() && s[j].0 == k);
    if j < i {
        assert(s[j].0 != s[i].0);
    } else if i < j {
        assert(s[i].0 != s[j].0);
    }
}

/// Putting keeps the keys distinct.
pub proof fn lemma_put_distinct<K, V>(s: Seq<(K, V)>, k: K, v: V)
    requires
        keys_distinct(s),
    ensures
        keys_distinct(put(s, k, v)),
{
    let r = put(s, k, v);
    if has_key(s, k) {
        let p = index_of(s, k);
        assert forall|i: int, j: int| 0 <= i < j < r.len() implies (#[trigger] r[i]).0 != (
        #[trigger] r[j]).0 by {
            assert(s[i].0 != s[j].0);
        }
    } else {
        assert forall|i: int, j: int| 0 <= i < j < r.len() implies (#[trigger] r[i]).0 != (
        #[trigger] r[j]).0 by {
            if j < s.len() {
                assert(s[i].0 != s[j].0);
            } else {
                assert(r[i] == s[i]);
            }
        }
    }
}

/// Taking an entry out keeps the keys distinct.
pub proof fn lemma_del_distinct<K, V>(s: Seq<(K, V)>, k: K)
    requires
        keys_distinct(s),
    ensures
        keys_distinct(del(s, k)),
{
    let r = del(s, k);
    if has_key(s, k) {
        let p = index_of(s, k);
        assert forall|i: int, j: int| 0 <= i < j < r.len() implies (#[trigger] r[i]).0 != (
        #[trigger] r[j]).0 by {
            let a = if i < p { i } else { i + 1 };
            let b = if j < p { j } else { j + 1 };
            assert(r[i] == s[a]);
            assert(r[j] == s[b]);
            assert(s[a].0 != s[b].0);
        }
    }
}

/// Merging keeps the keys distinct.
pub proof fn lemma_merge_distinct<K, V>(s: Seq<(K, V)>, t: Seq<(K, V)>, n: nat)
    requires
        keys_distinct(s),
        n <= t.len(),
    ensures
        keys_distinct(merge_upto(s, t, n)),
    decreases n,
{
    if n > 0 {
        lemma_merge_distinct(s, t, (n - 1) as nat);
        lemma_put_distinct(merge_upto(s, t, (n - 1) as nat), t[n - 1].0, t[n - 1].1);
    }
}

/// What is found after a merge: under a key of `t` what `t` holds, under
/// any other key what `s` holds.
pub proof fn lemma_get_merge<K, V>(s: Seq<(K, V)>, t: Seq<(K, V)>, k: K)
    requires
        keys_distinct(s),
        keys_distinct(t),
    ensures
        get(merge(s, t), k) == if has_key(t, k) {
            get(t, k)
        } else {
            get(s, k)
        },
{
    lemma_get_merge_upto(s, t, t.len(), k);
    assert(t.take(t.len() as int) =~= t);
}

proof fn lemma_get_merge_upto<K, V>(s: Seq<(K, V)>, t: Seq<(K, V)>, n: nat, k: K)
    requires
        keys_distinct(s),
        keys_distinct(t),
        n <= t.len(),
    ensures
        get(merge_upto(s, t, n), k) == if has_key(t.take(n as int), k) {
            get(t.take(n as int), k)
        } else {
            get(s, k)
        },
    decreases n,
{
    if n == 0 {
        assert(!has_key(t.take(0), k));
    } else {
        let before = merge_upto(s, t, (n - 1) as nat);
        let short = t.take(n - 1);
        let long = t.take(n as int);
        lemma_get_merge_upto(s, t, (n - 1) as nat, k);
        lemma_merge_distinct(s, t, (n - 1) as nat);
        lemma_get_put(before, t[n - 1].0, t[n - 1].1, k);
        assert(long[n - 1] == t[n - 1]);
        if k == t[n - 1].0 {
            lemma_index_of(long, k, n - 1);
        } else if has_key(short, k) {
            let q = index_of(short, k);
            assert(long[q] == short[q]);
            lemma_index_of(long, k, q);
            lemma_index_of(short, k, q);
        } else if has_key(long, k) {
            let q = index_of(long, k);
            assert(short[q] == long[q]);
        }
    }
}

/// A new value in the place of an old one, under the same key, keeps the
/// keys distinct.
pub proof fn lemma_update_distinct<K, V>(s: Seq<(K, V)>, i: int, v: V)
    requires
        keys_distinct(s),
        0 <= i < s.len(),
    ensures
        keys_distinct(s.update(i, (s[i].0, v))),
        s.update(i, (s[i].0, v)) == put(s, s[i].0, v),
{
    let r = s.update(i, (s[i].0, v));
    lemma_index_of(s, s[i].0, i);
    assert forall|a: int, b: int| 0 <= a < b < r.len() implies (#[trigger] r[a]).0 != (
    #[trigger] r[b]).0 by {
        assert(s[a].0 != s[b].0);
    }
}

/// Merging a table with distinct keys into the empty one gives it back.
pub proof fn lemma_merge_into_empty<K, V>(t: Seq<(K, V)>)
    requires
        keys_distinct(t),
    ensures
        merge(Seq::<(K, V)>::empty(), t) == t,
{
    lemma_merge_prefix(t, t.len());
    assert(t.take(t.len() as int) =~= t);
}

proof fn lemma_merge_prefix<K, V>(t: Seq<(K, V)>, n: nat)
    requires
        keys_distinct(t),
        n <= t.len(),
    ensures
        merge_upto(Seq::<(K, V)>::empty(), t, n) == t.take(n as int),
    decreases n,
{
    if n == 0 {
        assert(t.take(0) =~= Seq::<(K, V)>::empty());
    } else {
        lemma_merge_prefix(t, (n - 1) as nat);
        let s = t.take(n - 1);
        let k = t[n - 1].0;
        if has_key(s, k) {
            let q = index_of(s, k);
            assert(s[q] == t[q]);
            assert(t[q].0 != t[n - 1].0);
        }
        assert(s.push(t[n - 1]) =~= t.take(n as int));
    }
}

/// What is found after a put: the new value under the key that was put, the
/// old state of things under every other key.
pub proof fn lemma_get_put<K, V>(s: Seq<(K, V)>, k: K, v: V, k2: K)
    requires
        keys_distinct(s),
    ensures
        has_key(put(s, k, v), k2) == (k2 == k || has_key(s, k2)),
        get(put(s, k, v), k2) == if k2 == k {
            Some(v)
        } else {
            get(s, k2)
        },
{
    let r = put(s, k, v);
    lemma_put_distinct(s, k, v);
    if has_key(s, k) {
        let p = index_of(s, k);
        assert(r[p] == (k, v));
        lemma_index_of(r, k, p);
        if k2 != k {
            if has_key(s, k2) {
                let q = index_of(s, k2);
                assert(r[q] == s[q]);
                lemma_index_of(r, k2, q);
            } else {
                if has_key(r, k2) {
                    let q = index_of(r, k2);
                    assert(s[q].0 == k2);
                }
            }
        }
    } else {
        let p = s.len() as int;
        assert(r[p] == (k, v));
        lemma_index_of(r, k, p);
        if k2 != k {
            if has_key(s, k2) {
                let q = index_of(s, k2);
                assert(r[q] == s[q]);
                lemma_index_of(r, k2, q);
            } else {
                if has_key(r, k2) {
                    let q = index_of(r, k2);
                    assert(s[q].0 == k2);
                }
            }
        }
    }
}

/// A table of values under keys. Its view is the sequence of its entries, key
/// and value each by its own view, in the order in which the keys first came.
#[derive(Debug, PartialEq, Eq)]
pub struct Table<K: Key, V: Record> {
    entries: Vec<(K, V)>,
}

impl<K: Key, V: Record> View for Table<K, V> {
    type V = Seq<(K::V, V::V)>;

    closed spec fn view(&self) -> Seq<(K::V, V::V)> {
        self.entries@.map_values(|e: (K, V)| (e.0@, e.1@))
    }
}

impl<K: Key, V: Record> Table<K, V> {
    #[verifier::type_invariant]
    spec fn distinct(self) -> bool {
        keys_distinct(self@)
    }

    /// The empty table.
    pub fn new() -> (r: Self)
        ensures
            r@ == Seq::<(K::V, V::V)>::empty(),
    {
        let r = Table { entries: Vec::new() };
        assert(r@ =~= Seq::<(K::V, V::V)>::empty());
        r
    }

    /// The number of entries.
    pub fn len(&self) -> (r: usize)
        ensures
            r == self@.len(),
            keys_distinct(self@),
    {
        proof {
            use_type_invariant(self);
        }
        self.entries.len()
    }

    /// The place of the entry with key `k`.
    pub fn find(&self, k: &K) -> (r: Option<usize>)
        ensures
            match r {
                Some(i) => i < self@.len() && self@[i as int].0 == k@ && has_key(self@, k@)
                    && index_of(self@, k@) == i,
                None => !has_key(self@, k@),
            },
    {
        proof {
            use_type_invariant(self);
        }
        let mut i: usize = 0;
        while i < self.entries.len()
            invariant
                i <= self.entries.len(),
                keys_distinct(self@),
                forall|j: int| 0 <= j < i ==> (#[trigger] self@[j]).0 != k@,
            decreases self.entries.len() - i,
        {
            if self.entries[i].0.same(k) {
                proof {
                    lemma_index_of(self@, k@, i as int);
                }
                return Some(i);
            }
            i += 1;
        }
        None
    }

    /// Whether some entry has the key `k`.
    pub fn contains_key(&self, k: &K) -> (r: bool)
        ensures
            r == has_key(self@, k@),
    {
        self.find(k).is_some()
    }

    /// The value under `k`.
    pub fn get(&self, k: &K) -> (r: Option<&V>)
        ensures
            match r {
                Some(v) => get(self@, k@) == Some(v@),
                None => get(self@, k@) is None,
            },
    {
        match self.find(k) {
            Some(i) => Some(&self.entries[i].1),
            None => None,
        }
    }

    /// The key of the entry at `i`: the one key under which that entry is
    /// found.
    pub fn key_at(&self, i: usize) -> (r: &K)
        requires
            i < self@.len(),
        ensures
            r@ == self@[i as int].0,
            has_key(self@, r@),
            index_of(self@, r@) == i,
    {
        proof {
            use_type_invariant(self);
            lemma_index_of(self@, self@[i as int].0, i as int);
        }
        &self.entries[i].0
    }

    /// The value of the entry at `i`.
    pub fn value_at(&self, i: usize) -> (r: &V)
        requires
            i < self@.len(),
        ensures
            r@ == self@[i as int].1,
    {
        &self.entries[i].1
    }

    /// Copies of the values, in order.
    pub fn values(&self) -> (r: Vec<V>)
        ensures
            views(r@) == values(self@),
    {
        let mut r: Vec<V> = Vec::new();
        let mut i: usize = 0;
        while i < self.entries.len()
            invariant
                i <= self.entries.len(),
                r@.len() == i,
                forall|j: int| 0 <= j < i ==> (#[trigger] r@[j])@ == self@[j].1,
            decreases self.entries.len() - i,
        {
            r.push(self.entries[i].1.duplicate());
            i += 1;
        }
        assert(views(r@) =~= values(self@));
        r
    }

    /// Stores `v` under `k`: in the place of the old value where the key is
    /// present, at the end where it is new.
    pub fn put(&mut self, k: K, v: V)
        ensures
            final(self)@ == put(old(self)@, k@, v@),
            keys_distinct(final(self)@),
    {
        proof {
            use_type_invariant(&*self);
            lemma_put_distinct(self@, k@, v@);
        }
        let found = self.find(&k);
        let ghost before = self@;
        let mut entries: Vec<(K, V)> = Vec::new();
        assert(keys_distinct(entries@.map_values(|e: (K, V)| (e.0@, e.1@))));
        core::mem::swap(&mut self.entries, &mut entries);
        match found {
            Some(i) => {
                entries.set(i, (k, v));
            },
            None => {
                entries.push((k, v));
            },
        }
        assert(entries@.map_values(|e: (K, V)| (e.0@, e.1@)) =~= put(before, k@, v@));
        core::mem::swap(&mut self.entries, &mut entries);
    }

    /// Takes the entry of key `k` out, and says whether there was one.
    pub fn remove(&mut self, k: &K) -> (r: bool)
        ensures
            final(self)@ == del(old(self)@, k@),
            r == has_key(old(self)@, k@),
            keys_distinct(final(self)@),
    {
        proof {
            use_type_invariant(&*self);
            lemma_del_distinct(self@, k@);
        }
        let ghost before = self@;
        match self.find(k) {
            Some(i) => {
                let mut entries: Vec<(K, V)> = Vec::new();
                assert(keys_distinct(entries@.map_values(|e: (K, V)| (e.0@, e.1@))));
                core::mem::swap(&mut self.entries, &mut entries);
                entries.remove(i);
                assert(entries@.map_values(|e: (K, V)| (e.0@, e.1@)) =~= del(before, k@));
                core::mem::swap(&mut self.entries, &mut entries);
                true
            },
            None => false,
        }
    }

    /// Puts every entry of `other` into this table, in the order of `other`.
    pub fn merge(&mut self, other: &Table<K, V>)
        ensures
            final(self)@ == merge(old(self)@, other@),
            keys_distinct(final(self)@),
    {
        proof {
            use_type_invariant(&*self);
        }
        let mut i: usize = 0;
        while i < other.entries.len()
            invariant
                i <= other.entries.len(),
                other.entries.len() == other@.len(),
                self@ == merge_upto(old(self)@, other@, i as nat),
                keys_distinct(self@),
            decreases other.entries.len() - i,
        {
            let k = other.entries[i].0.duplicate();
            let v = other.entries[i].1.duplicate();
            self.put(k, v);
            i += 1;
        }
    }
}

impl<V: Record> Table<u128, V> {
    /// The largest key, zero where the table is empty.
    pub fn largest_key(&self) -> (r: u128)
        ensures
            r == largest_key(self@),
    {
        let mut r: u128 = 0;
        let mut i: usize = 0;
        while i < self.entries.len()
            invariant
                i <= self.entries.len(),
                self.entries.len() == self@.len(),
                r == largest_key_upto(self@, i as nat),
            decreases self.entries.len() - i,
        {
            if self.entries[i].0 > r {
                r = self.entries[i].0;
            }
            i += 1;
        }
        r
    }
}

impl<K: Key, V: Record> Record for Table<K, V> {
    fn duplicate(&self) -> (r: Self) {
        proof {
            use_type_invariant(self);
            lemma_merge_into_empty(self@);
        }
        let mut r: Table<K, V> = Table::new();
        r.merge(self);
        r
    }
}

} // verus!
