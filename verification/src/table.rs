//! An insertion-ordered association table keyed by `u64`.
//!
//! The table keeps its entries in the order in which their keys first
//! arrived.  Everything that walks a table therefore does so in a fixed,
//! reproducible order, and the model of a table is simply the sequence of
//! its entries.
use vstd::prelude::*;

verus! {

/// One key with its value.
pub struct Entry<V> {
    pub key: u64,
    pub value: V,
}

/// An association table; `entries` holds at most one entry per key as long
/// as only the methods of this type change it.
pub struct Table<V> {
    pub entries: Vec<Entry<V>>,
}

/// Some entry of `s` has the key `key`.
pub open spec fn has_key<V>(s: Seq<Entry<V>>, key: u64) -> bool {
    exists|i: int| 0 <= i < s.len() && (#[trigger] s[i]).key == key
}

/// `i` is the first position of `s` that holds `key`.
pub open spec fn is_first<V>(s: Seq<Entry<V>>, key: u64, i: int) -> bool {
    &&& 0 <= i < s.len()
    &&& s[i].key == key
    &&& forall|j: int| 0 <= j < i ==> (#[trigger] s[j]).key != key
}

/// The first position of `s` that holds `key`; meaningful where
/// `has_key(s, key)`.
pub open spec fn index_of<V>(s: Seq<Entry<V>>, key: u64) -> int {
    choose|i: int| is_first(s, key, i)
}

/// The value stored under `key`, if any.
pub open spec fn lookup<V>(s: Seq<Entry<V>>, key: u64) -> Option<V> {
    if has_key(s, key) {
        Some(s[index_of(s, key)].value)
    } else {
        None
    }
}

/// `s` with `value` stored under `key`: in place where the key is present,
/// at the end where it is new.
pub open spec fn with_entry<V>(s: Seq<Entry<V>>, key: u64, value: V) -> Seq<Entry<V>> {
    if has_key(s, key) {
        s.update(index_of(s, key), Entry { key, value })
    } else {
        s.push(Entry { key, value })
    }
}

/// `s` without the first entry for `key`.
pub open spec fn without_key<V>(s: Seq<Entry<V>>, key: u64) -> Seq<Entry<V>> {
    if has_key(s, key) {
        s.remove(index_of(s, key))
    } else {
        s
    }
}

/// No key occurs twice in `s`.
pub open spec fn distinct_keys<V>(s: Seq<Entry<V>>) -> bool {
    forall|i: int, j: int| 0 <= i < j < s.len() ==> (#[trigger] s[i]).key != (#[trigger] s[j]).key
}

/// A first position is the only first position.
pub proof fn lemma_first_is_index<V>(s: Seq<Entry<V>>, key: u64, i: int)
    requires
        is_first(s, key, i),
    ensures
        has_key(s, key),
        index_of(s, key) == i,
{
    let k = index_of(s, key);
    assert(is_first(s, key, k));
    if k < i {
        assert(s[k].key != key);
    }
    if i < k {
        assert(s[i].key != key);
    }
}

/// Where a key is present it has a first position.
pub proof fn lemma_index_of<V>(s: Seq<Entry<V>>, key: u64)
    requires
        has_key(s, key),
    ensures
        is_first(s, key, index_of(s, key)),
{
    let w = choose|i: int| 0 <= i < s.len() && (#[trigger] s[i]).key == key;
    lemma_first_before(s, key, w);
}

proof fn lemma_first_before<V>(s: Seq<Entry<V>>, key: u64, w: int)
    requires
        0 <= w < s.len(),
        s[w].key == key,
    ensures
        exists|i: int| is_first(s, key, i),
    decreases w,
{
    if exists|j: int| 0 <= j < w && (#[trigger] s[j]).key == key {
        let j = choose|j: int| 0 <= j < w && (#[trigger] s[j]).key == key;
        lemma_first_before(s, key, j);
    } else {
        assert(is_first(s, key, w));
    }
}

/// With distinct keys, any position that holds the key is its position.
pub proof fn lemma_distinct_index<V>(s: Seq<Entry<V>>, key: u64, i: int)
    requires
        distinct_keys(s),
        0 <= i < s.len(),
        s[i].key == key,
    ensures
        has_key(s, key),
        index_of(s, key) == i,
        lookup(s, key) == Some(s[i].value),
{
    assert(is_first(s, key, i)) by {
        assert forall|j: int| 0 <= j < i implies (#[trigger] s[j]).key != key by {
            assert(s[j].key != s[i].key);
        }
    }
    lemma_first_is_index(s, key, i);
}

/// Storing a value keeps the keys distinct, and the value is then found.
pub proof fn lemma_with_entry<V>(s: Seq<Entry<V>>, key: u64, value: V)
    requires
        distinct_keys(s),
    ensures
        distinct_keys(with_entry(s, key, value)),
        lookup(with_entry(s, key, value), key) == Some(value),
        forall|other: u64| other != key ==> has_key(with_entry(s, key, value), other) == has_key(s, other),
        forall|other: u64| other != key ==> lookup(with_entry(s, key, value), other) == lookup(s, other),
{
    let t = with_entry(s, key, value);
    if has_key(s, key) {
        lemma_index_of(s, key);
        let k = index_of(s, key);
        assert(t.len() == s.len());
        assert(forall|i: int| 0 <= i < s.len() ==> (#[trigger] t[i]).key == s[i].key);
        lemma_distinct_index(t, key, k);
    } else {
        assert(forall|i: int| 0 <= i < s.len() ==> t[i] == s[i]);
        assert(t[s.len() as int].key == key);
        assert forall|i: int, j: int| 0 <= i < j < t.len() implies (#[trigger] t[i]).key != (#[trigger] t[j]).key by {
            if j == s.len() {
                assert(s[i].key != key);
            } else {
                assert(s[i].key != s[j].key);
            }
        }
        lemma_distinct_index(t, key, s.len() as int);
    }
    assert forall|other: u64| other != key implies has_key(t, other) == has_key(s, other) && lookup(
        t,
        other,
    ) == lookup(s, other) by {
        if has_key(s, other) {
            lemma_index_of(s, other);
            let i = index_of(s, other);
            assert(t[i].key == other);
            assert(t[i].value == s[i].value);
            lemma_distinct_index(t, other, i);
        }
        if has_key(t, other) {
            lemma_index_of(t, other);
            let i = index_of(t, other);
            assert(i < s.len());
            assert(s[i].key == other);
        }
    }
}

/// Removing a key keeps the keys distinct, and the key is then absent.
pub proof fn lemma_without_key<V>(s: Seq<Entry<V>>, key: u64)
    requires
        distinct_keys(s),
    ensures
        distinct_keys(without_key(s, key)),
        !has_key(without_key(s, key), key),
        forall|other: u64| other != key ==> has_key(without_key(s, key), other) == has_key(s, other),
        forall|other: u64| other != key ==> lookup(without_key(s, key), other) == lookup(s, other),
{
    let t = without_key(s, key);
    if has_key(s, key) {
        lemma_index_of(s, key);
        let k = index_of(s, key);
        assert(forall|i: int| 0 <= i < k ==> t[i] == s[i]);
        assert(forall|i: int| k <= i < t.len() ==> t[i] == s[i + 1]);
        assert forall|i: int| 0 <= i < t.len() implies (#[trigger] t[i]).key != key by {
            if i < k {
                assert(s[i].key != s[k].key);
            } else {
                assert(s[k].key != s[i + 1].key);
            }
        }
        assert forall|i: int, j: int| 0 <= i < j < t.len() implies (#[trigger] t[i]).key != (#[trigger] t[j]).key by {
            let a = if i < k { i } else { i + 1 };
            let b = if j < k { j } else { j + 1 };
            assert(s[a].key != s[b].key);
        }
        assert forall|other: u64| other != key implies has_key(t, other) == has_key(s, other)
            && lookup(t, other) == lookup(s, other) by {
            if has_key(s, other) {
                lemma_index_of(s, other);
                let i = index_of(s, other);
                let a = if i < k { i } else { i - 1 };
                assert(t[a] == s[i]);
                lemma_distinct_index(t, other, a);
            }
            if has_key(t, other) {
                lemma_index_of(t, other);
                let i = index_of(t, other);
                let b = if i < k { i } else { i + 1 };
                assert(s[b].key == other);
            }
        }
    }
}

/// Two sequences with the same remainder have the same next element and
/// the same remainder behind it.
pub proof fn lemma_skip_step<T>(a: Seq<T>, j: int, b: Seq<T>, k: int)
    requires
        0 <= j < a.len(),
        0 <= k <= b.len(),
        a.skip(j) == b.skip(k),
    ensures
        k < b.len(),
        a[j] == b[k],
        a.skip(j + 1) == b.skip(k + 1),
{
    assert(a.skip(j).len() == a.len() - j);
    assert(b.skip(k).len() == b.len() - k);
    assert(k < b.len());
    assert(a[j] == a.skip(j)[0]);
    assert(b[k] == b.skip(k)[0]);
    let x = a.skip(j + 1);
    let y = b.skip(k + 1);
    assert forall|i: int| 0 <= i < x.len() implies #[trigger] x[i] == y[i] by {
        assert(x[i] == a[j + 1 + i]);
        assert(a.skip(j)[i + 1] == a[j + (i + 1)]);
        assert(b.skip(k)[i + 1] == b[k + (i + 1)]);
        assert(y[i] == b[k + 1 + i]);
    }
    assert(x =~= y);
}

/// One of the first `n` entries of `source` has the key `key`.
pub open spec fn key_among<V>(source: Seq<Entry<V>>, n: int, key: u64) -> bool {
    exists|i: int| 0 <= i < n && (#[trigger] source[i]).key == key
}

/// Every key of `kept` is a key of one of the first `n` entries of
/// `source`.
pub open spec fn keys_within<A, B>(kept: Seq<Entry<A>>, source: Seq<Entry<B>>, n: int) -> bool {
    forall|x: int| 0 <= x < kept.len() ==> key_among(source, n, (#[trigger] kept[x]).key)
}

/// What was gathered from the first `n` entries is gathered from the
/// first `n + 1`.
pub proof fn lemma_keys_within_next<A, B>(kept: Seq<Entry<A>>, source: Seq<Entry<B>>, n: int)
    requires
        keys_within(kept, source, n),
    ensures
        keys_within(kept, source, n + 1),
{
    assert forall|x: int| 0 <= x < kept.len() implies key_among(source, n + 1, (#[trigger] kept[x]).key) by {
        assert(key_among(source, n, kept[x].key));
        let i = choose|i: int| 0 <= i < n && (#[trigger] source[i]).key == kept[x].key;
        assert(source[i].key == kept[x].key);
    }
}

/// An entry under the key of entry `n` of `source` can join what was
/// gathered from the entries before it without a key occurring twice.
pub proof fn lemma_keys_within_push<A, B>(kept: Seq<Entry<A>>, source: Seq<Entry<B>>, n: int, value: A)
    requires
        keys_within(kept, source, n),
        distinct_keys(kept),
        distinct_keys(source),
        0 <= n < source.len(),
    ensures
        distinct_keys(kept.push(Entry { key: source[n].key, value })),
        keys_within(kept.push(Entry { key: source[n].key, value }), source, n + 1),
        !has_key(kept, source[n].key),
{
    let more = kept.push(Entry { key: source[n].key, value });
    assert forall|x: int| 0 <= x < kept.len() implies (#[trigger] kept[x]).key != source[n].key by {
        assert(key_among(source, n, kept[x].key));
        let i = choose|i: int| 0 <= i < n && (#[trigger] source[i]).key == kept[x].key;
        assert(source[i].key != source[n].key);
    }
    assert forall|x: int, y: int| 0 <= x < y < more.len() implies (#[trigger] more[x]).key != (#[trigger] more[y]).key by {
        if y < kept.len() {
            assert(kept[x].key != kept[y].key);
        } else {
            assert(kept[x].key != source[n].key);
        }
    }
    assert forall|x: int| 0 <= x < more.len() implies key_among(source, n + 1, (#[trigger] more[x]).key) by {
        if x < kept.len() {
            assert(key_among(source, n, kept[x].key));
            let i = choose|i: int| 0 <= i < n && (#[trigger] source[i]).key == kept[x].key;
            assert(source[i].key == more[x].key);
        } else {
            assert(source[n].key == more[x].key);
        }
    }
}

impl<V> View for Table<V> {
    type V = Seq<Entry<V>>;

    open spec fn view(&self) -> Seq<Entry<V>> {
        self.entries@
    }
}

impl<V> Table<V> {
    /// The empty table.
    pub fn new() -> (t: Self)
        ensures
            t@ == Seq::<Entry<V>>::empty(),
    {
        Table { entries: Vec::new() }
    }

    /// The number of entries.
    pub fn len(&self) -> (n: usize)
        ensures
            n == self@.len(),
    {
        self.entries.len()
    }

    /// The first position that holds `key`.
    pub fn position(&self, key: u64) -> (r: Option<usize>)
        ensures
            match r {
                Some(i) => is_first(self@, key, i as int) && has_key(self@, key) && index_of(self@, key) == i,
                None => !has_key(self@, key),
            },
    {
        let mut i: usize = 0;
        while i < self.entries.len()
            invariant
                i <= self.entries.len(),
                forall|j: int| 0 <= j < i ==> (#[trigger] self@[j]).key != key,
            decreases self.entries.len() - i,
        {
            if self.entries[i].key == key {
                proof {
                    lemma_first_is_index(self@, key, i as int);
                }
                return Some(i);
            }
            i += 1;
        }
        None
    }

    /// Whether `key` is present.
    pub fn contains_key(&self, key: u64) -> (b: bool)
        ensures
            b == has_key(self@, key),
    {
        self.position(key).is_some()
    }

    /// The value stored under `key`.
    pub fn get(&self, key: u64) -> (r: Option<&V>)
        ensures
            match r {
                Some(v) => lookup(self@, key) == Some(*v),
                None => lookup(self@, key) is None,
            },
    {
        match self.position(key) {
            Some(i) => Some(&self.entries[i].value),
            None => None,
        }
    }

    /// Stores `value` under `key`, in place of an earlier value if there is one.
    pub fn insert(&mut self, key: u64, value: V)
        ensures
            final(self)@ == with_entry(old(self)@, key, value),
            distinct_keys(old(self)@) ==> distinct_keys(final(self)@),
    {
        proof {
            if distinct_keys(self@) {
                lemma_with_entry(self@, key, value);
            }
        }
        match self.position(key) {
            Some(i) => {
                self.entries[i] = Entry { key, value };
            },
            None => {
                self.entries.push(Entry { key, value });
            },
        }
    }

    /// Removes `key` and hands back what was stored under it.
    pub fn remove(&mut self, key: u64) -> (r: Option<V>)
        ensures
            final(self)@ == without_key(old(self)@, key),
            r == lookup(old(self)@, key),
            distinct_keys(old(self)@) ==> distinct_keys(final(self)@),
    {
        proof {
            if distinct_keys(self@) {
                lemma_without_key(self@, key);
            }
        }
        match self.position(key) {
            Some(i) => {
                let e = self.entries.remove(i);
                Some(e.value)
            },
            None => None,
        }
    }
}

} // verus!
