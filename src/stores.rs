use vstd::prelude::*;

verus! {

/// Why a read of a sequence or map store found nothing.
#[derive(Debug, PartialEq, Eq)]
pub enum StoreError {
    /// The position asked for is not below the sequence's length.
    IndexOutOfRange { index: usize, len: usize },
    /// The map holds no value under the key asked for.
    KeyNotFound,
}

/// A single-value slot that always holds a value: the declared default until
/// the first write, the last value written after that.
pub struct StateCell<T> {
    value: T,
}

impl<T> View for StateCell<T> {
    type V = T;

    /// The value a read returns now.
    closed spec fn view(&self) -> T {
        self.value
    }
}

impl<T> StateCell<T> {
    /// A cell that holds `default`.
    pub fn new(default: T) -> (r: Self)
        ensures
            r@ == default,
    {
        StateCell { value: default }
    }

    /// The current value.
    pub fn get(&self) -> (r: &T)
        ensures
            *r == self@,
    {
        &self.value
    }

    /// Replaces the value unconditionally.
    pub fn set(&mut self, v: T)
        ensures
            final(self)@ == v,
    {
        self.value = v;
    }
}

/// An append-only log: values keep the order in which they were appended.
pub struct VecState<T> {
    items: Vec<T>,
}

impl<T> View for VecState<T> {
    type V = Seq<T>;

    /// The values appended so far, oldest first.
    closed spec fn view(&self) -> Seq<T> {
        self.items@
    }
}

impl<T> VecState<T> {
    /// An empty log.
    pub fn new() -> (r: Self)
        ensures
            r@ == Seq::<T>::empty(),
    {
        VecState { items: Vec::new() }
    }

    /// Adds `v` after every value already there.
    pub fn append(&mut self, v: T)
        ensures
            final(self)@ == old(self)@.push(v),
    {
        self.items.push(v);
    }

    /// How many values have been appended.
    pub fn length(&self) -> (r: usize)
        ensures
            r == self@.len(),
    {
        self.items.len()
    }

    /// The value at position `i`, or `IndexOutOfRange` when `i` is not below
    /// the length.
    pub fn get(&self, i: usize) -> (r: Result<&T, StoreError>)
        ensures
            i < self@.len() ==> r == Ok::<&T, StoreError>(&self@[i as int]),
            i >= self@.len() ==> r == Err::<&T, StoreError>(
                StoreError::IndexOutOfRange { index: i, len: self@.len() as usize },
            ),
    {
        if i < self.items.len() {
            Ok(&self.items[i])
        } else {
            Err(StoreError::IndexOutOfRange { index: i, len: self.items.len() })
        }
    }

    /// Every value, oldest first.
    pub fn all(&self) -> (r: &Vec<T>)
        ensures
            r@ == self@,
    {
        &self.items
    }
}

/// A key type whose equality the map store can test: two keys are the same
/// key exactly when their views are equal.
pub trait StateKey: View + Sized {
    fn same_key(&self, other: &Self) -> (r: bool)
        ensures
            r == (self@ == other@),
    ;
}

impl StateKey for u64 {
    fn same_key(&self, other: &Self) -> (r: bool)
        ensures
            r == (self@ == other@),
    {
        *self == *other
    }
}

impl StateKey for String {
    fn same_key(&self, other: &Self) -> (r: bool)
        ensures
            r == (self@ == other@),
    {
        self.eq(other)
    }
}

/// The keys of `s`, as views, in the order of the entries.
pub open spec fn keys_of<K: View, V>(s: Seq<(K, V)>) -> Seq<K::V> {
    s.map_values(|e: (K, V)| e.0@)
}

/// The association that a list of entries with distinct keys stands for.
pub open spec fn entries_map<K: View, V>(s: Seq<(K, V)>) -> Map<K::V, V> {
    Map::new(
        |k: K::V| exists|i: int| 0 <= i < s.len() && s[i].0@ == k,
        |k: K::V| s[choose|i: int| 0 <= i < s.len() && s[i].0@ == k].1,
    )
}

proof fn lemma_entries_map_at<K: View, V>(s: Seq<(K, V)>, i: int)
    requires
        keys_of(s).no_duplicates(),
        0 <= i < s.len(),
    ensures
        entries_map(s).contains_key(s[i].0@),
        entries_map(s)[s[i].0@] == s[i].1,
{
    let k = s[i].0@;
    assert(keys_of(s)[i] == k);
    assert(exists|j: int| 0 <= j < s.len() && s[j].0@ == k);
    let j = choose|j: int| 0 <= j < s.len() && s[j].0@ == k;
    assert(keys_of(s)[j] == k);
}

proof fn lemma_entries_map_len<K: View, V>(s: Seq<(K, V)>)
    requires
        keys_of(s).no_duplicates(),
    ensures
        entries_map(s).dom().finite(),
        entries_map(s).len() == s.len(),
{
    let ks = keys_of(s);
    assert forall|k: K::V| entries_map(s).dom().contains(k) <==> ks.to_set().contains(k) by {
        if entries_map(s).dom().contains(k) {
            let i = choose|i: int| 0 <= i < s.len() && s[i].0@ == k;
            assert(ks[i] == k);
        }
        if ks.to_set().contains(k) {
            let i = choose|i: int| 0 <= i < ks.len() && ks[i] == k;
            assert(s[i].0@ == k);
        }
    }
    assert(entries_map(s).dom() =~= ks.to_set());
    ks.unique_seq_to_set();
}

/// A key-unique association with upsert writes.
pub struct MapState<K, V> {
    entries: Vec<(K, V)>,
}

impl<K: View, V> View for MapState<K, V> {
    type V = Map<K::V, V>;

    /// Each key's view, mapped to the value stored under it.
    closed spec fn view(&self) -> Map<K::V, V> {
        entries_map(self.entries@)
    }
}

impl<K: StateKey, V> MapState<K, V> {
    /// No two entries share a key.
    pub closed spec fn wf(&self) -> bool {
        keys_of(self.entries@).no_duplicates()
    }

    /// An empty map.
    pub fn new() -> (r: Self)
        ensures
            r.wf(),
            r@ == Map::<K::V, V>::empty(),
    {
        let r = MapState { entries: Vec::new() };
        assert(r@ =~= Map::<K::V, V>::empty());
        r
    }

    /// The position of the entry whose key is `k`, if there is one.
    fn find(&self, k: &K) -> (r: Option<usize>)
        requires
            self.wf(),
        ensures
            match r {
                Some(i) => i < self.entries@.len() && self.entries@[i as int].0@ == k@,
                None => !self@.contains_key(k@),
            },
    {
        let mut i: usize = 0;
        while i < self.entries.len()
            invariant
                i <= self.entries@.len(),
                forall|j: int| 0 <= j < i ==> self.entries@[j].0@ != k@,
            decreases self.entries@.len() - i,
        {
            if self.entries[i].0.same_key(k) {
                return Some(i);
            }
            i = i + 1;
        }
        None
    }

    /// How many distinct keys are stored.
    pub fn length(&self) -> (r: usize)
        requires
            self.wf(),
        ensures
            r == self@.len(),
    {
        proof { lemma_entries_map_len(self.entries@); }
        self.entries.len()
    }

    /// The value stored under `k`, or `KeyNotFound`.
    pub fn get(&self, k: &K) -> (r: Result<&V, StoreError>)
        requires
            self.wf(),
        ensures
            self@.contains_key(k@) ==> r == Ok::<&V, StoreError>(&self@[k@]),
            !self@.contains_key(k@) ==> r == Err::<&V, StoreError>(StoreError::KeyNotFound),
    {
        match self.find(k) {
            Some(i) => {
                proof { lemma_entries_map_at(self.entries@, i as int); }
                Ok(&self.entries[i].1)
            },
            None => Err(StoreError::KeyNotFound),
        }
    }

    /// Stores `v` under `k`, replacing any value already stored there.
    pub fn set(&mut self, k: K, v: V)
        requires
            old(self).wf(),
        ensures
            final(self).wf(),
            final(self)@ == old(self)@.insert(k@, v),
    {
        let ghost pre = self.entries@;
        let ghost kv = k@;
        match self.find(&k) {
            Some(i) => {
                self.entries.set(i, (k, v));
                proof {
                    let post = self.entries@;
                    assert(keys_of(post) =~= keys_of(pre));
                    assert forall|kk: K::V|
                        #![trigger entries_map(post).contains_key(kk)]
                        entries_map(post).contains_key(kk) <==> pre_insert_has(pre, kv, kk) by {
                        if entries_map(post).contains_key(kk) {
                            let j = choose|j: int| 0 <= j < post.len() && post[j].0@ == kk;
                            if j != i {
                                assert(pre[j].0@ == kk);
                            }
                        }
                        if kk == kv {
                            assert(post[i as int].0@ == kk);
                        } else if entries_map(pre).contains_key(kk) {
                            let j = choose|j: int| 0 <= j < pre.len() && pre[j].0@ == kk;
                            assert(post[j].0@ == kk);
                        }
                    }
                    assert forall|kk: K::V|
                        #![trigger entries_map(post)[kk]]
                        entries_map(post).contains_key(kk) ==> entries_map(post)[kk]
                            == entries_map(pre).insert(kv, v)[kk] by {
                        if entries_map(post).contains_key(kk) {
                            let j = choose|j: int| 0 <= j < post.len() && post[j].0@ == kk;
                            lemma_entries_map_at(post, j);
                            if j != i {
                                lemma_entries_map_at(pre, j);
                                assert(keys_of(pre)[j] != keys_of(pre)[i as int]);
                            }
                        }
                    }
                    assert(entries_map(post) =~= entries_map(pre).insert(kv, v));
                }
            },
            None => {
                self.entries.push((k, v));
                proof {
                    let post = self.entries@;
                    let n = pre.len() as int;
                    assert(keys_of(post) =~= keys_of(pre).push(kv));
                    assert forall|a: int, b: int|
                        0 <= a < keys_of(post).len() && 0 <= b < keys_of(post).len() && a != b
                            implies keys_of(post)[a] != keys_of(post)[b] by {
                        if a == n {
                            assert(entries_map(pre).contains_key(keys_of(pre)[b]) ==> true);
                            assert(pre[b].0@ == keys_of(pre)[b]);
                        } else if b == n {
                            assert(pre[a].0@ == keys_of(pre)[a]);
                        }
                    }
                    assert forall|kk: K::V|
                        #![trigger entries_map(post).contains_key(kk)]
                        entries_map(post).contains_key(kk) <==> pre_insert_has(pre, kv, kk) by {
                        if entries_map(post).contains_key(kk) {
                            let j = choose|j: int| 0 <= j < post.len() && post[j].0@ == kk;
                            if j != n {
                                assert(pre[j].0@ == kk);
                            }
                        }
                        if kk == kv {
                            assert(post[n].0@ == kk);
                        } else if entries_map(pre).contains_key(kk) {
                            let j = choose|j: int| 0 <= j < pre.len() && pre[j].0@ == kk;
                            assert(post[j].0@ == kk);
                        }
                    }
                    assert forall|kk: K::V|
                        #![trigger entries_map(post)[kk]]
                        entries_map(post).contains_key(kk) ==> entries_map(post)[kk]
                            == entries_map(pre).insert(kv, v)[kk] by {
                        if entries_map(post).contains_key(kk) {
                            let j = choose|j: int| 0 <= j < post.len() && post[j].0@ == kk;
                            lemma_entries_map_at(post, j);
                            if j != n {
                                lemma_entries_map_at(pre, j);
                            }
                        }
                    }
                    assert(entries_map(post) =~= entries_map(pre).insert(kv, v));
                }
            },
        }
    }
}

spec fn pre_insert_has<K: View, V>(pre: Seq<(K, V)>, kv: K::V, kk: K::V) -> bool {
    kk == kv || entries_map(pre).contains_key(kk)
}

/// A cell that is never written reads its default; after a run of writes it
/// reads the last value written. `cells[0]` is a fresh cell and each
/// `cells[i + 1]` is `cells[i]` after `set(writes[i])`.
pub proof fn lemma_cell_reads_last_write<T>(cells: Seq<StateCell<T>>, default: T, writes: Seq<T>)
    requires
        cells.len() == writes.len() + 1,
        cells[0]@ == default,
        forall|i: int| 0 <= i < writes.len() ==> #[trigger] cells[i + 1]@ == writes[i],
    ensures
        writes.len() == 0 ==> cells.last()@ == default,
        writes.len() > 0 ==> cells.last()@ == writes.last(),
{
    if writes.len() > 0 {
        assert(cells[writes.len() - 1 + 1]@ == writes[writes.len() - 1]);
    }
}

/// After any run of appends to a fresh log, the log holds exactly the
/// appended values in the order they were appended, so its length is the
/// number of appends and no position at or past that length can be read.
/// `logs[0]` is a fresh log and each `logs[i + 1]` is `logs[i]` after
/// `append(values[i])`.
pub proof fn lemma_log_holds_appends_in_order<T>(logs: Seq<VecState<T>>, values: Seq<T>)
    requires
        logs.len() == values.len() + 1,
        logs[0]@ == Seq::<T>::empty(),
        forall|i: int| 0 <= i < values.len() ==> #[trigger] logs[i + 1]@ == logs[i]@.push(values[i]),
    ensures
        logs.last()@ == values,
        logs.last()@.len() == values.len(),
        forall|i: int| 0 <= i < values.len() ==> logs.last()@[i] == values[i],
{
    lemma_log_prefix(logs, values, values.len() as int);
    assert(values.subrange(0, values.len() as int) =~= values);
}

proof fn lemma_log_prefix<T>(logs: Seq<VecState<T>>, values: Seq<T>, n: int)
    requires
        logs.len() == values.len() + 1,
        logs[0]@ == Seq::<T>::empty(),
        forall|i: int| 0 <= i < values.len() ==> #[trigger] logs[i + 1]@ == logs[i]@.push(values[i]),
        0 <= n <= values.len(),
    ensures
        logs[n]@ == values.subrange(0, n),
    decreases n,
{
    if n == 0 {
        assert(values.subrange(0, 0) =~= Seq::<T>::empty());
    } else {
        lemma_log_prefix(logs, values, n - 1);
        assert(logs[n - 1 + 1]@ == logs[n - 1]@.push(values[n - 1]));
        assert(values.subrange(0, n) =~= values.subrange(0, n - 1).push(values[n - 1]));
    }
}

/// Writing a key that is already stored replaces its value and keeps the
/// number of keys; writing a new key adds exactly one. `m@.insert(k@, v)` is
/// what `set(k, v)` leaves.
pub proof fn lemma_map_upsert_len<K: StateKey, V>(m: MapState<K, V>, k: K, v: V)
    requires
        m.wf(),
    ensures
        m@.dom().finite(),
        m@.insert(k@, v)[k@] == v,
        m@.contains_key(k@) ==> m@.insert(k@, v).len() == m@.len(),
        !m@.contains_key(k@) ==> m@.insert(k@, v).len() == m@.len() + 1,
{
    lemma_entries_map_len(m.entries@);
    if m@.contains_key(k@) {
        assert(m@.dom().insert(k@) =~= m@.dom());
    }
}

} // verus!
