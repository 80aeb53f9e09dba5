//! A small associative table, kept in a vector.

use vstd::prelude::*;

verus! {

/// What a table can hold: values that can be copied with their mathematical view.
pub trait Value: DeepView + Sized {
    /// A copy that stands for the same thing.
    fn duplicate(&self) -> (copy: Self)
        ensures
            copy.deep_view() == self.deep_view(),
    ;
}

impl Value for i32 {
    fn duplicate(&self) -> (copy: Self) {
        *self
    }
}

impl Value for i64 {
    fn duplicate(&self) -> (copy: Self) {
        *self
    }
}

impl Value for (u32, i32) {
    fn duplicate(&self) -> (copy: Self) {
        *self
    }
}

impl Value for String {
    fn duplicate(&self) -> (copy: Self) {
        self.clone()
    }
}

impl<T: Value> Value for Option<T> {
    fn duplicate(&self) -> (copy: Self) {
        match self {
            Some(value) => Some(value.duplicate()),
            None => None,
        }
    }
}

impl<T: Value> Value for Vec<T> {
    fn duplicate(&self) -> (copy: Self) {
        let mut copy: Vec<T> = Vec::new();
        let mut i: usize = 0;
        while i < self.len()
            invariant
                i <= self.len(),
                copy.len() == i,
                forall|j: int|
                    0 <= j < i ==> #[trigger] copy@[j].deep_view() == self@[j].deep_view(),
            decreases self.len() - i,
        {
            copy.push(self[i].duplicate());
            i += 1;
        }
        assert(copy.deep_view() =~= self.deep_view());
        copy
    }
}

/// What a table can be keyed by: values told apart by their mathematical view.
pub trait Key: Value {
    /// Whether the two keys are the same key.
    fn same(&self, other: &Self) -> (same: bool)
        ensures
            same == (self.deep_view() == other.deep_view()),
    ;
}

impl Key for i32 {
    fn same(&self, other: &Self) -> (same: bool) {
        *self == *other
    }
}

impl Key for (u32, i32) {
    fn same(&self, other: &Self) -> (same: bool) {
        self.0 == other.0 && self.1 == other.1
    }
}

impl Key for String {
    fn same(&self, other: &Self) -> (same: bool) {
        *self == *other
    }
}

/// A finite map from keys to values, in which no key occurs twice.
#[derive(Debug)]
pub struct Table<K: Key, V: Value> {
    entries: Vec<(K, V)>,
}

/// No key occurs twice.
pub open spec fn distinct_keys<K: DeepView, V: DeepView>(entries: Seq<(K, V)>) -> bool {
    forall|i: int, j: int|
        0 <= i < j < entries.len() ==> #[trigger] entries[i].0.deep_view()
            != #[trigger] entries[j].0.deep_view()
}

/// The map that a list of entries stands for.
pub open spec fn map_of<K: DeepView, V: DeepView>(entries: Seq<(K, V)>) -> Map<K::V, V::V>
    decreases entries.len(),
{
    if entries.len() == 0 {
        Map::empty()
    } else {
        map_of(entries.drop_last()).insert(
            entries.last().0.deep_view(),
            entries.last().1.deep_view(),
        )
    }
}

/// The map of distinct entries holds each entry and nothing else.
pub proof fn lemma_map_of<K: DeepView, V: DeepView>(entries: Seq<(K, V)>)
    requires
        distinct_keys(entries),
    ensures
        forall|i: int|
            #![trigger entries[i]]
            0 <= i < entries.len() ==> map_of(entries).contains_key(entries[i].0.deep_view())
                && map_of(entries)[entries[i].0.deep_view()] == entries[i].1.deep_view(),
        forall|k: K::V| #[trigger]
            map_of(entries).contains_key(k) ==> exists|i: int|
                0 <= i < entries.len() && #[trigger] entries[i].0.deep_view() == k,
    decreases entries.len(),
{
    if entries.len() > 0 {
        let rest = entries.drop_last();
        assert forall|i: int, j: int| 0 <= i < j < rest.len() implies #[trigger] rest[i].0.deep_view()
            != #[trigger] rest[j].0.deep_view() by {
            assert(rest[i] == entries[i] && rest[j] == entries[j]);
        }
        lemma_map_of(rest);
        assert forall|i: int| #![trigger entries[i]] 0 <= i < entries.len() implies map_of(
            entries,
        ).contains_key(entries[i].0.deep_view()) && map_of(entries)[entries[i].0.deep_view()]
            == entries[i].1.deep_view() by {
            if i < rest.len() {
                assert(rest[i] == entries[i]);
                assert(entries[i].0.deep_view() != entries[rest.len() as int].0.deep_view());
            }
        }
        assert forall|k: K::V| #[trigger] map_of(entries).contains_key(k) implies exists|i: int|
            0 <= i < entries.len() && #[trigger] entries[i].0.deep_view() == k by {
            if k == entries.last().0.deep_view() {
                assert(entries[entries.len() - 1].0.deep_view() == k);
            } else {
                assert(map_of(rest).contains_key(k));
                let i = choose|i: int| 0 <= i < rest.len() && #[trigger] rest[i].0.deep_view() == k;
                assert(entries[i].0.deep_view() == k);
            }
        }
    }
}

/// Two lists of distinct entries of which the second lacks one key of the first.
proof fn lemma_map_of_remove<K: DeepView, V: DeepView>(entries: Seq<(K, V)>, at: int)
    requires
        distinct_keys(entries),
        0 <= at < entries.len(),
    ensures
        distinct_keys(entries.remove(at)),
        map_of(entries.remove(at)) == map_of(entries).remove(entries[at].0.deep_view()),
{
    let rest = entries.remove(at);
    let key = entries[at].0.deep_view();
    let from = |i: int| if i < at { i } else { i + 1 };
    assert forall|i: int| 0 <= i < rest.len() implies rest[i] == entries[#[trigger] from(i)] by {}
    assert forall|i: int, j: int| 0 <= i < j < rest.len() implies #[trigger] rest[i].0.deep_view()
        != #[trigger] rest[j].0.deep_view() by {
        assert(rest[i] == entries[from(i)] && rest[j] == entries[from(j)]);
    }
    lemma_map_of(entries);
    lemma_map_of(rest);
    let left = map_of(rest);
    let right = map_of(entries).remove(key);
    assert forall|k: K::V| left.contains_key(k) implies right.contains_key(k) && left[k]
        == right[k] by {
        let i = choose|i: int| 0 <= i < rest.len() && #[trigger] rest[i].0.deep_view() == k;
        assert(rest[i] == entries[from(i)]);
        assert(entries[from(i)].0.deep_view() != entries[at].0.deep_view());
    }
    assert forall|k: K::V| right.contains_key(k) implies left.contains_key(k) by {
        assert(map_of(entries).contains_key(k));
        let j = choose|j: int| 0 <= j < entries.len() && #[trigger] entries[j].0.deep_view() == k;
        let i = if j < at { j } else { j - 1 };
        assert(rest[i] == entries[j]);
    }
    assert(left =~= right);
}

impl<K: Key, V: Value> Table<K, V> {
    #[verifier::type_invariant]
    spec fn wf(self) -> bool {
        distinct_keys(self.entries@)
    }
}

impl<K: Key, V: Value> DeepView for Table<K, V> {
    type V = Map<K::V, V::V>;

    closed spec fn deep_view(&self) -> Map<K::V, V::V> {
        map_of(self.entries@)
    }
}

impl<K: Key, V: Value> View for Table<K, V> {
    type V = Map<K::V, V::V>;

    open spec fn view(&self) -> Map<K::V, V::V> {
        self.deep_view()
    }
}

impl<K: Key, V: Value> Table<K, V> {
    /// An empty table.
    pub fn new() -> (table: Self)
        ensures
            table@ == Map::<K::V, V::V>::empty(),
    {
        Table { entries: Vec::new() }
    }

    /// Where the key stands among the entries.
    fn position(entries: &Vec<(K, V)>, key: &K) -> (at: Option<usize>)
        ensures
            match at {
                Some(i) => i < entries.len() && entries@[i as int].0.deep_view()
                    == key.deep_view(),
                None => forall|i: int|
                    0 <= i < entries.len() ==> #[trigger] entries@[i].0.deep_view()
                        != key.deep_view(),
            },
    {
        let mut i: usize = 0;
        while i < entries.len()
            invariant
                i <= entries.len(),
                forall|j: int|
                    0 <= j < i ==> #[trigger] entries@[j].0.deep_view() != key.deep_view(),
            decreases entries.len() - i,
        {
            if entries[i].0.same(key) {
                return Some(i);
            }
            i += 1;
        }
        None
    }

    /// The value under `key`.
    pub fn get(&self, key: &K) -> (value: Option<&V>)
        ensures
            match value {
                Some(v) => self@.contains_key(key.deep_view()) && v.deep_view()
                    == self@[key.deep_view()],
                None => !self@.contains_key(key.deep_view()),
            },
    {
        proof {
            use_type_invariant(self);
            lemma_map_of(self.entries@);
        }
        match Self::position(&self.entries, key) {
            Some(i) => Some(&self.entries[i].1),
            None => None,
        }
    }

    /// Takes the value under `key` out of the table.
    pub fn remove(&mut self, key: &K) -> (value: Option<V>)
        ensures
            final(self)@ == old(self)@.remove(key.deep_view()),
            match value {
                Some(v) => old(self)@.contains_key(key.deep_view()) && v.deep_view()
                    == old(self)@[key.deep_view()],
                None => !old(self)@.contains_key(key.deep_view()),
            },
    {
        proof {
            use_type_invariant(&*self);
            lemma_map_of(self.entries@);
        }
        match Self::position(&self.entries, key) {
            Some(i) => {
                let mut entries: Vec<(K, V)> = Vec::new();
                std::mem::swap(&mut entries, &mut self.entries);
                proof {
                    lemma_map_of_remove(entries@, i as int);
                }
                let entry = entries.remove(i);
                self.entries = entries;
                Some(entry.1)
            },
            None => {
                proof {
                    assert(self@.remove(key.deep_view()) =~= self@);
                }
                None
            },
        }
    }

    /// Puts `value` under `key`, in place of what was there.
    pub fn insert(&mut self, key: K, value: V)
        ensures
            final(self)@ == old(self)@.insert(key.deep_view(), value.deep_view()),
    {
        self.remove(&key);
        proof {
            use_type_invariant(&*self);
            lemma_map_of(self.entries@);
        }
        let mut entries: Vec<(K, V)> = Vec::new();
        std::mem::swap(&mut entries, &mut self.entries);
        let ghost before = entries@;
        entries.push((key, value));
        proof {
            assert(entries@.drop_last() =~= before);
            assert(map_of(entries@) =~= old(self)@.insert(key.deep_view(), value.deep_view()));
            assert forall|i: int, j: int| 0 <= i < j < entries@.len() implies #[trigger] entries@[i].0.deep_view()
                != #[trigger] entries@[j].0.deep_view() by {
                assert(before[i] == entries@[i]);
                if j < before.len() {
                    assert(before[j] == entries@[j]);
                } else {
                    assert(map_of(before).contains_key(before[i].0.deep_view()));
                }
            }
        }
        self.entries = entries;
    }

    /// Takes over every entry of another table, in place of what was there.
    pub fn absorb(&mut self, other: &Self)
        ensures
            final(self)@ == old(self)@.union_prefer_right(other@),
    {
        let entries = other.entries();
        let mut i: usize = 0;
        assert(self@ =~= old(self)@.union_prefer_right(map_of(entries@.take(0))));
        while i < entries.len()
            invariant
                i <= entries.len(),
                self@ == old(self)@.union_prefer_right(map_of(entries@.take(i as int))),
            decreases entries.len() - i,
        {
            self.insert(entries[i].0.duplicate(), entries[i].1.duplicate());
            i += 1;
            assert(entries@.take(i as int).drop_last() =~= entries@.take(i - 1));
            assert(self@ =~= old(self)@.union_prefer_right(map_of(entries@.take(i as int))));
        }
        assert(entries@.take(i as int) =~= entries@);
    }

    /// The number of keys.
    pub fn len(&self) -> (n: usize)
        ensures
            n == self@.dom().len(),
    {
        proof {
            use_type_invariant(self);
            lemma_map_of_len(self.entries@);
        }
        self.entries.len()
    }

    /// All entries, each key once.
    pub fn into_entries(self) -> (entries: Vec<(K, V)>)
        ensures
            distinct_keys(entries@),
            map_of(entries@) == self@,
    {
        proof {
            use_type_invariant(&self);
        }
        self.entries
    }

    /// All entries, each key once, left in place.
    pub fn entries(&self) -> (entries: &Vec<(K, V)>)
        ensures
            distinct_keys(entries@),
            map_of(entries@) == self@,
    {
        proof {
            use_type_invariant(self);
        }
        &self.entries
    }

    /// All keys.
    pub fn keys(&self) -> (keys: Vec<K>)
        ensures
            keys.deep_view().to_set() == self@.dom(),
    {
        proof {
            use_type_invariant(self);
            lemma_map_of(self.entries@);
        }
        let mut keys: Vec<K> = Vec::new();
        let mut i: usize = 0;
        while i < self.entries.len()
            invariant
                i <= self.entries.len(),
                keys.len() == i,
                forall|j: int|
                    0 <= j < i ==> #[trigger] keys@[j].deep_view()
                        == self.entries@[j].0.deep_view(),
            decreases self.entries.len() - i,
        {
            keys.push(self.entries[i].0.duplicate());
            i += 1;
        }
        proof {
            let all = keys.deep_view();
            assert forall|k: K::V| all.to_set().contains(k) <==> self@.dom().contains(k) by {
                if all.contains(k) {
                    let j = choose|j: int| 0 <= j < all.len() && all[j] == k;
                    assert(keys@[j].deep_view() == self.entries@[j].0.deep_view());
                }
                if self@.contains_key(k) {
                    assert(map_of(self.entries@).contains_key(k));
                    let j = choose|j: int|
                        0 <= j < self.entries@.len() && #[trigger] self.entries@[j].0.deep_view()
                            == k;
                    assert(keys@[j].deep_view() == k);
                    assert(all[j] == k);
                }
            }
            assert(all.to_set() =~= self@.dom());
        }
        keys
    }
}

impl<K: Key, V: Value> Clone for Table<K, V> {
    fn clone(&self) -> (copy: Self)
        ensures
            copy@ == self@,
    {
        proof {
            use_type_invariant(self);
        }
        let mut entries: Vec<(K, V)> = Vec::new();
        let mut i: usize = 0;
        while i < self.entries.len()
            invariant
                i <= self.entries.len(),
                distinct_keys(self.entries@),
                entries.len() == i,
                same_entries(entries@, self.entries@.take(i as int)),
            decreases self.entries.len() - i,
        {
            entries.push((self.entries[i].0.duplicate(), self.entries[i].1.duplicate()));
            i += 1;
            assert(same_entries(entries@, self.entries@.take(i as int)));
        }
        proof {
            assert(self.entries@.take(i as int) =~= self.entries@);
            lemma_same_entries(entries@, self.entries@);
        }
        Table { entries }
    }
}

/// The two lists stand for the same entries in the same order.
spec fn same_entries<K: DeepView, V: DeepView>(a: Seq<(K, V)>, b: Seq<(K, V)>) -> bool {
    &&& a.len() == b.len()
    &&& forall|i: int|
        #![trigger a[i]]
        #![trigger b[i]]
        0 <= i < a.len() ==> a[i].0.deep_view() == b[i].0.deep_view() && a[i].1.deep_view()
            == b[i].1.deep_view()
}

proof fn lemma_same_entries<K: DeepView, V: DeepView>(a: Seq<(K, V)>, b: Seq<(K, V)>)
    requires
        same_entries(a, b),
    ensures
        map_of(a) == map_of(b),
        distinct_keys(b) ==> distinct_keys(a),
    decreases a.len(),
{
    if a.len() > 0 {
        assert(a.drop_last().len() == b.drop_last().len());
        assert(same_entries(a.drop_last(), b.drop_last()));
        lemma_same_entries(a.drop_last(), b.drop_last());
        assert(a[a.len() - 1].0.deep_view() == b[b.len() - 1].0.deep_view());
    }
}

/// The map of distinct entries has as many keys as there are entries.
proof fn lemma_map_of_len<K: DeepView, V: DeepView>(entries: Seq<(K, V)>)
    requires
        distinct_keys(entries),
    ensures
        map_of(entries).dom().finite(),
        map_of(entries).dom().len() == entries.len(),
    decreases entries.len(),
{
    if entries.len() > 0 {
        let rest = entries.drop_last();
        assert forall|i: int, j: int| 0 <= i < j < rest.len() implies #[trigger] rest[i].0.deep_view()
            != #[trigger] rest[j].0.deep_view() by {
            assert(rest[i] == entries[i] && rest[j] == entries[j]);
        }
        lemma_map_of_len(rest);
        lemma_map_of(rest);
        assert(!map_of(rest).contains_key(entries.last().0.deep_view())) by {
            if map_of(rest).contains_key(entries.last().0.deep_view()) {
                let i = choose|i: int|
                    0 <= i < rest.len() && #[trigger] rest[i].0.deep_view()
                        == entries.last().0.deep_view();
                assert(entries[i].0.deep_view() == entries[entries.len() - 1].0.deep_view());
            }
        }
    }
}

} // verus!
