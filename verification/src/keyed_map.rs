//! A map whose keys are texts or byte strings.

use vstd::prelude::*;

verus! {

/// What can be a key: something that is known by its mathematical value.
pub trait MapKey: Sized {
    /// What a key is looked up by.
    type Query: ?Sized;

    type Model;

    spec fn model(&self) -> Self::Model;

    spec fn query_model(query: &Self::Query) -> Self::Model;

    /// Whether this is the key that `query` asks for.
    fn is(&self, query: &Self::Query) -> (r: bool)
        ensures
            r == (self.model() == Self::query_model(query)),
    ;

    /// The query that asks for this key.
    fn as_query(&self) -> (query: &Self::Query)
        ensures
            Self::query_model(query) == self.model(),
    ;
}

impl MapKey for String {
    type Query = str;

    type Model = Seq<char>;

    open spec fn model(&self) -> Seq<char> {
        self@
    }

    open spec fn query_model(query: &str) -> Seq<char> {
        query@
    }

    fn is(&self, query: &str) -> (r: bool) {
        crate::text::same_text(self.as_str(), query)
    }

    fn as_query(&self) -> (query: &str) {
        self.as_str()
    }
}

impl MapKey for Vec<u8> {
    type Query = [u8];

    type Model = Seq<u8>;

    open spec fn model(&self) -> Seq<u8> {
        self@
    }

    open spec fn query_model(query: &[u8]) -> Seq<u8> {
        query@
    }

    fn is(&self, query: &[u8]) -> (r: bool) {
        if self.len() != query.len() {
            return false;
        }
        let mut i: usize = 0;
        while i < self.len()
            invariant
                i <= self@.len(),
                self@.len() == query@.len(),
                forall|j: int| 0 <= j < i ==> self@[j] == query@[j],
            decreases self@.len() - i,
        {
            if self[i] != query[i] {
                return false;
            }
            i = i + 1;
        }
        proof {
            assert(self@ =~= query@);
        }
        true
    }

    fn as_query(&self) -> (query: &[u8]) {
        self.as_slice()
    }
}

/// A map that keeps its entries in a list, each key once.
#[derive(Debug)]
pub struct KeyedMap<K: MapKey, V> {
    entries: Vec<(K, V)>,
}

impl<K: MapKey, V> View for KeyedMap<K, V> {
    type V = Map<K::Model, V>;

    closed spec fn view(&self) -> Map<K::Model, V> {
        Map::new(
            |m: K::Model| exists|i: int| Self::holds_at(self.entries@, m, i),
            |m: K::Model| self.entries@[choose|i: int| Self::holds_at(self.entries@, m, i)].1,
        )
    }
}

impl<K: MapKey, V> KeyedMap<K, V> {
    spec fn holds_at(entries: Seq<(K, V)>, m: K::Model, i: int) -> bool {
        0 <= i < entries.len() && entries[i].0.model() == m
    }

    /// No key occurs twice.
    pub closed spec fn wf(&self) -> bool {
        forall|i: int, j: int|
            0 <= i < self.entries@.len() && 0 <= j < self.entries@.len() && (
            #[trigger] self.entries@[i]).0.model() == (#[trigger] self.entries@[j]).0.model() ==> i
                == j
    }

    proof fn lemma_at(&self, i: int)
        requires
            self.wf(),
            0 <= i < self.entries@.len(),
        ensures
            self@.contains_key(self.entries@[i].0.model()),
            self@[self.entries@[i].0.model()] == self.entries@[i].1,
    {
        let m = self.entries@[i].0.model();
        assert(Self::holds_at(self.entries@, m, i));
        let j = choose|j: int| Self::holds_at(self.entries@, m, j);
        assert(Self::holds_at(self.entries@, m, j));
        assert(self.entries@[i].0.model() == self.entries@[j].0.model());
    }

    pub fn new() -> (map: Self)
        ensures
            map.wf(),
            map@ == Map::<K::Model, V>::empty(),
    {
        let map = KeyedMap { entries: Vec::new() };
        proof {
            assert(map@ =~= Map::<K::Model, V>::empty());
        }
        map
    }

    fn position(&self, query: &K::Query) -> (r: Option<usize>)
        ensures
            match r {
                Some(i) => Self::holds_at(self.entries@, K::query_model(query), i as int),
                None => !self@.contains_key(K::query_model(query)),
            },
    {
        let mut i: usize = 0;
        while i < self.entries.len()
            invariant
                i <= self.entries@.len(),
                forall|j: int|
                    0 <= j < i ==> (#[trigger] self.entries@[j]).0.model() != K::query_model(query),
            decreases self.entries@.len() - i,
        {
            if self.entries[i].0.is(query) {
                return Some(i);
            }
            i = i + 1;
        }
        None
    }

    pub fn get(&self, query: &K::Query) -> (r: Option<&V>)
        requires
            self.wf(),
        ensures
            match r {
                Some(v) => self@.contains_key(K::query_model(query)) && *v == self@[K::query_model(
                    query,
                )],
                None => !self@.contains_key(K::query_model(query)),
            },
    {
        match self.position(query) {
            Some(i) => {
                proof {
                    self.lemma_at(i as int);
                }
                Some(&self.entries[i].1)
            },
            None => None,
        }
    }

    pub fn contains_key(&self, query: &K::Query) -> (r: bool)
        ensures
            r == self@.contains_key(K::query_model(query)),
    {
        self.position(query).is_some()
    }

    pub fn remove(&mut self, query: &K::Query) -> (r: Option<V>)
        requires
            old(self).wf(),
        ensures
            final(self).wf(),
            final(self)@ == old(self)@.remove(K::query_model(query)),
            match r {
                Some(v) => old(self)@.contains_key(K::query_model(query)) && v
                    == old(self)@[K::query_model(query)],
                None => !old(self)@.contains_key(K::query_model(query)),
            },
    {
        let ghost m = K::query_model(query);
        let ghost before = *self;
        match self.position(query) {
            Some(i) => {
                proof {
                    before.lemma_at(i as int);
                }
                let (_, v) = self.entries.remove(i);
                proof {
                    let old_entries = before.entries@;
                    let new_entries = self.entries@;
                    assert(new_entries == old_entries.remove(i as int));
                    assert forall|a: int, b: int|
                        0 <= a < new_entries.len() && 0 <= b < new_entries.len() && (
                        #[trigger] new_entries[a]).0.model() == (
                        #[trigger] new_entries[b]).0.model() implies a == b by {
                        let a2 = if a < i { a } else { a + 1 };
                        let b2 = if b < i { b } else { b + 1 };
                        assert(old_entries[a2] == new_entries[a]);
                        assert(old_entries[b2] == new_entries[b]);
                    }
                    assert forall|k: K::Model| #[trigger]
                        self@.dom().contains(k) implies before@.remove(m).dom().contains(k)
                        && self@[k] == before@.remove(m)[k] by {
                        let a = choose|a: int| Self::holds_at(new_entries, k, a);
                        assert(Self::holds_at(new_entries, k, a));
                        let a2 = if a < i { a } else { a + 1 };
                        assert(old_entries[a2] == new_entries[a]);
                        before.lemma_at(a2);
                        self.lemma_at(a);
                        if k == m {
                            assert(old_entries[a2].0.model() == old_entries[i as int].0.model());
                        }
                    }
                    assert forall|k: K::Model| #[trigger]
                        before@.remove(m).dom().contains(k) implies self@.dom().contains(k) by {
                        let a = choose|a: int| Self::holds_at(old_entries, k, a);
                        assert(Self::holds_at(old_entries, k, a));
                        let a2 = if a < i { a } else { a - 1 };
                        assert(new_entries[a2] == old_entries[a]);
                        assert(Self::holds_at(new_entries, k, a2));
                    }
                    assert(self@ =~= before@.remove(m));
                }
                Some(v)
            },
            None => {
                proof {
                    assert(self@ =~= before@.remove(m));
                }
                None
            },
        }
    }

    /// Puts a value under a key; the value that was there is given back.
    pub fn insert(&mut self, key: K, value: V) -> (r: Option<V>)
        requires
            old(self).wf(),
        ensures
            final(self).wf(),
            final(self)@ == old(self)@.insert(key.model(), value),
            match r {
                Some(v) => old(self)@.contains_key(key.model()) && v == old(self)@[key.model()],
                None => !old(self)@.contains_key(key.model()),
            },
    {
        let ghost m = key.model();
        let r = self.remove(key.as_query());
        let ghost before = *self;
        self.entries.push((key, value));
        proof {
            let old_entries = before.entries@;
            let new_entries = self.entries@;
            let last = new_entries.len() - 1;
            assert(!before@.contains_key(m));
            assert forall|a: int| 0 <= a < old_entries.len() implies (
            #[trigger] old_entries[a]).0.model() != m by {
                before.lemma_at(a);
            }
            assert forall|a: int, b: int|
                0 <= a < new_entries.len() && 0 <= b < new_entries.len() && (
                #[trigger] new_entries[a]).0.model() == (
                #[trigger] new_entries[b]).0.model() implies a == b by {
                if a < last {
                    assert(new_entries[a] == old_entries[a]);
                }
                if b < last {
                    assert(new_entries[b] == old_entries[b]);
                }
            }
            assert forall|k: K::Model| #[trigger] self@.dom().contains(k) implies before@.insert(
                m,
                value,
            ).dom().contains(k) && self@[k] == before@.insert(m, value)[k] by {
                let a = choose|a: int| Self::holds_at(new_entries, k, a);
                assert(Self::holds_at(new_entries, k, a));
                self.lemma_at(a);
                if a < last {
                    assert(new_entries[a] == old_entries[a]);
                    before.lemma_at(a);
                }
            }
            assert forall|k: K::Model| #[trigger]
                before@.insert(m, value).dom().contains(k) implies self@.dom().contains(k) by {
                if k == m {
                    assert(Self::holds_at(new_entries, k, last));
                } else {
                    let a = choose|a: int| Self::holds_at(old_entries, k, a);
                    assert(Self::holds_at(old_entries, k, a));
                    assert(new_entries[a] == old_entries[a]);
                    assert(Self::holds_at(new_entries, k, a));
                }
            }
            assert(self@ =~= before@.insert(m, value));
            assert(self@ =~= old(self)@.insert(m, value));
        }
        r
    }

    /// How many keys there are.
    pub fn len(&self) -> (n: usize)
        requires
            self.wf(),
        ensures
            self@.dom().finite(),
            n == self@.len(),
    {
        proof {
            self.lemma_len(self.entries@.len());
        }
        self.entries.len()
    }

    /// A map has only so many keys.
    pub proof fn lemma_finite(&self)
        requires
            self.wf(),
        ensures
            self@.dom().finite(),
    {
        self.lemma_len(self.entries@.len());
    }

    /// The keys of the first `n` entries.
    spec fn first_keys(&self, n: nat) -> Set<K::Model> {
        Set::new(|m: K::Model| exists|i: int| i < n && Self::holds_at(self.entries@, m, i))
    }

    proof fn lemma_len(&self, n: nat)
        requires
            self.wf(),
            n <= self.entries@.len(),
        ensures
            self.first_keys(n).finite(),
            self.first_keys(n).len() == n,
            n == self.entries@.len() ==> self@.dom() == self.first_keys(n),
        decreases n,
    {
        if n == 0 {
            assert(self.first_keys(0) =~= Set::<K::Model>::empty());
        } else {
            let p = (n - 1) as nat;
            self.lemma_len(p);
            let m = self.entries@[p as int].0.model();
            assert(Self::holds_at(self.entries@, m, p as int));
            if self.first_keys(p).contains(m) {
                let i = choose|i: int| i < p && Self::holds_at(self.entries@, m, i);
                assert(self.entries@[i].0.model() == self.entries@[p as int].0.model());
            }
            assert forall|k: K::Model| self.first_keys(n).contains(k) implies self.first_keys(
                p,
            ).insert(m).contains(k) by {
                let i = choose|i: int| i < n && Self::holds_at(self.entries@, k, i);
                assert(i < n && Self::holds_at(self.entries@, k, i));
                if i < p {
                    assert(i < p && Self::holds_at(self.entries@, k, i));
                }
            }
            assert forall|k: K::Model| self.first_keys(p).insert(m).contains(
                k,
            ) implies self.first_keys(n).contains(k) by {
                if k == m {
                    assert(p < n && Self::holds_at(self.entries@, k, p as int));
                } else {
                    let i = choose|i: int| i < p && Self::holds_at(self.entries@, k, i);
                    assert(i < n && Self::holds_at(self.entries@, k, i));
                }
            }
            assert(self.first_keys(n) =~= self.first_keys(p).insert(m));
        }
        if n == self.entries@.len() {
            assert forall|k: K::Model| self@.dom().contains(k) implies self.first_keys(n).contains(
                k,
            ) by {
                let i = choose|i: int| Self::holds_at(self.entries@, k, i);
                assert(i < n && Self::holds_at(self.entries@, k, i));
            }
            assert forall|k: K::Model| self.first_keys(n).contains(k) implies self@.dom().contains(
                k,
            ) by {
                let i = choose|i: int| i < n && Self::holds_at(self.entries@, k, i);
                assert(Self::holds_at(self.entries@, k, i));
            }
            assert(self@.dom() =~= self.first_keys(n));
        }
    }
}

} // verus!
