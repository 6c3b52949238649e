//! A map from strings to values that is walked in code-point order of its keys.

use vstd::prelude::*;

use crate::text::{
    comes_before, lemma_text_lt_irreflexive, lemma_text_lt_total, lemma_text_lt_transitive, same,
    text_lt, texts,
};

verus! {

/// A map from strings to values, kept in code-point order of the keys.
#[derive(Debug, Clone)]
pub struct TextMap<V> {
    pub keys: Vec<String>,
    pub values: Vec<V>,
}

/// `keys` stand in strictly increasing order.
pub open spec fn increasing(keys: Seq<Seq<char>>) -> bool {
    forall|i: int, j: int| 0 <= i < j < keys.len() ==> text_lt(#[trigger] keys[i], #[trigger] keys[j])
}

/// The map that takes the i-th key to the i-th value.
pub open spec fn paired<K, V>(keys: Seq<K>, values: Seq<V>) -> Map<K, V> {
    Map::new(|k: K| keys.contains(k), |k: K| values[keys.index_of(k)])
}

/// In increasing keys a key stands once.
pub proof fn lemma_increasing_distinct(keys: Seq<Seq<char>>)
    requires
        increasing(keys),
    ensures
        keys.no_duplicates(),
{
    assert forall|i: int, j: int| 0 <= i < keys.len() && 0 <= j < keys.len() && i != j implies keys[i]
        != keys[j] by {
        if i < j {
            assert(text_lt(keys[i], keys[j]));
        } else {
            assert(text_lt(keys[j], keys[i]));
        }
        lemma_text_lt_irreflexive(keys[i]);
    }
}

/// Among distinct keys, the i-th is found at i.
pub proof fn lemma_index_of<K>(keys: Seq<K>, i: int)
    requires
        keys.no_duplicates(),
        0 <= i < keys.len(),
    ensures
        keys.contains(keys[i]),
        keys.index_of(keys[i]) == i,
{
    assert(keys.contains(keys[i]));
    let j = keys.index_of(keys[i]);
    assert(keys[j] == keys[i]);
}

/// Putting a new key and its value at one position adds them to the map.
pub proof fn lemma_paired_insert<K, V>(keys: Seq<K>, values: Seq<V>, at: int, k: K, v: V)
    requires
        keys.no_duplicates(),
        keys.len() == values.len(),
        0 <= at <= keys.len(),
        !keys.contains(k),
    ensures
        keys.insert(at, k).no_duplicates(),
        paired(keys.insert(at, k), values.insert(at, v)) == paired(keys, values).insert(k, v),
{
    let nk = keys.insert(at, k);
    let nv = values.insert(at, v);
    assert(nk[at] == k);
    assert(nk.no_duplicates()) by {
        assert forall|i: int, j: int| 0 <= i < nk.len() && 0 <= j < nk.len() && i != j implies nk[i]
            != nk[j] by {
            let oi = if i < at {
                i
            } else {
                i - 1
            };
            let oj = if j < at {
                j
            } else {
                j - 1
            };
            if i != at {
                assert(nk[i] == keys[oi]);
            }
            if j != at {
                assert(nk[j] == keys[oj]);
            }
        }
    }
    let a = paired(nk, nv);
    let b = paired(keys, values).insert(k, v);
    assert forall|x: K| a.dom().contains(x) == b.dom().contains(x) by {
        if nk.contains(x) {
            let i = choose|i: int| 0 <= i < nk.len() && nk[i] == x;
            if i < at {
                assert(keys[i] == x);
            } else if i > at {
                assert(keys[i - 1] == x);
            }
        }
        if keys.contains(x) {
            let i = choose|i: int| 0 <= i < keys.len() && keys[i] == x;
            if i < at {
                assert(nk[i] == x);
            } else {
                assert(nk[i + 1] == x);
            }
        }
        if x == k {
            assert(nk.contains(x));
        }
    }
    assert forall|x: K| a.dom().contains(x) implies a[x] == b[x] by {
        let i = choose|i: int| 0 <= i < nk.len() && nk[i] == x;
        lemma_index_of(nk, i);
        if i < at {
            lemma_index_of(keys, i);
        } else if i > at {
            assert(keys[i - 1] == x);
            lemma_index_of(keys, i - 1);
        }
    }
    assert(a =~= b);
}

/// Replacing the value at one position replaces the value of the key there.
pub proof fn lemma_paired_update<K, V>(keys: Seq<K>, values: Seq<V>, at: int, v: V)
    requires
        keys.no_duplicates(),
        keys.len() == values.len(),
        0 <= at < keys.len(),
    ensures
        paired(keys, values.update(at, v)) == paired(keys, values).insert(keys[at], v),
{
    let a = paired(keys, values.update(at, v));
    let b = paired(keys, values).insert(keys[at], v);
    lemma_index_of(keys, at);
    assert forall|x: K| a.dom().contains(x) implies a[x] == b[x] by {
        let i = choose|i: int| 0 <= i < keys.len() && keys[i] == x;
        lemma_index_of(keys, i);
    }
    assert(a =~= b);
}

/// Removing one position from keys and values takes the key there out of the map.
pub proof fn lemma_paired_remove<K, V>(keys: Seq<K>, values: Seq<V>, at: int)
    requires
        keys.no_duplicates(),
        keys.len() == values.len(),
        0 <= at < keys.len(),
    ensures
        keys.remove(at).no_duplicates(),
        paired(keys.remove(at), values.remove(at)) == paired(keys, values).remove(keys[at]),
{
    let k = keys[at];
    let v = values[at];
    let nk = keys.remove(at);
    let nv = values.remove(at);
    assert(nk.no_duplicates()) by {
        assert forall|i: int, j: int| 0 <= i < nk.len() && 0 <= j < nk.len() && i != j implies nk[i]
            != nk[j] by {
            let oi = if i < at {
                i
            } else {
                i + 1
            };
            let oj = if j < at {
                j
            } else {
                j + 1
            };
            assert(nk[i] == keys[oi] && nk[j] == keys[oj]);
        }
    }
    assert(!nk.contains(k)) by {
        if nk.contains(k) {
            let i = choose|i: int| 0 <= i < nk.len() && nk[i] == k;
            let oi = if i < at {
                i
            } else {
                i + 1
            };
            assert(keys[oi] == k);
        }
    }
    assert(nk.insert(at, k) =~= keys);
    assert(nv.insert(at, v) =~= values);
    lemma_paired_insert(nk, nv, at, k, v);
    assert(paired(nk, nv).insert(k, v).remove(k) =~= paired(nk, nv));
}

impl<V> View for TextMap<V> {
    type V = Map<Seq<char>, V>;

    open spec fn view(&self) -> Map<Seq<char>, V> {
        paired(texts(self.keys@), self.values@)
    }
}

impl<V> TextMap<V> {
    /// Every key has a value, and the keys stand in strictly increasing order.
    pub open spec fn wf(self) -> bool {
        &&& self.keys@.len() == self.values@.len()
        &&& increasing(texts(self.keys@))
    }

    /// The keys in the order in which they are walked.
    pub open spec fn order(self) -> Seq<Seq<char>> {
        texts(self.keys@)
    }

    /// A walk meets every key of the map once, with the value the map gives it.
    pub proof fn lemma_walk(self)
        requires
            self.wf(),
        ensures
            self.order().no_duplicates(),
            forall|k: Seq<char>| #[trigger] self@.dom().contains(k) <==> self.order().contains(k),
            forall|i: int|
                0 <= i < self.order().len() ==> self@.dom().contains(#[trigger] self.order()[i])
                    && self@[self.order()[i]] == self.values@[i],
    {
        lemma_increasing_distinct(self.order());
        assert forall|i: int| 0 <= i < self.order().len() implies self@.dom().contains(
            #[trigger] self.order()[i],
        ) && self@[self.order()[i]] == self.values@[i] by {
            lemma_index_of(self.order(), i);
        }
    }

    /// The empty map.
    pub fn new() -> (r: Self)
        ensures
            r.wf(),
            r@ == Map::<Seq<char>, V>::empty(),
            r.keys@.len() == 0,
    {
        let r = TextMap { keys: Vec::new(), values: Vec::new() };
        assert(r@ =~= Map::<Seq<char>, V>::empty());
        r
    }

    /// The number of keys.
    pub fn len(&self) -> (r: usize)
        requires
            self.wf(),
        ensures
            r == self.order().len(),
    {
        self.keys.len()
    }

    /// Where `key` stands, or where it would stand: every key before it comes
    /// before `key`, and no key from there on does.
    fn position(&self, key: &str) -> (r: usize)
        requires
            self.wf(),
        ensures
            r <= self.keys@.len(),
            forall|i: int| 0 <= i < r ==> text_lt(#[trigger] texts(self.keys@)[i], key@),
            forall|i: int| r <= i < self.keys@.len() ==> !text_lt(#[trigger] texts(self.keys@)[i], key@),
    {
        let ghost ks = texts(self.keys@);
        let mut i: usize = 0;
        while i < self.keys.len() && comes_before(self.keys[i].as_str(), key)
            invariant
                self.wf(),
                ks == texts(self.keys@),
                i <= self.keys.len(),
                forall|k: int| 0 <= k < i ==> text_lt(#[trigger] ks[k], key@),
            decreases self.keys.len() - i,
        {
            assert(ks[i as int] == self.keys@[i as int]@);
            i += 1;
        }
        assert forall|k: int| i <= k < ks.len() implies !text_lt(#[trigger] ks[k], key@) by {
            assert(ks[i as int] == self.keys@[i as int]@);
            if text_lt(ks[k], key@) && k > i {
                assert(text_lt(ks[i as int], ks[k]));
                lemma_text_lt_transitive(ks[i as int], ks[k], key@);
            }
        }
        i
    }

    /// The position of `key`, if the map has it.
    pub fn find(&self, key: &str) -> (r: Option<usize>)
        requires
            self.wf(),
        ensures
            r is Some == self@.dom().contains(key@),
            r matches Some(i) ==> i < self.keys@.len() && texts(self.keys@)[i as int] == key@
                && self@[key@] == self.values@[i as int],
    {
        let at = self.position(key);
        let ghost ks = texts(self.keys@);
        proof {
            self.lemma_walk();
        }
        if at < self.keys.len() && same(self.keys[at].as_str(), key) {
            assert(ks[at as int] == key@);
            return Some(at);
        }
        assert(!ks.contains(key@)) by {
            if ks.contains(key@) {
                let j = choose|j: int| 0 <= j < ks.len() && ks[j] == key@;
                lemma_text_lt_irreflexive(key@);
                assert(j >= at);
                assert(ks[at as int] == self.keys@[at as int]@);
                assert(j != at);
                assert(text_lt(ks[at as int], ks[j]));
            }
        }
        None
    }

    /// The value of `key`.
    pub fn get(&self, key: &str) -> (r: Option<&V>)
        requires
            self.wf(),
        ensures
            r is Some == self@.dom().contains(key@),
            r matches Some(v) ==> *v == self@[key@],
    {
        match self.find(key) {
            Some(i) => Some(&self.values[i]),
            None => None,
        }
    }

    /// Map `key` to `value`, in place of any value it had.
    pub fn insert(&mut self, key: String, value: V)
        requires
            old(self).wf(),
        ensures
            final(self).wf(),
            final(self)@ == old(self)@.insert(key@, value),
            old(self)@.dom().contains(key@) ==> final(self).order() == old(self).order(),
            !old(self)@.dom().contains(key@) ==> final(self).order().len() == old(
                self,
            ).order().len() + 1,
    {
        let ghost ks = texts(self.keys@);
        let ghost vs = self.values@;
        proof {
            self.lemma_walk();
        }
        match self.find(key.as_str()) {
            Some(i) => {
                proof {
                    lemma_paired_update(ks, vs, i as int, value);
                }
                self.values.set(i, value);
            },
            None => {
                let at = self.position(key.as_str());
                let ghost k = key@;
                proof {
                    lemma_paired_insert(ks, vs, at as int, k, value);
                }
                self.keys.insert(at, key);
                self.values.insert(at, value);
                let ghost nk = texts(self.keys@);
                assert(nk =~= ks.insert(at as int, k));
                assert forall|i: int, j: int| 0 <= i < j < nk.len() implies text_lt(
                    #[trigger] nk[i],
                    #[trigger] nk[j],
                ) by {
                    if j < at {
                        assert(nk[i] == ks[i] && nk[j] == ks[j]);
                    } else if j == at {
                        assert(nk[i] == ks[i]);
                    } else if i < at {
                        assert(nk[i] == ks[i] && nk[j] == ks[j - 1]);
                    } else if i == at {
                        assert(nk[j] == ks[j - 1]);
                        assert(!text_lt(ks[j - 1], k));
                        lemma_text_lt_total(ks[j - 1], k);
                        assert(ks.contains(ks[j - 1]));
                    } else {
                        assert(nk[i] == ks[i - 1] && nk[j] == ks[j - 1]);
                    }
                }
            },
        }
    }

    /// Take `key` and its value out of the map.
    pub fn remove(&mut self, key: &str) -> (r: Option<V>)
        requires
            old(self).wf(),
        ensures
            final(self).wf(),
            final(self)@ == old(self)@.remove(key@),
            r is Some == old(self)@.dom().contains(key@),
            r matches Some(v) ==> v == old(self)@[key@],
            r is None ==> final(self).order() == old(self).order(),
            r is Some ==> final(self).order().len() + 1 == old(self).order().len(),
    {
        let ghost ks = texts(self.keys@);
        let ghost vs = self.values@;
        proof {
            self.lemma_walk();
        }
        match self.find(key) {
            Some(i) => {
                proof {
                    lemma_paired_remove(ks, vs, i as int);
                }
                let _ = self.keys.remove(i);
                let v = self.values.remove(i);
                let ghost nk = texts(self.keys@);
                assert(nk =~= ks.remove(i as int));
                assert forall|a: int, b: int| 0 <= a < b < nk.len() implies text_lt(
                    #[trigger] nk[a],
                    #[trigger] nk[b],
                ) by {
                    let oa = if a < i {
                        a
                    } else {
                        a + 1
                    };
                    let ob = if b < i {
                        b
                    } else {
                        b + 1
                    };
                    assert(nk[a] == ks[oa] && nk[b] == ks[ob]);
                }
                Some(v)
            },
            None => {
                assert(self@ =~= self@.remove(key@));
                None
            },
        }
    }
}

} // verus!
