//! A map from text to values, held as rows in the order of their keys.

use vstd::prelude::*;

use crate::text::{lemma_text_lt_total, lemma_text_lt_transitive, order, text_lt, Order};

verus! {

/// Whether the keys stand in strictly increasing order.
pub open spec fn sorted(keys: Seq<Seq<char>>) -> bool {
    forall|i: int, j: int| 0 <= i < j < keys.len() ==> text_lt(#[trigger] keys[i], #[trigger] keys[j])
}

/// Whether `keys` is the list of the keys of `m`, each once and in increasing order.
pub open spec fn lists_keys<T>(keys: Seq<Seq<char>>, m: Map<Seq<char>, T>) -> bool {
    &&& sorted(keys)
    &&& forall|k: Seq<char>| #[trigger] keys.contains(k) <==> m.contains_key(k)
}

/// Those of some keys that are wanted, and no others, stand in the part of them that is wanted,
/// and in the same order.
pub proof fn lemma_wanted_keys(keys: Seq<Seq<char>>, wanted: spec_fn(Seq<char>) -> bool)
    requires
        sorted(keys),
    ensures
        sorted(keys.filter(wanted)),
        forall|k: Seq<char>| #[trigger]
            keys.filter(wanted).contains(k) <==> keys.contains(k) && wanted(k),
    decreases keys.len(),
{
    reveal(Seq::filter);
    if keys.len() > 0 {
        let front = keys.drop_last();
        let part = keys.filter(wanted);
        let n = keys.len() - 1;
        lemma_wanted_keys(front, wanted);
        assert forall|i: int, j: int| 0 <= i < j < part.len() implies text_lt(
            #[trigger] part[i],
            #[trigger] part[j],
        ) by {
            if j >= front.filter(wanted).len() {
                assert(front.filter(wanted).contains(part[i]));
                let k = choose|k: int| 0 <= k < front.len() && front[k] == part[i];
                assert(text_lt(keys[k], keys[n]));
            }
        }
        assert forall|k: Seq<char>| #[trigger] part.contains(k) <==> keys.contains(k) && wanted(
            k,
        ) by {
            if part.contains(k) {
                let i = choose|i: int| 0 <= i < part.len() && part[i] == k;
                if i < front.filter(wanted).len() {
                    assert(front.filter(wanted)[i] == k);
                    assert(front.filter(wanted).contains(k));
                    let x = choose|x: int| 0 <= x < front.len() && front[x] == k;
                    assert(keys[x] == k);
                } else {
                    assert(keys[n] == k);
                }
            }
            if keys.contains(k) && wanted(k) {
                let x = choose|x: int| 0 <= x < keys.len() && keys[x] == k;
                if x < n {
                    assert(front[x] == k);
                    assert(front.filter(wanted).contains(k));
                    let i = choose|i: int|
                        0 <= i < front.filter(wanted).len() && front.filter(wanted)[i] == k;
                    assert(part[i] == k);
                } else {
                    assert(part[part.len() - 1] == k);
                }
            }
        }
    }
}

/// The list of the keys of a map in increasing order is unique.
pub proof fn lemma_lists_keys_unique<T>(a: Seq<Seq<char>>, b: Seq<Seq<char>>, m: Map<Seq<char>, T>)
    requires
        lists_keys(a, m),
        lists_keys(b, m),
    ensures
        a == b,
    decreases a.len(),
{
    if a.len() == 0 {
        if b.len() > 0 {
            assert(b.contains(b[0]));
            assert(a.contains(b[0]));
        }
        assert(a =~= b);
    } else {
        assert(a.contains(a.last()));
        assert(b.contains(a.last()));
        let j = choose|j: int| 0 <= j < b.len() && b[j] == a.last();
        assert(b.contains(b.last()));
        assert(a.contains(b.last()));
        let i = choose|i: int| 0 <= i < a.len() && a[i] == b.last();
        lemma_text_lt_total(a.last(), b.last());
        assert(a.last() == b.last());
        let k = a.last();
        let rest = m.remove(k);
        assert(lists_keys(a.drop_last(), rest)) by {
            lemma_listing_drop_last(a, m);
        }
        assert(lists_keys(b.drop_last(), rest)) by {
            lemma_listing_drop_last(b, m);
        }
        lemma_lists_keys_unique(a.drop_last(), b.drop_last(), rest);
        assert(a =~= a.drop_last().push(k));
        assert(b =~= b.drop_last().push(k));
    }
}

proof fn lemma_listing_drop_last<T>(a: Seq<Seq<char>>, m: Map<Seq<char>, T>)
    requires
        lists_keys(a, m),
        a.len() > 0,
    ensures
        lists_keys(a.drop_last(), m.remove(a.last())),
{
    let d = a.drop_last();
    assert forall|k: Seq<char>| #[trigger] d.contains(k) <==> m.remove(a.last()).contains_key(k) by {
        if d.contains(k) {
            let i = choose|i: int| 0 <= i < d.len() && d[i] == k;
            assert(a[i] == k);
            assert(a.contains(k));
            lemma_text_lt_total(a[i], a.last());
        }
        if m.remove(a.last()).contains_key(k) {
            assert(a.contains(k));
            let i = choose|i: int| 0 <= i < a.len() && a[i] == k;
            assert(i < d.len());
            assert(d[i] == k);
        }
    }
}

/// Rows of a text key and a value, in the order of the keys.
pub struct Table<V> {
    rows: Vec<(String, V)>,
}

impl<V: View> View for Table<V> {
    type V = Map<Seq<char>, V::V>;

    closed spec fn view(&self) -> Map<Seq<char>, V::V> {
        Map::new(
            |k: Seq<char>| self.keys().contains(k),
            |k: Seq<char>| self.rows@[self.keys().index_of(k)].1@,
        )
    }
}

impl<V: View> Table<V> {
    /// The keys, in increasing order.
    pub closed spec fn keys(&self) -> Seq<Seq<char>> {
        Seq::new(self.rows@.len(), |i: int| self.rows@[i].0@)
    }

    /// Each key occurs once, and the rows stand in the order of the keys.
    pub closed spec fn wf(&self) -> bool {
        sorted(self.keys())
    }

    proof fn lemma_at(&self, i: int)
        requires
            self.wf(),
            0 <= i < self.rows@.len(),
        ensures
            self@.contains_key(self.keys()[i]),
            self@[self.keys()[i]] == self.rows@[i].1@,
    {
        let k = self.keys()[i];
        assert(self.keys().contains(k));
        let j = self.keys().index_of(k);
        assert(0 <= j < self.keys().len() && self.keys()[j] == k);
        lemma_text_lt_total(k, k);
        if j != i {
            assert(false);
        }
    }

    /// The keys of a table are the listing of its map.
    pub proof fn lemma_keys(&self)
        requires
            self.wf(),
        ensures
            lists_keys(self.keys(), self@),
            forall|i: int| 0 <= i < self.keys().len() ==> self@.contains_key(#[trigger] self.keys()[i]),
    {
        assert forall|i: int| 0 <= i < self.keys().len() implies self@.contains_key(
            #[trigger] self.keys()[i],
        ) by {
            self.lemma_at(i);
        }
    }

    /// An empty table.
    pub fn new() -> (r: Table<V>)
        ensures
            r.wf(),
            r@ == Map::<Seq<char>, V::V>::empty(),
            r.keys().len() == 0,
    {
        let r = Table { rows: Vec::new() };
        assert(r@ =~= Map::<Seq<char>, V::V>::empty());
        r
    }

    /// The number of rows.
    pub fn len(&self) -> (n: usize)
        ensures
            n == self.keys().len(),
    {
        self.rows.len()
    }

    /// The first row whose key is not less than `key`, and whether it has that key.
    fn find(&self, key: &str) -> (r: (usize, bool))
        requires
            self.wf(),
        ensures
            r.0 <= self.rows@.len(),
            forall|j: int| 0 <= j < r.0 ==> text_lt(#[trigger] self.keys()[j], key@),
            forall|j: int| r.0 <= j < self.rows@.len() && !(r.1 && j == r.0) ==> text_lt(
                key@,
                #[trigger] self.keys()[j],
            ),
            r.1 ==> r.0 < self.rows@.len() && self.keys()[r.0 as int] == key@,
            r.1 == self@.contains_key(key@),
    {
        let mut i: usize = 0;
        while i < self.rows.len()
            invariant
                self.wf(),
                i <= self.rows@.len(),
                forall|j: int| 0 <= j < i ==> text_lt(#[trigger] self.keys()[j], key@),
            decreases self.rows.len() - i,
        {
            match order(self.rows[i].0.as_str(), key) {
                Order::Less => {
                    assert(text_lt(self.keys()[i as int], key@));
                    i = i + 1;
                },
                Order::Equal => {
                    assert(self.keys()[i as int] == key@);
                    proof {
                        self.lemma_at(i as int);
                    }
                    return (i, true);
                },
                Order::Greater => {
                    proof {
                        assert(text_lt(key@, self.keys()[i as int]));
                        assert forall|j: int| i <= j < self.rows@.len() implies text_lt(
                            key@,
                            #[trigger] self.keys()[j],
                        ) by {
                            if j > i {
                                lemma_text_lt_transitive(
                                    key@,
                                    self.keys()[i as int],
                                    self.keys()[j],
                                );
                            }
                        }
                        self.lemma_absent(i as int, key@);
                    }
                    return (i, false);
                },
            }
        }
        proof {
            self.lemma_absent(i as int, key@);
        }
        (i, false)
    }

    proof fn lemma_absent(&self, i: int, key: Seq<char>)
        requires
            0 <= i <= self.rows@.len(),
            forall|j: int| 0 <= j < i ==> text_lt(#[trigger] self.keys()[j], key),
            forall|j: int| i <= j < self.rows@.len() ==> text_lt(key, #[trigger] self.keys()[j]),
        ensures
            !self@.contains_key(key),
    {
        lemma_text_lt_total(key, key);
        if self.keys().contains(key) {
            let j = self.keys().index_of(key);
            assert(0 <= j < self.keys().len() && self.keys()[j] == key);
            assert(false);
        }
    }

    /// Whether there is a row with this key.
    pub fn contains_key(&self, key: &str) -> (r: bool)
        requires
            self.wf(),
        ensures
            r == self@.contains_key(key@),
    {
        self.find(key).1
    }

    /// The value of the row with this key.
    pub fn get(&self, key: &str) -> (r: Option<&V>)
        requires
            self.wf(),
        ensures
            match r {
                Some(v) => self@.contains_key(key@) && v@ == self@[key@],
                None => !self@.contains_key(key@),
            },
    {
        let (i, found) = self.find(key);
        if found {
            proof {
                self.lemma_at(i as int);
            }
            Some(&self.rows[i].1)
        } else {
            None
        }
    }

    proof fn lemma_same_keys(a: &Table<V>, b: &Table<V>, i: int)
        requires
            a.wf(),
            0 <= i < a.rows@.len(),
            b.rows@.len() == a.rows@.len(),
            forall|j: int| 0 <= j < a.rows@.len() ==> #[trigger] b.rows@[j].0 == a.rows@[j].0,
            forall|j: int|
                0 <= j < a.rows@.len() && j != i ==> #[trigger] b.rows@[j].1 == a.rows@[j].1,
        ensures
            b.wf(),
            b.keys() == a.keys(),
            b@ == a@.insert(a.keys()[i], b.rows@[i].1@),
    {
        assert(b.keys() =~= a.keys());
        assert forall|k: Seq<char>| #[trigger] b@.contains_key(k) implies b@[k] == a@.insert(
            a.keys()[i],
            b.rows@[i].1@,
        )[k] by {
            let j = b.keys().index_of(k);
            assert(b.keys().contains(k));
            assert(0 <= j < b.keys().len() && b.keys()[j] == k);
            a.lemma_at(j);
            b.lemma_at(j);
            b.lemma_at(i);
        }
        a.lemma_at(i);
        assert(b@.dom() =~= a@.insert(a.keys()[i], b.rows@[i].1@).dom());
        assert(b@ =~= a@.insert(a.keys()[i], b.rows@[i].1@));
    }

    /// The value of the row with this key, to be changed in place.
    pub fn get_mut(&mut self, key: &str) -> (r: Option<&mut V>)
        requires
            old(self).wf(),
        ensures
            match r {
                Some(v) => {
                    &&& old(self)@.contains_key(key@)
                    &&& v@ == old(self)@[key@]
                    &&& final(self).wf()
                    &&& final(self)@ == old(self)@.insert(key@, final(v)@)
                    &&& final(self).keys() == old(self).keys()
                },
                None => !old(self)@.contains_key(key@) && *final(self) == *old(self),
            },
    {
        let (i, found) = self.find(key);
        if found {
            proof {
                self.lemma_at(i as int);
                assert forall|b: Table<V>|
                    {
                        &&& b.rows@.len() == self.rows@.len()
                        &&& forall|j: int|
                            0 <= j < self.rows@.len() ==> #[trigger] b.rows@[j].0
                                == self.rows@[j].0
                        &&& forall|j: int|
                            0 <= j < self.rows@.len() && j != i ==> #[trigger] b.rows@[j].1
                                == self.rows@[j].1
                    } implies #[trigger] b.wf() && b.keys() == self.keys() && b@ == self@.insert(
                    self.keys()[i as int],
                    b.rows@[i as int].1@,
                ) by {
                    Self::lemma_same_keys(self, &b, i as int);
                }
            }
            Some(&mut self.rows[i].1)
        } else {
            None
        }
    }

    /// Sets the value of a key. Gives back the value that it had.
    pub fn insert(&mut self, key: String, value: V) -> (r: Option<V>)
        requires
            old(self).wf(),
        ensures
            final(self).wf(),
            final(self)@ == old(self)@.insert(key@, value@),
            match r {
                Some(v) => old(self)@.contains_key(key@) && v@ == old(self)@[key@],
                None => !old(self)@.contains_key(key@),
            },
    {
        let (i, found) = self.find(key.as_str());
        let ghost before = *self;
        let ghost k = key@;
        if found {
            proof {
                before.lemma_at(i as int);
            }
            let (_, prior) = self.rows.remove(i);
            self.rows.insert(i, (key, value));
            proof {
                let a = before.keys();
                assert(self.keys() =~= a);
                assert forall|q: Seq<char>| #[trigger] self@.contains_key(q) implies self@[q]
                    == before@.insert(k, value@)[q] by {
                    let j = self.keys().index_of(q);
                    assert(self.keys().contains(q));
                    assert(0 <= j < self.keys().len() && self.keys()[j] == q);
                    before.lemma_at(j);
                    self.lemma_at(j);
                    self.lemma_at(i as int);
                }
                assert(self@ =~= before@.insert(k, value@));
            }
            Some(prior)
        } else {
            self.rows.insert(i, (key, value));
            proof {
                let a = before.keys();
                let b = self.keys();
                assert(b =~= a.insert(i as int, k));
                assert forall|x: int, y: int| 0 <= x < y < b.len() implies text_lt(
                    #[trigger] b[x],
                    #[trigger] b[y],
                ) by {
                    let x0 = if x < i {
                        x
                    } else {
                        x - 1
                    };
                    let y0 = if y < i {
                        y
                    } else {
                        y - 1
                    };
                    if x == i {
                        assert(b[y] == a[y0]);
                    } else if y == i {
                        assert(b[x] == a[x0]);
                    } else {
                        assert(b[x] == a[x0] && b[y] == a[y0]);
                    }
                }
                assert(self.wf());
                self.lemma_at(i as int);
                assert(b[i as int] == k);
                assert forall|q: Seq<char>| self@.contains_key(q) <==> #[trigger] before@.insert(
                    k,
                    value@,
                ).contains_key(q) by {
                    if before@.contains_key(q) {
                        let j = a.index_of(q);
                        assert(a.contains(q));
                        assert(0 <= j < a.len() && a[j] == q);
                        if j < i {
                            assert(b[j] == q);
                        } else {
                            assert(b[j + 1] == q);
                        }
                        assert(b.contains(q));
                    }
                    if self@.contains_key(q) && q != k {
                        let j = b.index_of(q);
                        assert(b.contains(q));
                        assert(0 <= j < b.len() && b[j] == q);
                        if j < i {
                            assert(a[j] == q);
                        } else {
                            assert(a[j - 1] == q);
                        }
                        assert(a.contains(q));
                    }
                }
                assert forall|q: Seq<char>| #[trigger] self@.contains_key(q) implies self@[q]
                    == before@.insert(k, value@)[q] by {
                    let j = b.index_of(q);
                    assert(b.contains(q));
                    assert(0 <= j < b.len() && b[j] == q);
                    self.lemma_at(j);
                    if j < i {
                        before.lemma_at(j);
                        assert(a[j] == q);
                        lemma_text_lt_total(q, k);
                    } else if j > i {
                        before.lemma_at(j - 1);
                        assert(a[j - 1] == q);
                        lemma_text_lt_total(q, k);
                    }
                }
                assert(self@ =~= before@.insert(k, value@));
            }
            None
        }
    }

    /// Removes the row with this key. Gives back its value.
    pub fn remove(&mut self, key: &str) -> (r: Option<V>)
        requires
            old(self).wf(),
        ensures
            final(self).wf(),
            final(self)@ == old(self)@.remove(key@),
            match r {
                Some(v) => old(self)@.contains_key(key@) && v@ == old(self)@[key@],
                None => !old(self)@.contains_key(key@),
            },
    {
        let (i, found) = self.find(key);
        let ghost before = *self;
        if found {
            proof {
                before.lemma_at(i as int);
            }
            let (_, prior) = self.rows.remove(i);
            proof {
                let k = key@;
                let a = before.keys();
                let b = self.keys();
                assert(b =~= a.remove(i as int));
                assert forall|x: int, y: int| 0 <= x < y < b.len() implies text_lt(
                    #[trigger] b[x],
                    #[trigger] b[y],
                ) by {
                    let x0 = if x < i {
                        x
                    } else {
                        x + 1
                    };
                    let y0 = if y < i {
                        y
                    } else {
                        y + 1
                    };
                    assert(b[x] == a[x0] && b[y] == a[y0]);
                }
                assert(self.wf());
                assert forall|q: Seq<char>| self@.contains_key(q) <==> #[trigger] before@.remove(
                    k,
                ).contains_key(q) by {
                    if before@.contains_key(q) && q != k {
                        let j = a.index_of(q);
                        assert(a.contains(q));
                        assert(0 <= j < a.len() && a[j] == q);
                        if j < i {
                            assert(b[j] == q);
                        } else {
                            assert(b[j - 1] == q);
                        }
                        assert(b.contains(q));
                    }
                    if self@.contains_key(q) {
                        let j = b.index_of(q);
                        assert(b.contains(q));
                        assert(0 <= j < b.len() && b[j] == q);
                        let j0 = if j < i {
                            j
                        } else {
                            j + 1
                        };
                        assert(a[j0] == q);
                        assert(a.contains(q));
                        lemma_text_lt_total(q, k);
                    }
                }
                assert forall|q: Seq<char>| #[trigger] self@.contains_key(q) implies self@[q]
                    == before@.remove(k)[q] by {
                    let j = b.index_of(q);
                    assert(b.contains(q));
                    assert(0 <= j < b.len() && b[j] == q);
                    self.lemma_at(j);
                    let j0 = if j < i {
                        j
                    } else {
                        j + 1
                    };
                    before.lemma_at(j0);
                    assert(a[j0] == q);
                    lemma_text_lt_total(q, k);
                }
                assert(self@ =~= before@.remove(k));
            }
            Some(prior)
        } else {
            assert(self@ =~= before@.remove(key@));
            None
        }
    }

    /// The key of the `i`-th row.
    pub fn key_at(&self, i: usize) -> (r: &String)
        requires
            self.wf(),
            i < self.keys().len(),
        ensures
            r@ == self.keys()[i as int],
            self@.contains_key(r@),
    {
        proof {
            self.lemma_at(i as int);
        }
        &self.rows[i].0
    }

    /// The value of the `i`-th row.
    pub fn value_at(&self, i: usize) -> (r: &V)
        requires
            self.wf(),
            i < self.keys().len(),
        ensures
            self@.contains_key(self.keys()[i as int]),
            r@ == self@[self.keys()[i as int]],
    {
        proof {
            self.lemma_at(i as int);
        }
        &self.rows[i].1
    }
}

} // verus!
