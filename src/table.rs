use vstd::prelude::*;
use crate::models::{lapsed, ExpirationWrapper, ExpiringView};

verus! {

/// A keyed collection of records with at most one record per key.
///
/// Its view is a finite map from the key's characters to the record's view.
pub struct Table<T> {
    rows: Vec<(String, T)>,
}

/// The keys of `rows` are pairwise distinct.
pub open spec fn keys_distinct<T>(rows: Seq<(String, T)>) -> bool {
    forall|i: int, j: int|
        0 <= i < rows.len() && 0 <= j < rows.len() && i != j ==> #[trigger] rows[i].0@
            != #[trigger] rows[j].0@
}

/// `rows` lists exactly the entries of `m`, each once.
pub open spec fn rows_match<T: View>(rows: Seq<(String, T)>, m: Map<Seq<char>, T::V>) -> bool {
    &&& keys_distinct(rows)
    &&& forall|i: int|
        0 <= i < rows.len() ==> m.contains_key(#[trigger] rows[i].0@) && m[rows[i].0@]
            == rows[i].1@
    &&& forall|k: Seq<char>|
        #[trigger] m.contains_key(k) ==> exists|i: int| 0 <= i < rows.len() && rows[i].0@ == k
}

impl<T: View> View for Table<T> {
    type V = Map<Seq<char>, T::V>;

    closed spec fn view(&self) -> Map<Seq<char>, T::V> {
        Map::new(
            |k: Seq<char>| exists|i: int| 0 <= i < self.rows@.len() && self.rows@[i].0@ == k,
            |k: Seq<char>|
                self.rows@[choose|i: int| 0 <= i < self.rows@.len() && self.rows@[i].0@ == k].1@,
        )
    }
}

impl<T: View> Table<T> {
    /// The table is well formed: no key occurs twice.
    pub closed spec fn wf(&self) -> bool {
        keys_distinct(self.rows@)
    }

    proof fn lemma_rows_match(&self)
        requires
            self.wf(),
        ensures
            rows_match(self.rows@, self@),
            self@.dom().finite(),
            self@.len() == self.rows@.len(),
    {
        let rows = self.rows@;
        assert forall|i: int| 0 <= i < rows.len() implies self@.contains_key(
            #[trigger] rows[i].0@,
        ) && self@[rows[i].0@] == rows[i].1@ by {
            let k = rows[i].0@;
            assert(exists|j: int| 0 <= j < rows.len() && rows[j].0@ == k);
            let j = choose|j: int| 0 <= j < rows.len() && rows[j].0@ == k;
            assert(j == i);
        }
        let keys = rows.map_values(|r: (String, T)| r.0@);
        assert(self@.dom() =~= keys.to_set()) by {
            assert forall|k: Seq<char>| self@.dom().contains(k) implies keys.to_set().contains(k) by {
                let i = choose|i: int| 0 <= i < rows.len() && rows[i].0@ == k;
                assert(keys[i] == k);
            }
            assert forall|k: Seq<char>| keys.to_set().contains(k) implies self@.dom().contains(k) by {
                let i = choose|i: int| 0 <= i < keys.len() && keys[i] == k;
                assert(rows[i].0@ == k);
            }
        }
        assert(keys.no_duplicates()) by {
            assert forall|i: int, j: int|
                0 <= i < keys.len() && 0 <= j < keys.len() && i != j implies keys[i]
                != keys[j] by {
                assert(rows[i].0@ != rows[j].0@);
            }
        }
        keys.unique_seq_to_set();
    }

    /// An empty table.
    pub fn new() -> (r: Self)
        ensures
            r.wf(),
            r@ == Map::<Seq<char>, T::V>::empty(),
    {
        let r = Table { rows: Vec::new() };
        assert(r@ =~= Map::<Seq<char>, T::V>::empty());
        r
    }

    /// The records, each with its key, in an unspecified order.
    pub fn rows(&self) -> (r: &Vec<(String, T)>)
        requires
            self.wf(),
        ensures
            rows_match(r@, self@),
    {
        proof {
            self.lemma_rows_match();
        }
        &self.rows
    }

    /// The number of records.
    pub fn len(&self) -> (r: usize)
        requires
            self.wf(),
        ensures
            r == self@.len(),
            self@.dom().finite(),
    {
        proof {
            self.lemma_rows_match();
        }
        self.rows.len()
    }

    fn position(&self, k: &String) -> (r: Option<usize>)
        requires
            self.wf(),
        ensures
            r is None <==> !self@.contains_key(k@),
            r matches Some(i) ==> i < self.rows@.len() && self.rows@[i as int].0@ == k@,
    {
        proof {
            self.lemma_rows_match();
        }
        let mut i: usize = 0;
        while i < self.rows.len()
            invariant
                i <= self.rows@.len(),
                rows_match(self.rows@, self@),
                forall|j: int| 0 <= j < i ==> self.rows@[j].0@ != k@,
            decreases self.rows@.len() - i,
        {
            if self.rows[i].0 == *k {
                return Some(i);
            }
            i = i + 1;
        }
        None
    }

    /// The record under `k`, if any.
    pub fn get(&self, k: &String) -> (r: Option<&T>)
        requires
            self.wf(),
        ensures
            r is Some <==> self@.contains_key(k@),
            r matches Some(v) ==> v@ == self@[k@],
    {
        proof {
            self.lemma_rows_match();
        }
        match self.position(k) {
            Some(i) => Some(&self.rows[i].1),
            None => None,
        }
    }

    /// Puts `v` under `k`, replacing any record that was there.
    pub fn insert(&mut self, k: String, v: T)
        requires
            old(self).wf(),
        ensures
            final(self).wf(),
            final(self)@ == old(self)@.insert(k@, v@),
    {
        proof {
            self.lemma_rows_match();
        }
        let ghost before = self@;
        let ghost kv = k@;
        let ghost at: int;
        match self.position(&k) {
            Some(i) => {
                self.rows.set(i, (k, v));
                proof {
                    at = i as int;
                }
            },
            None => {
                self.rows.push((k, v));
                proof {
                    at = self.rows@.len() - 1;
                }
            },
        }
        proof {
            self.lemma_rows_match();
            let after = self@;
            assert forall|key: Seq<char>| #[trigger] after.contains_key(key) implies before.insert(
                kv,
                v@,
            ).contains_key(key) && after[key] == before.insert(kv, v@)[key] by {
                let j = choose|j: int| 0 <= j < self.rows@.len() && self.rows@[j].0@ == key;
                if key != kv {
                    assert(before.contains_key(key));
                }
            }
            assert forall|key: Seq<char>| #[trigger] before.insert(kv, v@).contains_key(
                key,
            ) implies after.contains_key(key) by {
                if key != kv {
                    let j = choose|j: int| 0 <= j < old(self).rows@.len() && old(self).rows@[j].0@ == key;
                    assert(self.rows@[j].0@ == key);
                } else {
                    assert(self.rows@[at].0@ == key);
                }
            }
            assert(after =~= before.insert(kv, v@));
        }
    }

    /// Takes out the record under `k`, if any.
    pub fn remove(&mut self, k: &String) -> (r: Option<T>)
        requires
            old(self).wf(),
        ensures
            final(self).wf(),
            final(self)@ == old(self)@.remove(k@),
            r is Some <==> old(self)@.contains_key(k@),
            r matches Some(v) ==> v@ == old(self)@[k@],
    {
        proof {
            self.lemma_rows_match();
        }
        let ghost before = self@;
        match self.position(k) {
            Some(i) => {
                let (_key, v) = self.rows.remove(i);
                proof {
                    self.lemma_rows_match();
                    let after = self@;
                    assert forall|key: Seq<char>| #[trigger] after.contains_key(key) implies before.remove(
                        k@,
                    ).contains_key(key) && after[key] == before[key] by {
                        let j = choose|j: int| 0 <= j < self.rows@.len() && self.rows@[j].0@ == key;
                        if j < i {
                            assert(self.rows@[j] == old(self).rows@[j]);
                        } else {
                            assert(self.rows@[j] == old(self).rows@[j + 1]);
                        }
                    }
                    assert forall|key: Seq<char>| #[trigger] before.remove(k@).contains_key(
                        key,
                    ) implies after.contains_key(key) by {
                        let j = choose|j: int| 0 <= j < old(self).rows@.len() && old(self).rows@[j].0@ == key;
                        if j < i {
                            assert(self.rows@[j] == old(self).rows@[j]);
                        } else {
                            assert(self.rows@[j - 1] == old(self).rows@[j]);
                        }
                    }
                    assert(after =~= before.remove(k@));
                }
                Some(v)
            },
            None => {
                assert(self@ =~= before.remove(k@));
                None
            },
        }
    }
}

/// The keys of the records of `m` that have lapsed at `now`.
pub open spec fn lapsed_in<V>(m: Map<Seq<char>, ExpiringView<V>>, now: u64) -> Set<Seq<char>> {
    Set::new(|k: Seq<char>| m.contains_key(k) && lapsed(m[k].expires_at, now))
}

/// The records of `m` that have not lapsed at `now`.
pub open spec fn unlapsed<V>(m: Map<Seq<char>, ExpiringView<V>>, now: u64) -> Map<Seq<char>, ExpiringView<V>> {
    m.remove_keys(lapsed_in(m, now))
}

impl<U: View> Table<ExpirationWrapper<U>> {
    /// Removes every record that has lapsed at `now`.
    pub fn remove_lapsed(&mut self, now: u64)
        requires
            old(self).wf(),
        ensures
            final(self).wf(),
            final(self)@ == unlapsed(old(self)@, now),
    {
        proof {
            self.lemma_rows_match();
        }
        let ghost before = self@;
        let mut expired: Vec<String> = Vec::new();
        let mut i: usize = 0;
        while i < self.rows.len()
            invariant
                self@ == before,
                self.wf(),
                rows_match(self.rows@, before),
                i <= self.rows@.len(),
                forall|j: int|
                    0 <= j < expired@.len() ==> lapsed_in(before, now).contains(#[trigger] expired@[j]@),
                forall|m: int|
                    0 <= m < i && lapsed(#[trigger] self.rows@[m].1.expires_at, now) ==> exists|j: int|
                        0 <= j < expired@.len() && expired@[j]@ == self.rows@[m].0@,
                forall|a: int, b: int|
                    0 <= a < expired@.len() && 0 <= b < expired@.len() && a != b ==> expired@[a]@
                        != expired@[b]@,
                forall|j: int|
                    0 <= j < expired@.len() ==> exists|m: int|
                        0 <= m < i && self.rows@[m].0@ == #[trigger] expired@[j]@,
            decreases self.rows@.len() - i,
        {
            let ghost before_expired = expired@;
            if self.rows[i].1.is_expired(now) {
                proof {
                    let k = self.rows@[i as int].0@;
                    assert(before.contains_key(k) && before[k] == self.rows@[i as int].1@);
                    assert forall|j: int| 0 <= j < expired@.len() implies expired@[j]@ != k by {
                        let m = choose|m: int| 0 <= m < i && self.rows@[m].0@ == expired@[j]@;
                        assert(self.rows@[m].0@ != self.rows@[i as int].0@);
                    }
                }
                expired.push(self.rows[i].0.clone());
            }
            proof {
                assert forall|j: int| 0 <= j < expired@.len() implies exists|m: int|
                    0 <= m < i + 1 && self.rows@[m].0@ == #[trigger] expired@[j]@ by {
                    if j < before_expired.len() {
                        assert(expired@[j] == before_expired[j]);
                        let m = choose|m: int| 0 <= m < i && self.rows@[m].0@ == before_expired[j]@;
                        assert(0 <= m < i + 1);
                    } else {
                        assert(self.rows@[i as int].0@ == expired@[j]@);
                    }
                }
                assert forall|m: int|
                    0 <= m < i + 1 && lapsed(#[trigger] self.rows@[m].1.expires_at, now) implies exists|
                    j: int,
                | 0 <= j < expired@.len() && expired@[j]@ == self.rows@[m].0@ by {
                    if m < i {
                        let j = choose|j: int|
                            0 <= j < before_expired.len() && before_expired[j]@ == self.rows@[m].0@;
                        assert(expired@[j] == before_expired[j]);
                    } else {
                        assert(expired@.len() > before_expired.len());
                        assert(expired@[expired@.len() - 1]@ == self.rows@[m].0@);
                    }
                }
            }
            i = i + 1;
        }
        let ghost all = lapsed_in(before, now);
        proof {
            assert forall|k: Seq<char>| #[trigger] all.contains(k) implies exists|j: int|
                0 <= j < expired@.len() && expired@[j]@ == k by {
                let m = choose|m: int| 0 <= m < self.rows@.len() && self.rows@[m].0@ == k;
                assert(before[k] == self.rows@[m].1@);
                assert(lapsed(self.rows@[m].1.expires_at, now));
            }
            assert(expired@.subrange(0, 0).map_values(|s: String| s@).to_set() =~= Set::empty());
            assert(before.remove_keys(Set::empty()) =~= before);
        }
        let mut j: usize = 0;
        while j < expired.len()
            invariant
                self.wf(),
                all == lapsed_in(before, now),
                j <= expired@.len(),
                forall|a: int| 0 <= a < expired@.len() ==> all.contains(#[trigger] expired@[a]@),
                forall|a: int, b: int|
                    0 <= a < expired@.len() && 0 <= b < expired@.len() && a != b ==> expired@[a]@
                        != expired@[b]@,
                self@ == before.remove_keys(
                    expired@.subrange(0, j as int).map_values(|s: String| s@).to_set(),
                ),
            decreases expired@.len() - j,
        {
            let ghost gone = expired@.subrange(0, j as int).map_values(|s: String| s@).to_set();
            let ghost k = expired@[j as int]@;
            proof {
                let p = expired@.subrange(0, j as int).map_values(|s: String| s@);
                let q = expired@.subrange(0, j + 1).map_values(|s: String| s@);
                assert(q =~= p.push(k));
                assert(q.to_set() =~= gone.insert(k)) by {
                    assert forall|x: Seq<char>| q.to_set().contains(x) implies gone.insert(k).contains(x) by {
                        let a = choose|a: int| 0 <= a < q.len() && q[a] == x;
                        if a < j {
                            assert(p[a] == x);
                        }
                    }
                    assert forall|x: Seq<char>| gone.insert(k).contains(x) implies q.to_set().contains(x) by {
                        if x == k {
                            assert(q[j as int] == x);
                        } else {
                            let a = choose|a: int| 0 <= a < p.len() && p[a] == x;
                            assert(q[a] == x);
                        }
                    }
                }
                assert(before.remove_keys(gone).remove(k) =~= before.remove_keys(gone.insert(k)));
            }
            self.remove(&expired[j]);
            j = j + 1;
        }
        proof {
            let ks = expired@.map_values(|s: String| s@);
            let gone = expired@.subrange(0, j as int).map_values(|s: String| s@).to_set();
            assert(gone =~= all) by {
                assert(expired@.subrange(0, j as int) =~= expired@);
                assert forall|x: Seq<char>| gone.contains(x) implies all.contains(x) by {
                    let a = choose|a: int| 0 <= a < ks.len() && #[trigger] ks[a] == x;
                    assert(all.contains(expired@[a]@));
                }
                assert forall|x: Seq<char>| all.contains(x) implies gone.contains(x) by {
                    let a = choose|a: int| 0 <= a < expired@.len() && expired@[a]@ == x;
                    assert(ks[a] == x);
                }
            }
        }
    }
}

} // verus!
