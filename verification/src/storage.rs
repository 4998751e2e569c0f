//! The storage container shared by all pallets: an association list from
//! `String` keys to values, viewed abstractly as a `Map` from the key's
//! character sequence to the value's view.

use vstd::prelude::*;

verus! {

/// True when some entry of `s` has `k` as the view of its key.
spec fn has_entry<V>(s: Seq<(String, V)>, k: Seq<char>) -> bool {
    exists|i: int| 0 <= i < s.len() && (#[trigger] s[i]).0@ == k
}

/// An index of `s` whose entry has `k` as the view of its key, if one exists.
spec fn entry_index<V>(s: Seq<(String, V)>, k: Seq<char>) -> int {
    choose|i: int| 0 <= i < s.len() && (#[trigger] s[i]).0@ == k
}

/// The mapping that the entries of `s` describe, with the last word going to
/// the entry that `entry_index` picks (irrelevant once keys are distinct).
spec fn entry_map<V: View>(s: Seq<(String, V)>) -> Map<Seq<char>, <V as View>::V> {
    Map::new(|k: Seq<char>| has_entry(s, k), |k: Seq<char>| s[entry_index(s, k)].1@)
}

/// No two entries of `s` share a key.
spec fn distinct_keys<V>(s: Seq<(String, V)>) -> bool {
    forall|i: int, j: int|
        0 <= i < j < s.len() ==> (#[trigger] s[i]).0@ != (#[trigger] s[j]).0@
}

/// A key-value store from `String` keys to values of type `V`.
#[derive(Debug)]
pub struct StorageMap<V> {
    entries: Vec<(String, V)>,
}

impl<V: View> View for StorageMap<V> {
    type V = Map<Seq<char>, <V as View>::V>;

    closed spec fn view(&self) -> Map<Seq<char>, <V as View>::V> {
        entry_map(self.entries@)
    }
}

proof fn lemma_entry_map_index<V: View>(s: Seq<(String, V)>, i: int)
    requires
        distinct_keys(s),
        0 <= i < s.len(),
    ensures
        entry_map(s).contains_key(s[i].0@),
        entry_map(s)[s[i].0@] == s[i].1@,
{
    let k = s[i].0@;
    assert(has_entry(s, k));
    let j = entry_index(s, k);
    assert(0 <= j < s.len() && s[j].0@ == k);
    assert(j == i) by {
        if j < i {
            assert(s[j].0@ != s[i].0@);
        }
        if i < j {
            assert(s[i].0@ != s[j].0@);
        }
    }
}

proof fn lemma_entry_map_push<V: View>(s: Seq<(String, V)>, e: (String, V))
    requires
        distinct_keys(s),
        !has_entry(s, e.0@),
    ensures
        distinct_keys(s.push(e)),
        entry_map(s.push(e)) == entry_map(s).insert(e.0@, e.1@),
{
    let t = s.push(e);
    assert forall|p: int, q: int| 0 <= p < q < t.len() implies (#[trigger] t[p]).0@ != (
    #[trigger] t[q]).0@ by {
        if q < s.len() {
            assert(s[p].0@ != s[q].0@);
        } else {
            // q is the new entry; p lies in s, whose keys all differ from e.0@
            assert(t[p] == s[p]);
            if s[p].0@ == e.0@ {
                assert(has_entry(s, e.0@));
            }
        }
    }
    let m1 = entry_map(t);
    let m2 = entry_map(s).insert(e.0@, e.1@);
    assert forall|k: Seq<char>| #[trigger] m1.dom().contains(k) implies m2.dom().contains(k)
        && m1[k] == m2[k] by {
        let j = entry_index(t, k);
        assert(0 <= j < t.len() && t[j].0@ == k);
        if j == s.len() {
            assert(k == e.0@);
            assert(m1[k] == e.1@);
        } else {
            assert(t[j] == s[j]);
            assert(has_entry(s, k));
            if k == e.0@ {
                assert(has_entry(s, e.0@));
            }
            lemma_entry_map_index(s, j);
            let js = entry_index(s, k);
            assert(js == j) by {
                if js < j {
                    assert(s[js].0@ != s[j].0@);
                }
                if j < js {
                    assert(s[j].0@ != s[js].0@);
                }
            }
            assert(m1[k] == t[j].1@);
        }
    }
    assert forall|k: Seq<char>| #[trigger] m2.dom().contains(k) implies m1.dom().contains(
        k,
    ) by {
        if k == e.0@ {
            assert(t[s.len() as int].0@ == k);
            assert(has_entry(t, k));
        } else {
            let js = entry_index(s, k);
            assert(0 <= js < s.len() && s[js].0@ == k);
            assert(t[js].0@ == k);
            assert(has_entry(t, k));
        }
    }
    assert(m1.dom() =~= m2.dom());
    assert(m1 =~= m2);
}

proof fn lemma_entry_map_remove<V: View>(s: Seq<(String, V)>, i: int)
    requires
        distinct_keys(s),
        0 <= i < s.len(),
    ensures
        distinct_keys(s.remove(i)),
        entry_map(s.remove(i)) == entry_map(s).remove(s[i].0@),
{
    let t = s.remove(i);
    let key = s[i].0@;
    assert forall|x: int| 0 <= x < t.len() implies #[trigger] t[x] == s[if x < i {
        x
    } else {
        x + 1
    }] by {}
    assert forall|p: int, q: int| 0 <= p < q < t.len() implies (#[trigger] t[p]).0@ != (
    #[trigger] t[q]).0@ by {
        let p0 = if p < i { p } else { p + 1 };
        let q0 = if q < i { q } else { q + 1 };
        assert(s[p0].0@ != s[q0].0@);
    }
    let m1 = entry_map(t);
    let m2 = entry_map(s).remove(key);
    assert forall|k: Seq<char>| #[trigger] m1.dom().contains(k) implies m2.dom().contains(k)
        && m1[k] == m2[k] by {
        let j = entry_index(t, k);
        assert(0 <= j < t.len() && t[j].0@ == k);
        let j0 = if j < i { j } else { j + 1 };
        assert(s[j0].0@ == k);
        assert(has_entry(s, k));
        assert(k != key) by {
            if j0 < i {
                assert(s[j0].0@ != s[i].0@);
            }
            if i < j0 {
                assert(s[i].0@ != s[j0].0@);
            }
        }
        lemma_entry_map_index(s, j0);
        let js = entry_index(s, k);
        assert(js == j0) by {
            if js < j0 {
                assert(s[js].0@ != s[j0].0@);
            }
            if j0 < js {
                assert(s[j0].0@ != s[js].0@);
            }
        }
        assert(m1[k] == t[j].1@);
    }
    assert forall|k: Seq<char>| #[trigger] m2.dom().contains(k) implies m1.dom().contains(
        k,
    ) by {
        let js = entry_index(s, k);
        assert(0 <= js < s.len() && s[js].0@ == k);
        assert(js != i);
        let j = if js < i { js } else { js - 1 };
        assert(t[j].0@ == k);
        assert(has_entry(t, k));
    }
    assert(m1.dom() =~= m2.dom());
    assert(m1 =~= m2);
}

impl<V: View> StorageMap<V> {
    /// The structural invariant: every key occurs in at most one entry.
    pub closed spec fn wf(&self) -> bool {
        distinct_keys(self.entries@)
    }

    /// An empty store.
    pub fn new() -> (r: Self)
        ensures
            r.wf(),
            r@ == Map::<Seq<char>, <V as View>::V>::empty(),
    {
        let r = StorageMap { entries: Vec::new() };
        proof {
            assert(r@ =~= Map::<Seq<char>, <V as View>::V>::empty());
        }
        r
    }

    fn find_index(&self, key: &String) -> (r: Option<usize>)
        ensures
            match r {
                Some(i) => i < self.entries@.len() && self.entries@[i as int].0@ == key@,
                None => !has_entry(self.entries@, key@),
            },
    {
        let n = self.entries.len();
        let mut i: usize = 0;
        while i < n
            invariant
                n == self.entries@.len(),
                i <= n,
                forall|j: int| 0 <= j < i ==> (#[trigger] self.entries@[j]).0@ != key@,
            decreases n - i,
        {
            let e = &self.entries[i];
            if e.0 == *key {
                return Some(i);
            }
            i += 1;
        }
        None
    }

    /// A reference to the value stored under `key`, if there is one.
    pub fn get(&self, key: &String) -> (r: Option<&V>)
        requires
            self.wf(),
        ensures
            match r {
                Some(v) => self@.contains_key(key@) && v@ == self@[key@],
                None => !self@.contains_key(key@),
            },
    {
        match self.find_index(key) {
            Some(i) => {
                proof {
                    lemma_entry_map_index(self.entries@, i as int);
                }
                let e = &self.entries[i];
                Some(&e.1)
            },
            None => {
                proof {
                    assert(!self@.contains_key(key@));
                }
                None
            },
        }
    }

    /// Whether some value is stored under `key`.
    pub fn contains_key(&self, key: &String) -> (r: bool)
        requires
            self.wf(),
        ensures
            r == self@.contains_key(key@),
    {
        match self.find_index(key) {
            Some(i) => {
                proof {
                    lemma_entry_map_index(self.entries@, i as int);
                }
                true
            },
            None => {
                proof {
                    assert(!self@.contains_key(key@));
                }
                false
            },
        }
    }

    /// Removes the value stored under `key`, if there is one.
    pub fn remove(&mut self, key: &String)
        requires
            old(self).wf(),
        ensures
            final(self).wf(),
            final(self)@ == old(self)@.remove(key@),
    {
        match self.find_index(key) {
            Some(i) => {
                proof {
                    lemma_entry_map_remove(self.entries@, i as int);
                }
                let _removed = self.entries.remove(i);
            },
            None => {
                proof {
                    assert(!self@.contains_key(key@));
                    assert(self@.remove(key@) =~= self@);
                }
            },
        }
    }

    /// Stores `value` under `key`, overwriting any earlier value.
    pub fn insert(&mut self, key: String, value: V)
        requires
            old(self).wf(),
        ensures
            final(self).wf(),
            final(self)@ == old(self)@.insert(key@, value@),
    {
        self.remove(&key);
        let ghost pre = self.entries@;
        let ghost entry = (key, value);
        proof {
            assert(!has_entry(pre, key@)) by {
                if has_entry(pre, key@) {
                    let j = entry_index(pre, key@);
                    lemma_entry_map_index(pre, j);
                    assert(self@.contains_key(key@));
                }
            }
            lemma_entry_map_push(pre, entry);
        }
        self.entries.push((key, value));
        proof {
            assert(self.entries@ == pre.push(entry));
            assert(old(self)@.remove(key@).insert(key@, value@) =~= old(self)@.insert(
                key@,
                value@,
            ));
        }
    }
}

} // verus!
