//! A string-keyed map kept as an insertion-ordered list of entries: the
//! library's stand-in for `HashMap<String, V>`. Inserting an existing key
//! replaces its value in place; a new key goes to the end. Keys never
//! repeat.
use vstd::prelude::*;

use crate::text::str_eq;

verus! {

broadcast use vstd::string::group_string_axioms;

/// Position of the first entry with key `k`, or `s.len()`.
pub open spec fn key_pos<W>(s: Seq<(Seq<char>, W)>, k: Seq<char>) -> int
    decreases s.len(),
{
    if s.len() == 0 {
        0
    } else if s[0].0 == k {
        0
    } else {
        1 + key_pos(s.drop_first(), k)
    }
}

/// `key_pos` finds the first entry with the key, or runs off the end.
pub proof fn lemma_key_pos<W>(s: Seq<(Seq<char>, W)>, k: Seq<char>)
    ensures
        0 <= key_pos(s, k) <= s.len(),
        forall|j: int| 0 <= j < key_pos(s, k) ==> (#[trigger] s[j]).0 != k,
        key_pos(s, k) < s.len() ==> s[key_pos(s, k)].0 == k,
    decreases s.len(),
{
    if s.len() > 0 && s[0].0 != k {
        lemma_key_pos(s.drop_first(), k);
        assert forall|j: int| 0 <= j < key_pos(s, k) implies (#[trigger] s[j]).0 != k by {
            if j > 0 {
                assert(s[j] == s.drop_first()[j - 1]);
            }
        }
    }
}

/// `key_pos` is determined by where the key first occurs.
pub proof fn lemma_key_pos_at<W>(s: Seq<(Seq<char>, W)>, k: Seq<char>, i: int)
    requires
        0 <= i <= s.len(),
        forall|j: int| 0 <= j < i ==> (#[trigger] s[j]).0 != k,
        i < s.len() ==> s[i].0 == k,
    ensures
        key_pos(s, k) == i,
    decreases s.len(),
{
    if s.len() > 0 && s[0].0 != k {
        assert forall|j: int| 0 <= j < i - 1 implies (#[trigger] s.drop_first()[j]).0 != k by {
            assert(s.drop_first()[j] == s[j + 1]);
        }
        lemma_key_pos_at(s.drop_first(), k, i - 1);
    }
}

/// `HashMap::insert` on an entry list.
pub open spec fn assoc_insert<W>(s: Seq<(Seq<char>, W)>, k: Seq<char>, v: W) -> Seq<
    (Seq<char>, W),
> {
    let i = key_pos(s, k);
    if i < s.len() {
        s.update(i, (k, v))
    } else {
        s.push((k, v))
    }
}

/// `HashMap::get` on an entry list.
pub open spec fn assoc_get<W>(s: Seq<(Seq<char>, W)>, k: Seq<char>) -> Option<W> {
    let i = key_pos(s, k);
    if i < s.len() {
        Some(s[i].1)
    } else {
        None
    }
}

pub open spec fn keys_distinct<W>(s: Seq<(Seq<char>, W)>) -> bool {
    forall|i: int, j: int| 0 <= i < j < s.len() ==> (#[trigger] s[i]).0 != (#[trigger] s[j]).0
}

/// The map an entry list stands for.
pub open spec fn assoc_map<W>(s: Seq<(Seq<char>, W)>) -> Map<Seq<char>, W> {
    Map::new(|k: Seq<char>| key_pos(s, k) < s.len(), |k: Seq<char>| s[key_pos(s, k)].1)
}

/// Reading after writing: inserting `k` into a map whose keys are distinct
/// keeps them distinct, and the map it stands for is the old one with `k`
/// set to `v` (every other key keeps its value).
pub proof fn lemma_assoc_insert<W>(s: Seq<(Seq<char>, W)>, k: Seq<char>, v: W)
    requires
        keys_distinct(s),
    ensures
        keys_distinct(assoc_insert(s, k, v)),
        assoc_map(assoc_insert(s, k, v)) == assoc_map(s).insert(k, v),
{
    lemma_key_pos(s, k);
    let t = assoc_insert(s, k, v);
    assert forall|x: Seq<char>| #[trigger] assoc_map(t).contains_key(x) == assoc_map(s).insert(
        k,
        v,
    ).contains_key(x) && (assoc_map(t).contains_key(x) ==> assoc_map(t)[x] == assoc_map(s).insert(
        k,
        v,
    )[x]) by {
        lemma_key_pos(s, x);
        lemma_key_pos(t, x);
        if x == k {
            lemma_key_pos_at(t, k, key_pos(s, k));
        } else {
            let p = key_pos(s, x);
            let q = if p < s.len() { p } else { t.len() as int };
            assert forall|j: int| 0 <= j < q implies (#[trigger] t[j]).0 != x by {
                if j < s.len() {
                    assert(s[j].0 != x);
                } else {
                    assert(t[j].0 == k);
                }
            }
            if p < s.len() {
                assert(t[p].0 == x);
            }
            lemma_key_pos_at(t, x, q);
        }
    }
    assert(assoc_map(t) =~= assoc_map(s).insert(k, v));
}

/// An insertion-ordered map from strings to `V`.
#[derive(Debug, Clone)]
pub struct KeyedMap<V> {
    pub entries: Vec<(String, V)>,
}

impl<V: View> View for KeyedMap<V> {
    type V = Seq<(Seq<char>, V::V)>;

    open spec fn view(&self) -> Seq<(Seq<char>, V::V)> {
        Seq::new(self.entries@.len(), |i: int| (self.entries@[i].0@, self.entries@[i].1@))
    }
}

impl<V: View> KeyedMap<V> {
    pub open spec fn wf(&self) -> bool {
        keys_distinct(self@)
    }

    pub fn new() -> (r: Self)
        ensures
            r@ == Seq::<(Seq<char>, V::V)>::empty(),
            r.wf(),
    {
        let r = KeyedMap { entries: Vec::new() };
        proof {
            assert(r@ =~= Seq::<(Seq<char>, V::V)>::empty());
        }
        r
    }

    pub fn len(&self) -> (r: usize)
        ensures
            r == self@.len(),
    {
        self.entries.len()
    }

    /// Position of key `k`, if present.
    pub fn position(&self, k: &str) -> (r: Option<usize>)
        ensures
            match r {
                Some(i) => i == key_pos(self@, k@) && i < self@.len(),
                None => key_pos(self@, k@) == self@.len(),
            },
    {
        let mut i: usize = 0;
        while i < self.entries.len()
            invariant
                i <= self.entries.len(),
                forall|j: int| 0 <= j < i ==> (#[trigger] self@[j]).0 != k@,
            decreases self.entries.len() - i,
        {
            if str_eq(self.entries[i].0.as_str(), k) {
                proof {
                    assert(self@[i as int].0 == k@);
                    lemma_key_pos_at(self@, k@, i as int);
                }
                return Some(i);
            }
            proof {
                assert(self@[i as int].0 != k@);
            }
            i += 1;
        }
        proof {
            lemma_key_pos_at(self@, k@, i as int);
        }
        None
    }

    pub fn get(&self, k: &str) -> (r: Option<&V>)
        ensures
            match r {
                Some(v) => assoc_get(self@, k@) == Some(v@),
                None => assoc_get(self@, k@) is None,
            },
    {
        match self.position(k) {
            Some(i) => Some(&self.entries[i].1),
            None => None,
        }
    }

    pub fn insert(&mut self, k: String, v: V)
        ensures
            final(self)@ == assoc_insert(old(self)@, k@, v@),
            old(self).wf() ==> final(self).wf(),
    {
        let ghost kv = k@;
        let ghost vv = v@;
        match self.position(k.as_str()) {
            Some(i) => {
                self.entries.set(i, (k, v));
                proof {
                    assert(self@ =~= old(self)@.update(i as int, (kv, vv)));
                }
            },
            None => {
                self.entries.push((k, v));
                proof {
                    assert(self@ =~= old(self)@.push((kv, vv)));
                }
            },
        }
        proof {
            if old(self).wf() {
                lemma_assoc_insert(old(self)@, kv, vv);
            }
        }
    }
}

} // verus!

verus! {

/// A copy of a string map, entry by entry.
pub fn clone_string_map(m: &KeyedMap<String>) -> (r: KeyedMap<String>)
    ensures
        r@ == m@,
{
    let mut entries: Vec<(String, String)> = Vec::new();
    let mut i: usize = 0;
    while i < m.entries.len()
        invariant
            i <= m.entries.len(),
            entries@.len() == i,
            forall|j: int|
                0 <= j < i ==> (#[trigger] entries@[j]).0@ == m.entries@[j].0@ && entries@[j].1@
                    == m.entries@[j].1@,
        decreases m.entries.len() - i,
    {
        let k = m.entries[i].0.clone();
        let v = m.entries[i].1.clone();
        entries.push((k, v));
        i += 1;
    }
    let r = KeyedMap { entries };
    proof {
        assert(r@ =~= m@);
    }
    r
}

} // verus!
