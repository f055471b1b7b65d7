//! A map keyed by strings that keeps its entries in key order, as a
//! `BTreeMap<String, V>` does.

use vstd::prelude::*;

use crate::text::{chars_of, seq_lt};

verus! {

/// Strict lexicographic order is irreflexive.
pub proof fn lemma_lt_irreflexive(a: Seq<char>)
    ensures
        !seq_lt(a, a),
    decreases a.len(),
{
    if a.len() > 0 {
        lemma_lt_irreflexive(a.drop_first());
    }
}

/// Strict lexicographic order is transitive.
pub proof fn lemma_lt_transitive(a: Seq<char>, b: Seq<char>, c: Seq<char>)
    requires
        seq_lt(a, b),
        seq_lt(b, c),
    ensures
        seq_lt(a, c),
    decreases a.len(),
{
    if a.len() > 0 && b.len() > 0 && c.len() > 0 {
        if a[0] == b[0] && b[0] == c[0] {
            lemma_lt_transitive(a.drop_first(), b.drop_first(), c.drop_first());
        }
    }
}

/// Two different sequences are ordered one way or the other.
pub proof fn lemma_lt_total(a: Seq<char>, b: Seq<char>)
    requires
        a != b,
    ensures
        seq_lt(a, b) || seq_lt(b, a),
    decreases a.len(),
{
    if a.len() == 0 {
        assert(b.len() > 0) by {
            if b.len() == 0 {
                assert(a =~= b);
            }
        }
    } else if b.len() == 0 {
    } else if a[0] != b[0] {
    } else {
        if a.drop_first() == b.drop_first() {
            assert(a =~= seq![a[0]] + a.drop_first());
            assert(b =~= seq![b[0]] + b.drop_first());
        }
        lemma_lt_total(a.drop_first(), b.drop_first());
    }
}

/// Exec form of [`seq_lt`] on string slices.
pub fn str_lt(a: &str, b: &str) -> (r: bool)
    ensures
        r == seq_lt(a@, b@),
{
    let va = chars_of(a);
    let vb = chars_of(b);
    let na = va.len();
    let nb = vb.len();
    let mut i: usize = 0;
    assert(va@.skip(0) =~= va@);
    assert(vb@.skip(0) =~= vb@);
    loop
        invariant
            na == va@.len(),
            nb == vb@.len(),
            i <= na,
            i <= nb,
            seq_lt(a@, b@) == seq_lt(va@.skip(i as int), vb@.skip(i as int)),
            va@ == a@,
            vb@ == b@,
        decreases na - i,
    {
        if i == na {
            return i < nb;
        }
        if i == nb {
            return false;
        }
        if va[i] != vb[i] {
            return va[i] < vb[i];
        }
        assert(va@.skip(i as int).drop_first() =~= va@.skip(i + 1));
        assert(vb@.skip(i as int).drop_first() =~= vb@.skip(i + 1));
        i = i + 1;
    }
}

/// Keys of the entries, strictly increasing.
pub open spec fn sorted_keys<V>(s: Seq<(String, V)>) -> bool {
    forall|i: int, j: int| 0 <= i < j < s.len() ==> seq_lt(#[trigger] s[i].0@, #[trigger] s[j].0@)
}

/// Whether some entry has key `k`.
pub open spec fn has_key<V>(s: Seq<(String, V)>, k: Seq<char>) -> bool {
    exists|i: int| 0 <= i < s.len() && #[trigger] s[i].0@ == k
}

/// The index of the entry with key `k`.
pub open spec fn key_index<V>(s: Seq<(String, V)>, k: Seq<char>) -> int {
    choose|i: int| 0 <= i < s.len() && #[trigger] s[i].0@ == k
}

/// Map from keys to the views of values.
pub open spec fn entries_map<V: View>(s: Seq<(String, V)>) -> Map<Seq<char>, V::V> {
    Map::new(|k: Seq<char>| has_key(s, k), |k: Seq<char>| s[key_index(s, k)].1@)
}

/// In sorted entries, an entry is the one entry with its key.
pub proof fn lemma_sorted_unique<V>(s: Seq<(String, V)>, i: int, j: int)
    requires
        sorted_keys(s),
        0 <= i < s.len(),
        0 <= j < s.len(),
        s[i].0@ == s[j].0@,
    ensures
        i == j,
{
    if i < j {
        lemma_lt_irreflexive(s[i].0@);
    } else if j < i {
        lemma_lt_irreflexive(s[i].0@);
    }
}

/// The map view at the key of an entry is that entry's value.
pub proof fn lemma_entries_map_at<V: View>(s: Seq<(String, V)>, i: int)
    requires
        sorted_keys(s),
        0 <= i < s.len(),
    ensures
        entries_map(s).contains_key(s[i].0@),
        entries_map(s)[s[i].0@] == s[i].1@,
{
    let k = s[i].0@;
    assert(has_key(s, k));
    let j = key_index(s, k);
    lemma_sorted_unique(s, i, j);
}

/// A map keyed by strings, kept in key order.
#[derive(Debug)]
pub struct StrMap<V> {
    entries: Vec<(String, V)>,
}

impl<V: View> View for StrMap<V> {
    type V = Map<Seq<char>, V::V>;

    open spec fn view(&self) -> Map<Seq<char>, V::V> {
        entries_map(self.spec_entries())
    }
}

impl<V: View> StrMap<V> {
    /// The entries in key order.
    pub closed spec fn spec_entries(&self) -> Seq<(String, V)> {
        self.entries@
    }

    /// Keys are strictly increasing.
    pub closed spec fn well_formed(&self) -> bool {
        sorted_keys(self.entries@)
    }

    /// Creates an empty map.
    pub fn new() -> (r: Self)
        ensures
            r.well_formed(),
            r.spec_entries().len() == 0,
            r@ == Map::<Seq<char>, V::V>::empty(),
    {
        let r = StrMap { entries: Vec::new() };
        assert(r@ =~= Map::<Seq<char>, V::V>::empty());
        r
    }

    /// The entries in key order.
    pub fn entries(&self) -> (r: &Vec<(String, V)>)
        ensures
            r@ == self.spec_entries(),
            self.well_formed() ==> sorted_keys(r@),
    {
        &self.entries
    }

    /// Number of entries.
    pub fn len(&self) -> (r: usize)
        ensures
            r == self.spec_entries().len(),
    {
        self.entries.len()
    }

    /// Takes the entries out, in key order.
    pub fn into_entries(self) -> (r: Vec<(String, V)>)
        ensures
            r@ == self.spec_entries(),
            self.well_formed() ==> sorted_keys(r@),
    {
        self.entries
    }

    /// The position of `key`, or where it would be inserted.
    fn position(&self, key: &str) -> (r: (usize, bool))
        requires
            self.well_formed(),
        ensures
            r.0 <= self.spec_entries().len(),
            forall|i: int| 0 <= i < r.0 ==> seq_lt(#[trigger] self.spec_entries()[i].0@, key@),
            r.1 ==> r.0 < self.spec_entries().len() && self.spec_entries()[r.0 as int].0@
                == key@,
            !r.1 ==> r.0 == self.spec_entries().len() || seq_lt(
                key@,
                self.spec_entries()[r.0 as int].0@,
            ),
    {
        let n = self.entries.len();
        let mut i: usize = 0;
        while i < n
            invariant
                n == self.entries@.len(),
                i <= n,
                forall|j: int| 0 <= j < i ==> seq_lt(#[trigger] self.entries@[j].0@, key@),
            decreases n - i,
        {
            let k = self.entries[i].0.as_str();
            if !str_lt(k, key) {
                if str_lt(key, k) {
                    return (i, false);
                } else {
                    proof {
                        if self.entries@[i as int].0@ != key@ {
                            lemma_lt_total(self.entries@[i as int].0@, key@);
                        }
                    }
                    return (i, true);
                }
            }
            i = i + 1;
        }
        (n, false)
    }

    /// Looks up the value stored under `key`.
    pub fn get(&self, key: &str) -> (r: Option<&V>)
        requires
            self.well_formed(),
        ensures
            match r {
                Some(v) => self@.contains_key(key@) && self@[key@] == v@,
                None => !self@.contains_key(key@),
            },
    {
        let (i, found) = self.position(key);
        if found {
            proof {
                lemma_entries_map_at(self.entries@, i as int);
            }
            Some(&self.entries[i].1)
        } else {
            proof {
                if self@.contains_key(key@) {
                    let j = key_index(self.entries@, key@);
                    if j < i {
                        assert(seq_lt(self.entries@[j].0@, key@));
                        lemma_lt_irreflexive(key@);
                    } else {
                        if j > i {
                            assert(seq_lt(self.entries@[i as int].0@, self.entries@[j].0@));
                            lemma_lt_transitive(key@, self.entries@[i as int].0@, key@);
                        }
                        lemma_lt_irreflexive(key@);
                    }
                }
            }
            None
        }
    }

    /// Inserts `value` under `key`, replacing any value stored there before.
    pub fn insert(&mut self, key: String, value: V)
        requires
            old(self).well_formed(),
        ensures
            final(self).well_formed(),
            final(self)@ == old(self)@.insert(key@, value@),
    {
        let ghost old_entries = self.entries@;
        let (i, found) = self.position(key.as_str());
        let ghost k = key@;
        let ghost v = value@;
        if found {
            let _ = self.entries.remove(i);
            self.entries.insert(i, (key, value));
            proof {
                let s = self.entries@;
                assert(s =~= old_entries.update(i as int, s[i as int]));
                assert(sorted_keys(s)) by {
                    assert forall|a: int, b: int| 0 <= a < b < s.len() implies seq_lt(
                        #[trigger] s[a].0@,
                        #[trigger] s[b].0@,
                    ) by {
                        assert(old_entries[a].0@ == s[a].0@ || a == i);
                        assert(old_entries[b].0@ == s[b].0@ || b == i);
                    }
                }
                self.lemma_insert_map(old_entries, i as int, k, v, true);
            }
        } else {
            self.entries.insert(i, (key, value));
            proof {
                let s = self.entries@;
                assert(sorted_keys(s)) by {
                    assert forall|a: int, b: int| 0 <= a < b < s.len() implies seq_lt(
                        #[trigger] s[a].0@,
                        #[trigger] s[b].0@,
                    ) by {
                        if a < i && b < i {
                            assert(s[a] == old_entries[a] && s[b] == old_entries[b]);
                        } else if a < i && b == i {
                            assert(s[a] == old_entries[a]);
                        } else if a < i && b > i {
                            assert(s[a] == old_entries[a] && s[b] == old_entries[b - 1]);
                            assert(seq_lt(old_entries[a].0@, k));
                            assert(seq_lt(k, old_entries[i as int].0@));
                            if b - 1 > i {
                                assert(seq_lt(old_entries[i as int].0@, old_entries[b - 1].0@));
                                lemma_lt_transitive(k, old_entries[i as int].0@, old_entries[b - 1].0@);
                            }
                            lemma_lt_transitive(old_entries[a].0@, k, old_entries[b - 1].0@);
                        } else if a == i {
                            assert(s[b] == old_entries[b - 1]);
                            if b - 1 > i {
                                assert(seq_lt(old_entries[i as int].0@, old_entries[b - 1].0@));
                                lemma_lt_transitive(k, old_entries[i as int].0@, old_entries[b - 1].0@);
                            }
                        } else {
                            assert(s[a] == old_entries[a - 1] && s[b] == old_entries[b - 1]);
                        }
                    }
                }
                self.lemma_insert_map(old_entries, i as int, k, v, false);
            }
        }
    }

    /// The map view after placing `(k, v)` at position `i`.
    proof fn lemma_insert_map(
        &self,
        old_entries: Seq<(String, V)>,
        i: int,
        k: Seq<char>,
        v: V::V,
        replaced: bool,
    )
        requires
            sorted_keys(old_entries),
            sorted_keys(self.entries@),
            0 <= i < self.entries@.len(),
            self.entries@[i].0@ == k,
            self.entries@[i].1@ == v,
            replaced ==> self.entries@ == old_entries.update(i, self.entries@[i]),
            replaced ==> old_entries[i].0@ == k,
            replaced ==> i < old_entries.len(),
            !replaced ==> i <= old_entries.len(),
            !replaced ==> self.entries@ == old_entries.insert(i, self.entries@[i]),
        ensures
            self@ == entries_map(old_entries).insert(k, v),
    {
        let s = self.entries@;
        let m_old = entries_map(old_entries);
        let m_new = entries_map(s);
        lemma_entries_map_at(s, i);
        assert forall|key: Seq<char>| #[trigger] m_new.contains_key(key) <==> m_old.insert(
            k,
            v,
        ).contains_key(key) by {
            if key != k {
                if has_key(s, key) {
                    let j = key_index(s, key);
                    assert(0 <= j < s.len() && s[j].0@ == key);
                    assert(j != i);
                    if replaced {
                        assert(s == old_entries.update(i, s[i]));
                        assert(s[j] == old_entries.update(i, s[i])[j]);
                        assert(s[j] == old_entries[j]);
                        assert(old_entries[j].0@ == key);
                    } else if j < i {
                        assert(s == old_entries.insert(i, s[i]));
                        assert(s[j] == old_entries.insert(i, s[i])[j]);
                        assert(s[j] == old_entries[j]);
                        assert(old_entries[j].0@ == key);
                    } else {
                        assert(s == old_entries.insert(i, s[i]));
                        assert(s[j] == old_entries.insert(i, s[i])[j]);
                        assert(s[j] == old_entries[j - 1]);
                        assert(old_entries[j - 1].0@ == key);
                    }
                }
                if has_key(old_entries, key) {
                    let j = key_index(old_entries, key);
                    if replaced {
                        assert(s[j].0@ == key);
                    } else if j < i {
                        assert(s[j].0@ == key);
                    } else {
                        assert(s[j + 1].0@ == key);
                    }
                }
            }
        }
        assert forall|key: Seq<char>| #[trigger] m_new.contains_key(key) implies m_new[key]
            == m_old.insert(k, v)[key] by {
            if key != k {
                let j = key_index(s, key);
                let jo = if replaced || j < i {
                    j
                } else {
                    j - 1
                };
                assert(old_entries[jo] == s[j]);
                lemma_entries_map_at(old_entries, jo);
                lemma_entries_map_at(s, j);
            }
        }
        assert(m_new =~= m_old.insert(k, v));
    }
}

} // verus!
