//! A map from strings to values that keeps its entries in string order, as a `BTreeMap` with
//! `String` keys does.
use crate::text::{
    chars_of, lemma_str_lt_asymmetric, lemma_str_lt_irreflexive, lemma_str_lt_total,
    lemma_str_lt_transitive, str_less, str_lt,
};
use vstd::prelude::*;

verus! {

/// Entries are in strictly increasing key order (so no key occurs twice).
pub open spec fn sorted_entries<V>(s: Seq<(Seq<char>, V)>) -> bool {
    forall|i: int, j: int| 0 <= i < j < s.len() ==> str_lt(#[trigger] s[i].0, #[trigger] s[j].0)
}

/// The value stored under `k`, looking from the front.
pub open spec fn lookup<V>(s: Seq<(Seq<char>, V)>, k: Seq<char>) -> Option<V>
    decreases s.len(),
{
    if s.len() == 0 {
        None
    } else if s[0].0 == k {
        Some(s[0].1)
    } else {
        lookup(s.drop_first(), k)
    }
}

/// The position of `k`, looking from the front.
pub open spec fn position<V>(s: Seq<(Seq<char>, V)>, k: Seq<char>) -> Option<int>
    decreases s.len(),
{
    if s.len() == 0 {
        None
    } else if s[0].0 == k {
        Some(0)
    } else {
        match position(s.drop_first(), k) {
            Some(i) => Some(i + 1),
            None => None,
        }
    }
}

/// The keys in order.
pub open spec fn keys_of<V>(s: Seq<(Seq<char>, V)>) -> Seq<Seq<char>> {
    s.map_values(|e: (Seq<char>, V)| e.0)
}

/// The entries after storing `v` under `k`: the value is replaced where `k` is present,
/// otherwise the entry goes where the order puts it.
pub open spec fn insert_entry<V>(s: Seq<(Seq<char>, V)>, k: Seq<char>, v: V) -> Seq<(Seq<char>, V)>
    decreases s.len(),
{
    if s.len() == 0 {
        seq![(k, v)]
    } else if s[0].0 == k {
        seq![(k, v)] + s.drop_first()
    } else if str_lt(k, s[0].0) {
        seq![(k, v)] + s
    } else {
        seq![s[0]] + insert_entry(s.drop_first(), k, v)
    }
}

/// The entries without the one under `k`.
pub open spec fn remove_entry<V>(s: Seq<(Seq<char>, V)>, k: Seq<char>) -> Seq<(Seq<char>, V)>
    decreases s.len(),
{
    if s.len() == 0 {
        s
    } else if s[0].0 == k {
        s.drop_first()
    } else {
        seq![s[0]] + remove_entry(s.drop_first(), k)
    }
}

/// `lookup` finds what `position` points at.
pub proof fn lemma_lookup_position<V>(s: Seq<(Seq<char>, V)>, k: Seq<char>)
    ensures
        position(s, k) matches Some(i) ==> 0 <= i < s.len() && s[i].0 == k && lookup(s, k)
            == Some(s[i].1) && forall|j: int| 0 <= j < i ==> s[j].0 != k,
        position(s, k) is None <==> lookup(s, k) is None,
        position(s, k) is None ==> forall|j: int| 0 <= j < s.len() ==> s[j].0 != k,
    decreases s.len(),
{
    if s.len() > 0 && s[0].0 != k {
        lemma_lookup_position(s.drop_first(), k);
        if let Some(i) = position(s.drop_first(), k) {
            assert forall|j: int| 0 <= j < i + 1 implies s[j].0 != k by {
                if j > 0 {
                    assert(s[j] == s.drop_first()[j - 1]);
                }
            }
        }
        if position(s.drop_first(), k) is None {
            assert forall|j: int| 0 <= j < s.len() implies s[j].0 != k by {
                if j > 0 {
                    assert(s[j] == s.drop_first()[j - 1]);
                }
            }
        }
    }
}

/// A key is present exactly when it is among the keys.
pub proof fn lemma_lookup_keys<V>(s: Seq<(Seq<char>, V)>, k: Seq<char>)
    ensures
        (lookup(s, k) is Some) == keys_of(s).contains(k),
{
    lemma_lookup_position(s, k);
    if keys_of(s).contains(k) {
        let i = choose|i: int| 0 <= i < keys_of(s).len() && keys_of(s)[i] == k;
        assert(s[i].0 == k);
    }
    if let Some(i) = position(s, k) {
        assert(keys_of(s)[i] == k);
    }
}

/// A key found at some index is what `lookup` returns, in a sorted map.
pub proof fn lemma_lookup_at<V>(s: Seq<(Seq<char>, V)>, i: int)
    requires
        sorted_entries(s),
        0 <= i < s.len(),
    ensures
        lookup(s, s[i].0) == Some(s[i].1),
        position(s, s[i].0) == Some(i),
{
    lemma_lookup_position(s, s[i].0);
    match position(s, s[i].0) {
        Some(p) => {
            if p != i {
                if p < i {
                    assert(str_lt(s[p].0, s[i].0));
                } else {
                    assert(str_lt(s[i].0, s[p].0));
                }
                lemma_str_lt_irreflexive(s[i].0);
            }
        },
        None => {},
    }
}

/// Lookups after an insertion see the new value under its key and nothing else changed.
pub proof fn lemma_lookup_insert<V>(s: Seq<(Seq<char>, V)>, k: Seq<char>, v: V, k2: Seq<char>)
    ensures
        lookup(insert_entry(s, k, v), k2) == if k2 == k {
            Some(v)
        } else {
            lookup(s, k2)
        },
    decreases s.len(),
{
    reveal_with_fuel(lookup, 2);
    let r = insert_entry(s, k, v);
    if s.len() == 0 {
    } else if s[0].0 == k {
        assert(r.drop_first() == s.drop_first());
    } else if str_lt(k, s[0].0) {
        assert(r.drop_first() == s);
    } else {
        lemma_lookup_insert(s.drop_first(), k, v, k2);
        assert(r.drop_first() == insert_entry(s.drop_first(), k, v));
    }
}

/// Every key after an insertion is the inserted key or an earlier one.
pub proof fn lemma_insert_keys<V>(s: Seq<(Seq<char>, V)>, k: Seq<char>, v: V)
    ensures
        forall|j: int|
            0 <= j < insert_entry(s, k, v).len() ==> (#[trigger] insert_entry(s, k, v)[j].0 == k
                || exists|i: int| 0 <= i < s.len() && s[i].0 == insert_entry(s, k, v)[j].0),
    decreases s.len(),
{
    let r = insert_entry(s, k, v);
    if s.len() == 0 {
    } else if s[0].0 == k {
        assert forall|j: int| 0 <= j < r.len() implies (#[trigger] r[j].0 == k || exists|i: int|
            0 <= i < s.len() && s[i].0 == r[j].0) by {
            if j > 0 {
                assert(s[j].0 == r[j].0);
            }
        }
    } else if str_lt(k, s[0].0) {
        assert forall|j: int| 0 <= j < r.len() implies (#[trigger] r[j].0 == k || exists|i: int|
            0 <= i < s.len() && s[i].0 == r[j].0) by {
            if j > 0 {
                assert(s[j - 1].0 == r[j].0);
            }
        }
    } else {
        let t = s.drop_first();
        lemma_insert_keys(t, k, v);
        let rt = insert_entry(t, k, v);
        assert forall|j: int| 0 <= j < r.len() implies (#[trigger] r[j].0 == k || exists|i: int|
            0 <= i < s.len() && s[i].0 == r[j].0) by {
            if j == 0 {
                assert(s[0].0 == r[0].0);
            } else {
                assert(r[j] == rt[j - 1]);
                if rt[j - 1].0 != k {
                    let i = choose|i: int| 0 <= i < t.len() && t[i].0 == rt[j - 1].0;
                    assert(s[i + 1].0 == r[j].0);
                }
            }
        }
    }
}

/// The entries after the first one, still sorted.
proof fn lemma_sorted_tail<V>(s: Seq<(Seq<char>, V)>)
    requires
        sorted_entries(s),
        s.len() > 0,
    ensures
        sorted_entries(s.drop_first()),
{
    let t = s.drop_first();
    assert forall|i: int, j: int| 0 <= i < j < t.len() implies str_lt(
        #[trigger] t[i].0,
        #[trigger] t[j].0,
    ) by {
        assert(str_lt(s[i + 1].0, s[j + 1].0));
    }
}

/// Sorted entries after an insertion stay sorted.
pub proof fn lemma_insert_sorted<V>(s: Seq<(Seq<char>, V)>, k: Seq<char>, v: V)
    requires
        sorted_entries(s),
    ensures
        sorted_entries(insert_entry(s, k, v)),
    decreases s.len(),
{
    let r = insert_entry(s, k, v);
    if s.len() == 0 {
    } else if s[0].0 == k {
        assert forall|i: int, j: int| 0 <= i < j < r.len() implies str_lt(
            #[trigger] r[i].0,
            #[trigger] r[j].0,
        ) by {
            assert(str_lt(s[i].0, s[j].0));
        }
    } else if str_lt(k, s[0].0) {
        assert forall|i: int, j: int| 0 <= i < j < r.len() implies str_lt(
            #[trigger] r[i].0,
            #[trigger] r[j].0,
        ) by {
            if i == 0 {
                if j > 1 {
                    assert(str_lt(s[0].0, s[j - 1].0));
                    lemma_str_lt_transitive(k, s[0].0, s[j - 1].0);
                }
            } else {
                assert(str_lt(s[i - 1].0, s[j - 1].0));
            }
        }
    } else {
        let t = s.drop_first();
        lemma_sorted_tail(s);
        lemma_insert_sorted(t, k, v);
        lemma_insert_keys(t, k, v);
        let rt = insert_entry(t, k, v);
        lemma_str_lt_total(k, s[0].0);
        assert forall|j: int| 0 <= j < rt.len() implies str_lt(s[0].0, #[trigger] rt[j].0) by {
            if rt[j].0 != k {
                let i = choose|i: int| 0 <= i < t.len() && t[i].0 == rt[j].0;
                assert(str_lt(s[0].0, s[i + 1].0));
            }
        }
        assert forall|i: int, j: int| 0 <= i < j < r.len() implies str_lt(
            #[trigger] r[i].0,
            #[trigger] r[j].0,
        ) by {
            if i == 0 {
                assert(r[j] == rt[j - 1]);
            } else {
                assert(r[i] == rt[i - 1]);
                assert(r[j] == rt[j - 1]);
            }
        }
    }
}

/// Without its key, removal leaves the entries as they were.
proof fn lemma_remove_absent<V>(s: Seq<(Seq<char>, V)>, k: Seq<char>)
    requires
        position(s, k) is None,
    ensures
        remove_entry(s, k) == s,
    decreases s.len(),
{
    if s.len() > 0 {
        lemma_remove_absent(s.drop_first(), k);
        assert(seq![s[0]] + s.drop_first() =~= s);
    }
}

/// Sorted entries after a removal stay sorted, and lookups no longer see the key.
pub proof fn lemma_remove_entry<V>(s: Seq<(Seq<char>, V)>, k: Seq<char>)
    requires
        sorted_entries(s),
    ensures
        sorted_entries(remove_entry(s, k)),
        forall|k2: Seq<char>| #[trigger]
            lookup(remove_entry(s, k), k2) == if k2 == k {
                None
            } else {
                lookup(s, k2)
            },
        lookup(s, k) is None ==> remove_entry(s, k) == s,
{
    lemma_lookup_position(s, k);
    match position(s, k) {
        Some(p) => {
            lemma_remove_at(s, k, p);
            let r = s.take(p) + s.skip(p + 1);
            assert forall|i: int| 0 <= i < r.len() implies #[trigger] r[i] == if i < p {
                s[i]
            } else {
                s[i + 1]
            } by {}
            assert forall|i: int, j: int| 0 <= i < j < r.len() implies str_lt(
                #[trigger] r[i].0,
                #[trigger] r[j].0,
            ) by {
                let a = if i < p {
                    i
                } else {
                    i + 1
                };
                let b = if j < p {
                    j
                } else {
                    j + 1
                };
                assert(str_lt(s[a].0, s[b].0));
            }
            assert forall|k2: Seq<char>| #[trigger]
                lookup(r, k2) == if k2 == k {
                    None
                } else {
                    lookup(s, k2)
                } by {
                lemma_lookup_position(r, k2);
                lemma_lookup_position(s, k2);
                if k2 == k {
                    if position(r, k2) is Some {
                        let q = position(r, k2)->0;
                        let a = if q < p {
                            q
                        } else {
                            q + 1
                        };
                        assert(s[a].0 == k);
                        if a < p {
                        } else {
                            assert(str_lt(s[p].0, s[a].0));
                            lemma_str_lt_irreflexive(k);
                        }
                    }
                } else {
                    match position(s, k2) {
                        Some(q) => {
                            assert(q != p);
                            let q2 = if q < p {
                                q
                            } else {
                                q - 1
                            };
                            assert(r[q2] == s[q]);
                            lemma_lookup_at(r, q2);
                        },
                        None => {
                            if position(r, k2) is Some {
                                let q = position(r, k2)->0;
                                let a = if q < p {
                                    q
                                } else {
                                    q + 1
                                };
                                assert(s[a].0 == k2);
                            }
                        },
                    }
                }
            }
        },
        None => {
            lemma_remove_absent(s, k);
        },
    }
}

/// A map from strings to values, kept in string order of its keys.
#[derive(Debug)]
pub struct StrMap<V> {
    entries: Vec<(String, V)>,
}

impl<V> View for StrMap<V> {
    type V = Seq<(Seq<char>, V)>;

    closed spec fn view(&self) -> Seq<(Seq<char>, V)> {
        self.entries@.map_values(|e: (String, V)| (e.0@, e.1))
    }
}

impl<V> StrMap<V> {
    #[verifier::type_invariant]
    closed spec fn in_order(self) -> bool {
        sorted_entries(self@)
    }

    /// An empty map.
    pub fn new() -> (m: Self)
        ensures
            m@ == Seq::<(Seq<char>, V)>::empty(),
    {
        let m = StrMap { entries: Vec::new() };
        assert(m@ =~= Seq::<(Seq<char>, V)>::empty());
        m
    }

    /// The entries are in strictly increasing key order.
    pub fn len(&self) -> (n: usize)
        ensures
            n == self@.len(),
            sorted_entries(self@),
    {
        proof {
            use_type_invariant(self);
        }
        self.entries.len()
    }

    /// The key and value of the `i`-th entry in order.
    pub fn entry(&self, i: usize) -> (r: (&String, &V))
        requires
            i < self@.len(),
        ensures
            r.0@ == self@[i as int].0,
            *r.1 == self@[i as int].1,
    {
        let e = &self.entries[i];
        (&e.0, &e.1)
    }

    /// The keys, in order.
    pub fn keys(&self) -> (r: Vec<String>)
        ensures
            r@.map_values(|x: String| x@) == keys_of(self@),
    {
        let mut out: Vec<String> = Vec::new();
        let mut i: usize = 0;
        while i < self.entries.len()
            invariant
                i <= self.entries.len(),
                out@.map_values(|x: String| x@) == keys_of(self@).take(i as int),
            decreases self.entries.len() - i,
        {
            proof {
                assert(self@[i as int].0 == self.entries@[i as int].0@);
                assert(keys_of(self@)[i as int] == self@[i as int].0);
            }
            let ghost before = out@;
            out.push(self.entries[i].0.clone());
            proof {
                assert(out@.map_values(|x: String| x@) =~= before.map_values(|x: String| x@).push(
                    self@[i as int].0,
                ));
                assert(keys_of(self@).take(i + 1) =~= keys_of(self@).take(i as int).push(
                    keys_of(self@)[i as int],
                ));
            }
            i = i + 1;
            assert(out@.map_values(|x: String| x@) =~= keys_of(self@).take(i as int));
        }
        assert(keys_of(self@).take(self.entries.len() as int) =~= keys_of(self@));
        out
    }

    /// Index of `k` in the entries, if present.
    fn index_of(&self, k: &[char]) -> (r: Option<usize>)
        ensures
            r matches Some(i) ==> position(self@, k@) == Some(i as int),
            r is None ==> position(self@, k@) is None,
    {
        let mut i: usize = 0;
        let n = self.entries.len();
        assert(self@.skip(0) == self@);
        while i < n
            invariant
                i <= n == self@.len(),
                position(self@, k@) == match position(self@.skip(i as int), k@) {
                    Some(p) => Some(p + i),
                    None => None,
                },
            decreases n - i,
        {
            let key = chars_of(self.entries[i].0.as_str());
            proof {
                assert(self@.skip(i as int)[0] == self@[i as int]);
                assert(self@.skip(i as int).drop_first() == self@.skip(i + 1));
            }
            if crate::text::str_less(key.as_slice(), k) == false && crate::text::str_less(
                k,
                key.as_slice(),
            ) == false {
                proof {
                    if key@ != k@ {
                        lemma_str_lt_total(key@, k@);
                    }
                }
                return Some(i);
            }
            proof {
                if key@ == k@ {
                    lemma_str_lt_irreflexive(k@);
                }
            }
            i = i + 1;
        }
        None
    }

    /// The value stored under `key`.
    pub fn get(&self, key: &str) -> (r: Option<&V>)
        ensures
            r matches Some(v) ==> lookup(self@, key@) == Some(*v),
            r is None ==> lookup(self@, key@) is None,
    {
        let k = chars_of(key);
        proof {
            lemma_lookup_position(self@, key@);
        }
        match self.index_of(k.as_slice()) {
            Some(i) => Some(&self.entries[i].1),
            None => None,
        }
    }

    /// Whether a value is stored under `key`.
    pub fn contains_key(&self, key: &str) -> (b: bool)
        ensures
            b == (lookup(self@, key@) is Some),
    {
        self.get(key).is_some()
    }

    /// Stores `value` under `key`, returning the value it replaces.
    pub fn insert(&mut self, key: String, value: V) -> (r: Option<V>)
        ensures
            final(self)@ == insert_entry(old(self)@, key@, value),
            r matches Some(v) ==> lookup(old(self)@, key@) == Some(v),
            r is None ==> lookup(old(self)@, key@) is None,
    {
        proof {
            use_type_invariant(&*self);
            lemma_insert_sorted(self@, key@, value);
            lemma_lookup_position(self@, key@);
        }
        let k = chars_of(key.as_str());
        let mut entries: Vec<(String, V)> = Vec::new();
        std::mem::swap(&mut entries, &mut self.entries);
        let ghost s = entries@.map_values(|e: (String, V)| (e.0@, e.1));
        let n = entries.len();
        let mut i: usize = 0;
        assert(s.skip(0) == s);
        assert(s.take(0) + insert_entry(s, k@, value) == insert_entry(s, k@, value));
        while i < n
            invariant
                i <= n == entries.len(),
                s == entries@.map_values(|e: (String, V)| (e.0@, e.1)),
                sorted_entries(s),
                forall|j: int| 0 <= j < i ==> str_lt(#[trigger] s[j].0, k@),
                insert_entry(s, k@, value) == s.take(i as int) + insert_entry(
                    s.skip(i as int),
                    k@,
                    value,
                ),
                lookup(s, k@) == lookup(s.skip(i as int), k@),
                k@ == key@,
            ensures
                i <= n,
                i < n ==> !str_lt(s[i as int].0, k@),
                forall|j: int| 0 <= j < i ==> str_lt(#[trigger] s[j].0, k@),
                insert_entry(s, k@, value) == s.take(i as int) + insert_entry(
                    s.skip(i as int),
                    k@,
                    value,
                ),
                lookup(s, k@) == lookup(s.skip(i as int), k@),
            decreases n - i,
        {
            let ek = chars_of(entries[i].0.as_str());
            if !str_less(ek.as_slice(), k.as_slice()) {
                break;
            }
            proof {
                let t = s.skip(i as int);
                assert(t[0] == s[i as int]);
                assert(t.drop_first() == s.skip(i + 1));
                lemma_str_lt_irreflexive(k@);
                assert(s.take(i + 1) == s.take(i as int).push(s[i as int]));
                assert(!str_lt(k@, s[i as int].0)) by {
                    lemma_str_lt_asymmetric(s[i as int].0, k@);
                }
                assert(insert_entry(t, k@, value) == seq![t[0]] + insert_entry(
                    s.skip(i + 1),
                    k@,
                    value,
                ));
                assert(s.take(i as int) + insert_entry(t, k@, value) =~= s.take(i + 1)
                    + insert_entry(s.skip(i + 1), k@, value));
            }
            i = i + 1;
        }
        let ghost t = s.skip(i as int);
        let result;
        if i < n && crate::text::str_eq(entries[i].0.as_str(), key.as_str()) {
            proof {
                assert(t[0] == s[i as int]);
            }
            let old_entry = entries.remove(i);
            entries.insert(i, (key, value));
            result = Some(old_entry.1);
            proof {
                let e2 = entries@.map_values(|e: (String, V)| (e.0@, e.1));
                assert(insert_entry(t, k@, value) == seq![(k@, value)] + t.drop_first());
                assert(e2 =~= s.take(i as int) + insert_entry(t, k@, value));
            }
        } else {
            proof {
                if i < n {
                    assert(t[0] == s[i as int]);
                    lemma_str_lt_total(s[i as int].0, k@);
                    assert(str_lt(k@, t[0].0));
                } else {
                    assert(t.len() == 0);
                }
                assert(insert_entry(t, k@, value) == seq![(k@, value)] + t);
                assert forall|j: int| i <= j < n implies s[j].0 != k@ by {
                    if j > i {
                        assert(str_lt(s[i as int].0, s[j].0));
                        lemma_str_lt_transitive(k@, s[i as int].0, s[j].0);
                    }
                    lemma_str_lt_irreflexive(k@);
                }
                lemma_lookup_position(t, k@);
                if lookup(t, k@) is Some {
                    let p = position(t, k@)->0;
                    assert(t[p] == s[i + p]);
                }
            }
            entries.insert(i, (key, value));
            result = None;
            proof {
                let e2 = entries@.map_values(|e: (String, V)| (e.0@, e.1));
                assert(e2 =~= s.take(i as int) + insert_entry(t, k@, value));
            }
        }
        self.entries = entries;
        result
    }

    /// Removes the entry under `key`, returning its value.
    pub fn remove(&mut self, key: &str) -> (r: Option<V>)
        ensures
            final(self)@ == remove_entry(old(self)@, key@),
            r matches Some(v) ==> lookup(old(self)@, key@) == Some(v),
            r is None ==> lookup(old(self)@, key@) is None && *final(self) == *old(self),
    {
        proof {
            use_type_invariant(&*self);
            lemma_remove_entry(self@, key@);
            lemma_lookup_position(self@, key@);
        }
        let k = chars_of(key);
        match self.index_of(k.as_slice()) {
            Some(i) => {
                let mut entries: Vec<(String, V)> = Vec::new();
                std::mem::swap(&mut entries, &mut self.entries);
                let ghost s = entries@.map_values(|e: (String, V)| (e.0@, e.1));
                let e = entries.remove(i);
                proof {
                    lemma_remove_at(s, key@, i as int);
                    assert(entries@.map_values(|e: (String, V)| (e.0@, e.1)) =~= s.take(i as int)
                        + s.skip(i + 1));
                }
                self.entries = entries;
                Some(e.1)
            },
            None => {
                proof {
                    assert(lookup(self@, key@) is None);
                }
                None
            },
        }
    }
}

impl<V: Clone> Clone for StrMap<V> {
    /// A copy with the same keys in the same order and each value cloned.
    fn clone(&self) -> (r: Self)
        ensures
            keys_of(r@) == keys_of(self@),
            r@.len() == self@.len(),
            forall|i: int| 0 <= i < self@.len() ==> cloned(self@[i].1, #[trigger] r@[i].1),
    {
        proof {
            use_type_invariant(self);
        }
        let mut entries: Vec<(String, V)> = Vec::new();
        let mut i: usize = 0;
        while i < self.entries.len()
            invariant
                i <= self.entries.len(),
                sorted_entries(self@),
                entries@.len() == i,
                forall|j: int| 0 <= j < i ==> (#[trigger] entries@[j]).0@ == self@[j].0,
                forall|j: int| 0 <= j < i ==> cloned(self@[j].1, (#[trigger] entries@[j]).1),
            decreases self.entries.len() - i,
        {
            let k = self.entries[i].0.clone();
            let v = self.entries[i].1.clone();
            entries.push((k, v));
            i = i + 1;
        }
        let r = StrMap { entries };
        proof {
            assert(keys_of(r@) =~= keys_of(self@));
            assert forall|a: int, b: int| 0 <= a < b < r@.len() implies str_lt(
                #[trigger] r@[a].0,
                #[trigger] r@[b].0,
            ) by {
                assert(str_lt(self@[a].0, self@[b].0));
            }
        }
        r
    }
}

/// Removing the entry at the position of its key.
proof fn lemma_remove_at<V>(s: Seq<(Seq<char>, V)>, k: Seq<char>, i: int)
    requires
        position(s, k) == Some(i),
    ensures
        remove_entry(s, k) == s.take(i) + s.skip(i + 1),
    decreases s.len(),
{
    lemma_lookup_position(s, k);
    if s[0].0 == k {
        assert(s.take(0) + s.skip(1) =~= s.drop_first());
    } else {
        let t = s.drop_first();
        lemma_remove_at(t, k, i - 1);
        assert(s.take(i) =~= seq![s[0]] + t.take(i - 1));
        assert(s.skip(i + 1) =~= t.skip(i));
    }
}

} // verus!
