//! An ordered map from strings to values, kept sorted by key in code point
//! order (the order in which a `BTreeMap<String, _>` iterates).

use vstd::prelude::*;

use crate::text::{chars_less, chars_of, seq_less, str_eq};

verus! {

/// Keys strictly increasing in code point order.
pub open spec fn sorted_keys<V>(s: Seq<(Seq<char>, V)>) -> bool {
    forall|i: int, j: int| 0 <= i < j < s.len() ==> seq_less(#[trigger] s[i].0, #[trigger] s[j].0)
}

/// Whether some pair of `s` has key `k`.
pub open spec fn has_key<V>(s: Seq<(Seq<char>, V)>, k: Seq<char>) -> bool {
    exists|i: int| 0 <= i < s.len() && #[trigger] s[i].0 == k
}

/// Some index of `s` whose key is `k` (meaningful when `has_key(s, k)`).
pub open spec fn key_index<V>(s: Seq<(Seq<char>, V)>, k: Seq<char>) -> int {
    choose|i: int| 0 <= i < s.len() && #[trigger] s[i].0 == k
}

/// The map that a sequence of pairs with distinct keys denotes.
pub open spec fn map_of<V>(s: Seq<(Seq<char>, V)>) -> Map<Seq<char>, V> {
    Map::new(|k: Seq<char>| has_key(s, k), |k: Seq<char>| s[key_index(s, k)].1)
}

pub proof fn lemma_less_irreflexive(a: Seq<char>)
    ensures
        !seq_less(a, a),
    decreases a.len(),
{
    if a.len() > 0 {
        lemma_less_irreflexive(a.drop_first());
    }
}

pub proof fn lemma_less_asymmetric(a: Seq<char>, b: Seq<char>)
    ensures
        seq_less(a, b) ==> !seq_less(b, a),
    decreases a.len(),
{
    if a.len() > 0 && b.len() > 0 && a[0] == b[0] {
        lemma_less_asymmetric(a.drop_first(), b.drop_first());
    }
}

pub proof fn lemma_less_transitive(a: Seq<char>, b: Seq<char>, c: Seq<char>)
    requires
        seq_less(a, b),
        seq_less(b, c),
    ensures
        seq_less(a, c),
    decreases a.len(),
{
    if a.len() > 0 && b.len() > 0 && c.len() > 0 && a[0] == b[0] && b[0] == c[0] {
        lemma_less_transitive(a.drop_first(), b.drop_first(), c.drop_first());
    }
}

pub proof fn lemma_less_total(a: Seq<char>, b: Seq<char>)
    ensures
        a == b || seq_less(a, b) || seq_less(b, a),
    decreases a.len(),
{
    if a.len() > 0 && b.len() > 0 && a[0] == b[0] {
        lemma_less_total(a.drop_first(), b.drop_first());
        if a.drop_first() == b.drop_first() {
            assert(a =~= seq![a[0]] + a.drop_first());
            assert(b =~= seq![b[0]] + b.drop_first());
        }
    } else if a.len() == 0 && b.len() == 0 {
        assert(a =~= b);
    }
}

/// In a sorted sequence, the pair with key `k` is unique, and `map_of`
/// reads its value.
pub proof fn lemma_map_of_index<V>(s: Seq<(Seq<char>, V)>, i: int)
    requires
        sorted_keys(s),
        0 <= i < s.len(),
    ensures
        map_of(s).contains_key(s[i].0),
        map_of(s)[s[i].0] == s[i].1,
{
    let k = s[i].0;
    assert(has_key(s, k));
    let j = key_index(s, k);
    assert(map_of(s)[k] == s[j].1);
    if j < i {
        assert(seq_less(s[j].0, s[i].0));
        lemma_less_irreflexive(k);
    } else if j > i {
        assert(seq_less(s[i].0, s[j].0));
        lemma_less_irreflexive(k);
    }
}

/// A map from strings to values, ordered by key.
#[derive(Debug, Clone, PartialEq, Eq)]
pub struct StrMap<V> {
    entries: Vec<(String, V)>,
}

impl<V> StrMap<V> {
    /// The entries as (key characters, value) pairs, in key order.
    pub closed spec fn pairs(&self) -> Seq<(Seq<char>, V)> {
        self.entries@.map_values(|e: (String, V)| (e.0@, e.1))
    }

    /// Keys are strictly increasing.
    pub open spec fn wf(&self) -> bool {
        sorted_keys(self.pairs())
    }

    /// The map denoted by the entries.
    pub open spec fn view(&self) -> Map<Seq<char>, V> {
        map_of(self.pairs())
    }

    /// An empty map.
    pub fn new() -> (r: Self)
        ensures
            r.pairs() == Seq::<(Seq<char>, V)>::empty(),
            r.wf(),
            r@ == Map::<Seq<char>, V>::empty(),
    {
        let r = StrMap { entries: Vec::new() };
        assert(r.pairs() =~= Seq::<(Seq<char>, V)>::empty());
        assert(r@ =~= Map::<Seq<char>, V>::empty());
        r
    }

    /// Number of entries.
    pub fn len(&self) -> (n: usize)
        ensures
            n == self.pairs().len(),
    {
        self.entries.len()
    }

    /// Whether the map holds no entries.
    pub fn is_empty(&self) -> (b: bool)
        ensures
            b == (self.pairs().len() == 0),
    {
        self.entries.len() == 0
    }

    /// The key of the `i`-th entry.
    pub fn key_at(&self, i: usize) -> (k: &String)
        requires
            i < self.pairs().len(),
        ensures
            k@ == self.pairs()[i as int].0,
    {
        &self.entries[i].0
    }

    /// The value of the `i`-th entry.
    pub fn value_at(&self, i: usize) -> (v: &V)
        requires
            i < self.pairs().len(),
        ensures
            *v == self.pairs()[i as int].1,
    {
        &self.entries[i].1
    }

    /// Index of the entry with key `key`, if any.
    pub fn find(&self, key: &str) -> (r: Option<usize>)
        ensures
            r matches Some(i) ==> i < self.pairs().len() && self.pairs()[i as int].0 == key@,
            r is None ==> !has_key(self.pairs(), key@),
    {
        let mut i: usize = 0;
        while i < self.entries.len()
            invariant
                i <= self.entries.len(),
                self.pairs().len() == self.entries.len(),
                forall|j: int| 0 <= j < i ==> self.pairs()[j].0 != key@,
            decreases self.entries.len() - i,
        {
            if str_eq(self.entries[i].0.as_str(), key) {
                return Some(i);
            }
            i = i + 1;
        }
        None
    }

    /// The value stored under `key`.
    pub fn get(&self, key: &str) -> (r: Option<&V>)
        requires
            self.wf(),
        ensures
            r is Some == self@.contains_key(key@),
            r matches Some(v) ==> *v == self@[key@],
    {
        match self.find(key) {
            Some(i) => {
                proof {
                    lemma_map_of_index(self.pairs(), i as int);
                }
                Some(&self.entries[i].1)
            },
            None => None,
        }
    }

    /// Stores `value` under `key`, replacing any earlier value.
    pub fn insert(&mut self, key: String, value: V)
        requires
            old(self).wf(),
        ensures
            final(self).wf(),
            final(self)@ == old(self)@.insert(key@, value),
    {
        let kc = chars_of(key.as_str());
        let n = self.entries.len();
        let mut p: usize = 0;
        let ghost s = self.pairs();
        // Find the first position whose key is not below `key`.
        while p < n && chars_less(chars_of(self.entries[p].0.as_str()).as_slice(), kc.as_slice())
            invariant
                n == self.entries.len(),
                s == self.pairs(),
                s.len() == n,
                kc@ == key@,
                p <= n,
                forall|j: int| 0 <= j < p ==> seq_less(#[trigger] s[j].0, key@),
            decreases n - p,
        {
            p = p + 1;
        }
        let equal = p < n && str_eq(self.entries[p].0.as_str(), key.as_str());
        let ghost kv = key@;
        if equal {
            self.entries.remove(p);
            self.entries.insert(p, (key, value));
            let ghost t = self.pairs();
            assert(t =~= s.update(p as int, (kv, value)));
            assert forall|i: int, j: int| 0 <= i < j < t.len() implies seq_less(
                #[trigger] t[i].0,
                #[trigger] t[j].0,
            ) by {
                assert(s[i].0 == t[i].0 && s[j].0 == t[j].0);
            }
            assert(self@ =~= old(self)@.insert(kv, value)) by {
                assert forall|k: Seq<char>| #[trigger] self@.contains_key(k) == old(
                    self,
                )@.insert(kv, value).contains_key(k) by {
                    if has_key(t, k) {
                        let i = choose|i: int| 0 <= i < t.len() && #[trigger] t[i].0 == k;
                        if i != p {
                            assert(s[i].0 == k);
                        }
                    }
                    if has_key(s, k) {
                        let i = choose|i: int| 0 <= i < s.len() && #[trigger] s[i].0 == k;
                        assert(t[i].0 == k);
                    }
                    if k == kv {
                        assert(t[p as int].0 == k);
                    }
                }
                assert forall|k: Seq<char>| #[trigger] self@.contains_key(k) implies self@[k]
                    == old(self)@.insert(kv, value)[k] by {
                    let i = choose|i: int| 0 <= i < t.len() && #[trigger] t[i].0 == k;
                    lemma_map_of_index(t, i);
                    if i != p {
                        lemma_map_of_index(s, i);
                        if i < p {
                            assert(seq_less(s[i].0, s[p as int].0));
                        } else {
                            assert(seq_less(s[p as int].0, s[i].0));
                        }
                        lemma_less_irreflexive(kv);
                    }
                }
            }
        } else {
            if p < n {
                proof {
                    lemma_less_total(s[p as int].0, kv);
                }
            }
            self.entries.insert(p, (key, value));
            let ghost t = self.pairs();
            assert(t =~= s.insert(p as int, (kv, value)));
            assert forall|i: int, j: int| 0 <= i < j < t.len() implies seq_less(
                #[trigger] t[i].0,
                #[trigger] t[j].0,
            ) by {
                if j < p {
                    assert(t[i] == s[i] && t[j] == s[j]);
                } else if j == p {
                    assert(t[i] == s[i]);
                } else if i < p {
                    assert(t[i] == s[i] && t[j] == s[j - 1]);
                    assert(seq_less(s[i].0, kv));
                    assert(seq_less(kv, s[p as int].0));
                    lemma_less_transitive(s[i].0, kv, s[p as int].0);
                    if j - 1 > p {
                        lemma_less_transitive(s[i].0, s[p as int].0, s[j - 1].0);
                    }
                } else if i == p {
                    assert(t[j] == s[j - 1]);
                    if j - 1 > p {
                        lemma_less_transitive(kv, s[p as int].0, s[j - 1].0);
                    }
                } else {
                    assert(t[i] == s[i - 1] && t[j] == s[j - 1]);
                }
            }
            assert(self@ =~= old(self)@.insert(kv, value)) by {
                assert forall|k: Seq<char>| #[trigger] self@.contains_key(k) == old(
                    self,
                )@.insert(kv, value).contains_key(k) by {
                    if has_key(t, k) {
                        let i = choose|i: int| 0 <= i < t.len() && #[trigger] t[i].0 == k;
                        if i < p {
                            assert(s[i].0 == k);
                        } else if i > p {
                            assert(s[i - 1].0 == k);
                        }
                    }
                    if has_key(s, k) {
                        let i = choose|i: int| 0 <= i < s.len() && #[trigger] s[i].0 == k;
                        if i < p {
                            assert(t[i].0 == k);
                        } else {
                            assert(t[i + 1].0 == k);
                        }
                    }
                    if k == kv {
                        assert(t[p as int].0 == k);
                    }
                }
                assert forall|k: Seq<char>| #[trigger] self@.contains_key(k) implies self@[k]
                    == old(self)@.insert(kv, value)[k] by {
                    let i = choose|i: int| 0 <= i < t.len() && #[trigger] t[i].0 == k;
                    lemma_map_of_index(t, i);
                    if i < p {
                        lemma_map_of_index(s, i);
                        assert(t[p as int].0 == kv);
                        assert(seq_less(k, kv));
                        lemma_less_irreflexive(k);
                    } else if i > p {
                        lemma_map_of_index(s, i - 1);
                        assert(t[p as int].0 == kv);
                        assert(seq_less(kv, k));
                        lemma_less_irreflexive(k);
                    }
                }
            }
        }
    }
}


impl<V> StrMap<V> {
    /// Appends an entry whose key sorts after every key present.
    pub fn push_in_order(&mut self, key: String, value: V)
        requires
            old(self).wf(),
            old(self).pairs().len() > 0 ==> seq_less(old(self).pairs().last().0, key@),
        ensures
            final(self).wf(),
            final(self).pairs() == old(self).pairs().push((key@, value)),
    {
        let ghost s = self.pairs();
        let ghost kv = key@;
        self.entries.push((key, value));
        assert(self.pairs() =~= s.push((kv, value)));
        assert forall|i: int, j: int| 0 <= i < j < self.pairs().len() implies seq_less(
            #[trigger] self.pairs()[i].0,
            #[trigger] self.pairs()[j].0,
        ) by {
            if j == s.len() && i < s.len() - 1 {
                lemma_less_transitive(s[i].0, s.last().0, kv);
            }
        }
    }

    /// A map holding exactly the given entries, which must already be in
    /// strictly increasing key order.
    pub fn from_sorted(entries: Vec<(String, V)>) -> (r: Self)
        requires
            sorted_keys(entries@.map_values(|e: (String, V)| (e.0@, e.1))),
        ensures
            r.wf(),
            r.pairs() == entries@.map_values(|e: (String, V)| (e.0@, e.1)),
    {
        StrMap { entries }
    }
}

/// Mapping the values of a sorted sequence commutes with reading it as a
/// map.
pub proof fn lemma_map_of_map_values<V, W>(s: Seq<(Seq<char>, V)>, f: spec_fn(V) -> W)
    requires
        sorted_keys(s),
    ensures
        sorted_keys(s.map_values(|p: (Seq<char>, V)| (p.0, f(p.1)))),
        map_of(s.map_values(|p: (Seq<char>, V)| (p.0, f(p.1)))) == map_of(s).map_values(f),
{
    let t = s.map_values(|p: (Seq<char>, V)| (p.0, f(p.1)));
    assert forall|i: int, j: int| 0 <= i < j < t.len() implies seq_less(
        #[trigger] t[i].0,
        #[trigger] t[j].0,
    ) by {
        assert(t[i].0 == s[i].0 && t[j].0 == s[j].0);
    }
    assert forall|k: Seq<char>| #[trigger] map_of(t).contains_key(k) == map_of(s).map_values(
        f,
    ).contains_key(k) by {
        if has_key(t, k) {
            let i = key_index(t, k);
            assert(s[i].0 == k);
        }
        if has_key(s, k) {
            let i = key_index(s, k);
            assert(t[i].0 == k);
        }
    }
    assert forall|k: Seq<char>| #[trigger] map_of(t).contains_key(k) implies map_of(t)[k]
        == map_of(s).map_values(f)[k] by {
        let i = key_index(t, k);
        lemma_map_of_index(t, i);
        assert(s[i].0 == k);
        lemma_map_of_index(s, i);
    }
    assert(map_of(t) =~= map_of(s).map_values(f));
}

/// Reading one more entry of a sorted sequence adds that entry to the map.
pub proof fn lemma_map_of_take_push<V>(s: Seq<(Seq<char>, V)>, i: int)
    requires
        sorted_keys(s),
        0 <= i < s.len(),
    ensures
        map_of(s.take(i + 1)) == map_of(s.take(i)).insert(s[i].0, s[i].1),
{
    let a = s.take(i);
    let b = s.take(i + 1);
    assert(sorted_keys(b)) by {
        assert forall|x: int, y: int| 0 <= x < y < b.len() implies seq_less(
            #[trigger] b[x].0,
            #[trigger] b[y].0,
        ) by {
            assert(b[x] == s[x] && b[y] == s[y]);
        }
    }
    assert(sorted_keys(a)) by {
        assert forall|x: int, y: int| 0 <= x < y < a.len() implies seq_less(
            #[trigger] a[x].0,
            #[trigger] a[y].0,
        ) by {
            assert(a[x] == s[x] && a[y] == s[y]);
        }
    }
    let m = map_of(a).insert(s[i].0, s[i].1);
    assert forall|k: Seq<char>| #[trigger] map_of(b).contains_key(k) == m.contains_key(k) by {
        if has_key(b, k) {
            let j = key_index(b, k);
            if j < i {
                assert(a[j].0 == k);
            }
        }
        if has_key(a, k) {
            let j = key_index(a, k);
            assert(b[j].0 == k);
        }
        if k == s[i].0 {
            assert(b[i].0 == k);
        }
    }
    assert forall|k: Seq<char>| #[trigger] map_of(b).contains_key(k) implies map_of(b)[k]
        == m[k] by {
        let j = key_index(b, k);
        lemma_map_of_index(b, j);
        if j < i {
            assert(a[j] == b[j]);
            lemma_map_of_index(a, j);
            assert(seq_less(b[j].0, b[i].0));
            lemma_less_irreflexive(k);
        }
    }
    assert(map_of(b) =~= m);
}

impl StrMap<String> {
    /// A copy of the map.
    pub fn duplicate(&self) -> (r: Self)
        requires
            self.wf(),
        ensures
            r.wf(),
            r.pairs() == self.pairs(),
    {
        let mut out: StrMap<String> = StrMap::new();
        let n = self.entries.len();
        let mut i: usize = 0;
        while i < n
            invariant
                n == self.pairs().len(),
                i <= n,
                self.wf(),
                out.wf(),
                out.pairs() == self.pairs().take(i as int),
            decreases n - i,
        {
            let k = crate::text::owned(self.entries[i].0.as_str());
            let v = self.entries[i].1.clone();
            proof {
                if i > 0 {
                    assert(seq_less(self.pairs()[i - 1].0, self.pairs()[i as int].0));
                }
            }
            out.push_in_order(k, v);
            i = i + 1;
            assert(out.pairs() =~= self.pairs().take(i as int));
        }
        assert(self.pairs().take(n as int) =~= self.pairs());
        out
    }
}

} // verus!
