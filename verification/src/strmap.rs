//! A map from text keys to values, kept as a list of pairs with no key twice
//! and viewed as a mathematical map from the keys' characters.

use vstd::prelude::*;
use crate::text::chars_of;

verus! {

/// No two pairs have keys with the same characters.
pub open spec fn distinct_text_keys<V>(s: Seq<(String, V)>) -> bool {
    forall|i: int, j: int| 0 <= i < j < s.len() ==> s[i].0@ != s[j].0@
}

/// Some pair has a key with the characters `k`.
pub open spec fn has_text_key<V>(s: Seq<(String, V)>, k: Seq<char>) -> bool {
    exists|i: int| 0 <= i < s.len() && #[trigger] s[i].0@ == k
}

/// The map that the pairs `s` stand for.
pub open spec fn pairs_map<V>(s: Seq<(String, V)>) -> Map<Seq<char>, V> {
    Map::new(
        |k: Seq<char>| has_text_key(s, k),
        |k: Seq<char>| s[choose|i: int| 0 <= i < s.len() && #[trigger] s[i].0@ == k].1,
    )
}

/// With distinct keys, the pair at `i` is what the map holds for its key.
pub proof fn lemma_pairs_map_at<V>(s: Seq<(String, V)>, i: int)
    requires
        distinct_text_keys(s),
        0 <= i < s.len(),
    ensures
        pairs_map(s).contains_key(s[i].0@),
        pairs_map(s)[s[i].0@] == s[i].1,
{
    let k = s[i].0@;
    assert(has_text_key(s, k));
    let j = choose|j: int| 0 <= j < s.len() && #[trigger] s[j].0@ == k;
    if j != i {
        if j < i {
            assert(s[j].0@ != s[i].0@);
        } else {
            assert(s[i].0@ != s[j].0@);
        }
    }
}

/// Two pair lists with distinct keys stand for the same map when they hold
/// the same pairs up to order, shown key by key.
pub proof fn lemma_pairs_map_ext<V>(s: Seq<(String, V)>, m: Map<Seq<char>, V>)
    requires
        distinct_text_keys(s),
        forall|i: int| 0 <= i < s.len() ==> m.contains_key(#[trigger] s[i].0@) && m[s[i].0@] == s[i].1,
        forall|k: Seq<char>| m.contains_key(k) ==> has_text_key(s, k),
    ensures
        pairs_map(s) == m,
{
    assert forall|k: Seq<char>| #[trigger] pairs_map(s).contains_key(k) <==> m.contains_key(k) by {
        if pairs_map(s).contains_key(k) {
            let i = choose|i: int| 0 <= i < s.len() && #[trigger] s[i].0@ == k;
            assert(m.contains_key(s[i].0@));
        }
    }
    assert forall|k: Seq<char>| #[trigger] pairs_map(s).contains_key(k) implies pairs_map(s)[k] == m[k] by {
        let i = choose|i: int| 0 <= i < s.len() && #[trigger] s[i].0@ == k;
        lemma_pairs_map_at(s, i);
    }
    assert(pairs_map(s) =~= m);
}

/// Giving the pair at `i` another value keeps the keys distinct and gives
/// that key the new value in the map.
proof fn lemma_pairs_map_set_value<V>(s: Seq<(String, V)>, i: int)
    requires
        distinct_text_keys(s),
        0 <= i < s.len(),
    ensures
        forall|x: V|
            #[trigger] pairs_map(s.update(i, (s[i].0, x))) == pairs_map(s).insert(s[i].0@, x),
{
    assert forall|x: V| #[trigger] pairs_map(s.update(i, (s[i].0, x))) == pairs_map(s).insert(s[i].0@, x) by {
        let t = s.update(i, (s[i].0, x));
        let m = pairs_map(s).insert(s[i].0@, x);
        assert(distinct_text_keys(t)) by {
            assert forall|a: int, b: int| 0 <= a < b < t.len() implies t[a].0@ != t[b].0@ by {
                assert(s[a].0@ != s[b].0@);
            }
        }
        assert forall|j: int| 0 <= j < t.len() implies m.contains_key(#[trigger] t[j].0@) && m[t[j].0@] == t[j].1 by {
            if j != i {
                lemma_pairs_map_at(s, j);
                assert(s[j].0@ != s[i].0@);
            }
        }
        assert forall|kk: Seq<char>| m.contains_key(kk) implies has_text_key(t, kk) by {
            if kk == s[i].0@ {
                assert(t[i].0@ == kk);
            } else {
                let j = choose|j: int| 0 <= j < s.len() && #[trigger] s[j].0@ == kk;
                assert(t[j].0@ == kk);
            }
        }
        lemma_pairs_map_ext(t, m);
    }
}

/// The value of the pair at `i`, to be changed in place; the key stays.
fn value_at_mut<V>(pairs: &mut Vec<(String, V)>, i: usize) -> (r: &mut V)
    requires
        i < old(pairs)@.len(),
    ensures
        *r == old(pairs)@[i as int].1,
        final(pairs)@ == old(pairs)@.update(i as int, (old(pairs)@[i as int].0, *final(r))),
    no_unwind
{
    let pair = &mut pairs[i];
    &mut pair.1
}

/// A map from text keys to values.
#[derive(Debug)]
pub struct StrMap<V> {
    pairs: Vec<(String, V)>,
}

impl<V> StrMap<V> {
    #[verifier::type_invariant]
    pub closed spec fn keys_distinct(self) -> bool {
        distinct_text_keys(self.pairs@)
    }

    /// The map from key characters to values.
    pub closed spec fn view(&self) -> Map<Seq<char>, V> {
        pairs_map(self.pairs@)
    }

    /// The pairs in their stored order.
    pub closed spec fn pairs_spec(&self) -> Seq<(String, V)> {
        self.pairs@
    }

    /// An empty map.
    pub fn new() -> (m: Self)
        ensures
            m@ == Map::<Seq<char>, V>::empty(),
            m.pairs_spec().len() == 0,
    {
        let m = StrMap { pairs: Vec::new() };
        assert(m@ =~= Map::<Seq<char>, V>::empty());
        m
    }

    /// Number of keys.
    pub fn len(&self) -> (n: usize)
        ensures
            n == self.pairs_spec().len(),
            n == self@.len(),
            self@.dom().finite(),
    {
        proof {
            use_type_invariant(self);
            lemma_pairs_map_finite(self.pairs@);
        }
        self.pairs.len()
    }

    /// The position of the pair for `key`.
    fn position(&self, key: &str) -> (r: Option<usize>)
        ensures
            r matches Some(i) ==> i < self.pairs@.len() && self.pairs@[i as int].0@ == key@,
            r is None ==> !has_text_key(self.pairs@, key@),
    {
        let kv = chars_of(key);
        let mut i: usize = 0;
        while i < self.pairs.len()
            invariant
                kv@ == key@,
                i <= self.pairs@.len(),
                forall|j: int| 0 <= j < i ==> self.pairs@[j].0@ != key@,
            decreases self.pairs@.len() - i,
        {
            let k = chars_of(self.pairs[i].0.as_str());
            if crate::text::range_is(&k, 0, k.len(), key) {
                assert(k@.subrange(0, k@.len() as int) =~= k@);
                return Some(i);
            }
            assert(k@.subrange(0, k@.len() as int) =~= k@);
            i += 1;
        }
        None
    }

    /// Whether `key` is present.
    pub fn contains_key(&self, key: &str) -> (b: bool)
        ensures
            b == self@.contains_key(key@),
    {
        proof {
            use_type_invariant(self);
        }
        let r = self.position(key);
        proof {
            if let Some(i) = r {
                lemma_pairs_map_at(self.pairs@, i as int);
            }
        }
        r.is_some()
    }

    /// The value for `key`.
    pub fn get(&self, key: &str) -> (r: Option<&V>)
        ensures
            r matches Some(v) ==> self@.contains_key(key@) && *v == self@[key@],
            r is None ==> !self@.contains_key(key@),
    {
        proof {
            use_type_invariant(self);
        }
        match self.position(key) {
            Some(i) => {
                proof {
                    lemma_pairs_map_at(self.pairs@, i as int);
                }
                Some(&self.pairs[i].1)
            },
            None => None,
        }
    }

    /// The value for `key`, to be changed in place; the map then holds
    /// what the caller leaves there.
    pub fn get_mut(&mut self, key: &str) -> (r: Option<&mut V>)
        ensures
            r is None ==> !old(self)@.contains_key(key@) && final(self)@ == old(self)@,
            r matches Some(v) ==> old(self)@.contains_key(key@) && *v == old(self)@[key@] && final(self)@
                == old(self)@.insert(key@, *final(v)),
    {
        proof {
            use_type_invariant(&*self);
        }
        match self.position(key) {
            Some(i) => {
                proof {
                    lemma_pairs_map_at(self.pairs@, i as int);
                    lemma_pairs_map_set_value(self.pairs@, i as int);
                }
                Some(value_at_mut(&mut self.pairs, i))
            },
            None => None,
        }
    }

    /// The pair at position `i`.
    pub fn entry_at(&self, i: usize) -> (r: (&String, &V))
        requires
            i < self.pairs_spec().len(),
        ensures
            *r.0 == self.pairs_spec()[i as int].0,
            *r.1 == self.pairs_spec()[i as int].1,
            self@.contains_key(r.0@),
            self@[r.0@] == *r.1,
    {
        proof {
            use_type_invariant(self);
            lemma_pairs_map_at(self.pairs@, i as int);
        }
        (&self.pairs[i].0, &self.pairs[i].1)
    }

    /// Sets the value for `key`, returning the value it replaced.
    pub fn insert(&mut self, key: String, value: V) -> (r: Option<V>)
        ensures
            final(self)@ == old(self)@.insert(key@, value),
            r matches Some(v) ==> old(self)@.contains_key(key@) && v == old(self)@[key@],
            r is None ==> !old(self)@.contains_key(key@),
    {
        proof {
            use_type_invariant(&*self);
        }
        let ghost old_pairs = self.pairs@;
        let mut pairs = Vec::new();
        std::mem::swap(&mut pairs, &mut self.pairs);
        let r = match self.position_in(&pairs, key.as_str()) {
            Some(i) => {
                let ghost k = key@;
                let (_, old_v) = pairs.remove(i);
                pairs.insert(i, (key, value));
                proof {
                    lemma_pairs_map_at(old_pairs, i as int);
                    let s = pairs@;
                    assert(s =~= old_pairs.update(i as int, s[i as int]));
                    assert(distinct_text_keys(s)) by {
                        assert forall|a: int, b: int| 0 <= a < b < s.len() implies s[a].0@ != s[b].0@ by {
                            if a != i && b != i {
                                assert(s[a] == old_pairs[a] && s[b] == old_pairs[b]);
                            } else if a == i {
                                assert(old_pairs[a].0@ != old_pairs[b].0@);
                            } else {
                                assert(old_pairs[a].0@ != old_pairs[b].0@);
                            }
                        }
                    }
                    let m = pairs_map(old_pairs).insert(k, value);
                    assert forall|j: int| 0 <= j < s.len() implies m.contains_key(#[trigger] s[j].0@)
                        && m[s[j].0@] == s[j].1 by {
                        if j != i {
                            lemma_pairs_map_at(old_pairs, j);
                            assert(old_pairs[j].0@ != old_pairs[i as int].0@);
                        }
                    }
                    assert forall|kk: Seq<char>| m.contains_key(kk) implies has_text_key(s, kk) by {
                        if kk == k {
                            assert(s[i as int].0@ == kk);
                        } else {
                            let j = choose|j: int| 0 <= j < old_pairs.len() && #[trigger] old_pairs[j].0@ == kk;
                            assert(s[j].0@ == kk);
                        }
                    }
                    lemma_pairs_map_ext(s, m);
                }
                Some(old_v)
            },
            None => {
                let ghost k = key@;
                pairs.push((key, value));
                proof {
                    let s = pairs@;
                    assert(distinct_text_keys(s)) by {
                        assert forall|a: int, b: int| 0 <= a < b < s.len() implies s[a].0@ != s[b].0@ by {
                            if b == s.len() - 1 {
                                assert(s[a] == old_pairs[a]);
                            } else {
                                assert(s[a] == old_pairs[a] && s[b] == old_pairs[b]);
                            }
                        }
                    }
                    let m = pairs_map(old_pairs).insert(k, value);
                    assert forall|j: int| 0 <= j < s.len() implies m.contains_key(#[trigger] s[j].0@)
                        && m[s[j].0@] == s[j].1 by {
                        if j < old_pairs.len() {
                            assert(s[j] == old_pairs[j]);
                            lemma_pairs_map_at(old_pairs, j);
                        }
                    }
                    assert forall|kk: Seq<char>| m.contains_key(kk) implies has_text_key(s, kk) by {
                        if kk == k {
                            assert(s[s.len() - 1].0@ == kk);
                        } else {
                            let j = choose|j: int| 0 <= j < old_pairs.len() && #[trigger] old_pairs[j].0@ == kk;
                            assert(s[j].0@ == kk);
                        }
                    }
                    lemma_pairs_map_ext(s, m);
                }
                None
            },
        };
        self.pairs = pairs;
        r
    }

    /// The position of the pair for `key` in `pairs`.
    fn position_in(&self, pairs: &Vec<(String, V)>, key: &str) -> (r: Option<usize>)
        ensures
            r matches Some(i) ==> i < pairs@.len() && pairs@[i as int].0@ == key@,
            r is None ==> !has_text_key(pairs@, key@),
    {
        let mut i: usize = 0;
        while i < pairs.len()
            invariant
                i <= pairs@.len(),
                forall|j: int| 0 <= j < i ==> pairs@[j].0@ != key@,
            decreases pairs@.len() - i,
        {
            let k = chars_of(pairs[i].0.as_str());
            if crate::text::range_is(&k, 0, k.len(), key) {
                assert(k@.subrange(0, k@.len() as int) =~= k@);
                return Some(i);
            }
            assert(k@.subrange(0, k@.len() as int) =~= k@);
            i += 1;
        }
        None
    }

    /// Removes `key`, returning its value.
    pub fn remove(&mut self, key: &str) -> (r: Option<V>)
        ensures
            final(self)@ == old(self)@.remove(key@),
            r matches Some(v) ==> old(self)@.contains_key(key@) && v == old(self)@[key@],
            r is None ==> !old(self)@.contains_key(key@),
    {
        proof {
            use_type_invariant(&*self);
        }
        let ghost old_pairs = self.pairs@;
        let mut pairs = Vec::new();
        std::mem::swap(&mut pairs, &mut self.pairs);
        let r = match self.position_in(&pairs, key) {
            Some(i) => {
                let (_, v) = pairs.remove(i);
                proof {
                    lemma_pairs_map_at(old_pairs, i as int);
                    let s = pairs@;
                    assert(s =~= old_pairs.remove(i as int));
                    assert forall|a: int, b: int| 0 <= a < b < s.len() implies s[a].0@ != s[b].0@ by {
                        let a2 = if a < i { a } else { a + 1 };
                        let b2 = if b < i { b } else { b + 1 };
                        assert(s[a] == old_pairs[a2] && s[b] == old_pairs[b2]);
                    }
                    let m = pairs_map(old_pairs).remove(key@);
                    assert forall|j: int| 0 <= j < s.len() implies m.contains_key(#[trigger] s[j].0@)
                        && m[s[j].0@] == s[j].1 by {
                        let j2 = if j < i { j } else { j + 1 };
                        assert(s[j] == old_pairs[j2]);
                        lemma_pairs_map_at(old_pairs, j2);
                        if j2 < i {
                            assert(old_pairs[j2].0@ != old_pairs[i as int].0@);
                        } else {
                            assert(old_pairs[i as int].0@ != old_pairs[j2].0@);
                        }
                    }
                    assert forall|kk: Seq<char>| m.contains_key(kk) implies has_text_key(s, kk) by {
                        let j = choose|j: int| 0 <= j < old_pairs.len() && #[trigger] old_pairs[j].0@ == kk;
                        if j < i {
                            assert(s[j].0@ == kk);
                        } else {
                            assert(j != i);
                            assert(s[j - 1].0@ == kk);
                        }
                    }
                    lemma_pairs_map_ext(s, m);
                }
                Some(v)
            },
            None => {
                proof {
                    assert(pairs_map(old_pairs).remove(key@) =~= pairs_map(old_pairs));
                }
                None
            },
        };
        self.pairs = pairs;
        r
    }

    /// With distinct keys, the stored pairs spell out the map.
    pub proof fn lemma_stored(&self)
        requires
            self.keys_distinct(),
        ensures
            distinct_text_keys(self.pairs_spec()),
            self@ == pairs_map(self.pairs_spec()),
    {
    }

    /// The keys of the map are the keys of the stored pairs.
    pub proof fn lemma_keys(&self)
        ensures
            forall|k: Seq<char>| #[trigger] self@.contains_key(k) <==> has_text_key(self.pairs_spec(), k),
    {
    }

    /// Removes every key.
    pub fn clear(&mut self)
        ensures
            final(self)@ == Map::<Seq<char>, V>::empty(),
            final(self).pairs_spec().len() == 0,
    {
        self.pairs = Vec::new();
        assert(self@ =~= Map::<Seq<char>, V>::empty());
    }
}

impl StrMap<String> {
    /// A copy of the map, pair for pair.
    pub fn copy(&self) -> (r: Self)
        ensures
            r@ == self@,
            r.pairs_spec() == self.pairs_spec(),
    {
        proof {
            use_type_invariant(self);
        }
        let mut pairs: Vec<(String, String)> = Vec::new();
        let mut i: usize = 0;
        while i < self.pairs.len()
            invariant
                i <= self.pairs@.len(),
                pairs@ == self.pairs@.take(i as int),
            decreases self.pairs@.len() - i,
        {
            let k = self.pairs[i].0.clone();
            let v = self.pairs[i].1.clone();
            pairs.push((k, v));
            proof {
                assert(self.pairs@.take(i + 1) =~= self.pairs@.take(i as int).push(self.pairs@[i as int]));
            }
            i += 1;
        }
        proof {
            assert(self.pairs@.take(self.pairs@.len() as int) =~= self.pairs@);
        }
        StrMap { pairs }
    }
}

/// The map of a pair list with distinct keys has one key per pair.
pub proof fn lemma_pairs_map_finite<V>(s: Seq<(String, V)>)
    requires
        distinct_text_keys(s),
    ensures
        pairs_map(s).dom().finite(),
        pairs_map(s).len() == s.len(),
    decreases s.len(),
{
    if s.len() == 0 {
        assert(pairs_map(s).dom() =~= Set::<Seq<char>>::empty());
    } else {
        let d = s.drop_last();
        assert(distinct_text_keys(d));
        lemma_pairs_map_finite(d);
        let k = s.last().0@;
        assert(!has_text_key(d, k)) by {
            if has_text_key(d, k) {
                let j = choose|j: int| 0 <= j < d.len() && #[trigger] d[j].0@ == k;
                assert(s[j].0@ != s[s.len() - 1].0@);
            }
        }
        assert(pairs_map(s).dom() =~= pairs_map(d).dom().insert(k)) by {
            assert forall|x: Seq<char>| pairs_map(s).dom().contains(x) <==> pairs_map(
                d,
            ).dom().insert(k).contains(x) by {
                if has_text_key(s, x) && x != k {
                    let j = choose|j: int| 0 <= j < s.len() && #[trigger] s[j].0@ == x;
                    assert(d[j].0@ == x);
                }
                if has_text_key(d, x) {
                    let j = choose|j: int| 0 <= j < d.len() && #[trigger] d[j].0@ == x;
                    assert(s[j].0@ == x);
                }
                if x == k {
                    assert(s[s.len() - 1].0@ == x);
                }
            }
        }
    }
}

} // verus!
