//! A map from strings to values that keeps its keys in ascending byte order
//! and holds each key once.

use vstd::prelude::*;
use vstd::utf8::encode_utf8;
use crate::text::lemma_utf8_injective;

verus! {

/// How one byte string stands to another in lexicographic order.
#[derive(Clone, Copy, Debug, PartialEq, Eq, Structural)]
pub enum Order {
    Before,
    Same,
    After,
}

/// Whether `a` and `b` agree on their first `k` bytes and `a` is the smaller
/// from there: it ends at `k` while `b` goes on, or holds the smaller byte.
pub open spec fn parts_at(a: Seq<u8>, b: Seq<u8>, k: int) -> bool {
    &&& 0 <= k <= a.len()
    &&& k < b.len()
    &&& forall|j: int| 0 <= j < k ==> a[j] == b[j]
    &&& (k == a.len() || a[k] < b[k])
}

/// Whether `a` comes before `b` in lexicographic byte order.
pub open spec fn bytes_lt(a: Seq<u8>, b: Seq<u8>) -> bool {
    exists|k: int| parts_at(a, b, k)
}

/// Whether the string `a` sorts before the string `b`.
pub open spec fn text_lt(a: Seq<char>, b: Seq<char>) -> bool {
    bytes_lt(encode_utf8(a), encode_utf8(b))
}

/// No byte string comes before itself.
pub proof fn lemma_bytes_lt_irreflexive(a: Seq<u8>)
    ensures
        !bytes_lt(a, a),
{
}

/// The byte order is transitive.
pub proof fn lemma_bytes_lt_transitive(a: Seq<u8>, b: Seq<u8>, c: Seq<u8>)
    requires
        bytes_lt(a, b),
        bytes_lt(b, c),
    ensures
        bytes_lt(a, c),
{
    let k1 = choose|k: int| parts_at(a, b, k);
    let k2 = choose|k: int| parts_at(b, c, k);
    if k1 <= k2 {
        assert(parts_at(a, c, k1));
    } else {
        assert(parts_at(a, c, k2));
    }
}

/// Of two byte strings, at most one comes before the other.
pub proof fn lemma_bytes_lt_asymmetric(a: Seq<u8>, b: Seq<u8>)
    requires
        bytes_lt(a, b),
    ensures
        !bytes_lt(b, a),
{
    if bytes_lt(b, a) {
        lemma_bytes_lt_transitive(a, b, a);
    }
}

/// Compares two byte strings lexicographically.
pub fn compare_bytes(a: &[u8], b: &[u8]) -> (order: Order)
    ensures
        order == Order::Before <==> bytes_lt(a@, b@),
        order == Order::Same <==> a@ == b@,
        order == Order::After <==> bytes_lt(b@, a@),
{
    let mut i: usize = 0;
    while i < a.len() && i < b.len()
        invariant
            i <= a@.len(),
            i <= b@.len(),
            forall|j: int| 0 <= j < i ==> a@[j] == b@[j],
        decreases a@.len() - i,
    {
        if a[i] < b[i] {
            proof {
                assert(parts_at(a@, b@, i as int));
                lemma_bytes_lt_asymmetric(a@, b@);
            }
            return Order::Before;
        }
        if a[i] > b[i] {
            proof {
                assert(parts_at(b@, a@, i as int));
                lemma_bytes_lt_asymmetric(b@, a@);
            }
            return Order::After;
        }
        i += 1;
    }
    if i < b.len() {
        proof {
            assert(parts_at(a@, b@, i as int));
            lemma_bytes_lt_asymmetric(a@, b@);
        }
        Order::Before
    } else if i < a.len() {
        proof {
            assert(parts_at(b@, a@, i as int));
            lemma_bytes_lt_asymmetric(b@, a@);
        }
        Order::After
    } else {
        proof {
            assert(a@ =~= b@);
            lemma_bytes_lt_irreflexive(a@);
        }
        Order::Same
    }
}

/// Compares two strings by their bytes.
pub fn compare_text(a: &str, b: &str) -> (order: Order)
    ensures
        order == Order::Before <==> text_lt(a@, b@),
        order == Order::Same <==> a@ == b@,
        order == Order::After <==> text_lt(b@, a@),
{
    let order = compare_bytes(a.as_bytes(), b.as_bytes());
    proof {
        if order == Order::Same {
            lemma_utf8_injective(a@, b@);
        }
    }
    order
}

/// Whether the keys ascend strictly.
pub open spec fn ascending(keys: Seq<Seq<char>>) -> bool {
    forall|i: int, j: int| 0 <= i < j < keys.len() ==> text_lt(#[trigger] keys[i], #[trigger] keys[j])
}

/// A map from strings to values, kept in ascending key order.
#[derive(Clone, Debug, PartialEq)]
pub struct TextMap<V> {
    names: Vec<String>,
    items: Vec<V>,
}

impl<V> TextMap<V> {
    /// The keys, in the order in which the map holds them.
    pub closed spec fn keys(&self) -> Seq<Seq<char>> {
        Seq::new(self.names@.len(), |i: int| self.names@[i]@)
    }

    /// The values, each at the position of its key.
    pub closed spec fn values(&self) -> Seq<V> {
        self.items@
    }

    /// The map's invariant: one value for each key, and the keys ascend strictly.
    pub open spec fn wf(&self) -> bool {
        &&& self.keys().len() == self.values().len()
        &&& ascending(self.keys())
    }

    /// The map as a mathematical map.
    pub open spec fn view(&self) -> Map<Seq<char>, V> {
        Map::new(
            |k: Seq<char>| self.keys().contains(k),
            |k: Seq<char>| self.values()[self.keys().index_of(k)],
        )
    }

    /// In a well-formed map each key stands at one position only, and the map
    /// gives it the value at that position.
    pub proof fn lemma_entry(&self, i: int)
        requires
            self.wf(),
            0 <= i < self.keys().len(),
        ensures
            self@.contains_key(self.keys()[i]),
            self@[self.keys()[i]] == self.values()[i],
            self.keys().index_of(self.keys()[i]) == i,
    {
        let k = self.keys()[i];
        assert(self.keys().contains(k));
        let j = self.keys().index_of(k);
        assert(0 <= j < self.keys().len() && self.keys()[j] == k);
        if j < i {
            assert(text_lt(self.keys()[j], self.keys()[i]));
            lemma_bytes_lt_irreflexive(encode_utf8(k));
        } else if i < j {
            assert(text_lt(self.keys()[i], self.keys()[j]));
            lemma_bytes_lt_irreflexive(encode_utf8(k));
        }
    }

    /// An empty map.
    pub fn new() -> (map: Self)
        ensures
            map.wf(),
            map.keys() == Seq::<Seq<char>>::empty(),
            map.values() == Seq::<V>::empty(),
            map@ == Map::<Seq<char>, V>::empty(),
    {
        let map = TextMap { names: Vec::new(), items: Vec::new() };
        assert(map.keys() =~= Seq::<Seq<char>>::empty());
        assert(map@ =~= Map::<Seq<char>, V>::empty());
        map
    }

    /// The number of keys.
    pub fn len(&self) -> (n: usize)
        requires
            self.wf(),
        ensures
            n == self.keys().len(),
            n == self.values().len(),
    {
        self.names.len()
    }

    /// The key at position `i`.
    pub fn key_at(&self, i: usize) -> (key: &String)
        requires
            self.wf(),
            i < self.keys().len(),
        ensures
            key@ == self.keys()[i as int],
    {
        &self.names[i]
    }

    /// The value at position `i`.
    pub fn value_at(&self, i: usize) -> (value: &V)
        requires
            self.wf(),
            i < self.keys().len(),
        ensures
            *value == self.values()[i as int],
    {
        &self.items[i]
    }

    /// The position of `key`, if the map holds it.
    pub fn position(&self, key: &str) -> (found: Option<usize>)
        requires
            self.wf(),
        ensures
            found is Some <==> self@.contains_key(key@),
            found is Some ==> found->Some_0 < self.keys().len() && self.keys()[found->Some_0 as int]
                == key@,
    {
        let mut i: usize = 0;
        while i < self.names.len()
            invariant
                i <= self.names@.len(),
                self.keys().len() == self.names@.len(),
                forall|j: int| 0 <= j < i ==> self.keys()[j] != key@,
            decreases self.names@.len() - i,
        {
            let order = compare_text(self.names[i].as_str(), key);
            if order == Order::Same {
                assert(self.keys()[i as int] == key@);
                assert(self.keys().contains(key@));
                return Some(i);
            }
            i += 1;
        }
        assert(!self.keys().contains(key@));
        None
    }

    /// The value of `key`, if the map holds it.
    pub fn get(&self, key: &str) -> (value: Option<&V>)
        requires
            self.wf(),
        ensures
            value is Some <==> self@.contains_key(key@),
            value is Some ==> *value->Some_0 == self@[key@],
    {
        match self.position(key) {
            Some(i) => {
                proof {
                    self.lemma_entry(i as int);
                }
                Some(&self.items[i])
            },
            None => None,
        }
    }

    /// Whether the map holds `key`.
    pub fn contains_key(&self, key: &str) -> (held: bool)
        requires
            self.wf(),
        ensures
            held == self@.contains_key(key@),
    {
        self.position(key).is_some()
    }

    /// Gives `key` the value `value`: in place of the one it had, or else as a
    /// new entry at the key's place in the order.
    pub fn insert(&mut self, key: String, value: V)
        requires
            old(self).wf(),
        ensures
            final(self).wf(),
            final(self)@ == old(self)@.insert(key@, value),
            old(self)@.contains_key(key@) ==> final(self).keys() == old(self).keys(),
            !old(self)@.contains_key(key@) ==> final(self).keys().len() == old(self).keys().len()
                + 1,
    {
        let mut i: usize = 0;
        let mut placed: bool = false;
        while i < self.names.len() && !placed
            invariant
                *self == *old(self),
                self.wf(),
                i <= self.names@.len(),
                self.keys().len() == self.names@.len(),
                forall|j: int| 0 <= j < i ==> text_lt(#[trigger] self.keys()[j], key@),
                placed ==> i < self.names@.len() && text_lt(key@, self.keys()[i as int]),
            decreases self.names@.len() - i + if placed { 0int } else { 1int },
        {
            let order = compare_text(key.as_str(), self.names[i].as_str());
            if order == Order::Same {
                self.items[i] = value;
                proof {
                    assert(self.keys() =~= old(self).keys());
                    old(self).lemma_entry(i as int);
                    assert(self.values() =~= old(self).values().update(i as int, value));
                    assert forall|k: Seq<char>| #[trigger] self@.contains_key(k) implies self@[k]
                        == old(self)@.insert(key@, value)[k] by {
                        let p = self.keys().index_of(k);
                        assert(self.keys().contains(k));
                        assert(0 <= p < self.keys().len() && self.keys()[p] == k);
                    }
                    assert(self@ =~= old(self)@.insert(key@, value));
                }
                return ;
            }
            if order == Order::Before {
                placed = true;
            } else {
                i += 1;
            }
        }
        let ghost before = *self;
        let ghost name = key@;
        self.names.insert(i, key);
        self.items.insert(i, value);
        proof {
            let at = i as int;
            assert(self.keys() =~= before.keys().insert(at, name));
            assert(self.values() =~= before.values().insert(at, value));
            assert forall|j: int| at <= j < before.keys().len() implies text_lt(
                name,
                #[trigger] before.keys()[j],
            ) by {
                if j > at {
                    assert(text_lt(before.keys()[at], before.keys()[j]));
                    lemma_bytes_lt_transitive(
                        encode_utf8(name),
                        encode_utf8(before.keys()[at]),
                        encode_utf8(before.keys()[j]),
                    );
                }
            }
            assert(!before.keys().contains(name)) by {
                if before.keys().contains(name) {
                    let p = before.keys().index_of(name);
                    assert(0 <= p < before.keys().len() && before.keys()[p] == name);
                    lemma_bytes_lt_irreflexive(encode_utf8(name));
                }
            }
            assert(ascending(self.keys())) by {
                assert forall|x: int, y: int| 0 <= x < y < self.keys().len() implies text_lt(
                    #[trigger] self.keys()[x],
                    #[trigger] self.keys()[y],
                ) by {
                    let px = if x < at { x } else { x - 1 };
                    let py = if y < at { y } else { y - 1 };
                    if x == at {
                        assert(self.keys()[y] == before.keys()[py]);
                    } else if y == at {
                        assert(self.keys()[x] == before.keys()[px]);
                    } else {
                        assert(self.keys()[x] == before.keys()[px]);
                        assert(self.keys()[y] == before.keys()[py]);
                        assert(text_lt(before.keys()[px], before.keys()[py]));
                    }
                }
            }
            assert(self.keys()[at] == name);
            assert forall|k: Seq<char>| self@.contains_key(k) == before@.insert(
                name,
                value,
            ).contains_key(k) by {
                if self.keys().contains(k) {
                    let p = self.keys().index_of(k);
                    assert(0 <= p < self.keys().len() && self.keys()[p] == k);
                    if p != at {
                        let q = if p < at { p } else { p - 1 };
                        assert(before.keys()[q] == k);
                        assert(before.keys().contains(k));
                    }
                }
                if before.keys().contains(k) {
                    let q = before.keys().index_of(k);
                    assert(0 <= q < before.keys().len() && before.keys()[q] == k);
                    let p = if q < at { q } else { q + 1 };
                    assert(self.keys()[p] == k);
                }
            }
            assert forall|k: Seq<char>| #[trigger] self@.contains_key(k) implies self@[k]
                == before@.insert(name, value)[k] by {
                let p = self.keys().index_of(k);
                assert(self.keys().contains(k));
                assert(0 <= p < self.keys().len() && self.keys()[p] == k);
                self.lemma_entry(p);
                if p != at {
                    let q = if p < at { p } else { p - 1 };
                    assert(before.keys()[q] == k);
                    before.lemma_entry(q);
                }
            }
            assert(self@ =~= before@.insert(name, value));
        }
    }
}

} // verus!
