//! A map keyed by text, its keys kept in the order of `str`, as the flat
//! indexes of the workspace map are.
use vstd::prelude::*;
use crate::text::{seq_lt, str_eq, str_lt, lemma_seq_lt_irreflexive, lemma_seq_lt_total,
    lemma_seq_lt_trans};

verus! {

/// A value that stands for a text: a key of an [`OrderedMap`].
pub trait TextKey {
    spec fn text(&self) -> Seq<char>;

    fn as_text(&self) -> (r: &str)
        ensures
            r@ == self.text(),
    ;
}

impl TextKey for str {
    open spec fn text(&self) -> Seq<char> {
        self@
    }

    fn as_text(&self) -> (r: &str) {
        self
    }
}

impl TextKey for String {
    open spec fn text(&self) -> Seq<char> {
        self@
    }

    fn as_text(&self) -> (r: &str) {
        self.as_str()
    }
}

/// The texts of `ks`, in order.
pub open spec fn texts_of<K: TextKey>(ks: Seq<K>) -> Seq<Seq<char>> {
    ks.map_values(|k: K| k.text())
}

/// Each text of `ts` precedes the next in the order of `str`.
pub open spec fn strictly_sorted(ts: Seq<Seq<char>>) -> bool {
    forall|i: int, j: int| 0 <= i < j < ts.len() ==> seq_lt(#[trigger] ts[i], #[trigger] ts[j])
}

/// The texts of the finite set `s` in increasing order.
pub open spec fn sorted_seq_of(s: Set<Seq<char>>) -> Seq<Seq<char>> {
    choose|q: Seq<Seq<char>>| strictly_sorted(q) && q.to_set() == s
}

/// A strictly sorted sequence does not hold its first text again.
proof fn lemma_sorted_first_not_in_rest(a: Seq<Seq<char>>)
    requires
        strictly_sorted(a),
        a.len() > 0,
    ensures
        !a.drop_first().contains(a[0]),
        strictly_sorted(a.drop_first()),
        a.drop_first().to_set() == a.to_set().remove(a[0]),
{
    let r = a.drop_first();
    if r.contains(a[0]) {
        let j = choose|j: int| 0 <= j < r.len() && r[j] == a[0];
        assert(seq_lt(a[0], a[j + 1]));
        lemma_seq_lt_irreflexive(a[0]);
    }
    assert forall|i: int, j: int| 0 <= i < j < r.len() implies seq_lt(
        #[trigger] r[i],
        #[trigger] r[j],
    ) by {
        assert(seq_lt(a[i + 1], a[j + 1]));
    }
    assert forall|t: Seq<char>| #[trigger] r.to_set().contains(t) == a.to_set().remove(
        a[0],
    ).contains(t) by {
        if a.to_set().remove(a[0]).contains(t) {
            let k = choose|k: int| 0 <= k < a.len() && a[k] == t;
            assert(k != 0);
            assert(r[k - 1] == t);
        }
        if r.to_set().contains(t) {
            let k = choose|k: int| 0 <= k < r.len() && r[k] == t;
            assert(a[k + 1] == t);
        }
    }
    assert(r.to_set() =~= a.to_set().remove(a[0]));
}

/// Two strictly sorted sequences of the same texts are the same sequence.
pub proof fn lemma_sorted_unique(a: Seq<Seq<char>>, b: Seq<Seq<char>>)
    requires
        strictly_sorted(a),
        strictly_sorted(b),
        a.to_set() == b.to_set(),
    ensures
        a == b,
    decreases a.len(),
{
    if a.len() == 0 {
        if b.len() > 0 {
            assert(b.to_set().contains(b[0]));
        }
        assert(a =~= b);
    } else {
        assert(a.to_set().contains(a[0]));
        assert(b.len() > 0);
        assert(b.to_set().contains(b[0]));
        let j = choose|j: int| 0 <= j < b.len() && b[j] == a[0];
        let k = choose|k: int| 0 <= k < a.len() && a[k] == b[0];
        if a[0] != b[0] {
            assert(j > 0 && k > 0);
            assert(seq_lt(b[0], b[j]));
            assert(seq_lt(a[0], a[k]));
            lemma_seq_lt_total(a[0], b[0]);
        }
        lemma_sorted_first_not_in_rest(a);
        lemma_sorted_first_not_in_rest(b);
        lemma_sorted_unique(a.drop_first(), b.drop_first());
        assert(a =~= seq![a[0]] + a.drop_first());
        assert(b =~= seq![b[0]] + b.drop_first());
    }
}

/// A map from texts to values. Its keys are kept strictly increasing in the
/// order of `str`, so that it is walked in the order of a `BTreeMap`.
#[derive(Debug)]
pub struct OrderedMap<K: TextKey, V: DeepView> {
    keys: Vec<K>,
    vals: Vec<V>,
}

impl<K: TextKey, V: DeepView> OrderedMap<K, V> {
    /// The texts of the keys, in increasing order.
    pub closed spec fn texts(self) -> Seq<Seq<char>> {
        texts_of(self.keys@)
    }

    /// The keys, in increasing order.
    pub closed spec fn key_seq(self) -> Seq<K> {
        self.keys@
    }

    /// The values, in the order of their keys.
    pub closed spec fn value_seq(self) -> Seq<V> {
        self.vals@
    }

    /// The keys and values line up and the keys strictly increase.
    #[verifier::type_invariant]
    pub closed spec fn wf(self) -> bool {
        &&& self.keys@.len() == self.vals@.len()
        &&& strictly_sorted(self.texts())
    }

    /// The map from each key's text to its value.
    pub closed spec fn view(self) -> Map<Seq<char>, V::V> {
        Map::new(
            |t: Seq<char>| self.texts().contains(t),
            |t: Seq<char>| self.vals@[self.texts().index_of(t)].deep_view(),
        )
    }

    /// What the map holds at index `i`, seen through its view.
    pub proof fn lemma_at(self, i: int)
        requires
            self.wf(),
            0 <= i < self.texts().len(),
        ensures
            self@.contains_key(self.texts()[i]),
            self@[self.texts()[i]] == self.value_seq()[i].deep_view(),
            self.texts()[i] == self.key_seq()[i].text(),
            self.texts().len() == self.key_seq().len(),
            self.texts().len() == self.value_seq().len(),
    {
        let t = self.texts()[i];
        assert(self.texts().contains(t));
        let j = self.texts().index_of(t);
        if j != i {
            if j < i {
                assert(seq_lt(self.texts()[j], self.texts()[i]));
            } else {
                assert(seq_lt(self.texts()[i], self.texts()[j]));
            }
            lemma_seq_lt_irreflexive(t);
        }
    }

    /// The keys are the texts of the view's domain in increasing order.
    pub proof fn lemma_texts_sorted(self)
        requires
            self.wf(),
        ensures
            self.texts() == sorted_seq_of(self@.dom()),
    {
        assert(self.texts().to_set() =~= self@.dom());
        let q = sorted_seq_of(self@.dom());
        assert(strictly_sorted(q) && q.to_set() == self@.dom());
        lemma_sorted_unique(self.texts(), q);
    }

    /// Different indexes hold different keys.
    pub proof fn lemma_distinct(self, i: int, j: int)
        requires
            self.wf(),
            0 <= i < self.texts().len(),
            0 <= j < self.texts().len(),
            i != j,
        ensures
            self.texts()[i] != self.texts()[j],
    {
        if i < j {
            assert(seq_lt(self.texts()[i], self.texts()[j]));
        } else {
            assert(seq_lt(self.texts()[j], self.texts()[i]));
        }
        lemma_seq_lt_irreflexive(self.texts()[i]);
    }

    /// A text is a key exactly when it is the text of some index.
    pub proof fn lemma_contains(self, t: Seq<char>)
        requires
            self.wf(),
        ensures
            self@.contains_key(t) <==> exists|i: int|
                0 <= i < self.texts().len() && #[trigger] self.texts()[i] == t,
    {
    }

    /// The number of keys is the size of the view's domain.
    pub proof fn lemma_len(self)
        requires
            self.wf(),
        ensures
            self@.dom().finite(),
            self@.dom().len() == self.texts().len(),
    {
        assert(self.texts().no_duplicates()) by {
            assert forall|i: int, j: int|
                0 <= i < self.texts().len() && 0 <= j < self.texts().len() && i != j implies
                self.texts()[i] != self.texts()[j] by {
                if i < j {
                    assert(seq_lt(self.texts()[i], self.texts()[j]));
                } else {
                    assert(seq_lt(self.texts()[j], self.texts()[i]));
                }
                lemma_seq_lt_irreflexive(self.texts()[i]);
            }
        }
        assert(self@.dom() =~= self.texts().to_set());
        self.texts().unique_seq_to_set();
    }

    /// An empty map.
    pub fn new() -> (r: Self)
        ensures
            r.wf(),
            r@ == Map::<Seq<char>, V::V>::empty(),
            r.texts().len() == 0,
    {
        let r = OrderedMap { keys: Vec::new(), vals: Vec::new() };
        assert(texts_of(r.keys@) =~= Seq::<Seq<char>>::empty());
        assert(r@ =~= Map::<Seq<char>, V::V>::empty());
        r
    }

    /// The number of keys.
    pub fn len(&self) -> (r: usize)
        ensures
            r == self.texts().len(),
            r == self@.dom().len(),
    {
        proof {
            use_type_invariant(self);
            self.lemma_len();
        }
        self.keys.len()
    }

    /// Whether the map has no key.
    pub fn is_empty(&self) -> (r: bool)
        ensures
            r == (self@.dom().len() == 0),
    {
        proof {
            use_type_invariant(self);
            self.lemma_len();
        }
        self.keys.len() == 0
    }

    /// The index of the key whose text is that of `key`, if any.
    pub fn position<Q: TextKey + ?Sized>(&self, key: &Q) -> (r: Option<usize>)
        ensures
            r is None <==> !self@.contains_key(key.text()),
            r matches Some(i) ==> i < self.texts().len() && self.texts()[i as int] == key.text(),
    {
        proof {
            use_type_invariant(self);
        }
        let k = key.as_text();
        let mut i: usize = 0;
        while i < self.keys.len()
            invariant
                self.wf(),
                k@ == key.text(),
                0 <= i <= self.keys@.len(),
                forall|j: int| 0 <= j < i ==> self.texts()[j] != key.text(),
            decreases self.keys@.len() - i,
        {
            if str_eq(self.keys[i].as_text(), k) {
                assert(self.texts()[i as int] == key.text());
                assert(self.texts().contains(key.text()));
                return Some(i);
            }
            i = i + 1;
        }
        None
    }

    /// Whether some key has the text of `key`.
    pub fn contains_key<Q: TextKey + ?Sized>(&self, key: &Q) -> (r: bool)
        ensures
            r == self@.contains_key(key.text()),
    {
        self.position(key).is_some()
    }

    /// The value of the key whose text is that of `key`, if any.
    pub fn get<Q: TextKey + ?Sized>(&self, key: &Q) -> (r: Option<&V>)
        ensures
            r is Some <==> self@.contains_key(key.text()),
            r matches Some(v) ==> v.deep_view() == self@[key.text()],
    {
        proof {
            use_type_invariant(self);
        }
        match self.position(key) {
            Some(i) => {
                proof {
                    self.lemma_at(i as int);
                }
                Some(&self.vals[i])
            },
            None => None,
        }
    }

    /// The key at index `i`.
    pub fn key_at(&self, i: usize) -> (r: &K)
        requires
            i < self.texts().len(),
        ensures
            *r == self.key_seq()[i as int],
            r.text() == self.texts()[i as int],
    {
        proof {
            use_type_invariant(self);
        }
        &self.keys[i]
    }

    /// The value at index `i`.
    pub fn value_at(&self, i: usize) -> (r: &V)
        requires
            i < self.texts().len(),
        ensures
            *r == self.value_seq()[i as int],
            r.deep_view() == self@[self.texts()[i as int]],
    {
        proof {
            use_type_invariant(self);
            self.lemma_at(i as int);
        }
        &self.vals[i]
    }

    /// The values, in the order of their keys.
    pub fn values(&self) -> (r: &Vec<V>)
        ensures
            r@ == self.value_seq(),
    {
        &self.vals
    }

    /// Replaces the value at index `i` by `v`.
    pub fn set_value_at(&mut self, i: usize, v: V)
        requires
            i < old(self).texts().len(),
        ensures
            final(self).texts() == old(self).texts(),
            final(self).key_seq() == old(self).key_seq(),
            final(self).value_seq() == old(self).value_seq().update(i as int, v),
            final(self)@ == old(self)@.insert(old(self).texts()[i as int], v.deep_view()),
    {
        proof {
            use_type_invariant(&*self);
        }
        let ghost old_self = *self;
        let ghost vd = v.deep_view();
        let mut tmp = OrderedMap::new();
        std::mem::swap(self, &mut tmp);
        let OrderedMap { keys, mut vals } = tmp;
        vals.set(i, v);
        *self = OrderedMap { keys, vals };
        proof {
            use_type_invariant(&*self);
            old_self.lemma_at(i as int);
            assert(self.texts() == old_self.texts());
            assert forall|t: Seq<char>| #[trigger] self@.contains_key(t) implies self@[t]
                == old_self@.insert(old_self.texts()[i as int], vd)[t] by {
                let j = self.texts().index_of(t);
                self.lemma_at(j);
                old_self.lemma_at(j);
                if j != i {
                    if j < i {
                        assert(seq_lt(self.texts()[j], self.texts()[i as int]));
                    } else {
                        assert(seq_lt(self.texts()[i as int], self.texts()[j]));
                    }
                    lemma_seq_lt_irreflexive(t);
                }
            }
            assert(self@ =~= old_self@.insert(old_self.texts()[i as int], vd));
        }
    }

    /// Sets the value of `k` to `v`, as `BTreeMap::insert` does: a present
    /// key keeps its place and takes the new value; a new key goes to its
    /// place in the order.
    pub fn insert(&mut self, k: K, v: V)
        ensures
            final(self)@ == old(self)@.insert(k.text(), v.deep_view()),
    {
        proof {
            use_type_invariant(&*self);
        }
        let ghost old_self = *self;
        let ghost kt = k.text();
        let ghost vd = v.deep_view();
        let kstr = k.as_text();
        let mut i: usize = 0;
        while i < self.keys.len() && str_lt(self.keys[i].as_text(), kstr)
            invariant
                *self == old_self,
                self.wf(),
                kstr@ == kt,
                0 <= i <= self.keys@.len(),
                forall|j: int| 0 <= j < i ==> seq_lt(#[trigger] self.texts()[j], kt),
            decreases self.keys@.len() - i,
        {
            i = i + 1;
        }
        if i < self.keys.len() && str_eq(self.keys[i].as_text(), kstr) {
            self.set_value_at(i, v);
            return;
        }
        proof {
            if i < self.keys@.len() {
                lemma_seq_lt_total(self.texts()[i as int], kt);
            }
        }
        let mut tmp = OrderedMap::new();
        std::mem::swap(self, &mut tmp);
        let OrderedMap { mut keys, mut vals } = tmp;
        keys.insert(i, k);
        vals.insert(i, v);
        let ghost nt = texts_of(keys@);
        proof {
            let ot = old_self.texts();
            assert(nt =~= ot.take(i as int).push(kt) + ot.skip(i as int));
            assert forall|a: int, b: int| 0 <= a < b < nt.len() implies seq_lt(
                #[trigger] nt[a],
                #[trigger] nt[b],
            ) by {
                if b < i {
                } else if a < i && b == i {
                } else if a < i && b > i {
                    assert(nt[b] == ot[b - 1]);
                    assert(seq_lt(ot[i as int], ot[b - 1]) || i == b - 1);
                    lemma_seq_lt_trans(nt[a], kt, ot[i as int]);
                    if i != b - 1 {
                        lemma_seq_lt_trans(nt[a], ot[i as int], ot[b - 1]);
                    }
                } else if a == i {
                    assert(nt[b] == ot[b - 1]);
                    if i != b - 1 {
                        lemma_seq_lt_trans(kt, ot[i as int], ot[b - 1]);
                    }
                } else {
                    assert(nt[a] == ot[a - 1]);
                    assert(nt[b] == ot[b - 1]);
                }
            }
        }
        *self = OrderedMap { keys, vals };
        proof {
            use_type_invariant(&*self);
            let ot = old_self.texts();
            assert forall|t: Seq<char>| #[trigger] self@.contains_key(t) == old_self@.insert(
                kt,
                vd,
            ).contains_key(t) by {
                if self@.contains_key(t) {
                    let j = choose|j: int| 0 <= j < nt.len() && nt[j] == t;
                    if j < i {
                        assert(ot[j] == t);
                    } else if j > i {
                        assert(ot[j - 1] == t);
                    }
                }
                if old_self@.contains_key(t) && t != kt {
                    let j = choose|j: int| 0 <= j < ot.len() && ot[j] == t;
                    if j < i {
                        assert(nt[j] == t);
                    } else {
                        assert(nt[j + 1] == t);
                    }
                }
                if t == kt {
                    assert(nt[i as int] == t);
                }
            }
            assert forall|t: Seq<char>| #[trigger] self@.contains_key(t) implies self@[t]
                == old_self@.insert(kt, vd)[t] by {
                let j = self.texts().index_of(t);
                self.lemma_at(j);
                if j < i {
                    old_self.lemma_at(j);
                    lemma_seq_lt_irreflexive(kt);
                } else if j > i {
                    old_self.lemma_at(j - 1);
                    assert(nt[i as int] == kt);
                    assert(seq_lt(nt[i as int], nt[j]));
                    lemma_seq_lt_irreflexive(kt);
                }
            }
            assert(self@ =~= old_self@.insert(kt, vd));
        }
    }
}

} // verus!
