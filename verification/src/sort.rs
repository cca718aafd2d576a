//! Stable sorting by a key, as `sort_by` sorts, and removal of repeated
//! neighbours, as `dedup` removes them.
use vstd::prelude::*;
use crate::text::{seq_lt, str_lt};

verus! {

/// A value with a sort key: `key_lt` is the strict order of the keys.
pub trait SortKey {
    spec fn key_lt(&self, other: &Self) -> bool;

    fn key_before(&self, other: &Self) -> (r: bool)
        ensures
            r == self.key_lt(other),
    ;
}

impl SortKey for String {
    open spec fn key_lt(&self, other: &Self) -> bool {
        seq_lt(self@, other@)
    }

    fn key_before(&self, other: &Self) -> (r: bool) {
        str_lt(self.as_str(), other.as_str())
    }
}

/// `x` put into `s` before the first element whose key exceeds its own.
pub open spec fn insert_by_key<T: SortKey>(s: Seq<T>, x: T) -> Seq<T>
    decreases s.len(),
{
    if s.len() == 0 {
        seq![x]
    } else if x.key_lt(&s[0]) {
        seq![x] + s
    } else {
        seq![s[0]] + insert_by_key(s.drop_first(), x)
    }
}

/// `s` stably sorted by key: each element, in order, put after every
/// element placed before it whose key does not exceed its own.
pub open spec fn sort_by_key<T: SortKey>(s: Seq<T>) -> Seq<T>
    decreases s.len(),
{
    if s.len() == 0 {
        s
    } else {
        insert_by_key(sort_by_key(s.drop_last()), s.last())
    }
}

/// Inserting before index `j`, the first whose key exceeds that of `x`.
proof fn lemma_insert_at<T: SortKey>(s: Seq<T>, x: T, j: int)
    requires
        0 <= j <= s.len(),
        forall|k: int| 0 <= k < j ==> !x.key_lt(&s[k]),
        j < s.len() ==> x.key_lt(&s[j]),
    ensures
        insert_by_key(s, x) == s.take(j).push(x) + s.skip(j),
    decreases s.len(),
{
    if s.len() == 0 {
        assert(s.take(j).push(x) + s.skip(j) =~= seq![x]);
    } else if j == 0 {
        assert(s.take(j).push(x) + s.skip(j) =~= seq![x] + s);
    } else {
        let t = s.drop_first();
        assert forall|k: int| 0 <= k < j - 1 implies !x.key_lt(&t[k]) by {
            assert(t[k] == s[k + 1]);
        }
        lemma_insert_at(t, x, j - 1);
        assert(seq![s[0]] + (t.take(j - 1).push(x) + t.skip(j - 1)) =~= s.take(j).push(x)
            + s.skip(j));
    }
}

/// The length and elements of an insertion.
proof fn lemma_insert_multiset<T: SortKey>(s: Seq<T>, x: T)
    ensures
        insert_by_key(s, x).to_multiset() == s.to_multiset().insert(x),
        insert_by_key(s, x).len() == s.len() + 1,
    decreases s.len(),
{
    broadcast use vstd::seq_lib::group_to_multiset_ensures;
    if s.len() == 0 {
        assert(seq![x] =~= Seq::<T>::empty().push(x));
    } else if x.key_lt(&s[0]) {
        assert(seq![x] + s =~= s.insert(0, x));
        vstd::seq_lib::to_multiset_insert(s, 0, x);
    } else {
        let t = s.drop_first();
        lemma_insert_multiset(t, x);
        let r = insert_by_key(t, x);
        assert(seq![s[0]] + r =~= r.insert(0, s[0]));
        vstd::seq_lib::to_multiset_insert(r, 0, s[0]);
        assert(s =~= t.insert(0, s[0]));
        vstd::seq_lib::to_multiset_insert(t, 0, s[0]);
        assert(t.to_multiset().insert(x).insert(s[0]) =~= t.to_multiset().insert(s[0]).insert(
            x,
        ));
    }
}

/// Sorting keeps the elements: the result is a permutation of the input.
pub proof fn lemma_sort_permutes<T: SortKey>(s: Seq<T>)
    ensures
        sort_by_key(s).to_multiset() == s.to_multiset(),
        sort_by_key(s).len() == s.len(),
    decreases s.len(),
{
    broadcast use vstd::seq_lib::group_to_multiset_ensures;
    if s.len() > 0 {
        lemma_sort_permutes(s.drop_last());
        lemma_insert_multiset(sort_by_key(s.drop_last()), s.last());
        assert(s =~= s.drop_last().push(s.last()));
    }
}

/// `x` put into the views `s` before the first view it precedes in `lt`.
pub open spec fn insert_view_by<V>(s: Seq<V>, x: V, lt: spec_fn(V, V) -> bool) -> Seq<V>
    decreases s.len(),
{
    if s.len() == 0 {
        seq![x]
    } else if lt(x, s[0]) {
        seq![x] + s
    } else {
        seq![s[0]] + insert_view_by(s.drop_first(), x, lt)
    }
}

/// The views `s` stably sorted by the strict order `lt`.
pub open spec fn sort_view_by<V>(s: Seq<V>, lt: spec_fn(V, V) -> bool) -> Seq<V>
    decreases s.len(),
{
    if s.len() == 0 {
        s
    } else {
        insert_view_by(sort_view_by(s.drop_last(), lt), s.last(), lt)
    }
}

proof fn lemma_insert_view_multiset<V>(s: Seq<V>, x: V, lt: spec_fn(V, V) -> bool)
    ensures
        insert_view_by(s, x, lt).to_multiset() == s.to_multiset().insert(x),
        insert_view_by(s, x, lt).len() == s.len() + 1,
    decreases s.len(),
{
    broadcast use vstd::seq_lib::group_to_multiset_ensures;
    if s.len() == 0 {
        assert(seq![x] =~= Seq::<V>::empty().push(x));
    } else if lt(x, s[0]) {
        assert(seq![x] + s =~= s.insert(0, x));
        vstd::seq_lib::to_multiset_insert(s, 0, x);
    } else {
        let t = s.drop_first();
        lemma_insert_view_multiset(t, x, lt);
        let r = insert_view_by(t, x, lt);
        assert(seq![s[0]] + r =~= r.insert(0, s[0]));
        vstd::seq_lib::to_multiset_insert(r, 0, s[0]);
        assert(s =~= t.insert(0, s[0]));
        vstd::seq_lib::to_multiset_insert(t, 0, s[0]);
        assert(t.to_multiset().insert(x).insert(s[0]) =~= t.to_multiset().insert(s[0]).insert(
            x,
        ));
    }
}

/// Sorting views keeps them: the result is a permutation of the input.
pub proof fn lemma_sort_view_permutes<V>(s: Seq<V>, lt: spec_fn(V, V) -> bool)
    ensures
        sort_view_by(s, lt).to_multiset() == s.to_multiset(),
        sort_view_by(s, lt).len() == s.len(),
        forall|x: V| sort_view_by(s, lt).contains(x) <==> s.contains(x),
    decreases s.len(),
{
    broadcast use vstd::seq_lib::group_to_multiset_ensures;
    if s.len() > 0 {
        lemma_sort_view_permutes(s.drop_last(), lt);
        lemma_insert_view_multiset(sort_view_by(s.drop_last(), lt), s.last(), lt);
        assert(s =~= s.drop_last().push(s.last()));
    }
    assert forall|x: V| sort_view_by(s, lt).contains(x) <==> s.contains(x) by {
        vstd::seq_lib::to_multiset_contains(s, x);
        vstd::seq_lib::to_multiset_contains(sort_view_by(s, lt), x);
    }
}

/// The views `s` sorted by the key `key` in the order of `str`.
pub open spec fn key_lt_by<V>(key: spec_fn(V) -> Seq<char>) -> spec_fn(V, V) -> bool {
    |a: V, b: V| seq_lt(key(a), key(b))
}

/// `s` is sorted by `key`: no element's key precedes that of an earlier one.
pub open spec fn sorted_by<V>(s: Seq<V>, key: spec_fn(V) -> Seq<char>) -> bool {
    forall|i: int, j: int| 0 <= i < j < s.len() ==> !seq_lt(#[trigger] key(s[j]), #[trigger] key(s[i]))
}

proof fn lemma_insert_sorted<V>(s: Seq<V>, x: V, key: spec_fn(V) -> Seq<char>)
    requires
        sorted_by(s, key),
    ensures
        sorted_by(insert_view_by(s, x, key_lt_by(key)), key),
    decreases s.len(),
{
    let lt = key_lt_by(key);
    if s.len() == 0 {
    } else if lt(x, s[0]) {
        let r = seq![x] + s;
        assert forall|i: int, j: int| 0 <= i < j < r.len() implies !seq_lt(
            #[trigger] key(r[j]),
            #[trigger] key(r[i]),
        ) by {
            if i == 0 {
                assert(r[j] == s[j - 1]);
                if j - 1 > 0 {
                    assert(!seq_lt(key(s[j - 1]), key(s[0])));
                    crate::text::lemma_seq_lt_total(key(s[j - 1]), key(s[0]));
                    if key(s[j - 1]) != key(s[0]) {
                        crate::text::lemma_seq_lt_trans(key(x), key(s[0]), key(s[j - 1]));
                    }
                }
                crate::text::lemma_seq_lt_total(key(x), key(s[j - 1]));
            } else {
                assert(r[i] == s[i - 1] && r[j] == s[j - 1]);
            }
        }
    } else {
        let t = s.drop_first();
        assert(sorted_by(t, key)) by {
            assert forall|i: int, j: int| 0 <= i < j < t.len() implies !seq_lt(
                #[trigger] key(t[j]),
                #[trigger] key(t[i]),
            ) by {
                assert(t[i] == s[i + 1] && t[j] == s[j + 1]);
            }
        }
        lemma_insert_sorted(t, x, key);
        let it = insert_view_by(t, x, lt);
        lemma_insert_view_multiset(t, x, lt);
        let r = seq![s[0]] + it;
        assert forall|i: int, j: int| 0 <= i < j < r.len() implies !seq_lt(
            #[trigger] key(r[j]),
            #[trigger] key(r[i]),
        ) by {
            if i == 0 {
                assert(r[j] == it[j - 1]);
                // it[j - 1] is x or an element of t
                broadcast use vstd::seq_lib::group_to_multiset_ensures;
                assert(it.to_multiset().count(it[j - 1]) > 0);
                if it[j - 1] == x {
                    crate::text::lemma_seq_lt_total(key(s[0]), key(x));
                } else {
                    assert(t.to_multiset().count(it[j - 1]) > 0);
                    assert(t.contains(it[j - 1]));
                    let k = choose|k: int| 0 <= k < t.len() && t[k] == it[j - 1];
                    assert(s[k + 1] == it[j - 1]);
                }
            } else {
                assert(r[i] == it[i - 1] && r[j] == it[j - 1]);
            }
        }
    }
}

/// Sorting by a key gives a sequence sorted by that key.
pub proof fn lemma_sort_sorted<V>(s: Seq<V>, key: spec_fn(V) -> Seq<char>)
    ensures
        sorted_by(sort_view_by(s, key_lt_by(key)), key),
    decreases s.len(),
{
    if s.len() > 0 {
        lemma_sort_sorted(s.drop_last(), key);
        lemma_insert_sorted(sort_view_by(s.drop_last(), key_lt_by(key)), s.last(), key);
    }
}

/// The order of `str` on texts.
pub open spec fn text_lt() -> spec_fn(Seq<char>, Seq<char>) -> bool {
    |a: Seq<char>, b: Seq<char>| seq_lt(a, b)
}

/// The texts `s` stably sorted in the order of `str`.
pub open spec fn sort_texts(s: Seq<Seq<char>>) -> Seq<Seq<char>> {
    sort_view_by(s, text_lt())
}

/// The views of a sequence of values.
pub open spec fn views_of<T: DeepView>(s: Seq<T>) -> Seq<T::V> {
    s.map_values(|t: T| t.deep_view())
}

/// The texts of a sequence of keys.
pub open spec fn key_texts<T: DeepView<V = Seq<char>>>(s: Seq<T>) -> Seq<Seq<char>> {
    views_of(s)
}

proof fn lemma_insert_views<T: SortKey + DeepView>(s: Seq<T>, x: T, lt: spec_fn(T::V, T::V) -> bool)
    requires
        forall|a: T, b: T| #[trigger] a.key_lt(&b) == lt(a.deep_view(), b.deep_view()),
    ensures
        views_of(insert_by_key(s, x)) == insert_view_by(views_of(s), x.deep_view(), lt),
    decreases s.len(),
{
    if s.len() == 0 {
        assert(views_of(seq![x]) =~= seq![x.deep_view()]);
    } else if x.key_lt(&s[0]) {
        assert(views_of(seq![x] + s) =~= seq![x.deep_view()] + views_of(s));
    } else {
        lemma_insert_views(s.drop_first(), x, lt);
        assert(views_of(s).drop_first() =~= views_of(s.drop_first()));
        assert(views_of(seq![s[0]] + insert_by_key(s.drop_first(), x)) =~= seq![
            s[0].deep_view(),
        ] + views_of(insert_by_key(s.drop_first(), x)));
    }
}

/// Sorting values by a key whose order is `lt` on their views sorts their
/// views by `lt`.
pub proof fn lemma_sort_views<T: SortKey + DeepView>(s: Seq<T>, lt: spec_fn(T::V, T::V) -> bool)
    requires
        forall|a: T, b: T| #[trigger] a.key_lt(&b) == lt(a.deep_view(), b.deep_view()),
    ensures
        views_of(sort_by_key(s)) == sort_view_by(views_of(s), lt),
    decreases s.len(),
{
    if s.len() > 0 {
        lemma_sort_views(s.drop_last(), lt);
        lemma_insert_views(sort_by_key(s.drop_last()), s.last(), lt);
        assert(views_of(s).drop_last() =~= views_of(s.drop_last()));
    }
}

/// Sorting keys whose order is that of their texts sorts their texts.
pub proof fn lemma_sort_texts<T: SortKey + DeepView<V = Seq<char>>>(s: Seq<T>)
    requires
        forall|a: T, b: T| #[trigger] a.key_lt(&b) == seq_lt(a.deep_view(), b.deep_view()),
    ensures
        key_texts(sort_by_key(s)) == sort_texts(key_texts(s)),
{
    assert forall|a: T, b: T| #[trigger] a.key_lt(&b) == text_lt()(a.deep_view(), b.deep_view()) by {
    }
    lemma_sort_views(s, text_lt());
}

/// `v` stably sorted by key.
pub fn stable_sort<T: SortKey>(v: Vec<T>) -> (r: Vec<T>)
    ensures
        r@ == sort_by_key(v@),
{
    let ghost orig = v@;
    let mut rest = v;
    let mut res: Vec<T> = Vec::new();
    let mut k: usize = 0;
    let n = rest.len();
    assert(orig.take(0) =~= Seq::<T>::empty());
    assert(orig.skip(0) =~= orig);
    while k < n
        invariant
            n == orig.len(),
            0 <= k <= n,
            rest@ == orig.skip(k as int),
            res@ == sort_by_key(orig.take(k as int)),
        decreases n - k,
    {
        let x = rest.remove(0);
        assert(x == orig[k as int]);
        let mut j: usize = 0;
        while j < res.len() && !x.key_before(&res[j])
            invariant
                0 <= j <= res@.len(),
                forall|i: int| 0 <= i < j ==> !x.key_lt(&res@[i]),
            decreases res@.len() - j,
        {
            j = j + 1;
        }
        proof {
            lemma_insert_at(res@, x, j as int);
            assert(orig.take(k + 1).drop_last() =~= orig.take(k as int));
            assert(orig.take(k + 1).last() == x);
            assert(rest@ =~= orig.skip(k + 1));
        }
        let ghost prev = res@;
        res.insert(j, x);
        assert(res@ =~= prev.take(j as int).push(x) + prev.skip(j as int));
        k = k + 1;
    }
    assert(orig.take(n as int) =~= orig);
    res
}

/// `s` without elements equal to the one before them, as `dedup` leaves it.
pub open spec fn dedup_seq<V>(s: Seq<V>) -> Seq<V>
    decreases s.len(),
{
    if s.len() <= 1 {
        s
    } else if s.last() == s[s.len() - 2] {
        dedup_seq(s.drop_last())
    } else {
        dedup_seq(s.drop_last()).push(s.last())
    }
}

/// `v` without texts equal to the one before them.
pub fn dedup_texts(v: Vec<String>) -> (r: Vec<String>)
    ensures
        r.deep_view() == dedup_seq(v.deep_view()),
{
    let ghost s = v.deep_view();
    let mut r: Vec<String> = Vec::new();
    let mut i: usize = 0;
    assert(s.take(0) =~= Seq::<Seq<char>>::empty());
    while i < v.len()
        invariant
            s == v.deep_view(),
            0 <= i <= s.len(),
            r.deep_view() == dedup_seq(s.take(i as int)),
        decreases s.len() - i,
    {
        assert(s.take(i + 1).drop_last() =~= s.take(i as int));
        assert(s[i as int] == v@[i as int]@);
        if i > 0 && crate::text::str_eq(v[i].as_str(), v[i - 1].as_str()) {
            assert(s.take(i + 1)[i - 1] == s[i - 1]);
        } else {
            let ghost prev = r.deep_view();
            let c = v[i].clone();
            r.push(c);
            assert(r.deep_view() =~= prev.push(c@));
            if i > 0 {
                assert(s.take(i + 1)[i - 1] == s[i - 1]);
            } else {
                assert(s.take(1) =~= seq![s[0]]);
                assert(prev =~= Seq::<Seq<char>>::empty());
            }
        }
        i = i + 1;
    }
    assert(s.take(s.len() as int) =~= s);
    r
}

proof fn lemma_dedup_basics<V>(s: Seq<V>)
    ensures
        s.len() > 0 ==> dedup_seq(s).len() > 0 && dedup_seq(s).last() == s.last(),
        forall|i: int| 0 <= i < dedup_seq(s).len() ==> s.contains(#[trigger] dedup_seq(s)[i]),
    decreases s.len(),
{
    if s.len() > 1 {
        lemma_dedup_basics(s.drop_last());
        let d = dedup_seq(s.drop_last());
        assert forall|i: int| 0 <= i < dedup_seq(s).len() implies s.contains(
            #[trigger] dedup_seq(s)[i],
        ) by {
            if i < d.len() {
                assert(dedup_seq(s)[i] == d[i]);
                assert(s.drop_last().contains(d[i]));
                let k = choose|k: int| 0 <= k < s.drop_last().len() && s.drop_last()[k] == d[i];
                assert(s[k] == d[i]);
            } else {
                assert(dedup_seq(s)[i] == s.last());
                assert(s[s.len() - 1] == s.last());
            }
        }
        if s.last() == s[s.len() - 2] {
            assert(d.last() == s.drop_last().last());
        }
    } else if s.len() == 1 {
        assert(s[0] == s.last());
    }
}

/// Removing the repeats of a sorted sequence of texts leaves a strictly
/// sorted one.
pub proof fn lemma_dedup_sorted(s: Seq<Seq<char>>)
    requires
        forall|i: int, j: int| 0 <= i < j < s.len() ==> !seq_lt(#[trigger] s[j], #[trigger] s[i]),
    ensures
        crate::ordered_map::strictly_sorted(dedup_seq(s)),
    decreases s.len(),
{
    if s.len() > 1 {
        let t = s.drop_last();
        assert forall|i: int, j: int| 0 <= i < j < t.len() implies !seq_lt(
            #[trigger] t[j],
            #[trigger] t[i],
        ) by {
            assert(t[i] == s[i] && t[j] == s[j]);
        }
        lemma_dedup_sorted(t);
        lemma_dedup_basics(t);
        let d = dedup_seq(t);
        if s.last() != s[s.len() - 2] {
            let r = d.push(s.last());
            assert(!seq_lt(s[s.len() - 1], s[s.len() - 2]));
            crate::text::lemma_seq_lt_total(s[s.len() - 2], s.last());
            assert forall|i: int, j: int| 0 <= i < j < r.len() implies seq_lt(
                #[trigger] r[i],
                #[trigger] r[j],
            ) by {
                if j < d.len() {
                    assert(r[i] == d[i] && r[j] == d[j]);
                } else {
                    assert(r[j] == s.last());
                    assert(r[i] == d[i]);
                    assert(t.contains(d[i]));
                    let k = choose|k: int| 0 <= k < t.len() && t[k] == d[i];
                    if k == t.len() - 1 {
                        assert(d[i] == s[s.len() - 2]);
                    } else {
                        assert(!seq_lt(s[s.len() - 2], s[k]));
                        assert(s[k] == d[i]);
                        crate::text::lemma_seq_lt_total(s[k], s[s.len() - 2]);
                        if s[k] != s[s.len() - 2] {
                            crate::text::lemma_seq_lt_trans(s[k], s[s.len() - 2], s.last());
                        }
                    }
                }
            }
        }
    }
}

/// Removing repeats keeps every element.
pub proof fn lemma_dedup_keeps<V>(s: Seq<V>)
    ensures
        forall|x: V| dedup_seq(s).contains(x) <==> s.contains(x),
    decreases s.len(),
{
    lemma_dedup_basics(s);
    if s.len() > 1 {
        lemma_dedup_keeps(s.drop_last());
        lemma_dedup_basics(s.drop_last());
        let d = dedup_seq(s.drop_last());
        assert forall|x: V| s.contains(x) implies dedup_seq(s).contains(x) by {
            let k = choose|k: int| 0 <= k < s.len() && s[k] == x;
            if k == s.len() - 1 {
                if s.last() == s[s.len() - 2] {
                    assert(d.last() == s[s.len() - 2]);
                    assert(dedup_seq(s)[d.len() - 1] == x);
                } else {
                    assert(dedup_seq(s)[d.len() as int] == x);
                }
            } else {
                assert(s.drop_last()[k] == x);
                assert(s.drop_last().contains(x));
                assert(d.contains(x));
                let j = choose|j: int| 0 <= j < d.len() && d[j] == x;
                assert(dedup_seq(s)[j] == x);
            }
        }
        assert forall|x: V| dedup_seq(s).contains(x) implies s.contains(x) by {
            let j = choose|j: int| 0 <= j < dedup_seq(s).len() && dedup_seq(s)[j] == x;
            assert(s.contains(dedup_seq(s)[j]));
        }
    } else if s.len() == 1 {
        assert(dedup_seq(s) == s);
    } else {
        assert(dedup_seq(s) == s);
    }
}

/// `lt` is a strict order: asymmetric and transitive.
pub open spec fn strict_order<V>(lt: spec_fn(V, V) -> bool) -> bool {
    &&& forall|a: V, b: V| #[trigger] lt(a, b) ==> !lt(b, a)
    &&& forall|a: V, b: V, c: V| #[trigger] lt(a, b) && #[trigger] lt(b, c) ==> lt(a, c)
}

/// No element of `s` precedes an earlier one in `lt`.
pub open spec fn ordered_by<V>(s: Seq<V>, lt: spec_fn(V, V) -> bool) -> bool {
    forall|i: int, j: int| 0 <= i < j < s.len() ==> !lt(#[trigger] s[j], #[trigger] s[i])
}

proof fn lemma_insert_ordered<V>(s: Seq<V>, x: V, lt: spec_fn(V, V) -> bool)
    requires
        strict_order(lt),
        ordered_by(s, lt),
    ensures
        ordered_by(insert_view_by(s, x, lt), lt),
    decreases s.len(),
{
    if s.len() == 0 {
    } else if lt(x, s[0]) {
        let r = seq![x] + s;
        assert forall|i: int, j: int| 0 <= i < j < r.len() implies !lt(#[trigger] r[j], #[trigger] r[i]) by {
            if i == 0 {
                assert(r[j] == s[j - 1]);
                if lt(s[j - 1], x) {
                    assert(lt(s[j - 1], s[0]));
                    if j - 1 == 0 {
                        assert(!lt(s[0], s[0]));
                    } else {
                        assert(!lt(s[j - 1], s[0]));
                    }
                }
            } else {
                assert(r[i] == s[i - 1] && r[j] == s[j - 1]);
            }
        }
    } else {
        let t = s.drop_first();
        assert forall|i: int, j: int| 0 <= i < j < t.len() implies !lt(#[trigger] t[j], #[trigger] t[i]) by {
            assert(t[i] == s[i + 1] && t[j] == s[j + 1]);
        }
        lemma_insert_ordered(t, x, lt);
        let it = insert_view_by(t, x, lt);
        lemma_insert_view_multiset(t, x, lt);
        let r = seq![s[0]] + it;
        assert forall|i: int, j: int| 0 <= i < j < r.len() implies !lt(#[trigger] r[j], #[trigger] r[i]) by {
            if i == 0 {
                assert(r[j] == it[j - 1]);
                broadcast use vstd::seq_lib::group_to_multiset_ensures;
                assert(it.to_multiset().count(it[j - 1]) > 0);
                if it[j - 1] != x {
                    assert(t.to_multiset().count(it[j - 1]) > 0);
                    assert(t.contains(it[j - 1]));
                    let k = choose|k: int| 0 <= k < t.len() && t[k] == it[j - 1];
                    assert(s[k + 1] == it[j - 1]);
                }
            } else {
                assert(r[i] == it[i - 1] && r[j] == it[j - 1]);
            }
        }
    }
}

/// Sorting by a strict order gives a sequence ordered by it.
pub proof fn lemma_sort_ordered<V>(s: Seq<V>, lt: spec_fn(V, V) -> bool)
    requires
        strict_order(lt),
    ensures
        ordered_by(sort_view_by(s, lt), lt),
    decreases s.len(),
{
    if s.len() > 0 {
        lemma_sort_ordered(s.drop_last(), lt);
        lemma_insert_ordered(sort_view_by(s.drop_last(), lt), s.last(), lt);
    }
}

/// Removing repeats keeps a sequence ordered, and leaves no element equal
/// to the next.
pub proof fn lemma_dedup_ordered<V>(s: Seq<V>, lt: spec_fn(V, V) -> bool)
    requires
        ordered_by(s, lt),
    ensures
        ordered_by(dedup_seq(s), lt),
        forall|i: int| 0 <= i < dedup_seq(s).len() - 1 ==> #[trigger] dedup_seq(s)[i] != dedup_seq(s)[i + 1],
    decreases s.len(),
{
    if s.len() > 1 {
        let t = s.drop_last();
        assert forall|i: int, j: int| 0 <= i < j < t.len() implies !lt(#[trigger] t[j], #[trigger] t[i]) by {
            assert(t[i] == s[i] && t[j] == s[j]);
        }
        lemma_dedup_ordered(t, lt);
        lemma_dedup_basics(t);
        let d = dedup_seq(t);
        if s.last() != s[s.len() - 2] {
            let r = d.push(s.last());
            assert forall|i: int, j: int| 0 <= i < j < r.len() implies !lt(#[trigger] r[j], #[trigger] r[i]) by {
                if j < d.len() {
                    assert(r[i] == d[i] && r[j] == d[j]);
                } else {
                    assert(r[i] == d[i]);
                    assert(t.contains(d[i]));
                    let k = choose|k: int| 0 <= k < t.len() && t[k] == d[i];
                    assert(s[k] == d[i]);
                    assert(r[j] == s[s.len() - 1]);
                }
            }
            assert forall|i: int| 0 <= i < r.len() - 1 implies #[trigger] r[i] != r[i + 1] by {
                if i + 1 < d.len() {
                    assert(r[i] == d[i] && r[i + 1] == d[i + 1]);
                } else {
                    assert(r[i] == d.last());
                    assert(d.last() == t.last());
                }
            }
        }
    }
}

} // verus!
